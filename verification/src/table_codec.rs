//! A codec whose behaviour is read from tables: the distortion at each
//! quality level is looked up per subsampling mode, and the encoded bytes
//! name the mode and the quality that produced them.
//!
//! It stands in for a real encoder/comparator pair wherever one is not
//! wanted: calibration runs, exercising the search against a known
//! distortion curve, and injecting encoder, comparator or baseline
//! failures.

use vstd::prelude::*;

use crate::codec::ImageCodec;
use crate::types::{ChromaSubsampling, CompressError};

verus! {

/// A numeric tag for each subsampling mode, used as the first byte of the
/// bytes the table codec "encodes".
pub open spec fn mode_code(mode: ChromaSubsampling) -> u8 {
    match mode {
        ChromaSubsampling::Cs444 => 0,
        ChromaSubsampling::Cs422 => 1,
        ChromaSubsampling::Cs420 => 2,
    }
}

/// The numeric tag of a subsampling mode.
pub fn mode_tag(mode: ChromaSubsampling) -> (r: u8)
    ensures
        r == mode_code(mode),
{
    match mode {
        ChromaSubsampling::Cs444 => 0,
        ChromaSubsampling::Cs422 => 1,
        ChromaSubsampling::Cs420 => 2,
    }
}

/// A table-driven codec: one distortion value per quality level and mode,
/// with switches that make the baseline, the encoder, the comparator or
/// the lossless encoder fail.
pub struct TableCodec {
    /// Distortion at each quality for full chroma resolution; index q
    /// holds the score of quality q, so the table must cover 0 to 100.
    pub table_444: Vec<u64>,
    /// Distortion at each quality for 4:2:2.
    pub table_422: Vec<u64>,
    /// Distortion at each quality for 4:2:0.
    pub table_420: Vec<u64>,
    /// Whether the similarity baseline computation succeeds.
    pub baseline_works: bool,
    /// Whether the lossy encoder succeeds.
    pub encoder_works: bool,
    /// Whether the comparator succeeds.
    pub comparator_works: bool,
    /// Whether the lossless encoder succeeds.
    pub lossless_encoder_works: bool,
    /// The bytes the lossless encoder produces.
    pub lossless_bytes: Vec<u8>,
}

impl TableCodec {
    /// The table that scores the given mode.
    pub open spec fn table_for(&self, mode: ChromaSubsampling) -> Seq<u64> {
        match mode {
            ChromaSubsampling::Cs444 => self.table_444@,
            ChromaSubsampling::Cs422 => self.table_422@,
            ChromaSubsampling::Cs420 => self.table_420@,
        }
    }
}

impl ImageCodec for TableCodec {
    /// The baseline exists when its computation is switched on and every
    /// table covers the whole quality range.
    open spec fn baseline_ok(&self) -> bool {
        &&& self.baseline_works
        &&& self.table_444@.len() == 101
        &&& self.table_422@.len() == 101
        &&& self.table_420@.len() == 101
    }

    open spec fn encode_ok(&self, quality: u8, mode: ChromaSubsampling) -> bool {
        self.encoder_works
    }

    open spec fn compare_ok(&self, quality: u8, mode: ChromaSubsampling) -> bool {
        self.comparator_works
    }

    open spec fn distortion(&self, quality: u8, mode: ChromaSubsampling) -> u64 {
        self.table_for(mode)[quality as int]
    }

    open spec fn encoded(&self, quality: u8, mode: ChromaSubsampling) -> Seq<u8> {
        seq![mode_code(mode), quality]
    }

    open spec fn lossless_ok(&self) -> bool {
        self.lossless_encoder_works
    }

    open spec fn lossless_encoded(&self) -> Seq<u8> {
        self.lossless_bytes@
    }

    fn compute_baseline(&self) -> (r: bool) {
        self.baseline_works && self.table_444.len() == 101 && self.table_422.len() == 101
            && self.table_420.len() == 101
    }

    fn encode_and_compare(&self, quality: u8, mode: ChromaSubsampling) -> (r: Result<
        (u64, Vec<u8>),
        CompressError,
    >) {
        if !self.encoder_works {
            return Err(CompressError::Encode);
        }
        if !self.comparator_works {
            return Err(CompressError::Comparison);
        }
        let table = match mode {
            ChromaSubsampling::Cs444 => &self.table_444,
            ChromaSubsampling::Cs422 => &self.table_422,
            ChromaSubsampling::Cs420 => &self.table_420,
        };
        let score = table[quality as usize];
        let mut buffer: Vec<u8> = Vec::new();
        buffer.push(mode_tag(mode));
        buffer.push(quality);
        proof {
            assert(buffer@ =~= self.encoded(quality, mode));
        }
        Ok((score, buffer))
    }

    fn encode_lossless(&self) -> (r: Result<Vec<u8>, CompressError>) {
        if !self.lossless_encoder_works {
            return Err(CompressError::Encode);
        }
        let mut copy: Vec<u8> = Vec::new();
        let mut i: usize = 0;
        while i < self.lossless_bytes.len()
            invariant
                i <= self.lossless_bytes@.len(),
                copy@ == self.lossless_bytes@.take(i as int),
            decreases self.lossless_bytes@.len() - i,
        {
            copy.push(self.lossless_bytes[i]);
            proof {
                assert(copy@ =~= self.lossless_bytes@.take(i as int + 1));
            }
            i = i + 1;
        }
        proof {
            assert(copy@ =~= self.lossless_bytes@);
        }
        Ok(copy)
    }
}

} // verus!
