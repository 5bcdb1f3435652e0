//! The collaborator interface: an image together with its lossy encoder,
//! its optional lossless encoder, and the perceptual-similarity comparator.
//!
//! An implementation stands for one compression run over one immutable
//! image. The spec functions give the mathematical account the search is
//! verified against: encoding and comparison are deterministic functions of
//! the quality level and the subsampling mode, as the encoders and the
//! comparator are required to be pure for fixed inputs.

use vstd::prelude::*;

use crate::types::{ChromaSubsampling, CompressError};

verus! {

/// One image with its encoders and comparator, ready for a quality search.
pub trait ImageCodec: Sized {
    /// Whether the similarity baseline can be computed from the image.
    spec fn baseline_ok(&self) -> bool;

    /// Whether the lossy encoder accepts this quality and mode.
    spec fn encode_ok(&self, quality: u8, mode: ChromaSubsampling) -> bool;

    /// Whether the comparator can process the buffer encoded at this
    /// quality and mode.
    spec fn compare_ok(&self, quality: u8, mode: ChromaSubsampling) -> bool;

    /// The distortion the comparator reports for the buffer encoded at
    /// this quality and mode: 0 means identical, larger means more
    /// different.
    spec fn distortion(&self, quality: u8, mode: ChromaSubsampling) -> u64;

    /// The bytes the lossy encoder produces at this quality and mode.
    spec fn encoded(&self, quality: u8, mode: ChromaSubsampling) -> Seq<u8>;

    /// Whether the lossless encoder succeeds on the image.
    spec fn lossless_ok(&self) -> bool;

    /// The bytes the lossless encoder produces.
    spec fn lossless_encoded(&self) -> Seq<u8>;

    /// Computes the similarity baseline once per run, reporting whether
    /// the precomputation succeeded.
    fn compute_baseline(&self) -> (r: bool)
        ensures
            r == self.baseline_ok(),
    ;

    /// Encodes the image at `quality` with `mode` and compares the result
    /// against the original, returning the distortion and the encoded
    /// bytes.
    fn encode_and_compare(&self, quality: u8, mode: ChromaSubsampling) -> (r: Result<
        (u64, Vec<u8>),
        CompressError,
    >)
        requires
            quality <= 100,
            self.baseline_ok(),
        ensures
            !self.encode_ok(quality, mode) ==> (r matches Err(e) && e == CompressError::Encode),
            self.encode_ok(quality, mode) && !self.compare_ok(quality, mode) ==> (r matches Err(e)
                && e == CompressError::Comparison),
            self.encode_ok(quality, mode) && self.compare_ok(quality, mode) ==> (r matches Ok(p)
                && p.0 == self.distortion(quality, mode) && p.1@ == self.encoded(quality, mode)),
    ;

    /// Encodes the image losslessly. The result has zero distortion by
    /// convention; it is never sent through the comparator.
    fn encode_lossless(&self) -> (r: Result<Vec<u8>, CompressError>)
        requires
            self.baseline_ok(),
        ensures
            self.lossless_ok() ==> (r matches Ok(b) && b@ == self.lossless_encoded()),
            !self.lossless_ok() ==> (r matches Err(e) && e == CompressError::Encode),
    ;
}

} // verus!
