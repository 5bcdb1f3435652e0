//! Shared data types of the search: subsampling modes and policies, the
//! error taxonomy, and the outcome of one search.

use vstd::prelude::*;

verus! {

/// Chroma-subsampling variant of a lossy encoder.
#[derive(Clone, Copy, PartialEq, Eq, Structural, Debug)]
pub enum ChromaSubsampling {
    /// Full chroma resolution (4:4:4).
    Cs444,
    /// Chroma halved horizontally (4:2:2).
    Cs422,
    /// Chroma halved in both directions (4:2:0).
    Cs420,
}

/// How the selector enumerates subsampling modes.
#[derive(Clone, Copy, PartialEq, Eq, Structural, Debug)]
pub enum ChromaSubsamplingPolicy {
    /// Try full, half and quarter chroma resolution, keep the best.
    Automatic,
    /// Try exactly the given mode.
    Fixed(ChromaSubsampling),
    /// The format has no subsampling choice: full resolution only.
    Disabled,
}

/// Why a compression run failed. A single failure anywhere aborts the whole
/// run; nothing is retried.
#[derive(Clone, Copy, PartialEq, Eq, Structural, Debug)]
pub enum CompressError {
    /// The encoder rejected its inputs or failed internally.
    Encode,
    /// The comparator could not process an encoded candidate.
    Comparison,
    /// The similarity baseline could not be computed from the image.
    Baseline,
}

/// The best candidate one search produced: its distortion and the encoded
/// bytes that scored it.
#[derive(Debug)]
pub struct SearchOutcome {
    /// Distortion of `buffer` against the original, in the caller's units.
    pub distortion: u64,
    /// The encoded bytes.
    pub buffer: Vec<u8>,
}

/// Mathematical model of a `SearchOutcome`: the score and the bytes.
pub open spec fn outcome_model(o: SearchOutcome) -> (u64, Seq<u8>) {
    (o.distortion, o.buffer@)
}

/// Model of a best-so-far accumulator that may still be empty.
pub open spec fn best_model(o: Option<SearchOutcome>) -> Option<(u64, Seq<u8>)> {
    match o {
        Option::None => Option::None,
        Option::Some(s) => Option::Some(outcome_model(s)),
    }
}

/// Absolute difference of two integers.
pub open spec fn abs_diff(a: int, b: int) -> int {
    if a >= b {
        a - b
    } else {
        b - a
    }
}

/// Distance of a distortion score from the target.
pub fn distance_to_target(distortion: u64, target: u64) -> (r: u64)
    ensures
        r == abs_diff(distortion as int, target as int),
{
    if distortion >= target {
        distortion - target
    } else {
        target - distortion
    }
}

} // verus!
