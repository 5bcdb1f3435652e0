//! The orchestrator: composes the subsampling selector with an optional
//! lossless comparison and returns the chosen output bytes.
//!
//! The similarity baseline is computed once before any encoding work; the
//! best lossy candidate is then compared against the lossless encoding, if
//! the format has one, purely by byte length: a strictly smaller lossless
//! buffer wins outright, since it has no distortion to trade off.

use vstd::prelude::*;

use crate::codec::ImageCodec;
use crate::select::{select_best, select_spec};
use crate::types::{ChromaSubsamplingPolicy, CompressError, SearchOutcome};

verus! {

/// The bytes a whole compression run returns, or the error that aborted
/// it: the baseline is computed first, then the selector runs, then a
/// lossless buffer strictly smaller than the best lossy one wins.
pub open spec fn compress_spec<C: ImageCodec>(
    codec: C,
    use_lossless: bool,
    target: u64,
    min_quality: u8,
    max_quality: u8,
    policy: ChromaSubsamplingPolicy,
) -> Result<Seq<u8>, CompressError> {
    if !codec.baseline_ok() {
        Err(CompressError::Baseline)
    } else {
        match select_spec(codec, target, min_quality, max_quality, policy) {
            Err(e) => Err(e),
            Ok(selected) => {
                let lossy = match selected {
                    Option::Some(p) => p.1,
                    Option::None => Seq::empty(),
                };
                if use_lossless {
                    if !codec.lossless_ok() {
                        Err(CompressError::Encode)
                    } else if codec.lossless_encoded().len() < lossy.len() {
                        Ok(codec.lossless_encoded())
                    } else {
                        Ok(lossy)
                    }
                } else {
                    Ok(lossy)
                }
            },
        }
    }
}

/// Compresses the image to the byte buffer whose distortion is closest to
/// `target`, trying each subsampling mode the policy lists, and preferring
/// the lossless encoding when `use_lossless` is set and its buffer is
/// strictly smaller than the best lossy one.
pub fn compress<C: ImageCodec>(
    codec: &C,
    use_lossless: bool,
    target: u64,
    min_quality: u8,
    max_quality: u8,
    policy: ChromaSubsamplingPolicy,
) -> (r: Result<Vec<u8>, CompressError>)
    requires
        min_quality <= max_quality,
        max_quality <= 100,
    ensures
        match r {
            Ok(buffer) => compress_spec(
                *codec,
                use_lossless,
                target,
                min_quality,
                max_quality,
                policy,
            ) == Ok::<Seq<u8>, CompressError>(buffer@),
            Err(e) => compress_spec(*codec, use_lossless, target, min_quality, max_quality, policy)
                == Err::<Seq<u8>, CompressError>(e),
        },
        codec.baseline_ok() && use_lossless && codec.lossless_ok() && (select_spec(
            *codec,
            target,
            min_quality,
            max_quality,
            policy,
        ) matches Ok(s) && s matches Option::Some(p) && codec.lossless_encoded().len()
            < p.1.len()) ==> (r matches Ok(buffer) && buffer@ == codec.lossless_encoded()),
{
    if !codec.compute_baseline() {
        return Err(CompressError::Baseline);
    }
    let best = match select_best(codec, target, min_quality, max_quality, policy) {
        Err(e) => {
            return Err(e);
        },
        Ok(outcome) => outcome,
    };
    if use_lossless {
        let lossless = match codec.encode_lossless() {
            Err(e) => {
                return Err(e);
            },
            Ok(buffer) => buffer,
        };
        return Ok(final_choice(best, Option::Some(lossless)));
    }
    Ok(best.buffer)
}

/// The final acceptance decision: a lossless buffer wins only when it is
/// strictly smaller in bytes than the best lossy candidate — lossless is
/// judged purely on size, never on distortion distance.
pub fn final_choice(lossy: SearchOutcome, lossless: Option<Vec<u8>>) -> (r: Vec<u8>)
    ensures
        match lossless {
            Option::Some(b) => if b@.len() < lossy.buffer@.len() {
                r@ == b@
            } else {
                r@ == lossy.buffer@
            },
            Option::None => r@ == lossy.buffer@,
        },
{
    match lossless {
        Option::None => lossy.buffer,
        Option::Some(b) => {
            if b.len() < lossy.buffer.len() {
                b
            } else {
                lossy.buffer
            }
        },
    }
}

} // verus!
