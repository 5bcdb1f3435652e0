//! The subsampling selector: one quality search per candidate chroma mode,
//! keeping the overall closest-to-target result.
//!
//! Modes are tried in a fixed order with full chroma resolution first, so
//! that at equal distance to the target the higher-fidelity mode wins the
//! tie. One mode's failure aborts the whole selection; no partial results
//! are returned.

use vstd::prelude::*;

use crate::codec::ImageCodec;
use crate::search::{improves, search, search_spec};
use crate::types::{
    abs_diff, best_model, ChromaSubsampling, ChromaSubsamplingPolicy, CompressError, SearchOutcome,
};

verus! {

/// The ordered list of subsampling modes a policy expands to.
pub open spec fn modes_for(policy: ChromaSubsamplingPolicy) -> Seq<ChromaSubsampling> {
    match policy {
        ChromaSubsamplingPolicy::Automatic => seq![
            ChromaSubsampling::Cs444,
            ChromaSubsampling::Cs422,
            ChromaSubsampling::Cs420,
        ],
        ChromaSubsamplingPolicy::Fixed(mode) => seq![mode],
        ChromaSubsamplingPolicy::Disabled => seq![ChromaSubsampling::Cs444],
    }
}

/// The result of searching each mode in `modes` in order, starting from
/// the given best-so-far accumulator. A later mode displaces the best only
/// when its distance to the target is strictly smaller.
pub open spec fn select_from<C: ImageCodec>(
    codec: C,
    target: u64,
    min_quality: u8,
    max_quality: u8,
    modes: Seq<ChromaSubsampling>,
    best: Option<(u64, Seq<u8>)>,
) -> Result<Option<(u64, Seq<u8>)>, CompressError>
    decreases modes.len(),
{
    if modes.len() == 0 {
        Ok(best)
    } else {
        match search_spec(codec, modes[0], target, min_quality, max_quality) {
            Err(e) => Err(e),
            Ok(found) => {
                let new_best = match found {
                    Option::None => best,
                    Option::Some(p) => if improves(p.0, best, target) {
                        Option::Some(p)
                    } else {
                        best
                    },
                };
                select_from(codec, target, min_quality, max_quality, modes.drop_first(), new_best)
            },
        }
    }
}

/// The selection result for a policy, before any search.
pub open spec fn select_spec<C: ImageCodec>(
    codec: C,
    target: u64,
    min_quality: u8,
    max_quality: u8,
    policy: ChromaSubsamplingPolicy,
) -> Result<Option<(u64, Seq<u8>)>, CompressError> {
    select_from(codec, target, min_quality, max_quality, modes_for(policy), Option::None)
}

/// Whether the quality search for one mode succeeds with a candidate.
pub open spec fn mode_succeeds<C: ImageCodec>(
    codec: C,
    mode: ChromaSubsampling,
    target: u64,
    min_quality: u8,
    max_quality: u8,
) -> bool {
    search_spec(codec, mode, target, min_quality, max_quality) matches Ok(found) && found is Some
}

/// The candidate the quality search for one mode returns, when it
/// succeeds with one.
pub open spec fn mode_result<C: ImageCodec>(
    codec: C,
    mode: ChromaSubsampling,
    target: u64,
    min_quality: u8,
    max_quality: u8,
) -> (u64, Seq<u8>)
    recommends
        mode_succeeds(codec, mode, target, min_quality, max_quality),
{
    match search_spec(codec, mode, target, min_quality, max_quality) {
        Ok(Option::Some(p)) => p,
        _ => (0, Seq::empty()),
    }
}

/// How far one mode's candidate lands from the target.
pub open spec fn mode_distance<C: ImageCodec>(
    codec: C,
    mode: ChromaSubsampling,
    target: u64,
    min_quality: u8,
    max_quality: u8,
) -> int {
    abs_diff(mode_result(codec, mode, target, min_quality, max_quality).0 as int, target as int)
}

/// A best-so-far that no listed mode beats strictly survives the whole
/// selection.
proof fn lemma_select_keeps_best<C: ImageCodec>(
    codec: C,
    target: u64,
    min_quality: u8,
    max_quality: u8,
    modes: Seq<ChromaSubsampling>,
    held: (u64, Seq<u8>),
)
    requires
        forall|j: int|
            0 <= j < modes.len() ==> mode_succeeds(
                codec,
                #[trigger] modes[j],
                target,
                min_quality,
                max_quality,
            ),
        forall|j: int|
            0 <= j < modes.len() ==> mode_distance(
                codec,
                #[trigger] modes[j],
                target,
                min_quality,
                max_quality,
            ) >= abs_diff(held.0 as int, target as int),
    ensures
        select_from(codec, target, min_quality, max_quality, modes, Option::Some(held)) == Ok::<
            Option<(u64, Seq<u8>)>,
            CompressError,
        >(Option::Some(held)),
    decreases modes.len(),
{
    if modes.len() == 0 {
    } else {
        assert(mode_succeeds(codec, modes[0], target, min_quality, max_quality));
        assert(!improves(
            mode_result(codec, modes[0], target, min_quality, max_quality).0,
            Option::Some(held),
            target,
        ));
        let rest = modes.drop_first();
        assert forall|j: int| 0 <= j < rest.len() implies mode_succeeds(
            codec,
            #[trigger] rest[j],
            target,
            min_quality,
            max_quality,
        ) && mode_distance(codec, rest[j], target, min_quality, max_quality) >= abs_diff(
            held.0 as int,
            target as int,
        ) by {
            assert(rest[j] == modes[j + 1]);
        }
        lemma_select_keeps_best(codec, target, min_quality, max_quality, rest, held);
    }
}

/// The selection from an accumulator strictly worse than the first-best
/// mode lands on that mode's candidate.
proof fn lemma_select_from_first_best<C: ImageCodec>(
    codec: C,
    target: u64,
    min_quality: u8,
    max_quality: u8,
    modes: Seq<ChromaSubsampling>,
    best: Option<(u64, Seq<u8>)>,
    i: int,
)
    requires
        0 <= i < modes.len(),
        forall|j: int|
            0 <= j < modes.len() ==> mode_succeeds(
                codec,
                #[trigger] modes[j],
                target,
                min_quality,
                max_quality,
            ),
        forall|j: int|
            0 <= j < modes.len() ==> mode_distance(
                codec,
                #[trigger] modes[j],
                target,
                min_quality,
                max_quality,
            ) >= mode_distance(codec, modes[i], target, min_quality, max_quality),
        forall|j: int|
            0 <= j < i ==> mode_distance(
                codec,
                #[trigger] modes[j],
                target,
                min_quality,
                max_quality,
            ) > mode_distance(codec, modes[i], target, min_quality, max_quality),
        best matches Option::Some(held) ==> abs_diff(held.0 as int, target as int) > mode_distance(
            codec,
            modes[i],
            target,
            min_quality,
            max_quality,
        ),
    ensures
        select_from(codec, target, min_quality, max_quality, modes, best) == Ok::<
            Option<(u64, Seq<u8>)>,
            CompressError,
        >(Option::Some(mode_result(codec, modes[i], target, min_quality, max_quality))),
    decreases modes.len(),
{
    assert(mode_succeeds(codec, modes[0], target, min_quality, max_quality));
    let first = mode_result(codec, modes[0], target, min_quality, max_quality);
    let rest = modes.drop_first();
    assert forall|j: int| 0 <= j < rest.len() implies mode_succeeds(
        codec,
        #[trigger] rest[j],
        target,
        min_quality,
        max_quality,
    ) && mode_distance(codec, rest[j], target, min_quality, max_quality) >= mode_distance(
        codec,
        modes[i],
        target,
        min_quality,
        max_quality,
    ) by {
        assert(rest[j] == modes[j + 1]);
    }
    if i == 0 {
        assert(improves(first.0, best, target));
        lemma_select_keeps_best(codec, target, min_quality, max_quality, rest, first);
    } else {
        let next = if improves(first.0, best, target) {
            Option::Some(first)
        } else {
            best
        };
        assert(mode_distance(codec, modes[0], target, min_quality, max_quality) > mode_distance(
            codec,
            modes[i],
            target,
            min_quality,
            max_quality,
        ));
        assert forall|j: int| 0 <= j < i - 1 implies mode_distance(
            codec,
            #[trigger] rest[j],
            target,
            min_quality,
            max_quality,
        ) > mode_distance(codec, rest[i - 1], target, min_quality, max_quality) by {
            assert(rest[j] == modes[j + 1]);
            assert(rest[i - 1] == modes[i]);
        }
        assert(rest[i - 1] == modes[i]);
        lemma_select_from_first_best(
            codec,
            target,
            min_quality,
            max_quality,
            rest,
            next,
            i - 1,
        );
    }
}

/// Tie-break: when every mode's search succeeds and the mode at index `i`
/// in the policy's list is the first whose distance to the target is
/// minimal, the selector returns that mode's candidate; a later mode that
/// merely ties does not displace it.
pub proof fn lemma_select_prefers_first<C: ImageCodec>(
    codec: C,
    target: u64,
    min_quality: u8,
    max_quality: u8,
    policy: ChromaSubsamplingPolicy,
    i: int,
)
    requires
        0 <= i < modes_for(policy).len(),
        forall|j: int|
            0 <= j < modes_for(policy).len() ==> mode_succeeds(
                codec,
                #[trigger] modes_for(policy)[j],
                target,
                min_quality,
                max_quality,
            ),
        forall|j: int|
            0 <= j < modes_for(policy).len() ==> mode_distance(
                codec,
                #[trigger] modes_for(policy)[j],
                target,
                min_quality,
                max_quality,
            ) >= mode_distance(codec, modes_for(policy)[i], target, min_quality, max_quality),
        forall|j: int|
            0 <= j < i ==> mode_distance(
                codec,
                #[trigger] modes_for(policy)[j],
                target,
                min_quality,
                max_quality,
            ) > mode_distance(codec, modes_for(policy)[i], target, min_quality, max_quality),
    ensures
        select_spec(codec, target, min_quality, max_quality, policy) == Ok::<
            Option<(u64, Seq<u8>)>,
            CompressError,
        >(Option::Some(
            mode_result(codec, modes_for(policy)[i], target, min_quality, max_quality),
        )),
{
    lemma_select_from_first_best(
        codec,
        target,
        min_quality,
        max_quality,
        modes_for(policy),
        Option::None,
        i,
    );
}

/// The selector's merge decision: the candidate displaces the best so
/// far only when it is strictly closer to the target, so at equal
/// distance the earlier outcome survives.
pub fn keep_closer(best: Option<SearchOutcome>, candidate: SearchOutcome, target: u64) -> (r:
    SearchOutcome)
    ensures
        improves(candidate.distortion, best_model(best), target) ==> r == candidate,
        !improves(candidate.distortion, best_model(best), target) ==> (best matches Option::Some(b)
            && r == b),
{
    match best {
        Option::None => candidate,
        Option::Some(b) => {
            if crate::types::distance_to_target(candidate.distortion, target)
                < crate::types::distance_to_target(b.distortion, target) {
                candidate
            } else {
                b
            }
        },
    }
}

/// The modes a policy tries, in order.
pub fn modes_to_try(policy: ChromaSubsamplingPolicy) -> (r: Vec<ChromaSubsampling>)
    ensures
        r@ == modes_for(policy),
{
    let mut modes: Vec<ChromaSubsampling> = Vec::new();
    match policy {
        ChromaSubsamplingPolicy::Automatic => {
            modes.push(ChromaSubsampling::Cs444);
            modes.push(ChromaSubsampling::Cs422);
            modes.push(ChromaSubsampling::Cs420);
        },
        ChromaSubsamplingPolicy::Fixed(mode) => {
            modes.push(mode);
        },
        ChromaSubsamplingPolicy::Disabled => {
            modes.push(ChromaSubsampling::Cs444);
        },
    }
    proof {
        assert(modes@ =~= modes_for(policy));
    }
    modes
}

/// Runs one quality search per mode the policy lists and returns the
/// outcome whose distortion is closest to `target`; at equal distance the
/// mode listed first wins. The first failing search aborts the selection.
pub fn select_best<C: ImageCodec>(
    codec: &C,
    target: u64,
    min_quality: u8,
    max_quality: u8,
    policy: ChromaSubsamplingPolicy,
) -> (r: Result<SearchOutcome, CompressError>)
    requires
        min_quality <= max_quality,
        max_quality <= 100,
        codec.baseline_ok(),
    ensures
        match r {
            Ok(o) => select_spec(*codec, target, min_quality, max_quality, policy) == Ok::<
                Option<(u64, Seq<u8>)>,
                CompressError,
            >(Option::Some((o.distortion, o.buffer@))),
            Err(e) => select_spec(*codec, target, min_quality, max_quality, policy) == Err::<
                Option<(u64, Seq<u8>)>,
                CompressError,
            >(e),
        },
{
    let modes = modes_to_try(policy);
    let mut best: Option<SearchOutcome> = Option::None;
    let mut i: usize = 0;
    proof {
        assert(modes@.skip(0) =~= modes@);
    }
    while i < modes.len()
        invariant
            i <= modes.len(),
            modes@ == modes_for(policy),
            min_quality <= max_quality,
            max_quality <= 100,
            codec.baseline_ok(),
            select_spec(*codec, target, min_quality, max_quality, policy) == select_from(
                *codec,
                target,
                min_quality,
                max_quality,
                modes@.skip(i as int),
                best_model(best),
            ),
            best is None ==> i == 0,
        decreases modes.len() - i,
    {
        let ghost pb = best_model(best);
        let mode = modes[i];
        match search(codec, mode, target, min_quality, max_quality) {
            Err(e) => {
                proof {
                    assert(modes@.skip(i as int)[0] == mode);
                    assert(select_from(
                        *codec,
                        target,
                        min_quality,
                        max_quality,
                        modes@.skip(i as int),
                        pb,
                    ) == Err::<Option<(u64, Seq<u8>)>, CompressError>(e));
                }
                return Err(e);
            },
            Ok((outcome, _probes)) => {
                let ghost cand = (outcome.distortion, outcome.buffer@);
                let merged = keep_closer(best, outcome, target);
                best = Option::Some(merged);
                proof {
                    assert(modes@.skip(i as int)[0] == mode);
                    assert(best_model(best) == (if improves(cand.0, pb, target) {
                        Option::Some(cand)
                    } else {
                        pb
                    }));
                }
                proof {
                    assert(modes@.skip(i as int).drop_first() =~= modes@.skip(i as int + 1));
                    assert(select_from(
                        *codec,
                        target,
                        min_quality,
                        max_quality,
                        modes@.skip(i as int),
                        pb,
                    ) == select_from(
                        *codec,
                        target,
                        min_quality,
                        max_quality,
                        modes@.skip(i as int + 1),
                        best_model(best),
                    ));
                }
                i = i + 1;
            },
        }
    }
    proof {
        assert(modes@.skip(modes@.len() as int) =~= Seq::<ChromaSubsampling>::empty());
    }
    match best {
        Option::Some(outcome) => Ok(outcome),
        Option::None => {
            proof {
                assert(modes_for(policy).len() > 0);
                assert(false);
            }
            Err(CompressError::Encode)
        },
    }
}

} // verus!
