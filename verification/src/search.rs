//! The quality searcher: one binary search over the quality axis for a
//! fixed subsampling mode.
//!
//! The search probes at most seven quality levels out of the 101 possible
//! ones. Because late probes converge on adjacent quality values whose
//! distortion need not be monotonically closer to the target, the returned
//! result is a best-so-far accumulator updated on every probe, decoupled
//! from the direction decision of the last step.

use vstd::prelude::*;

use crate::codec::ImageCodec;
use crate::types::{
    abs_diff, best_model, distance_to_target, ChromaSubsampling, CompressError, SearchOutcome,
};

verus! {

/// Whether a candidate distortion beats the best seen so far: strictly
/// closer to the target, so the first of two equally good candidates is
/// kept.
pub open spec fn improves(candidate: u64, best: Option<(u64, Seq<u8>)>, target: u64) -> bool {
    match best {
        Option::None => true,
        Option::Some(b) => abs_diff(candidate as int, target as int) < abs_diff(
            b.0 as int,
            target as int,
        ),
    }
}

/// The result of running the binary search from bounds `[min, max]` with
/// the given best-so-far accumulator. Each step probes the midpoint; a
/// probe whose distortion exceeds the target sends the search to higher
/// qualities, any other probe sends it to lower ones, stopping at quality
/// 0 since quality cannot decrease further.
pub open spec fn search_from<C: ImageCodec>(
    codec: C,
    mode: ChromaSubsampling,
    target: u64,
    min: int,
    max: int,
    best: Option<(u64, Seq<u8>)>,
) -> Result<Option<(u64, Seq<u8>)>, CompressError>
    decreases max + 1 - min,
{
    if min > max {
        Ok(best)
    } else {
        let quality = (min + max) / 2;
        if !codec.encode_ok(quality as u8, mode) {
            Err(CompressError::Encode)
        } else if !codec.compare_ok(quality as u8, mode) {
            Err(CompressError::Comparison)
        } else {
            let d = codec.distortion(quality as u8, mode);
            let new_best = if improves(d, best, target) {
                Option::Some((d, codec.encoded(quality as u8, mode)))
            } else {
                best
            };
            if d > target {
                search_from(codec, mode, target, quality + 1, max, new_best)
            } else if quality == 0 {
                Ok(new_best)
            } else {
                search_from(codec, mode, target, min, quality - 1, new_best)
            }
        }
    }
}

/// The quality levels the search probes, in order, from bounds
/// `[min, max]`. A probe that fails is still counted: it was attempted.
pub open spec fn probed_qualities<C: ImageCodec>(
    codec: C,
    mode: ChromaSubsampling,
    target: u64,
    min: int,
    max: int,
) -> Seq<int>
    decreases max + 1 - min,
{
    if min > max {
        Seq::empty()
    } else {
        let quality = (min + max) / 2;
        if !codec.encode_ok(quality as u8, mode) || !codec.compare_ok(quality as u8, mode) {
            seq![quality]
        } else {
            let d = codec.distortion(quality as u8, mode);
            if d > target {
                seq![quality] + probed_qualities(codec, mode, target, quality + 1, max)
            } else if quality == 0 {
                seq![quality]
            } else {
                seq![quality] + probed_qualities(codec, mode, target, min, quality - 1)
            }
        }
    }
}

/// The search result for caller-supplied bounds, before any probe.
pub open spec fn search_spec<C: ImageCodec>(
    codec: C,
    mode: ChromaSubsampling,
    target: u64,
    min_quality: u8,
    max_quality: u8,
) -> Result<Option<(u64, Seq<u8>)>, CompressError> {
    search_from(codec, mode, target, min_quality as int, max_quality as int, Option::None)
}

/// How many encode/compare probes the search makes.
pub open spec fn probe_count<C: ImageCodec>(
    codec: C,
    mode: ChromaSubsampling,
    target: u64,
    min_quality: u8,
    max_quality: u8,
) -> nat {
    probed_qualities(codec, mode, target, min_quality as int, max_quality as int).len()
}

/// Ephemeral state of one binary search: the window of quality levels
/// still worth probing, whether another probe is due, and the best
/// outcome observed so far. Created fresh per subsampling mode and
/// discarded once the search terminates.
pub struct CompressionAttempt {
    /// Lower bound of the unprobed quality window.
    pub min: u8,
    /// Upper bound of the unprobed quality window.
    pub max: u8,
    /// Whether another probe is due; cleared once the window empties, or
    /// quality 0 scored at or below the target and cannot decrease
    /// further.
    pub active: bool,
    /// The candidate closest to the target so far.
    pub best: Option<SearchOutcome>,
}

/// One search step: how recording a probe's distortion and bytes, taken
/// at the window's midpoint, transforms the attempt. A score above the
/// target moves the window to higher qualities; any other score moves it
/// to lower ones, stopping outright at quality 0.
pub open spec fn attempt_step(
    pre: CompressionAttempt,
    distortion: u64,
    bytes: Seq<u8>,
    target: u64,
    post: CompressionAttempt,
) -> bool {
    let quality = (pre.min + pre.max) as int / 2;
    let improved = improves(distortion, best_model(pre.best), target);
    &&& best_model(post.best) == (if improved {
        Option::Some((distortion, bytes))
    } else {
        best_model(pre.best)
    })
    &&& (if distortion > target {
        &&& post.min == quality + 1
        &&& post.max == pre.max
        &&& (post.active <==> quality + 1 <= pre.max)
    } else if quality == 0 {
        &&& post.min == pre.min
        &&& post.max == pre.max
        &&& !post.active
    } else {
        &&& post.min == pre.min
        &&& post.max == quality - 1
        &&& (post.active <==> pre.min <= quality - 1)
    })
}

impl CompressionAttempt {
    /// The bounds invariant: while the search runs, the window is a real
    /// slice of the quality axis.
    pub open spec fn wf(&self) -> bool {
        self.active ==> self.min <= self.max && self.max <= 100
    }

    /// Opens a search over `[min_quality, max_quality]` with no candidate
    /// yet.
    pub fn start(min_quality: u8, max_quality: u8) -> (attempt: CompressionAttempt)
        requires
            min_quality <= max_quality,
            max_quality <= 100,
        ensures
            attempt.min == min_quality,
            attempt.max == max_quality,
            attempt.active,
            attempt.best is None,
            attempt.wf(),
    {
        CompressionAttempt { min: min_quality, max: max_quality, active: true, best: Option::None }
    }

    /// The quality level to probe next: the midpoint of the window.
    pub fn next_quality(&self) -> (quality: u8)
        requires
            self.active,
            self.wf(),
        ensures
            quality == (self.min + self.max) as int / 2,
            self.min <= quality <= self.max,
    {
        (self.min + self.max) / 2
    }

    /// Folds one probe's result into the attempt: keeps it if it is
    /// strictly closer to the target than the best so far, then narrows
    /// the window as the score directs.
    pub fn record(&mut self, distortion: u64, buffer: Vec<u8>, target: u64)
        requires
            old(self).active,
            old(self).wf(),
        ensures
            attempt_step(*old(self), distortion, buffer@, target, *final(self)),
            final(self).wf(),
            final(self).best is Some,
    {
        let quality: u8 = (self.min + self.max) / 2;
        let replace = match &self.best {
            Option::None => true,
            Option::Some(b) => distance_to_target(distortion, target) < distance_to_target(
                b.distortion,
                target,
            ),
        };
        if replace {
            self.best = Option::Some(SearchOutcome { distortion, buffer });
        }
        if distortion > target {
            self.min = quality + 1;
            self.active = self.min <= self.max;
        } else if quality == 0 {
            self.active = false;
        } else {
            self.max = quality - 1;
            self.active = self.min <= self.max;
        }
    }
}

/// Binary-searches the quality range `[min_quality, max_quality]` for the
/// candidate whose distortion is closest to `target`, returning that
/// candidate and the number of probes made.
///
/// The result is exactly the one `search_spec` describes: a deterministic
/// function of the codec, the mode, the target and the bounds.
pub fn search<C: ImageCodec>(
    codec: &C,
    mode: ChromaSubsampling,
    target: u64,
    min_quality: u8,
    max_quality: u8,
) -> (r: Result<(SearchOutcome, u64), CompressError>)
    requires
        min_quality <= max_quality,
        max_quality <= 100,
        codec.baseline_ok(),
    ensures
        match r {
            Ok(p) => search_spec(*codec, mode, target, min_quality, max_quality) == Ok::<
                Option<(u64, Seq<u8>)>,
                CompressError,
            >(Option::Some((p.0.distortion, p.0.buffer@))) && p.1 == probe_count(
                *codec,
                mode,
                target,
                min_quality,
                max_quality,
            ),
            Err(e) => search_spec(*codec, mode, target, min_quality, max_quality) == Err::<
                Option<(u64, Seq<u8>)>,
                CompressError,
            >(e),
        },
{
    let ghost m0 = min_quality as int;
    let ghost x0 = max_quality as int;
    let mut attempt = CompressionAttempt::start(min_quality, max_quality);
    let mut probes: u64 = 0;
    loop
        invariant_except_break
            m0 == min_quality as int,
            x0 == max_quality as int,
            attempt.active,
            attempt.wf(),
            codec.baseline_ok(),
            search_from(*codec, mode, target, m0, x0, Option::None) == search_from(
                *codec,
                mode,
                target,
                attempt.min as int,
                attempt.max as int,
                best_model(attempt.best),
            ),
            probed_qualities(*codec, mode, target, m0, x0).len() == probes + probed_qualities(
                *codec,
                mode,
                target,
                attempt.min as int,
                attempt.max as int,
            ).len(),
            probes + (attempt.max + 1 - attempt.min) <= 101,
        ensures
            attempt.best is Some,
            search_from(*codec, mode, target, m0, x0, Option::None) == Ok::<
                Option<(u64, Seq<u8>)>,
                CompressError,
            >(best_model(attempt.best)),
            probes == probed_qualities(*codec, mode, target, m0, x0).len(),
        decreases attempt.max + 1 - attempt.min,
    {
        let ghost pre = attempt;
        let ghost pm = attempt.min as int;
        let ghost px = attempt.max as int;
        let ghost pb = best_model(attempt.best);
        let quality: u8 = attempt.next_quality();
        proof {
            assert((quality as int) as u8 == quality);
        }
        match codec.encode_and_compare(quality, mode) {
            Err(e) => {
                proof {
                    assert(search_from(*codec, mode, target, pm, px, pb) == Err::<
                        Option<(u64, Seq<u8>)>,
                        CompressError,
                    >(e));
                }
                return Err(e);
            },
            Ok((d, buffer)) => {
                probes = probes + 1;
                attempt.record(d, buffer, target);
                proof {
                    let nb = if improves(d, pb, target) {
                        Option::Some((d, codec.encoded(quality, mode)))
                    } else {
                        pb
                    };
                    assert(attempt_step(pre, d, codec.encoded(quality, mode), target, attempt));
                    assert(best_model(attempt.best) == nb);
                    assert(search_from(*codec, mode, target, pm, px, pb) == (if d > target {
                        search_from(*codec, mode, target, quality as int + 1, px, nb)
                    } else if quality == 0 {
                        Ok::<Option<(u64, Seq<u8>)>, CompressError>(nb)
                    } else {
                        search_from(*codec, mode, target, pm, quality as int - 1, nb)
                    }));
                    assert(probed_qualities(*codec, mode, target, pm, px) == (if d > target {
                        seq![quality as int] + probed_qualities(
                            *codec,
                            mode,
                            target,
                            quality as int + 1,
                            px,
                        )
                    } else if quality == 0 {
                        seq![quality as int]
                    } else {
                        seq![quality as int] + probed_qualities(
                            *codec,
                            mode,
                            target,
                            pm,
                            quality as int - 1,
                        )
                    }));
                    if !attempt.active && d > target {
                        assert(search_from(*codec, mode, target, quality as int + 1, px, nb)
                            == Ok::<Option<(u64, Seq<u8>)>, CompressError>(nb));
                        assert(probed_qualities(*codec, mode, target, quality as int + 1, px)
                            =~= Seq::<int>::empty());
                    }
                    if !attempt.active && d <= target && quality > 0 {
                        assert(search_from(*codec, mode, target, pm, quality as int - 1, nb)
                            == Ok::<Option<(u64, Seq<u8>)>, CompressError>(nb));
                        assert(probed_qualities(*codec, mode, target, pm, quality as int - 1)
                            =~= Seq::<int>::empty());
                    }
                }
                if !attempt.active {
                    break ;
                }
            },
        }
    }
    match attempt.best {
        Option::Some(outcome) => Ok((outcome, probes)),
        Option::None => {
            proof {
                assert(false);
            }
            Err(CompressError::Encode)
        },
    }
}

/// The ceiling of the base-2 logarithm: how often `n` must be halved,
/// rounding up, to reach 1.
pub open spec fn clog2(n: int) -> nat
    decreases n,
{
    if n <= 1 {
        0
    } else {
        (1 + clog2((n + 1) / 2)) as nat
    }
}

proof fn lemma_clog2_monotone(a: int, b: int)
    requires
        a <= b,
    ensures
        clog2(a) <= clog2(b),
    decreases b,
{
    if b <= 1 || a <= 1 {
    } else {
        lemma_clog2_monotone((a + 1) / 2, (b + 1) / 2);
    }
}

/// The search from bounds `[min, max]` probes at most
/// `clog2(max - min + 2)` quality levels: the binary search halves the
/// range on every step.
pub proof fn lemma_probe_count_bound<C: ImageCodec>(
    codec: C,
    mode: ChromaSubsampling,
    target: u64,
    min: int,
    max: int,
)
    requires
        0 <= min,
        min <= max,
        max <= 100,
    ensures
        probed_qualities(codec, mode, target, min, max).len() <= clog2(max - min + 2),
    decreases max - min,
{
    let quality = (min + max) / 2;
    let d = codec.distortion(quality as u8, mode);
    assert(min <= quality <= max);
    assert(clog2(max - min + 2) == 1 + clog2((max - min + 3) / 2));
    assert(1 <= clog2(max - min + 2));
    if !codec.encode_ok(quality as u8, mode) || !codec.compare_ok(quality as u8, mode) {
        assert(probed_qualities(codec, mode, target, min, max).len() == 1);
    } else if d > target {
        let rest = probed_qualities(codec, mode, target, quality + 1, max);
        assert(probed_qualities(codec, mode, target, min, max).len() == 1 + rest.len());
        if quality + 1 <= max {
            lemma_probe_count_bound(codec, mode, target, quality + 1, max);
            assert(rest.len() <= clog2(max - quality + 1));
            assert(max - quality + 1 <= (max - min + 3) / 2);
            lemma_clog2_monotone(max - quality + 1, (max - min + 3) / 2);
        } else {
            assert(rest.len() == 0);
        }
    } else if quality == 0 {
        assert(probed_qualities(codec, mode, target, min, max).len() == 1);
    } else {
        let rest = probed_qualities(codec, mode, target, min, quality - 1);
        assert(probed_qualities(codec, mode, target, min, max).len() == 1 + rest.len());
        if min <= quality - 1 {
            lemma_probe_count_bound(codec, mode, target, min, quality - 1);
            assert(rest.len() <= clog2(quality - min + 1));
            assert(quality - min + 1 <= (max - min + 3) / 2);
            lemma_clog2_monotone(quality - min + 1, (max - min + 3) / 2);
        } else {
            assert(rest.len() == 0);
        }
    }
}

/// Over the whole quality axis the search never makes more than seven
/// probes: 101 possible levels halve to one within seven steps.
pub proof fn lemma_probe_count_at_most_seven<C: ImageCodec>(
    codec: C,
    mode: ChromaSubsampling,
    target: u64,
    min_quality: u8,
    max_quality: u8,
)
    requires
        min_quality <= max_quality,
        max_quality <= 100,
    ensures
        probe_count(codec, mode, target, min_quality, max_quality) <= 7,
{
    lemma_probe_count_bound(codec, mode, target, min_quality as int, max_quality as int);
    lemma_clog2_monotone(max_quality - min_quality + 2, 102);
    assert(clog2(102) == 7) by {
        reveal_with_fuel(clog2, 9);
    }
}

/// Every quality the search probes lies within the caller's bounds; in
/// particular a search that reaches quality 0 stops there rather than
/// probing below the range.
pub proof fn lemma_probes_within_bounds<C: ImageCodec>(
    codec: C,
    mode: ChromaSubsampling,
    target: u64,
    min: int,
    max: int,
)
    requires
        0 <= min,
    ensures
        forall|k: int|
            0 <= k < probed_qualities(codec, mode, target, min, max).len() ==> min
                <= #[trigger] probed_qualities(codec, mode, target, min, max)[k] <= max,
    decreases max + 1 - min,
{
    if min > max {
    } else {
        let quality = (min + max) / 2;
        let d = codec.distortion(quality as u8, mode);
        let s = probed_qualities(codec, mode, target, min, max);
        assert(min <= quality <= max);
        if !codec.encode_ok(quality as u8, mode) || !codec.compare_ok(quality as u8, mode) {
        } else if d > target {
            lemma_probes_within_bounds(codec, mode, target, quality + 1, max);
            let rest = probed_qualities(codec, mode, target, quality + 1, max);
            assert forall|k: int| 0 <= k < s.len() implies min <= #[trigger] s[k] <= max by {
                if k > 0 {
                    assert(s[k] == rest[k - 1]);
                }
            }
        } else if quality == 0 {
        } else {
            lemma_probes_within_bounds(codec, mode, target, min, quality - 1);
            let rest = probed_qualities(codec, mode, target, min, quality - 1);
            assert forall|k: int| 0 <= k < s.len() implies min <= #[trigger] s[k] <= max by {
                if k > 0 {
                    assert(s[k] == rest[k - 1]);
                }
            }
        }
    }
}

/// With equal bounds the search probes exactly once, at that quality, and
/// returns that single attempt.
pub proof fn lemma_single_quality<C: ImageCodec>(
    codec: C,
    mode: ChromaSubsampling,
    target: u64,
    quality: u8,
)
    requires
        quality <= 100,
        codec.encode_ok(quality, mode),
        codec.compare_ok(quality, mode),
    ensures
        probe_count(codec, mode, target, quality, quality) == 1,
        probed_qualities(codec, mode, target, quality as int, quality as int) == seq![
            quality as int,
        ],
        search_spec(codec, mode, target, quality, quality) == Ok::<
            Option<(u64, Seq<u8>)>,
            CompressError,
        >(Option::Some((codec.distortion(quality, mode), codec.encoded(quality, mode)))),
{
    let q = quality as int;
    assert((q + q) / 2 == q);
    let d = codec.distortion(quality, mode);
    let found = Option::Some((codec.distortion(quality, mode), codec.encoded(quality, mode)));
    if d > target {
        assert(probed_qualities(codec, mode, target, q + 1, q) =~= Seq::<int>::empty());
        assert(probed_qualities(codec, mode, target, q, q) =~= seq![q]);
        assert(search_from(codec, mode, target, q + 1, q, found) == Ok::<
            Option<(u64, Seq<u8>)>,
            CompressError,
        >(found));
    } else if quality == 0 {
    } else {
        assert(probed_qualities(codec, mode, target, q, q - 1) =~= Seq::<int>::empty());
        assert(probed_qualities(codec, mode, target, q, q) =~= seq![q]);
        assert(search_from(codec, mode, target, q, q - 1, found) == Ok::<
            Option<(u64, Seq<u8>)>,
            CompressError,
        >(found));
    }
}

/// The binary-search window invariants, carried through the recursion:
/// every quality left of the window scored above the target, every quality
/// right of it at or below, the best so far is a real probe, and neither
/// fringe of the window can beat it.
#[verifier::rlimit(60)]
proof fn lemma_monotone_inv<C: ImageCodec>(
    codec: C,
    mode: ChromaSubsampling,
    target: u64,
    lo: int,
    hi: int,
    min: int,
    max: int,
    best: Option<(u64, Seq<u8>)>,
    wq: int,
) -> (qb: int)
    requires
        0 <= lo,
        lo <= hi,
        hi <= 100,
        lo <= min,
        max <= hi,
        min <= max + 1,
        forall|q1: u8, q2: u8|
            lo <= q1 < q2 <= hi ==> #[trigger] codec.distortion(q2, mode) < #[trigger] codec.distortion(q1, mode),
        forall|q: u8| lo <= q <= hi ==> #[trigger] codec.encode_ok(q, mode),
        forall|q: u8| lo <= q <= hi ==> #[trigger] codec.compare_ok(q, mode),
        forall|q: u8| lo <= q < min ==> #[trigger] codec.distortion(q, mode) > target,
        forall|q: u8| max < q <= hi ==> #[trigger] codec.distortion(q, mode) <= target,
        best is None ==> min == lo && max == hi,
        best matches Option::Some(b) ==> lo <= wq <= hi && b == (
            codec.distortion(wq as u8, mode),
            codec.encoded(wq as u8, mode),
        ),
        min > lo ==> (best matches Option::Some(b) && abs_diff(b.0 as int, target as int)
            <= abs_diff(codec.distortion((min - 1) as u8, mode) as int, target as int)),
        max < hi ==> (best matches Option::Some(b) && abs_diff(b.0 as int, target as int)
            <= abs_diff(codec.distortion((max + 1) as u8, mode) as int, target as int)),
    ensures
        lo <= qb <= hi,
        search_from(codec, mode, target, min, max, best) == Ok::<
            Option<(u64, Seq<u8>)>,
            CompressError,
        >(Option::Some((codec.distortion(qb as u8, mode), codec.encoded(qb as u8, mode)))),
        forall|q: u8|
            lo <= q <= hi ==> abs_diff(codec.distortion(qb as u8, mode) as int, target as int)
                <= abs_diff(#[trigger] codec.distortion(q, mode) as int, target as int),
    decreases max + 1 - min,
{
    if min > max {
        let b = best->Some_0;
        assert(best is Some);
        assert forall|q: u8|
            lo <= q <= hi implies abs_diff(codec.distortion(wq as u8, mode) as int, target as int)
            <= abs_diff(#[trigger] codec.distortion(q, mode) as int, target as int) by {
            if q < min {
                let fringe = (min - 1) as u8;
                assert(codec.distortion(fringe, mode) > target);
                if q < fringe {
                    assert(codec.distortion(fringe, mode) < codec.distortion(q, mode));
                }
            } else {
                let fringe = (max + 1) as u8;
                assert(codec.distortion(fringe, mode) <= target);
                if q > fringe {
                    assert(codec.distortion(q, mode) < codec.distortion(fringe, mode));
                }
            }
        }
        wq
    } else {
        let quality = (min + max) / 2;
        let qu = quality as u8;
        assert(min <= quality <= max);
        assert(qu as int == quality);
        assert(codec.encode_ok(qu, mode) && codec.compare_ok(qu, mode));
        let d = codec.distortion(qu, mode);
        let nb = if improves(d, best, target) {
            Option::Some((d, codec.encoded(qu, mode)))
        } else {
            best
        };
        let nwq = if improves(d, best, target) {
            quality
        } else {
            wq
        };
        assert(nb matches Option::Some(b) && b == (
            codec.distortion(nwq as u8, mode),
            codec.encoded(nwq as u8, mode),
        ));
        assert(abs_diff(codec.distortion(nwq as u8, mode) as int, target as int) <= abs_diff(
            d as int,
            target as int,
        ));
        if d > target {
            assert forall|p: u8| lo <= p < quality + 1 implies #[trigger] codec.distortion(p, mode)
                > target by {
                if p >= min && p < quality {
                    assert(codec.distortion(qu, mode) < codec.distortion(p, mode));
                }
            }
            let qb = lemma_monotone_inv(codec, mode, target, lo, hi, quality + 1, max, nb, nwq);
            assert(search_from(codec, mode, target, min, max, best) == search_from(
                codec,
                mode,
                target,
                quality + 1,
                max,
                nb,
            ));
            qb
        } else if quality == 0 {
            assert(min == 0 && lo == 0);
            assert(search_from(codec, mode, target, min, max, best) == Ok::<
                Option<(u64, Seq<u8>)>,
                CompressError,
            >(nb));
            assert forall|p: u8|
                lo <= p <= hi implies abs_diff(
                codec.distortion(nwq as u8, mode) as int,
                target as int,
            ) <= abs_diff(#[trigger] codec.distortion(p, mode) as int, target as int) by {
                if p == 0 {
                } else if p <= max {
                    assert(codec.distortion(p, mode) < codec.distortion(qu, mode));
                } else {
                    let fringe = (max + 1) as u8;
                    assert(codec.distortion(fringe, mode) <= target);
                    if p > fringe {
                        assert(codec.distortion(p, mode) < codec.distortion(fringe, mode));
                    }
                }
            }
            nwq
        } else {
            assert forall|p: u8| quality - 1 < p <= hi implies #[trigger] codec.distortion(p, mode)
                <= target by {
                if p <= max && p > quality {
                    assert(codec.distortion(p, mode) < codec.distortion(qu, mode));
                }
            }
            let qb = lemma_monotone_inv(codec, mode, target, lo, hi, min, quality - 1, nb, nwq);
            assert(search_from(codec, mode, target, min, max, best) == search_from(
                codec,
                mode,
                target,
                min,
                quality - 1,
                nb,
            ));
            qb
        }
    }
}

/// Monotonic-direction sanity: when distortion strictly decreases as
/// quality rises, the search converges to the quality whose distortion is
/// the closest achievable to the target among all levels in range — the
/// same level an exhaustive scan over the range would pick. The returned
/// value names that level.
pub proof fn lemma_monotone_search_optimal<C: ImageCodec>(
    codec: C,
    mode: ChromaSubsampling,
    target: u64,
    min_quality: u8,
    max_quality: u8,
) -> (qb: u8)
    requires
        min_quality <= max_quality,
        max_quality <= 100,
        forall|q1: u8, q2: u8|
            min_quality <= q1 < q2 <= max_quality ==> #[trigger] codec.distortion(q2, mode)
                < #[trigger] codec.distortion(q1, mode),
        forall|q: u8| min_quality <= q <= max_quality ==> #[trigger] codec.encode_ok(q, mode),
        forall|q: u8| min_quality <= q <= max_quality ==> #[trigger] codec.compare_ok(q, mode),
    ensures
        min_quality <= qb <= max_quality,
        search_spec(codec, mode, target, min_quality, max_quality) == Ok::<
            Option<(u64, Seq<u8>)>,
            CompressError,
        >(Option::Some((codec.distortion(qb, mode), codec.encoded(qb, mode)))),
        forall|q: u8|
            min_quality <= q <= max_quality ==> abs_diff(
                codec.distortion(qb, mode) as int,
                target as int,
            ) <= abs_diff(#[trigger] codec.distortion(q, mode) as int, target as int),
{
    let qi = lemma_monotone_inv(
        codec,
        mode,
        target,
        min_quality as int,
        max_quality as int,
        min_quality as int,
        max_quality as int,
        Option::None,
        0,
    );
    qi as u8
}

/// Determinism: with the codec, the mode, the target and the bounds all
/// fixed, the search result and its probe count are single values; two
/// runs cannot differ in outcome, buffer or score.
pub proof fn lemma_search_deterministic<C: ImageCodec>(
    codec: C,
    mode: ChromaSubsampling,
    target: u64,
    min_quality: u8,
    max_quality: u8,
    first: Result<Option<(u64, Seq<u8>)>, CompressError>,
    first_probes: nat,
    second: Result<Option<(u64, Seq<u8>)>, CompressError>,
    second_probes: nat,
)
    requires
        first == search_spec(codec, mode, target, min_quality, max_quality),
        first_probes == probe_count(codec, mode, target, min_quality, max_quality),
        second == search_spec(codec, mode, target, min_quality, max_quality),
        second_probes == probe_count(codec, mode, target, min_quality, max_quality),
    ensures
        first == second,
        first_probes == second_probes,
{
}

} // verus!
