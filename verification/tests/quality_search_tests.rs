use quality_search::orchestrate::{compress, final_choice};
use quality_search::search::{search, CompressionAttempt};
use quality_search::select::{keep_closer, modes_to_try, select_best};
use quality_search::types::SearchOutcome;
use quality_search::table_codec::TableCodec;
use quality_search::types::{
    distance_to_target, ChromaSubsampling, ChromaSubsamplingPolicy, CompressError,
};

/// A table where distortion strictly decreases with quality:
/// `distortion(q) = (100 - q) * step`.
fn linear_table(step: u64) -> Vec<u64> {
    (0u64..=100).map(|q| (100 - q) * step).collect()
}

fn flat_table(value: u64) -> Vec<u64> {
    vec![value; 101]
}

fn codec_with(t444: Vec<u64>, t422: Vec<u64>, t420: Vec<u64>) -> TableCodec {
    TableCodec {
        table_444: t444,
        table_422: t422,
        table_420: t420,
        baseline_works: true,
        encoder_works: true,
        comparator_works: true,
        lossless_encoder_works: false,
        lossless_bytes: Vec::new(),
    }
}

fn linear_codec(step: u64) -> TableCodec {
    codec_with(linear_table(step), linear_table(step), linear_table(step))
}

#[test]
fn converges_to_target_quality() {
    // distortion(q) = (100 - q) / 1000.0 in fractional terms; in millionths
    // that is (100 - q) * 1000, and a target of 0.05 is 50000. The search
    // must land exactly on quality 50 within seven probes.
    let codec = linear_codec(1000);
    let (outcome, probes) = search(&codec, ChromaSubsampling::Cs444, 50000, 0, 100).unwrap();
    assert_eq!(outcome.distortion, 50000);
    assert_eq!(outcome.buffer, vec![0u8, 50u8]);
    assert!(probes <= 7);
}

#[test]
fn single_quality_probes_once() {
    let codec = linear_codec(1000);
    let (outcome, probes) = search(&codec, ChromaSubsampling::Cs444, 123, 85, 85).unwrap();
    assert_eq!(probes, 1);
    assert_eq!(outcome.distortion, 15000);
    assert_eq!(outcome.buffer, vec![0u8, 85u8]);
}

#[test]
fn repeated_search_identical() {
    let codec = linear_codec(77);
    let (first, first_probes) = search(&codec, ChromaSubsampling::Cs422, 500, 10, 90).unwrap();
    let (second, second_probes) = search(&codec, ChromaSubsampling::Cs422, 500, 10, 90).unwrap();
    assert_eq!(first.distortion, second.distortion);
    assert_eq!(first.buffer, second.buffer);
    assert_eq!(first_probes, second_probes);
}

#[test]
fn matches_exhaustive_scan() {
    // With strictly decreasing distortion the search must find the same
    // minimal distance to the target as a linear scan over the range.
    let step = 7u64;
    let table = linear_table(step);
    let codec = linear_codec(step);
    for &(target, lo, hi) in &[(333u64, 0u8, 100u8), (0, 0, 100), (700, 20, 80), (10, 3, 9)] {
        let scan_best = (lo..=hi)
            .map(|q| {
                let d = table[q as usize];
                if d >= target { d - target } else { target - d }
            })
            .min()
            .unwrap();
        let (outcome, _) = search(&codec, ChromaSubsampling::Cs444, target, lo, hi).unwrap();
        let found = if outcome.distortion >= target {
            outcome.distortion - target
        } else {
            target - outcome.distortion
        };
        assert_eq!(found, scan_best);
    }
}

#[test]
fn probe_budget_is_logarithmic() {
    let codec = linear_codec(13);
    for &(lo, hi, budget) in &[(0u8, 100u8, 7u64), (0, 0, 1), (40, 41, 2), (10, 25, 5)] {
        let (_, probes) = search(&codec, ChromaSubsampling::Cs420, 99, lo, hi).unwrap();
        assert!(probes <= budget);
    }
}

#[test]
fn quality_zero_still_too_distant_terminates() {
    // Even quality 0 scores above the target: the search stops at the
    // range edge instead of probing below it.
    let codec = linear_codec(1000);
    let (outcome, probes) = search(&codec, ChromaSubsampling::Cs444, 0, 0, 0).unwrap();
    assert_eq!(probes, 1);
    assert_eq!(outcome.distortion, 100000);
    let (outcome, _) = search(&codec, ChromaSubsampling::Cs444, 0, 0, 100).unwrap();
    assert_eq!(outcome.distortion, 0);
}

#[test]
fn tie_break_prefers_first_mode() {
    // 4:4:4 lands 5 above the target and 4:2:2 lands 5 below it: equal
    // distance, so the mode listed first must win.
    let codec = codec_with(flat_table(105), flat_table(95), flat_table(400));
    let outcome = select_best(&codec, 100, 0, 100, ChromaSubsamplingPolicy::Automatic).unwrap();
    assert_eq!(outcome.distortion, 105);
    assert_eq!(outcome.buffer[0], 0u8);
}

#[test]
fn selector_picks_strictly_closer_mode() {
    let codec = codec_with(flat_table(130), flat_table(101), flat_table(160));
    let outcome = select_best(&codec, 100, 0, 100, ChromaSubsamplingPolicy::Automatic).unwrap();
    assert_eq!(outcome.distortion, 101);
    assert_eq!(outcome.buffer[0], 1u8);
}

#[test]
fn fixed_policy_searches_one_mode() {
    let codec = codec_with(flat_table(10), flat_table(20), flat_table(30));
    let outcome = select_best(
        &codec,
        0,
        30,
        60,
        ChromaSubsamplingPolicy::Fixed(ChromaSubsampling::Cs420),
    )
    .unwrap();
    assert_eq!(outcome.distortion, 30);
    assert_eq!(outcome.buffer[0], 2u8);
}

#[test]
fn modes_list_for_policies() {
    assert_eq!(
        modes_to_try(ChromaSubsamplingPolicy::Automatic),
        vec![
            ChromaSubsampling::Cs444,
            ChromaSubsampling::Cs422,
            ChromaSubsampling::Cs420,
        ]
    );
    assert_eq!(
        modes_to_try(ChromaSubsamplingPolicy::Fixed(ChromaSubsampling::Cs422)),
        vec![ChromaSubsampling::Cs422]
    );
    assert_eq!(
        modes_to_try(ChromaSubsamplingPolicy::Disabled),
        vec![ChromaSubsampling::Cs444]
    );
}

#[test]
fn lossless_wins_when_strictly_smaller() {
    // The best lossy buffer is two bytes; a one-byte lossless buffer must
    // win outright, whatever its relation to the distortion target.
    let mut codec = linear_codec(1000);
    codec.lossless_encoder_works = true;
    codec.lossless_bytes = vec![7u8];
    let buffer = compress(&codec, true, 50000, 0, 100, ChromaSubsamplingPolicy::Automatic).unwrap();
    assert_eq!(buffer, vec![7u8]);
}

#[test]
fn lossless_loses_when_not_smaller() {
    // Equal size is not strictly smaller: the lossy candidate is kept.
    let mut codec = linear_codec(1000);
    codec.lossless_encoder_works = true;
    codec.lossless_bytes = vec![7u8, 7u8];
    let buffer = compress(
        &codec,
        true,
        50000,
        50,
        50,
        ChromaSubsamplingPolicy::Fixed(ChromaSubsampling::Cs444),
    )
    .unwrap();
    assert_eq!(buffer, vec![0u8, 50u8]);
}

#[test]
fn zero_target_prefers_exact_lossless() {
    // Target 0 with every lossy candidate above zero distortion and a
    // smaller lossless buffer: the lossless bytes must be returned.
    let codec = TableCodec {
        table_444: linear_table(3).iter().map(|d| d + 1).collect(),
        table_422: linear_table(3).iter().map(|d| d + 2).collect(),
        table_420: linear_table(3).iter().map(|d| d + 3).collect(),
        baseline_works: true,
        encoder_works: true,
        comparator_works: true,
        lossless_encoder_works: true,
        lossless_bytes: vec![9u8],
    };
    let buffer = compress(&codec, true, 0, 0, 100, ChromaSubsamplingPolicy::Automatic).unwrap();
    assert_eq!(buffer, vec![9u8]);
}

#[test]
fn no_lossless_path_keeps_lossy() {
    let mut codec = linear_codec(1000);
    codec.lossless_encoder_works = true;
    codec.lossless_bytes = vec![7u8];
    let buffer = compress(
        &codec,
        false,
        50000,
        0,
        100,
        ChromaSubsamplingPolicy::Automatic,
    )
    .unwrap();
    assert_eq!(buffer, vec![0u8, 50u8]);
}

#[test]
fn encoder_failure_reported() {
    let mut codec = linear_codec(1000);
    codec.encoder_works = false;
    let err = search(&codec, ChromaSubsampling::Cs444, 0, 0, 100).unwrap_err();
    assert_eq!(err, CompressError::Encode);
    let err = compress(&codec, false, 0, 0, 100, ChromaSubsamplingPolicy::Automatic).unwrap_err();
    assert_eq!(err, CompressError::Encode);
}

#[test]
fn comparator_failure_reported() {
    let mut codec = linear_codec(1000);
    codec.comparator_works = false;
    let err = search(&codec, ChromaSubsampling::Cs422, 0, 0, 100).unwrap_err();
    assert_eq!(err, CompressError::Comparison);
    let err = compress(&codec, true, 0, 0, 100, ChromaSubsamplingPolicy::Automatic).unwrap_err();
    assert_eq!(err, CompressError::Comparison);
}

#[test]
fn baseline_failure_reported() {
    let mut codec = linear_codec(1000);
    codec.baseline_works = false;
    let err = compress(&codec, true, 0, 0, 100, ChromaSubsamplingPolicy::Automatic).unwrap_err();
    assert_eq!(err, CompressError::Baseline);
    // A distortion table that does not cover the whole quality axis is a
    // degenerate baseline too.
    let short = codec_with(vec![1, 2, 3], flat_table(5), flat_table(5));
    let err = compress(&short, false, 0, 0, 100, ChromaSubsamplingPolicy::Automatic).unwrap_err();
    assert_eq!(err, CompressError::Baseline);
}

#[test]
fn failed_lossless_encode_reported() {
    let mut codec = linear_codec(1000);
    codec.lossless_encoder_works = false;
    let err = compress(&codec, true, 50000, 0, 100, ChromaSubsamplingPolicy::Automatic).unwrap_err();
    assert_eq!(err, CompressError::Encode);
}

#[test]
fn attempt_steps_match_search() {
    // Driving the state machine by hand against the same tables must
    // reproduce what the packaged search returns, probe for probe.
    let step = 250u64;
    let table = linear_table(step);
    let codec = linear_codec(step);
    let target = 12345u64;
    let mut attempt = CompressionAttempt::start(0, 100);
    let mut probes = 0u64;
    while attempt.active {
        let quality = attempt.next_quality();
        let distortion = table[quality as usize];
        attempt.record(distortion, vec![0u8, quality], target);
        probes += 1;
    }
    let manual = attempt.best.unwrap();
    let (packaged, packaged_probes) =
        search(&codec, ChromaSubsampling::Cs444, target, 0, 100).unwrap();
    assert_eq!(manual.distortion, packaged.distortion);
    assert_eq!(manual.buffer, packaged.buffer);
    assert_eq!(probes, packaged_probes);
}

#[test]
fn attempt_stops_at_quality_zero() {
    // Quality 0 scoring at or below the target ends the search at once:
    // there is no lower quality to move to.
    let mut attempt = CompressionAttempt::start(0, 1);
    assert_eq!(attempt.next_quality(), 0);
    attempt.record(3, vec![0u8, 0u8], 10);
    assert!(!attempt.active);
    assert_eq!(attempt.best.unwrap().distortion, 3);
}

#[test]
fn keep_closer_holds_ties() {
    let held = SearchOutcome { distortion: 105, buffer: vec![1u8] };
    let tied = SearchOutcome { distortion: 95, buffer: vec![2u8] };
    let kept = keep_closer(Some(held), tied, 100);
    assert_eq!(kept.buffer, vec![1u8]);
    let closer = SearchOutcome { distortion: 101, buffer: vec![3u8] };
    let kept = keep_closer(Some(kept), closer, 100);
    assert_eq!(kept.buffer, vec![3u8]);
    let first = SearchOutcome { distortion: 7, buffer: vec![4u8] };
    let kept = keep_closer(None, first, 100);
    assert_eq!(kept.buffer, vec![4u8]);
}

#[test]
fn final_choice_judges_size_only() {
    let lossy = SearchOutcome { distortion: 0, buffer: vec![1u8, 2u8] };
    assert_eq!(final_choice(lossy, Some(vec![9u8])), vec![9u8]);
    let lossy = SearchOutcome { distortion: 0, buffer: vec![1u8, 2u8] };
    assert_eq!(final_choice(lossy, Some(vec![9u8, 9u8])), vec![1u8, 2u8]);
    let lossy = SearchOutcome { distortion: 0, buffer: vec![1u8, 2u8] };
    assert_eq!(final_choice(lossy, None), vec![1u8, 2u8]);
}

#[test]
fn distance_measures_both_sides() {
    assert_eq!(distance_to_target(7, 10), 3);
    assert_eq!(distance_to_target(10, 7), 3);
    assert_eq!(distance_to_target(5, 5), 0);
    assert_eq!(distance_to_target(0, u64::MAX), u64::MAX);
}

#[test]
fn narrow_bounds_stay_inside_range() {
    // The search must honour the caller's bounds: every probed quality is
    // visible in the returned buffer's quality byte.
    let codec = linear_codec(50);
    let (outcome, _) = search(&codec, ChromaSubsampling::Cs444, 0, 30, 40).unwrap();
    assert!(30 <= outcome.buffer[1] && outcome.buffer[1] <= 40);
    let (outcome, _) = search(&codec, ChromaSubsampling::Cs444, u64::MAX, 30, 40).unwrap();
    assert!(30 <= outcome.buffer[1] && outcome.buffer[1] <= 40);
}
