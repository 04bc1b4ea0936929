use hrdr::clock::{local_now, moment_shown, Moment, NANOS_PER_SEC};
use hrdr::format::DiffLineKind::{Add, FileAdd, FileRemove, Hunk, Meta, Remove};
use hrdr::format::{
    classify_diff_line, fmt_cost_maybe_partial, fmt_count, relative_time, relative_time_bucket,
    relative_time_since, turn_stats_line, TurnStatsLine,
};
use hrdr::transcript::time_from_unix;

#[test]
fn fmt_count_ranges() {
    assert_eq!(fmt_count(840), "840");
    assert_eq!(fmt_count(12_400), "12.4k");
    assert_eq!(fmt_count(1_800_000), "1.8M");
    assert_eq!(fmt_count(0), "0");
    assert_eq!(fmt_count(999), "999");
}

/// The text is the one that floating point gives, ties and large numbers included.
#[test]
fn fmt_count_agrees_with_floating_point() {
    let float = |n: usize| {
        if n >= 1_000_000 {
            format!("{:.1}M", n as f64 / 1_000_000.0)
        } else if n >= 1_000 {
            format!("{:.1}k", n as f64 / 1_000.0)
        } else {
            n.to_string()
        }
    };
    for n in (1_000..1_000_000usize).step_by(50) {
        assert_eq!(fmt_count(n), float(n), "{n}");
    }
    for n in (1_000_000..400_000_000usize).step_by(49_999) {
        assert_eq!(fmt_count(n), float(n), "{n}");
    }
    for n in (1_050_000..40_000_000usize).step_by(100_000) {
        assert_eq!(fmt_count(n), float(n), "{n}");
    }
    for shift in 20..64 {
        for add in [0usize, 1, 3, 511, 1025] {
            let n = (1usize << shift) + add;
            assert_eq!(fmt_count(n), float(n), "{n}");
        }
    }
    assert_eq!(fmt_count(usize::MAX), float(usize::MAX));
}

#[test]
fn fmt_cost_partial_marks_an_incomplete_total() {
    // Complete total is shown bare.
    assert_eq!(fmt_cost_maybe_partial("$1.24", false), "$1.24");
    // A total that excluded unpriced usage is a floor, and says so.
    assert_eq!(
        fmt_cost_maybe_partial("$1.24", true),
        "≥ $1.24 (excludes unpriced usage)"
    );
}

fn before(now: Moment, secs: i64) -> Moment {
    Moment {
        secs: now.secs - secs,
        nanos: now.nanos,
    }
}

#[test]
fn relative_time_ranges() {
    let now = local_now();
    assert_eq!(relative_time(now), "now");
    assert_eq!(relative_time(before(now, 42)), "42s ago");
    assert_eq!(relative_time(before(now, 5 * 60)), "5m ago");
    assert_eq!(relative_time(before(now, 90 * 60)), "1h30m ago");
    assert_eq!(relative_time(before(now, 2 * 3600 + 60)), "2h1m ago");
    assert_eq!(relative_time(before(now, 2 * 86_400 + 3 * 3600)), "2d3h ago");
    // Future times clamp to "now" (negative elapsed).
    assert_eq!(relative_time(before(now, -3600)), "now");
    assert_eq!(relative_time_since(before(now, 7200), now), "2h ago");
    assert_eq!(relative_time_since(before(now, 172_800), now), "2d ago");
}

/// The bucket must be a faithful stand-in for the string: same bucket → same
/// string, different bucket → different string.
#[test]
fn bucket_agrees_with_the_string_it_stands_for() {
    let now = local_now();
    let secs: Vec<i64> = (0..130)
        .chain([300, 359, 360, 3599, 3600, 3601, 3660, 7199, 7200])
        .chain([86_399, 86_400, 86_401, 90_000, 172_800, 176_400])
        .collect();
    let sample: Vec<(u64, String)> = secs
        .iter()
        .map(|s| {
            let then = before(now, *s);
            (
                relative_time_bucket(then, now),
                relative_time_since(then, now),
            )
        })
        .collect();
    for (i, (bucket_a, string_a)) in sample.iter().enumerate() {
        for (bucket_b, string_b) in &sample[i + 1..] {
            assert_eq!(
                bucket_a == bucket_b,
                string_a == string_b,
                "bucket and string disagree: ({bucket_a}, {string_a}) vs ({bucket_b}, {string_b})"
            );
        }
    }
    assert_eq!(relative_time_bucket(before(now, 7), now), 107);
    assert_eq!(relative_time_bucket(before(now, 90_000), now), 100_025);
}

#[test]
fn diff_line_classification() {
    assert_eq!(classify_diff_line("+++ b/x.rs"), FileAdd);
    assert_eq!(classify_diff_line("--- a/x.rs"), FileRemove);
    assert_eq!(classify_diff_line("@@ -1,2 +1,3 @@"), Hunk);
    assert_eq!(classify_diff_line("+added"), Add);
    assert_eq!(classify_diff_line("-removed"), Remove);
    assert_eq!(classify_diff_line(" context"), Meta);
    assert_eq!(classify_diff_line("diff --git a/x b/x"), Meta);
}

fn stats() -> TurnStatsLine {
    TurnStatsLine {
        elapsed_secs: "0.0".to_string(),
        gen_secs: None,
        ttft_secs: None,
        out_tokens: 0,
        tok_per_sec: "0.0".to_string(),
        usage: None,
        cached_tokens: None,
        reasoning_tokens: None,
    }
}

#[test]
fn turn_stats_line_shapes() {
    // Nothing measurable → no line.
    assert_eq!(
        turn_stats_line(&TurnStatsLine {
            elapsed_secs: "1.0".to_string(),
            ..stats()
        }),
        None
    );
    // Full line: the rate is the caller's, with cache + reasoning.
    let s = turn_stats_line(&TurnStatsLine {
        elapsed_secs: "3.0".to_string(),
        gen_secs: Some("2.0".to_string()),
        ttft_secs: Some("1.00".to_string()),
        out_tokens: 100,
        tok_per_sec: "50.0".to_string(),
        usage: Some((600, 100)),
        cached_tokens: Some(450),
        reasoning_tokens: Some(30),
    })
    .unwrap();
    assert!(s.contains("✓ 100 tok"), "{s}");
    assert!(s.contains("50.0 tok/s"), "{s}");
    assert!(
        s.contains("3.0s (2.0s generating)"),
        "the working time and the window the rate is over: {s}"
    );
    assert!(s.contains("ttft 1.00s"), "{s}");
    assert!(s.contains("ctx 600 (in/out 600/100, 6.0:1)"), "{s}");
    assert!(s.contains("450 cached"), "{s}");
    assert!(s.contains("30 reasoning"), "{s}");
    // Usage-only turn (no streamed tokens) still reports context; zero
    // cache/reasoning are omitted.
    let s = turn_stats_line(&TurnStatsLine {
        elapsed_secs: "2.0".to_string(),
        usage: Some((10, 0)),
        cached_tokens: Some(0),
        ..stats()
    })
    .unwrap();
    assert!(s.contains("0.0 tok/s") && s.contains("ctx 10"), "{s}");
    assert!(!s.contains("cached"), "{s}");
    assert!(
        !s.contains("generating"),
        "a turn that generated nothing claims no window: {s}"
    );
    // A turn that spent all its working time generating doesn't say so twice.
    let s = turn_stats_line(&TurnStatsLine {
        elapsed_secs: "2.0".to_string(),
        ttft_secs: Some("0.10".to_string()),
        out_tokens: 40,
        tok_per_sec: "20.0".to_string(),
        ..stats()
    })
    .unwrap();
    assert!(!s.contains("generating"), "{s}");
    assert_eq!(s, "✓ 40 tok · 20.0 tok/s · 2.0s · ttft 0.10s");
}

#[test]
fn the_ratio_is_the_one_of_floating_point() {
    for (p, c) in [(1u32, 3u32), (5, 4), (7, 4), (1, 8), (u32::MAX, 1), (123_457, 20)] {
        let s = turn_stats_line(&TurnStatsLine {
            usage: Some((p, c)),
            ..stats()
        })
        .unwrap();
        let want = format!("{:.1}:1)", p as f64 / c as f64);
        assert!(s.ends_with(&want), "{s} {want}");
    }
}

#[test]
fn a_leap_second_counts_as_the_nanosecond_before_it() {
    assert_eq!(moment_shown(5, 7), Moment { secs: 5, nanos: 7 });
    assert_eq!(moment_shown(-1, 999_999_999), Moment { secs: -1, nanos: 999_999_999 });
    for running_on in [NANOS_PER_SEC, 1_500_000_000, 1_999_999_999] {
        assert_eq!(moment_shown(5, running_on), Moment { secs: 5, nanos: 999_999_999 });
    }
}

#[test]
fn the_current_time_can_be_stored_in_seconds() {
    let now = local_now();
    assert!(now.secs > 1_700_000_000, "{now:?}");
    let elsewhere = Moment { secs: 0, nanos: 1 };
    assert_eq!(time_from_unix(now.secs, elsewhere), Moment { secs: now.secs, nanos: 0 });
}
