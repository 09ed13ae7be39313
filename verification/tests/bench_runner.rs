use peltier::counters::{event_index, parse_perf_csv, PerfSide};
use peltier::exec::{calibration_passes, maxrss_to_kib};
use peltier::rng::XorShift64;
use peltier::schedule::{interleaved, Side};
use peltier::service::server_command;

const CANNED: &str = "\
# started on Mon Jul 13 12:00:00 2026

123456789,,cycles,401000000,100.00,,
234567890,,instructions:u,401000000,100.00,1.90,insn per cycle
<not supported>,,cache-misses,0,100.00,,
<not counted>,,branch-misses,0,0.00,,
garbage line without commas
999,,unrelated-event,1,100.00,,
";

#[test]
fn parses_values_and_skips_junk() {
    let parsed = parse_perf_csv(CANNED);
    assert_eq!(
        parsed,
        vec![
            ("cycles".to_string(), 123_456_789),
            ("instructions:u".to_string(), 234_567_890),
            ("unrelated-event".to_string(), 999),
        ]
    );
}

#[test]
fn event_index_tolerates_modifier_suffix_only() {
    assert_eq!(event_index("cycles"), Some(0));
    assert_eq!(event_index("instructions:u"), Some(1));
    assert_eq!(event_index("cache-misses"), Some(2));
    assert_eq!(event_index("cycle"), None);
    assert_eq!(event_index("cycles_total"), None);
    assert_eq!(event_index("unrelated-event"), None);
}

#[test]
fn absorb_buckets_by_event() {
    let mut side = PerfSide::default();
    side.absorb(&parse_perf_csv(CANNED));
    assert_eq!(side.samples[0], vec![123_456_789]);
    assert_eq!(side.samples[1], vec![234_567_890]);
    assert!(side.samples[2].is_empty(), "<not supported> is skipped");
    assert!(side.samples[3].is_empty(), "<not counted> is skipped");
}

#[test]
fn absorb_appends_across_runs() {
    let mut side = PerfSide::default();
    side.absorb(&parse_perf_csv(CANNED));
    side.absorb(&parse_perf_csv("7,,cycles,1,100.00,,\n8,,branch-misses:u,1,100.00,,\n"));
    assert_eq!(side.samples[0], vec![123_456_789, 7]);
    assert_eq!(side.samples[3], vec![8]);
}

#[test]
fn event_index_names_all_four_events() {
    assert_eq!(event_index("branch-misses"), Some(3));
    assert_eq!(event_index("cache-misses:k"), Some(2));
    assert_eq!(event_index(""), None);
}

#[test]
fn maxrss_kib_passthrough_when_platform_reports_kib() {
    assert_eq!(maxrss_to_kib(2048, false), 2048);
    assert_eq!(maxrss_to_kib(0, false), 0);
}

#[test]
fn maxrss_bytes_are_converted_not_recorded_raw() {
    assert_eq!(maxrss_to_kib(2_097_152, true), 2048);
    assert_eq!(maxrss_to_kib(1, true), 1);
    assert_eq!(maxrss_to_kib(1025, true), 2);
    assert_eq!(maxrss_to_kib(0, true), 0);
}

#[test]
fn maxrss_negative_clamps_instead_of_wrapping() {
    assert_eq!(maxrss_to_kib(-1, false), 0);
    assert_eq!(maxrss_to_kib(-1, true), 0);
}

#[test]
fn maxrss_extremes_do_not_overflow() {
    assert_eq!(maxrss_to_kib(i64::MAX, false), i64::MAX as u64);
    assert_eq!(maxrss_to_kib(i64::MAX, true), (i64::MAX as u64 + 1023) / 1024);
    assert_eq!(maxrss_to_kib(i64::MIN, true), 0);
}

#[test]
fn strictly_alternating_and_counts_match() {
    let plan = interleaved(30, 3);
    assert_eq!(plan.len(), 66);
    for pair in plan.chunks(2) {
        assert_eq!(pair[0].0, Side::Baseline);
        assert_eq!(pair[1].0, Side::Candidate);
    }
    let measured_baseline = plan
        .iter()
        .filter(|(s, m)| *s == Side::Baseline && *m)
        .count();
    assert_eq!(measured_baseline, 30);
    assert!(!plan[0].1 && !plan[5].1, "warm-ups are unmeasured");
    assert!(plan[6].1, "runs after warm-up are measured");
}

#[test]
fn schedule_balances_both_sides() {
    let plan = interleaved(4, 2);
    let measured_candidate = plan
        .iter()
        .filter(|(s, m)| *s == Side::Candidate && *m)
        .count();
    assert_eq!(measured_candidate, 4);
    assert!(interleaved(0, 0).is_empty());
}

#[test]
fn xorshift_is_deterministic_for_a_seed() {
    let mut a = XorShift64::new(42);
    let mut b = XorShift64::new(42);
    for _ in 0..16 {
        assert_eq!(a.next_u64(), b.next_u64());
    }
    let mut c = XorShift64::new(7);
    assert_eq!(c.next_u64(), 15130880334998875822);
}

#[test]
fn xorshift_zero_seed_is_not_stuck() {
    // A zero seed runs as seed 1.
    let mut r = XorShift64::new(0);
    assert_eq!(r.next_u64(), 5180492295206395165);
}

#[test]
fn xorshift_index_stays_in_range() {
    let mut r = XorShift64::new(99);
    for n in 1..50usize {
        assert!(r.index(n) < n);
    }
}

#[test]
fn server_command_lays_out_the_session() {
    assert_eq!(
        server_command(None, "taskset -c 2", "./srv", 8080, "doc.json", 3),
        "taskset -c 2 ./srv 8080 doc.json 3"
    );
    assert_eq!(
        server_command(Some(250), "", "./srv", 9, "d", 1),
        "HOTPATH_INJECT_US=250  ./srv 9 d 1"
    );
    assert_eq!(server_command(None, "", "./srv", 1, "d", 1), "./srv 1 d 1");
}

#[test]
fn calibration_acceptance_is_strict_at_the_bounds() {
    assert!(calibration_passes(0, 20, 20));
    assert!(calibration_passes(0, 19, 20));
    assert!(!calibration_passes(1, 20, 20));
    assert!(!calibration_passes(0, 18, 20));
    assert!(calibration_passes(1, 39, 40));
    assert!(!calibration_passes(0, 0, 0));
}
