use peltier::gates::{GateLayer, GateOutcome, GateReport};
use peltier::ledger::{GateResults, Verdict};
use peltier::risk::{classify, has_fp_token};
use peltier::verdict::{
    after_review_flag, bench_command, cap_accept, flagged_tail, fuzz_state, gate_results_of,
    lane_clean, median_u64, passed, phase_from_run_id, settle,
};

fn chars(s: &str) -> Vec<char> {
    s.chars().collect()
}

#[test]
fn concurrency_tokens_trigger() {
    let diff = "--- a/src/lib.rs\n+++ b/src/lib.rs\n+    let m = Mutex::new(0);\n";
    assert_eq!(classify(diff, false), vec!["concurrency"]);
    let diff = "-    pthread_create(&t, NULL, worker, NULL);\n";
    assert_eq!(classify(diff, false), vec!["concurrency"]);
}

#[test]
fn unsafe_tokens_trigger() {
    let diff = "+    unsafe { ptr.read() }\n";
    assert_eq!(classify(diff, false), vec!["unsafe"]);
    let diff = "+    let v: Vec<u8> = Vec::from_raw_parts(p, n, n);\n";
    assert_eq!(classify(diff, false), vec!["unsafe"]);
}

#[test]
fn floating_point_tokens_trigger_with_boundaries() {
    assert_eq!(
        classify("+    let x: f64 = 1.0;\n", false),
        vec!["floating-point"]
    );
    assert_eq!(
        classify("+    sum += 1.0f32;\n", false),
        vec!["floating-point"]
    );
    assert_eq!(
        classify("+    double acc = 0.0;\n", false),
        vec!["floating-point"]
    );
    assert!(classify("+    let buf32 = [0u8; 4];\n", false).is_empty());
    assert!(classify("+    hash = \"deadf64beef\";\n", false).is_empty());
}

#[test]
fn fp_tolerance_flag_is_its_own_signal() {
    assert_eq!(classify("", true), vec!["fp-tolerance-equivalence"]);
    assert_eq!(
        classify("+    let x: f32 = 0.5;\n", true),
        vec!["floating-point", "fp-tolerance-equivalence"]
    );
}

#[test]
fn clean_diff_yields_no_signals() {
    let diff = "--- a/src/lib.rs\n+++ b/src/lib.rs\n@@ -1,3 +1,3 @@\n\
                -    let n = items.len();\n+    let n = count;\n     let done = true;\n";
    assert!(classify(diff, false).is_empty());
}

#[test]
fn only_changed_lines_are_scanned() {
    let diff = "--- a/src/mutex_wrapper.rs\n+++ b/src/mutex_wrapper.rs\n\
                @@ -10,4 +10,4 @@\n     let guard = lock.mutex();\n\
                +    let n = count;\n";
    assert!(classify(diff, false).is_empty());
}

#[test]
fn signals_are_deduped() {
    let diff = "+    let a = Mutex::new(0);\n+    let b = RwLock::new(0);\n\
                +    unsafe { transmute::<u32, f32>(x) };\n";
    assert_eq!(
        classify(diff, false),
        vec!["concurrency", "unsafe", "floating-point"]
    );
}

#[test]
fn fp_token_needs_identifier_boundaries() {
    assert!(has_fp_token(&chars("let x: f64 = 1.0;"), &chars("f64")));
    assert!(has_fp_token(&chars("f64"), &chars("f64")));
    assert!(has_fp_token(&chars("1.0f32"), &chars("f32")));
    assert!(!has_fp_token(&chars("buf32"), &chars("f32")));
    assert!(!has_fp_token(&chars("f64x"), &chars("f64")));
    assert!(!has_fp_token(&chars(""), &chars("f64")));
}

#[test]
fn empty_fp_token_is_found_at_the_first_free_boundary() {
    assert!(has_fp_token(&chars(""), &chars("")));
    assert!(has_fp_token(&chars("(x"), &chars("")));
    assert!(has_fp_token(&chars("ab "), &chars("")));
}

#[test]
fn median_u64_odd_and_even() {
    assert_eq!(median_u64(&[5]), 5);
    assert_eq!(median_u64(&[9, 1, 5]), 5);
    assert_eq!(median_u64(&[4, 2, 8, 6]), 5);
}

#[test]
fn median_u64_rounds_down_without_overflow() {
    assert_eq!(median_u64(&[1, 2]), 1);
    assert_eq!(median_u64(&[u64::MAX, u64::MAX - 1]), u64::MAX - 1);
    assert_eq!(median_u64(&[u64::MAX, u64::MAX]), u64::MAX);
}

#[test]
fn fuzz_state_names_every_outcome() {
    assert_eq!(fuzz_state(Some(&GateOutcome::Passed)), "passed");
    assert_eq!(
        fuzz_state(Some(&GateOutcome::Failed {
            detail: "divergences=3".into()
        })),
        "failed"
    );
    assert_eq!(
        fuzz_state(Some(&GateOutcome::Skipped {
            reason: "no baseline".into()
        })),
        "skipped"
    );
    assert_eq!(fuzz_state(None), "not run");
}

#[test]
fn verdict_names_are_kebab_case() {
    assert_eq!(Verdict::Accepted.as_str(), "accepted");
    assert_eq!(Verdict::RejectedGate.as_str(), "rejected-gate");
    assert_eq!(Verdict::RejectedBench.as_str(), "rejected-bench");
    assert_eq!(Verdict::NeedsHumanReview.as_str(), "needs-human-review");
}

#[test]
fn gate_results_default_records_nothing_clean() {
    let g = GateResults::default();
    assert!(!g.upstream_tests && !g.golden_replay && !g.sanitizers_clean);
    assert_eq!(g.fuzz_iters, 0);
    assert_eq!(g.tsan_clean, None);
    assert!(g.risk_signals.is_empty());
    assert_eq!(g.equivalence_mode, None);
}

#[test]
fn review_flag_caps_only_accepts() {
    assert_eq!(after_review_flag(Verdict::Accepted, true), Verdict::NeedsHumanReview);
    assert_eq!(after_review_flag(Verdict::Accepted, false), Verdict::Accepted);
    assert_eq!(after_review_flag(Verdict::RejectedBench, true), Verdict::RejectedBench);
}

#[test]
fn accept_caps_apply_in_order() {
    assert_eq!(
        cap_accept(Some(true), None, false, true),
        (Verdict::Accepted, true, None)
    );
    assert_eq!(
        cap_accept(None, None, false, true),
        (Verdict::NeedsHumanReview, false, None)
    );
    assert_eq!(
        cap_accept(Some(false), None, false, true),
        (Verdict::NeedsHumanReview, false, None)
    );
    assert_eq!(
        cap_accept(Some(true), Some(Some(false)), false, true),
        (Verdict::NeedsHumanReview, true, Some(false))
    );
    assert_eq!(
        cap_accept(Some(true), Some(None), false, true),
        (Verdict::NeedsHumanReview, true, None)
    );
    assert_eq!(
        cap_accept(Some(true), Some(Some(true)), true, true),
        (Verdict::NeedsHumanReview, true, Some(true))
    );
    assert_eq!(
        cap_accept(Some(true), Some(Some(true)), false, false),
        (Verdict::NeedsHumanReview, true, Some(true))
    );
}

#[test]
fn settle_never_upgrades_and_gates_reject() {
    // A gate failure is a gate rejection whatever the bench said.
    assert_eq!(
        settle(false, Some(Verdict::Accepted), false, Some(true), None, false, true),
        Verdict::RejectedGate
    );
    assert_eq!(
        settle(true, None, false, Some(true), None, false, true),
        Verdict::RejectedGate
    );
    // A bench rejection stays a bench rejection.
    assert_eq!(
        settle(true, Some(Verdict::RejectedBench), false, None, None, true, false),
        Verdict::RejectedBench
    );
    // Full evidence: accepted.
    assert_eq!(
        settle(true, Some(Verdict::Accepted), false, Some(true), None, false, true),
        Verdict::Accepted
    );
    // Any one piece missing: review.
    assert_eq!(
        settle(true, Some(Verdict::Accepted), false, Some(true), None, false, false),
        Verdict::NeedsHumanReview
    );
    assert_eq!(
        settle(true, Some(Verdict::Accepted), true, Some(true), None, false, true),
        Verdict::NeedsHumanReview
    );
}

#[test]
fn phase_comes_from_the_run_id_namespace() {
    assert_eq!(phase_from_run_id("phase2-comrak-005"), 2);
    assert_eq!(phase_from_run_id("phase12-x"), 12);
    assert_eq!(phase_from_run_id("smoke-001"), 1);
    assert_eq!(phase_from_run_id("phaseX-1"), 1);
    assert_eq!(phase_from_run_id("phase300-x"), 1);
}

#[test]
fn gate_results_come_from_the_report() {
    let report = GateReport {
        gates: vec![
            (GateLayer::UpstreamTests, GateOutcome::Passed),
            (
                GateLayer::GoldenReplay,
                GateOutcome::Failed {
                    detail: "x".into(),
                },
            ),
            (
                GateLayer::DifferentialFuzz,
                GateOutcome::Skipped {
                    reason: "no baseline".into(),
                },
            ),
        ],
        fuzz_iters: 12,
        fuzz_divergence: true,
        equivalence_mode: "fp-tolerance".into(),
    };
    assert!(passed(&report, GateLayer::UpstreamTests));
    assert!(!passed(&report, GateLayer::DifferentialFuzz));
    assert!(!passed(&report, GateLayer::Sanitizers));
    let g = gate_results_of(&report, "+    let m = Mutex::new(0);\n");
    assert!(g.upstream_tests);
    assert!(!g.golden_replay);
    assert_eq!(g.fuzz_iters, 12);
    assert!(g.fuzz_divergence);
    assert!(!g.sanitizers_clean);
    assert_eq!(g.tsan_clean, None);
    assert_eq!(g.risk_signals, vec!["concurrency", "fp-tolerance-equivalence"]);
    assert_eq!(g.equivalence_mode, Some("fp-tolerance".to_string()));
}

#[test]
fn bench_command_wraps_and_pins() {
    assert_eq!(
        bench_command("", "{binary} --bench in.json", "./b"),
        "sh -c \"./b --bench in.json\""
    );
    assert_eq!(
        bench_command("taskset -c 2", "{binary}", "./c"),
        "taskset -c 2 sh -c \"./c\""
    );
}

#[test]
fn sanitizer_lane_needs_exit_zero_and_no_marker() {
    assert!(lane_clean(true, "all fine\n"));
    assert!(!lane_clean(false, "all fine\n"));
    assert!(!lane_clean(true, "==1==ERROR: LeakSanitizer: detected memory leaks\n"));
    assert!(!lane_clean(true, "x.c:3:5: runtime error: signed integer overflow\n"));
    // A bare "ERROR:" from the target's own logging is not a marker.
    assert!(lane_clean(true, "ERROR: config missing, using defaults\n"));
}

#[test]
fn flagged_tail_keeps_last_eight_nonempty_lines() {
    let stderr: String = (1..=10).map(|i| format!("e{i}\n\n")).collect();
    let tail = flagged_tail(&stderr);
    let expected: Vec<String> = (3..=10).map(|i| format!("e{i}")).collect();
    assert_eq!(tail, expected);
    assert_eq!(flagged_tail("a\n\nb"), vec!["a".to_string(), "b".to_string()]);
    assert!(flagged_tail("").is_empty());
}

#[test]
fn classify_matches_changed_lines_joined() {
    let diff = "--- a/src/sync.rs\n+++ b/src/sync.rs\n@@ -1,3 +1,3 @@\n let m = Mutex::new(0);\n-let x: f64 = 1.0;\r\n+let y = 2;\n";
    let changed: Vec<&str> = diff
        .lines()
        .filter(|l| (l.starts_with('+') && !l.starts_with("+++")) || (l.starts_with('-') && !l.starts_with("---")))
        .collect();
    assert_eq!(classify(diff, true), classify(&changed.join("\n"), true));
    assert_eq!(classify(diff, false), vec!["floating-point"]);
}

#[test]
fn appending_lines_never_drops_a_signal() {
    let d1 = "+    unsafe { x }\n";
    let d2 = "+    let m = Mutex::new(0);\n context\n";
    assert_eq!(classify(d1, false), vec!["unsafe"]);
    assert_eq!(classify(&format!("{d1}{d2}"), false), vec!["concurrency", "unsafe"]);
}
