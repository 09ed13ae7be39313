use peltier::explain::{
    caveat_lines, decision_lines, diff_stats, explain_header, isolation_caveat, patch_shape,
    CiClass,
};

#[test]
fn diff_stats_counts_and_rejects_placeholders() {
    let d = diff_stats("--- a/f.c\n+++ b/f.c\n@@\n-old\n+new\n+more\n").unwrap();
    assert_eq!((d.files, d.added, d.removed), (1, 2, 1));
    assert!(diff_stats("(no source patch)").is_none());
}

#[test]
fn diff_stats_counts_several_files() {
    let d = diff_stats("--- a/x\n+++ b/x\n-a\n+b\n--- a/y\n+++ b/y\n-c\n-d\n").unwrap();
    assert_eq!((d.files, d.added, d.removed), (2, 1, 3));
    assert!(diff_stats("--- a/x only").is_none());
}

#[test]
fn ci_classes_are_distinct() {
    assert_ne!(CiClass::MeetsBar, CiClass::RealBelowBar);
    assert_eq!(CiClass::Regression, CiClass::Regression);
}

#[test]
fn header_restates_the_row() {
    let lines = explain_header(
        "t-001",
        "demo",
        5,
        "hot() (40%)",
        "2026-07-20T00:00:00Z",
        "loop fusion cuts passes",
        "--- a/x\n+++ b/x\n-a\n+b\n",
        "accepted",
    );
    assert_eq!(
        lines,
        vec![
            "explain t-001 \u{2014} advisory diagnosis".to_string(),
            "derived solely from the ledger row; regeneration is byte-identical; this can never change a verdict".to_string(),
            String::new(),
            "attempt: demo | class 5 | hotspot: hot() (40%) | recorded 2026-07-20T00:00:00Z".to_string(),
            "hypothesis: loop fusion cuts passes".to_string(),
            "patch shape: 1 file(s), +1 / -1 lines".to_string(),
            String::new(),
            "verdict (machine record): accepted".to_string(),
        ]
    );
    assert_eq!(
        patch_shape("(no source patch)"),
        "patch shape: no source diff recorded (build-config or out-of-band attempt)"
    );
    let neg = explain_header("r", "t", -3, "h", "ts", "y", "", "v");
    assert_eq!(neg[3], "attempt: t | class -3 | hotspot: h | recorded ts");
}

#[test]
fn gate_rejection_names_failed_gates() {
    let lines = decision_lines("rejected-gate", false, true, true).unwrap();
    assert_eq!(
        lines[0],
        "decided by: gate failure \u{2014} upstream test suite, differential fuzz (divergence found)"
    );
    assert!(lines[1].starts_with("inference:"));
    let lines = decision_lines("rejected-gate", true, true, false).unwrap();
    assert_eq!(
        lines[0],
        "decided by: a gate failure (the failing gate is not individually recorded in this row)"
    );
    assert_eq!(decision_lines("accepted", true, true, false), None);
    assert_eq!(decision_lines("rejected-bench", true, true, false), None);
    assert_eq!(decision_lines("needs-human-review", true, true, false), None);
    assert_eq!(
        decision_lines("weird", true, true, false),
        Some(vec![
            "verdict string 'weird' is outside the known set \u{2014} inspect the row by hand"
                .to_string()
        ])
    );
}

#[test]
fn nhr_names_its_cap() {
    let risk = vec!["concurrency".to_string()];
    let text = caveat_lines("needs-human-review", &risk, 10_000, Some("byte-identical"), true, None)
        .join("\n");
    assert!(text.contains("lexical risk classifier"));
    assert!(text.contains("concurrency"));
    assert!(!text.contains("fp-tolerance tier"));
}

#[test]
fn review_without_fuzz_and_with_fp_tolerance() {
    let lines = caveat_lines("needs-human-review", &vec![], 0, Some("fp-tolerance"), true, None);
    assert_eq!(lines.len(), 2);
    assert!(lines[0].starts_with("no passed differential-fuzz gate on record"));
    assert!(lines[1].starts_with("equivalence used the fp-tolerance tier"));
    assert!(caveat_lines("needs-human-review", &vec![], 5, None, true, None).is_empty());
}

#[test]
fn historical_accept_caveats() {
    let lines = caveat_lines("accepted", &vec![], 0, None, false, Some(false));
    assert_eq!(lines.len(), 3);
    assert!(lines[0].contains("sanitizers_clean=false"));
    assert!(lines[1].contains("out-of-band"));
    assert_eq!(lines[2], "CAUTION: TSan lane flagged this attempt");
    let lines = caveat_lines("accepted", &vec![], 10_000, None, true, Some(true));
    assert_eq!(lines, vec!["fuzz: 10000 iterations executed, no divergence".to_string()]);
    assert!(caveat_lines("rejected-bench", &vec![], 0, None, false, Some(false)).is_empty());
}

#[test]
fn isolation_caveat_only_for_unisolated_runs() {
    assert_eq!(isolation_caveat("no-net.sh"), None);
    assert_eq!(
        isolation_caveat("unwrapped-host"),
        Some("isolation note on record: \"unwrapped-host\" \u{2014} this run did not have the network-namespace boundary".to_string())
    );
    assert!(isolation_caveat("no-net.sh (HOTPATH_ALLOW_UNISOLATED=1 \u{2014} network NOT isolated)").is_some());
}
