use peltier::gates::{all_passed, GateInputs, GateLayer, GateOutcome, GateReport};
use peltier::orchestrate::{
    fp_reference, fuzz_command, fuzz_gate_outcome, fuzz_skip_outcome, substitute_binary,
    golden_hash_outcome, golden_stdout_outcome, parse_fuzz_result, parse_u64_strict, plan_fuzz,
    replay_outcome, sanitizers_deferred, suite_manifest_path, upstream_outcome, FuzzPlan,
    core_report,
};
use peltier::pin::{check_digest, manifest_lines, sha256_hex_of, ManifestLine, PinError};
use peltier::policy::{compare_byte_identical, snippet, token_pairs, tokens, Divergence};
use peltier::target::golden_hash_in;
use std::path::{Path, PathBuf};

#[test]
fn any_failure_rejects() {
    let results = vec![
        (GateLayer::UpstreamTests, GateOutcome::Passed),
        (
            GateLayer::GoldenReplay,
            GateOutcome::Failed {
                detail: "stdout diverged".into(),
            },
        ),
    ];
    assert!(!all_passed(&results));
}

#[test]
fn all_skipped_is_not_a_pass() {
    let results = vec![(
        GateLayer::Sanitizers,
        GateOutcome::Skipped {
            reason: "n/a".into(),
        },
    )];
    assert!(!all_passed(&results));
}

#[test]
fn passes_and_skips_together_pass() {
    let results = vec![
        (GateLayer::UpstreamTests, GateOutcome::Passed),
        (
            GateLayer::Sanitizers,
            GateOutcome::Skipped {
                reason: "deferred".into(),
            },
        ),
    ];
    assert!(all_passed(&results));
    assert!(!all_passed(&[]));
}

#[test]
fn report_outcome_looks_up_by_layer() {
    let report = GateReport {
        gates: vec![
            (GateLayer::UpstreamTests, GateOutcome::Passed),
            (
                GateLayer::GoldenReplay,
                GateOutcome::Failed {
                    detail: "stdout diverged".into(),
                },
            ),
        ],
        fuzz_iters: 0,
        fuzz_divergence: false,
        equivalence_mode: "byte-identical".into(),
    };
    assert_eq!(
        report.outcome(GateLayer::UpstreamTests),
        Some(&GateOutcome::Passed)
    );
    assert!(matches!(
        report.outcome(GateLayer::GoldenReplay),
        Some(GateOutcome::Failed { .. })
    ));
    assert_eq!(report.outcome(GateLayer::Sanitizers), None);
    assert!(!report.all_passed());
}

#[test]
fn suite_manifest_derives_from_corpus_manifest() {
    assert_eq!(
        Path::new(&suite_manifest_path("corpora/cjson/MANIFEST.sha256")),
        Path::new("corpora/cjson").join("TESTSUITE.sha256")
    );
    assert_eq!(
        Path::new(&suite_manifest_path("MANIFEST.sha256")),
        Path::new("TESTSUITE.sha256")
    );
}

#[test]
fn fuzz_result_parses_last_exact_line() {
    assert_eq!(
        parse_fuzz_result("FUZZ-RESULT iters=10000 divergences=0\n"),
        Some((10000, 0))
    );
    let out = "FUZZ-RESULT iters=1 divergences=1\nprogress...\nFUZZ-RESULT iters=9999 divergences=2\ndone\n";
    assert_eq!(parse_fuzz_result(out), Some((9999, 2)));
    assert_eq!(
        parse_fuzz_result("FUZZ-RESULT iters=42 divergences=0\r\n"),
        Some((42, 0))
    );
}

#[test]
fn fuzz_result_rejects_malformed_lines() {
    for bad in [
        "",
        "no result here",
        " FUZZ-RESULT iters=1 divergences=0",
        "FUZZ-RESULT iters=1  divergences=0",
        "FUZZ-RESULT iters=abc divergences=0",
        "FUZZ-RESULT iters=1 divergences=-1",
        "FUZZ-RESULT iters=1 divergences=0 xx",
        "FUZZ-RESULT divergences=0 iters=1",
        "FUZZ-RESULT iters=1",
    ] {
        assert_eq!(parse_fuzz_result(bad), None, "should reject: {bad:?}");
    }
}

#[test]
fn fuzz_result_overflow_is_rejected() {
    assert_eq!(
        parse_fuzz_result("FUZZ-RESULT iters=18446744073709551616 divergences=0\n"),
        None
    );
    assert_eq!(
        parse_fuzz_result("FUZZ-RESULT iters=18446744073709551615 divergences=0\n"),
        Some((u64::MAX, 0))
    );
}

#[test]
fn strict_u64_takes_digits_only() {
    let cs = |s: &str| s.chars().collect::<Vec<char>>();
    assert_eq!(parse_u64_strict(&cs("0042")), Some(42));
    assert_eq!(parse_u64_strict(&cs("")), None);
    assert_eq!(parse_u64_strict(&cs("+1")), None);
    assert_eq!(parse_u64_strict(&cs("1 ")), None);
}

fn inputs(baseline: Option<&'static str>) -> GateInputs<'static> {
    GateInputs {
        candidate_binary: "targets/cjson/cand/cjson-bench",
        baseline_binary: baseline,
        fuzz_iters: 10_000,
    }
}

const TMPL: &str = "python3 scripts/diff-fuzz-cjson.py targets/cjson/fuzz-work \
                    {iters} {baseline} {candidate}";

#[test]
fn fuzz_command_substitutes_all_three_placeholders() {
    assert_eq!(
        fuzz_command(TMPL, 500, "base/bin", "cand/bin"),
        "python3 scripts/diff-fuzz-cjson.py targets/cjson/fuzz-work 500 base/bin cand/bin"
    );
    assert_eq!(
        fuzz_command("{candidate} {candidate} {iters} {other}", 2, "b", "c"),
        "c c 2 {other}"
    );
}

#[test]
fn fuzz_skipped_when_no_command_declared() {
    assert_eq!(
        plan_fuzz(None, &inputs(Some("targets/cjson/baseline/cjson-bench"))),
        FuzzPlan::Skip("no fuzz command declared in target.toml [gates].fuzz")
    );
    assert_eq!(
        plan_fuzz(None, &inputs(None)),
        FuzzPlan::Skip("no fuzz command declared in target.toml [gates].fuzz")
    );
}

#[test]
fn fuzz_skipped_when_declared_but_no_baseline() {
    assert_eq!(
        plan_fuzz(Some(TMPL), &inputs(None)),
        FuzzPlan::Skip(
            "differential fuzz needs a pristine baseline binary; run the accept path \
             (`just verdict`), which rebuilds one"
        )
    );
}

#[test]
fn fuzz_runs_with_both_sides() {
    assert_eq!(
        plan_fuzz(
            Some(TMPL),
            &inputs(Some("targets/cjson/baseline/cjson-bench"))
        ),
        FuzzPlan::Run(
            "python3 scripts/diff-fuzz-cjson.py targets/cjson/fuzz-work 10000 \
             targets/cjson/baseline/cjson-bench targets/cjson/cand/cjson-bench"
                .to_string()
        )
    );
}

#[test]
fn fuzz_gate_grades_clean_run_as_pass() {
    let (outcome, iters, diverged) =
        fuzz_gate_outcome("FUZZ-RESULT iters=10000 divergences=0\n", true, Some(0));
    assert_eq!(outcome, GateOutcome::Passed);
    assert_eq!(iters, 10_000);
    assert!(!diverged);
}

#[test]
fn fuzz_gate_fails_on_divergence_nonzero_exit_or_no_result_line() {
    let (outcome, iters, diverged) =
        fuzz_gate_outcome("FUZZ-RESULT iters=900 divergences=3\n", false, Some(1));
    assert!(
        matches!(outcome, GateOutcome::Failed { detail } if detail.contains("divergences=3"))
    );
    assert_eq!(iters, 900);
    assert!(diverged);

    let (outcome, ..) =
        fuzz_gate_outcome("FUZZ-RESULT iters=10 divergences=0\n", false, Some(2));
    assert!(
        matches!(outcome, GateOutcome::Failed { detail } if detail.contains("exit=Some(2)"))
    );

    let (outcome, iters, diverged) =
        fuzz_gate_outcome("Traceback (most recent call last):\n", false, Some(1));
    assert_eq!(
        outcome,
        GateOutcome::Failed {
            detail: "fuzz command did not report FUZZ-RESULT".into()
        }
    );
    assert_eq!(iters, 0);
    assert!(!diverged);
}

#[test]
fn fuzz_gate_detail_is_exact() {
    let (outcome, _, _) =
        fuzz_gate_outcome("FUZZ-RESULT iters=7 divergences=1\n", true, None);
    assert_eq!(
        outcome,
        GateOutcome::Failed {
            detail: "exit=None iters=7 divergences=1".into()
        }
    );
    let (outcome, _, _) =
        fuzz_gate_outcome("FUZZ-RESULT iters=7 divergences=0\n", false, Some(-9));
    assert_eq!(
        outcome,
        GateOutcome::Failed {
            detail: "exit=Some(-9) iters=7 divergences=0".into()
        }
    );
    assert_eq!(
        fuzz_skip_outcome("why"),
        (GateOutcome::Skipped { reason: "why".into() }, 0, false)
    );
}

#[test]
fn fp_tolerance_requires_golden_reference() {
    let err = fp_reference::<PathBuf>(None).unwrap_err();
    assert_eq!(
        err,
        GateOutcome::Failed {
            detail: "fp-tolerance policy requires corpus.golden_reference in target.toml"
                .into()
        }
    );
    let path = PathBuf::from("corpora/matmul/GOLDEN.reference");
    assert_eq!(fp_reference(Some(&path)).unwrap(), &path);
}

#[test]
fn upstream_outcome_keeps_first_2000_chars() {
    assert_eq!(upstream_outcome(true, "ignored"), GateOutcome::Passed);
    let long = "x".repeat(2500);
    match upstream_outcome(false, &long) {
        GateOutcome::Failed { detail } => assert_eq!(detail.chars().count(), 2000),
        other => panic!("unexpected {other:?}"),
    }
    assert_eq!(
        upstream_outcome(false, "boom"),
        GateOutcome::Failed { detail: "boom".into() }
    );
}

#[test]
fn golden_outcome_compares_hashes() {
    assert_eq!(
        golden_hash_outcome(true, Some(0), "ab", "ab"),
        GateOutcome::Passed
    );
    assert_eq!(
        golden_hash_outcome(true, Some(0), "ab", "cd"),
        GateOutcome::Failed {
            detail: "exit=Some(0) expected=ab actual=cd".into()
        }
    );
    assert_eq!(
        golden_hash_outcome(false, Some(1), "ab", "ab"),
        GateOutcome::Failed {
            detail: "exit=Some(1) expected=ab actual=ab".into()
        }
    );
}

#[test]
fn golden_stdout_is_hashed_before_comparing() {
    let abc = "ba7816bf8f01cfea414140de5dae2223b00361a396177a9cb410ff61f20015ad";
    assert_eq!(
        golden_stdout_outcome(true, Some(0), abc, b"abc"),
        GateOutcome::Passed
    );
    assert_eq!(
        golden_stdout_outcome(true, Some(0), "abc", b"abc"),
        GateOutcome::Failed {
            detail: format!("exit=Some(0) expected=abc actual={abc}")
        }
    );
}

#[test]
fn binary_placeholder_is_substituted() {
    assert_eq!(
        substitute_binary("{binary} < in.json && {binary} -v", "./cand"),
        "./cand < in.json && ./cand -v"
    );
}

#[test]
fn sanitizer_layer_is_deferred() {
    assert_eq!(
        sanitizers_deferred(),
        GateOutcome::Skipped {
            reason: "sanitizers run on the accept path in verdict (ASan/UBSan, TSan when configured)"
                .into()
        }
    );
}

#[test]
fn byte_identical_rejects_reordered_fp() {
    assert!(compare_byte_identical("1.0000000 2.0", "1.0000001 2.0").is_err());
}

#[test]
fn byte_identical_reports_first_offset_and_context() {
    assert!(compare_byte_identical("same\n", "same\n").is_ok());
    let d = compare_byte_identical("1.0000000 2.0", "1.0000001 2.0").unwrap_err();
    assert_eq!(d.token, 8);
    assert_eq!(d.baseline, "1.0000000 2.0");
    assert_eq!(d.candidate, "1.0000001 2.0");
    assert_eq!(d.reason, "byte-identical mismatch");
    let d = compare_byte_identical("abc", "abcdef").unwrap_err();
    assert_eq!(d.token, 3);
    assert_eq!(d.candidate, "abcdef");
}

#[test]
fn snippet_escapes_newlines_and_clamps() {
    assert_eq!(snippet("a\nb", 1), "a\\nb");
    assert_eq!(snippet("0123456789abcdefghij", 10), "23456789abcdefgh");
    assert_eq!(snippet("abc", 100), "");
    // A window edge inside a multi-byte character yields no context.
    assert_eq!(snippet("\u{e9}\u{e9}\u{e9}\u{e9}\u{e9}", 9), "");
}

#[test]
fn sha256_hex_matches_known_digests() {
    assert_eq!(
        sha256_hex_of(b""),
        "e3b0c44298fc1c149afbf4c8996fb92427ae41e4649b934ca495991b7852b855"
    );
    assert_eq!(
        sha256_hex_of(b"abc"),
        "ba7816bf8f01cfea414140de5dae2223b00361a396177a9cb410ff61f20015ad"
    );
}

#[test]
fn manifest_lines_are_classified() {
    let raw = "# pinned corpus\n\nabc123  input.bin\n  DEF  nested/x.json  \nno-separator here\n";
    assert_eq!(
        manifest_lines(raw),
        vec![
            ManifestLine::Skip,
            ManifestLine::Skip,
            ManifestLine::Entry {
                expected: "abc123".into(),
                rel: "input.bin".into()
            },
            ManifestLine::Entry {
                expected: "DEF".into(),
                rel: "nested/x.json".into()
            },
            ManifestLine::Malformed {
                line: 5,
                content: "no-separator here".into()
            },
        ]
    );
}

#[test]
fn digest_check_ignores_ascii_case() {
    assert!(check_digest("p", "ABCDEF", "abcdef").is_ok());
    let err = check_digest("dir/p", "abcdef", "abcdee").unwrap_err();
    assert_eq!(
        err,
        PinError::Mismatch {
            path: "dir/p".into(),
            expected: "abcdef".into(),
            actual: "abcdee".into()
        }
    );
    assert_eq!(
        err.message(),
        "HASH MISMATCH for dir/p: manifest abcdef, actual abcdee \u{2014} refusing to run"
    );
    assert_eq!(
        PinError::MalformedManifest {
            line: 3,
            content: "x y".into()
        }
        .message(),
        "malformed manifest line 3: \"x y\""
    );
}

#[test]
fn golden_hash_is_first_field_of_last_entry() {
    assert_eq!(
        golden_hash_in("aaa  old\n# comment\nbbb  new\n\n# trailing\n"),
        Some("bbb".to_string())
    );
    assert_eq!(golden_hash_in("# only comments\n\n"), None);
    assert_eq!(golden_hash_in("  ccc\tout.txt  "), Some("ccc".to_string()));
}

#[test]
fn tolerance_replay_outcome_reports_the_divergence() {
    assert_eq!(replay_outcome(true, Some(0), Ok(())), GateOutcome::Passed);
    assert_eq!(
        replay_outcome(false, Some(3), Ok(())),
        GateOutcome::Failed {
            detail: "golden replay command failed (exit=Some(3))".into()
        }
    );
    let d = Divergence {
        token: 1,
        baseline: "2.0".into(),
        candidate: "2.5".into(),
        reason: "abs diff 5e-1 > tol".into(),
    };
    assert_eq!(
        replay_outcome(true, Some(0), Err(d)),
        GateOutcome::Failed {
            detail: "diverged at token/offset 1: baseline=\"2.0\" candidate=\"2.5\" \u{2014} abs diff 5e-1 > tol"
                .into()
        }
    );
}

#[test]
fn tokens_split_on_any_whitespace() {
    assert_eq!(tokens("  1.0\t2.5\n\n x "), vec!["1.0", "2.5", "x"]);
    assert!(tokens(" \n ").is_empty());
    assert_eq!(tokens("a\u{3000}b"), vec!["a", "b"]);
}

#[test]
fn token_pairs_line_up_or_report_counts() {
    let ps = token_pairs("1.0 2.0", "1.0000001\n2.0\n").unwrap();
    assert_eq!(
        ps,
        vec![
            ("1.0".to_string(), "1.0000001".to_string()),
            ("2.0".to_string(), "2.0".to_string())
        ]
    );
    let d = token_pairs("1 2 3", "1 2").unwrap_err();
    assert_eq!(
        d,
        Divergence {
            token: 2,
            baseline: "3 tokens".into(),
            candidate: "2 tokens".into(),
            reason: "token-count mismatch".into()
        }
    );
}

#[test]
fn core_report_keeps_the_layer_order() {
    let r = core_report(
        GateOutcome::Passed,
        GateOutcome::Passed,
        (GateOutcome::Skipped { reason: "no baseline".into() }, 0, false),
        true,
    );
    let layers: Vec<GateLayer> = r.gates.iter().map(|(l, _)| *l).collect();
    assert_eq!(
        layers,
        vec![
            GateLayer::UpstreamTests,
            GateLayer::GoldenReplay,
            GateLayer::DifferentialFuzz,
            GateLayer::Sanitizers
        ]
    );
    assert_eq!(r.equivalence_mode, "fp-tolerance");
    assert!(r.all_passed());
    assert_eq!(r.outcome(GateLayer::Sanitizers), Some(&sanitizers_deferred()));
}

#[test]
fn suite_manifest_reads_the_parent_by_components() {
    assert_eq!(suite_manifest_path("corpora/cjson/"), "corpora/TESTSUITE.sha256");
    assert_eq!(suite_manifest_path("dir/."), "TESTSUITE.sha256");
    assert_eq!(suite_manifest_path("a//b"), "a/TESTSUITE.sha256");
    assert_eq!(suite_manifest_path("a/./b"), "a/TESTSUITE.sha256");
    assert_eq!(suite_manifest_path("/MANIFEST.sha256"), "/TESTSUITE.sha256");
    assert_eq!(suite_manifest_path("./MANIFEST.sha256"), "./TESTSUITE.sha256");
    assert_eq!(suite_manifest_path("a/../b"), "a/../TESTSUITE.sha256");
    assert_eq!(suite_manifest_path("/"), "TESTSUITE.sha256");
    assert_eq!(suite_manifest_path("."), "TESTSUITE.sha256");
    assert_eq!(suite_manifest_path(""), "TESTSUITE.sha256");
    let cases = [
        "corpora/cjson/MANIFEST.sha256",
        "corpora/cjson/",
        "corpora//cjson//MANIFEST.sha256",
        "dir/.",
        "dir/./",
        "./",
        "./x/",
        "/x",
        "//x",
        "/./x",
        "..",
        "../x",
        "x/..",
        ".hidden/m",
        "a/b/c/././/",
    ];
    for c in cases {
        let expected = Path::new(c)
            .parent()
            .unwrap_or_else(|| Path::new(""))
            .join("TESTSUITE.sha256");
        assert_eq!(suite_manifest_path(c), expected.to_str().unwrap(), "{c}");
    }
}
