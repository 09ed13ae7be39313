use peltier::fingerprint::{cpu_model_of, reading_of, EnvFingerprint};
use peltier::target::{Bench, Build, Corpus, Gates};

#[test]
fn readings_are_trimmed_or_unknown() {
    assert_eq!(reading_of(Some("  6.8.0\n")), "6.8.0");
    assert_eq!(reading_of(None), "unknown");
}

#[test]
fn cpu_model_comes_from_the_first_model_name_line() {
    let cpuinfo = "processor\t: 0\nmodel name\t: AMD EPYC 7B13\nmodel name\t: other\n";
    assert_eq!(cpu_model_of(Some(cpuinfo)), "AMD EPYC 7B13");
    assert_eq!(cpu_model_of(Some("processor\t: 0\n")), "unknown");
    assert_eq!(cpu_model_of(None), "unknown");
}

#[test]
fn fingerprint_from_readings() {
    let fp = EnvFingerprint::from_readings(
        "taskset -c 2",
        "system-default",
        Some("6.8.0\n"),
        Some("model name\t: Xeon\n"),
        Some("performance\n"),
        None,
        Some("1\n"),
        Some("2\n"),
    );
    assert_eq!(fp.kernel, "6.8.0");
    assert_eq!(fp.cpu_model, "Xeon");
    assert_eq!(fp.governor, "performance");
    assert_eq!(fp.smt, "unknown");
    assert_eq!(fp.cpu_pinning, "taskset -c 2");
    assert_eq!(fp.turbo, "1");
    assert_eq!(fp.aslr, "mode=system-default randomize_va_space=2");
}

#[test]
fn target_spec_parts_hold_their_fields() {
    let b = Bench {
        command: "{binary} in".into(),
        workload: "10k records".into(),
    };
    let build = Build {
        baseline: "make".into(),
        binary: "out/bin".into(),
        sanitizer: None,
        sanitizer_binary: None,
        tsan: None,
        tsan_binary: None,
    };
    let g = Gates {
        tests: "make test".into(),
        golden: "{binary} < in".into(),
        fuzz: None,
    };
    let c = Corpus {
        manifest: "corpora/x/MANIFEST.sha256".into(),
        root: "corpora/x".into(),
        golden_sha256: "corpora/x/GOLDEN.sha256".into(),
        golden_reference: None,
    };
    assert_eq!(b.clone().workload, "10k records");
    assert_eq!(build.clone().binary, "out/bin");
    assert_eq!(g.clone().fuzz, None);
    assert_eq!(c.clone().root, "corpora/x");
}

#[test]
fn build_templates_take_the_output_dir() {
    assert_eq!(
        peltier::target::subst_out("make OUT={out} && cp x {out}/bin", "/r/t/baseline"),
        "make OUT=/r/t/baseline && cp x /r/t/baseline/bin"
    );
    assert_eq!(peltier::target::subst_out("cargo build", "/o"), "cargo build");
}
