use peltier::allowlist::{check_diff_paths, check_rel_path, DiffPathError, PathViolation};
use peltier::daemon::{
    check_patch_id, check_playbook_class, check_proposed_diff, check_run_id, check_target,
    inner_script, isolation_note, log_tail, outer_script, patch_id, pipeline_failed,
    playbook_prefix, read_window, running_refusal, shq,
};

#[test]
fn rel_path_rules() {
    assert!(check_rel_path("src/lib.rs").is_ok());
    assert!(check_rel_path("./src/lib.rs").is_ok());
    assert!(check_rel_path("../outside").is_err());
    assert!(check_rel_path("a/../b").is_err());
    assert!(check_rel_path("/etc/passwd").is_err());
    assert!(check_rel_path(".git/config").is_err());
    assert!(check_rel_path("a/.git/hooks").is_err());
}

#[test]
fn rel_path_errors_name_their_cause() {
    assert_eq!(check_rel_path("/etc/passwd"), Err(PathViolation::Absolute));
    assert_eq!(check_rel_path("a/.git/hooks"), Err(PathViolation::GitDir));
    assert_eq!(
        check_rel_path("a/../b"),
        Err(PathViolation::Escapes("a/../b".into()))
    );
    assert_eq!(
        PathViolation::Escapes("a/../b".into()).message(),
        "path escapes workspace: a/../b"
    );
    assert_eq!(PathViolation::Absolute.message(), "absolute paths forbidden");
    assert_eq!(PathViolation::GitDir.message(), ".git access forbidden");
}

#[test]
fn normal_diff_passes() {
    let diff = "diff --git a/src/lib.rs b/src/lib.rs\n\
                index 1111111..2222222 100644\n\
                --- a/src/lib.rs\n\
                +++ b/src/lib.rs\n\
                @@ -1,2 +1,2 @@\n\
                -old\n\
                +new\n";
    assert!(check_diff_paths(diff).is_ok());
}

#[test]
fn new_and_deleted_file_dev_null_passes() {
    let diff = "diff --git a/newfile.rs b/newfile.rs\n\
                new file mode 100644\n\
                --- /dev/null\n\
                +++ b/newfile.rs\n\
                @@ -0,0 +1 @@\n\
                +hello\n\
                diff --git a/gone.rs b/gone.rs\n\
                deleted file mode 100644\n\
                --- a/gone.rs\n\
                +++ /dev/null\n\
                @@ -1 +0,0 @@\n\
                -bye\n";
    assert!(check_diff_paths(diff).is_ok());
}

#[test]
fn in_workspace_rename_passes() {
    let diff = "diff --git a/old.rs b/nested/new.rs\n\
                similarity index 100%\n\
                rename from old.rs\n\
                rename to nested/new.rs\n";
    assert!(check_diff_paths(diff).is_ok());
}

#[test]
fn rename_escape_fixture_rejected() {
    let diff = "diff --git a/src.txt b/../outside/escaped.txt\n\
                similarity index 100%\n\
                rename from src.txt\n\
                rename to ../outside/escaped.txt\n";
    assert!(check_diff_paths(diff).is_err());
}

#[test]
fn rename_headers_rejected_without_git_header_line() {
    let diff = "similarity index 100%\n\
                rename from src.txt\n\
                rename to ../outside/escaped.txt\n";
    assert!(check_diff_paths(diff).is_err());
}

#[test]
fn copy_escape_rejected() {
    let diff = "diff --git a/src.txt b/src2.txt\n\
                copy from src.txt\n\
                copy to ../outside/copied.txt\n";
    assert!(check_diff_paths(diff).is_err());
}

#[test]
fn no_prefix_diff_rejected() {
    let diff = "diff --git src/lib.rs src/lib.rs\n\
                index 1111111..2222222 100644\n\
                --- src/lib.rs\n\
                +++ src/lib.rs\n\
                @@ -1 +1 @@\n\
                -old\n\
                +new\n";
    let err = check_diff_paths(diff).unwrap_err().message();
    assert!(
        err.contains("diff --git") || err.contains("a/ or b/ prefix"),
        "{err}"
    );
}

#[test]
fn absolute_path_diff_rejected() {
    let diff = "diff --git a/x b/x\n\
                rename from x\n\
                rename to /etc/passwd\n";
    assert!(check_diff_paths(diff).is_err());
    let plus = "--- a/x\n\
                +++ /etc/passwd\n";
    assert!(check_diff_paths(plus).is_err());
}

#[test]
fn parent_component_in_file_headers_rejected() {
    assert!(check_diff_paths("--- a/../escape.rs\n+++ b/escape.rs\n").is_err());
    assert!(check_diff_paths("--- a/ok.rs\n+++ b/nested/../../escape.rs\n").is_err());
    assert!(check_diff_paths("diff --git a/ok.rs b/../escape.rs\n").is_err());
}

#[test]
fn dot_git_path_rejected() {
    let diff = "diff --git a/.git/hooks/pre-commit b/.git/hooks/pre-commit\n\
                --- a/.git/hooks/pre-commit\n\
                +++ b/.git/hooks/pre-commit\n";
    assert!(check_diff_paths(diff).is_err());
}

#[test]
fn quoted_paths_rejected() {
    assert!(check_diff_paths("diff --git \"a/x\" \"b/y\"\n").is_err());
    assert!(check_diff_paths("--- \"a/x\"\n+++ b/y\n").is_err());
    assert!(check_diff_paths("rename to \"\\056\\056/evil\"\n").is_err());
}

#[test]
fn embedded_b_slash_cannot_hide_escape() {
    assert!(check_diff_paths("diff --git a/x b/y b/../evil\n").is_err());
    assert!(check_diff_paths("diff --git a/../evil b/y b/z\n").is_err());
}

#[test]
fn body_line_colliding_with_header_prefix_explains_itself() {
    let diff = "diff --git a/q.sql b/q.sql\n\
                --- a/q.sql\n\
                +++ b/q.sql\n\
                @@ -1,2 +1 @@\n\
                --- drop this comment\n\
                \x20SELECT 1;\n";
    let err = check_diff_paths(diff).unwrap_err().message();
    assert!(err.contains("--- drop this comment"), "{err}");
    assert!(err.contains("hunk body line"), "{err}");
    assert!(err.contains("context"), "{err}");
}

#[test]
fn body_line_without_the_space_does_not_collide() {
    let diff = "diff --git a/x.c b/x.c\n\
                --- a/x.c\n\
                +++ b/x.c\n\
                @@ -1,2 +1,2 @@\n\
                ---x;\n\
                +++x;\n";
    assert!(check_diff_paths(diff).is_ok());
}

#[test]
fn timestamp_suffix_tolerated() {
    let diff = "--- a/src/lib.rs\t2026-07-13 00:00:00\n\
                +++ b/src/lib.rs\t2026-07-13 00:00:00\n";
    assert!(check_diff_paths(diff).is_ok());
}

#[test]
fn bad_git_header_is_its_own_error() {
    let err = check_diff_paths("diff --git nonsense\n").unwrap_err();
    assert_eq!(err, DiffPathError::BadGitHeader("diff --git nonsense".into()));
    assert_eq!(
        err.message(),
        "cannot parse diff header \"diff --git nonsense\": expected `diff --git a/<path> b/<path>` with plain unquoted paths"
    );
}

#[test]
fn request_fields_are_validated() {
    assert!(check_target("cjson_2-x").is_ok());
    assert_eq!(check_target(""), Err("invalid target name"));
    assert_eq!(check_target("../etc"), Err("invalid target name"));
    assert_eq!(check_target("a.b"), Err("invalid target name"));
    assert!(check_run_id("phase2-cjson_001").is_ok());
    assert_eq!(check_run_id("x;rm"), Err("bad run id"));
    assert!(check_patch_id("0123456789aB").is_ok());
    assert_eq!(check_patch_id("0123456789a"), Err("bad patch id"));
    assert_eq!(check_patch_id("0123456789ag"), Err("bad patch id"));
    assert!(check_playbook_class(1).is_ok());
    assert!(check_playbook_class(7).is_ok());
    assert_eq!(check_playbook_class(0), Err("playbook class must be 1-7"));
    assert_eq!(check_playbook_class(8), Err("playbook class must be 1-7"));
    assert_eq!(playbook_prefix(5), "05-");
}

#[test]
fn proposed_diff_needs_trailing_newline_and_clean_paths() {
    assert!(check_proposed_diff("--- a/x\n+++ b/x\n").is_ok());
    assert_eq!(
        check_proposed_diff("--- a/x\n+++ b/x"),
        Err("diff must end with a trailing newline (git would report 'corrupt patch' at EOF)".into())
    );
    assert_eq!(
        check_proposed_diff("--- a/x\n+++ /etc/passwd\n"),
        Err(check_diff_paths("--- a/x\n+++ /etc/passwd\n").unwrap_err().message())
    );
}

#[test]
fn shell_quoting_escapes_single_quotes() {
    assert_eq!(shq("plain"), "'plain'");
    assert_eq!(shq("it's"), "'it'\\''s'");
    assert_eq!(shq(""), "''");
}

#[test]
fn pipeline_scripts_are_laid_out_exactly() {
    let inner = inner_script(
        "r1", "LOCK", "make", "t", "cand/bin", "3", "hyp's", "hot()", "p.diff", "no-net.sh",
    );
    assert_eq!(
        inner,
        "printf %s 'r1' > 'LOCK'\n( set -e\nmake\ncargo run -q -p verdict -- 't' \
         --rebuild-baseline --candidate-bin 'cand/bin' --run-id 'r1' --playbook-class '3' \
         --hypothesis 'hyp'\\''s' --hotspot 'hot()' --patch-file 'p.diff' --isolation-note 'no-net.sh'\n)\n"
    );
    assert_eq!(
        outer_script("w", "echo hi", "L"),
        "'w' sh -c 'echo hi'\nrc=$?\nrm -f 'L'\n[ \"$rc\" -eq 0 ] || echo \"HOTPATH-PIPELINE-FAILED (exit $rc)\"\n"
    );
}

#[test]
fn isolation_note_is_honest() {
    assert_eq!(isolation_note(Some("/opt/wrap"), true, false), "/opt/wrap");
    assert_eq!(isolation_note(None, false, false), "no-net.sh");
    assert_eq!(isolation_note(None, true, true), "no-net.sh");
    assert_eq!(
        isolation_note(None, true, false),
        "no-net.sh (HOTPATH_ALLOW_UNISOLATED=1 \u{2014} network NOT isolated)"
    );
}

#[test]
fn source_window_numbers_and_clamps() {
    let text = "a\nb\nc\nd\n";
    assert_eq!(
        read_window(text, 1, 2),
        ("2\tb\n3\tc".to_string(), 4, 2, 3, true)
    );
    assert_eq!(
        read_window(text, 0, usize::MAX),
        ("1\ta\n2\tb\n3\tc\n4\td".to_string(), 4, 1, 4, false)
    );
    assert_eq!(read_window(text, 10, 5), (String::new(), 4, 5, 4, false));
}

#[test]
fn log_tail_keeps_last_twelve_lines() {
    let log: String = (1..=15).map(|i| format!("l{i}\n")).collect();
    let expected: Vec<String> = (4..=15).map(|i| format!("l{i}")).collect();
    assert_eq!(log_tail(&log), expected.join("\n"));
    assert_eq!(log_tail("one\ntwo"), "one\ntwo");
    assert!(pipeline_failed("...\nHOTPATH-PIPELINE-FAILED (exit 97)\n"));
    assert!(!pipeline_failed("all good\n"));
}

#[test]
fn patch_id_is_twelve_hex_of_sha256() {
    assert_eq!(patch_id("abc"), "ba7816bf8f01");
    assert_eq!(patch_id(""), "e3b0c44298fc");
}

#[test]
fn running_pipeline_refusal_names_the_run() {
    assert_eq!(
        running_refusal("phase2-x-001\n"),
        "verdict pipeline phase2-x-001 in flight (results/pending/RUNNING.lock present \u{2014} wait for \
         read_verdict to resolve it, or remove the lock if the pipeline is dead)"
    );
    assert!(running_refusal("  ").starts_with("verdict pipeline unknown in flight"));
}

#[test]
fn each_diff_line_is_vetted_alone() {
    let diff = "--- a/ok.rs\n+++ b/ok.rs\n@@ -1 +1 @@\nrename to ../evil\n+++ /abs\n";
    let whole = check_diff_paths(diff).unwrap_err();
    let first_bad = diff.lines().find(|l| check_diff_paths(l).is_err()).unwrap();
    assert_eq!(first_bad, "rename to ../evil");
    assert_eq!(whole, check_diff_paths(first_bad).unwrap_err());
    for l in "--- a/ok.rs\n+++ b/ok.rs\n context\n".lines() {
        assert!(check_diff_paths(l).is_ok());
    }
    assert!(check_diff_paths("--- a/ok.rs\n+++ b/ok.rs\n context\n").is_ok());
}
