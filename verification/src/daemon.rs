//! The pure decisions of the harness daemon: request-field validation,
//! shell quoting, the detached pipeline scripts, the source-window and
//! log-tail renderings, and the patch id. Sockets, git and files are the
//! caller's part.

use vstd::prelude::*;
use crate::text::{
    append, chars_of, contains, contains_exec, dec, ends_with, ends_with_exec, join_exec, join_with, lines, replace_all, slice_of,
    split_lines, string_of, trim, trimmed, u64_dec,
};
use crate::orchestrate::replace_chars;
use crate::allowlist::{check_diff_paths, diff_error_message, diff_verdict};
use vstd::string::StringSliceAdditionalSpecFns;

verus! {

pub open spec fn is_ascii_alnum(c: char) -> bool {
    let u = c as u32;
    (48 <= u <= 57) || (65 <= u <= 90) || (97 <= u <= 122)
}

pub open spec fn is_hex(c: char) -> bool {
    let u = c as u32;
    (48 <= u <= 57) || (65 <= u <= 70) || (97 <= u <= 102)
}

/// A plain directory-name character: ASCII alphanumeric, `-` or `_`.
pub open spec fn is_name_char(c: char) -> bool {
    is_ascii_alnum(c) || c == '-' || c == '_'
}

fn is_name_char_exec(c: char) -> (b: bool)
    ensures
        b == is_name_char(c),
{
    let u = c as u32;
    (48 <= u && u <= 57) || (65 <= u && u <= 90) || (97 <= u && u <= 122) || c == '-' || c == '_'
}

fn all_name_chars(s: &[char]) -> (b: bool)
    ensures
        b == forall|i: int| 0 <= i < s@.len() ==> is_name_char(#[trigger] s@[i]),
{
    let mut i: usize = 0;
    while i < s.len()
        invariant
            i <= s.len(),
            forall|k: int| 0 <= k < i ==> is_name_char(#[trigger] s@[k]),
        decreases s.len() - i,
    {
        if !is_name_char_exec(s[i]) {
            return false;
        }
        i += 1;
    }
    true
}

/// A target name must be a plain directory name: non-empty, and only ASCII
/// alphanumerics, `-` and `_` (no separators, no dots).
pub fn check_target(name: &str) -> (r: Result<(), &'static str>)
    ensures
        r is Ok <==> name@.len() > 0 && forall|i: int| 0 <= i < name@.len() ==> is_name_char(
            #[trigger] name@[i],
        ),
        r matches Err(m) ==> m@ == "invalid target name"@,
{
    let cs = chars_of(name);
    if cs.len() > 0 && all_name_chars(&cs) {
        Ok(())
    } else {
        Err("invalid target name")
    }
}

/// A run id: ASCII alphanumerics, `-` and `_` only.
pub fn check_run_id(run_id: &str) -> (r: Result<(), &'static str>)
    ensures
        r is Ok <==> forall|i: int| 0 <= i < run_id@.len() ==> is_name_char(#[trigger] run_id@[i]),
        r matches Err(m) ==> m@ == "bad run id"@,
{
    let cs = chars_of(run_id);
    if all_name_chars(&cs) {
        Ok(())
    } else {
        Err("bad run id")
    }
}

/// A patch id: exactly twelve ASCII hex digits.
pub fn check_patch_id(patch_id: &str) -> (r: Result<(), &'static str>)
    ensures
        r is Ok <==> patch_id@.len() == 12 && forall|i: int| 0 <= i < patch_id@.len() ==> is_hex(
            #[trigger] patch_id@[i],
        ),
        r matches Err(m) ==> m@ == "bad patch id"@,
{
    let cs = chars_of(patch_id);
    let mut i: usize = 0;
    while i < cs.len()
        invariant
            i <= cs.len(),
            cs@ == patch_id@,
            forall|k: int| 0 <= k < i ==> is_hex(#[trigger] cs@[k]),
        decreases cs.len() - i,
    {
        let u = cs[i] as u32;
        if !((48 <= u && u <= 57) || (65 <= u && u <= 70) || (97 <= u && u <= 102)) {
            assert(!is_hex(cs@[i as int]));
            return Err("bad patch id");
        }
        i += 1;
    }
    if cs.len() == 12 {
        Ok(())
    } else {
        Err("bad patch id")
    }
}

/// A proposed diff is vetted before `git apply` sees it: it must end with
/// a newline (git would otherwise report an opaque "corrupt patch" at EOF)
/// and every path its headers name must pass the allowlist. The error is
/// the refusal as the agent reads it.
pub fn check_proposed_diff(diff: &str) -> (r: Result<(), String>)
    ensures
        r is Ok <==> ends_with(diff@, "\n"@) && diff_verdict(diff@) is None,
        r matches Err(m) ==> m@ == if !ends_with(diff@, "\n"@) {
            "diff must end with a trailing newline (git would report 'corrupt patch' at EOF)"@
        } else {
            diff_error_message(diff_verdict(diff@)->0)
        },
{
    if !ends_with_exec(&chars_of(diff), &chars_of("\n")) {
        return Err(
            String::from_str(
                "diff must end with a trailing newline (git would report 'corrupt patch' at EOF)",
            ),
        );
    }
    match check_diff_paths(diff) {
        Ok(()) => Ok(()),
        Err(e) => Err(e.message()),
    }
}

/// The refusal of an op that would swap the workspace tree while a
/// detached pipeline benches it, naming the run id the lock file holds.
pub open spec fn running_refusal_text(lock_content: Seq<char>) -> Seq<char> {
    let rid = trim(lock_content);
    "verdict pipeline "@ + (if rid.len() == 0 {
        "unknown"@
    } else {
        rid
    }) + " in flight (results/pending/RUNNING.lock present \u{2014} wait for read_verdict to resolve it, or remove the lock if the pipeline is dead)"@
}

/// The refusal for a pipeline in flight (see `running_refusal_text`);
/// `lock_content` is the lock file's text, empty when unreadable.
pub fn running_refusal(lock_content: &str) -> (r: String)
    ensures
        r@ == running_refusal_text(lock_content@),
{
    let rid = trimmed(&chars_of(lock_content));
    let mut v = chars_of("verdict pipeline ");
    if rid.len() == 0 {
        append(&mut v, &chars_of("unknown"));
    } else {
        append(&mut v, &rid);
    }
    append(
        &mut v,
        &chars_of(
            " in flight (results/pending/RUNNING.lock present \u{2014} wait for read_verdict to resolve it, or remove the lock if the pipeline is dead)",
        ),
    );
    string_of(&v)
}

/// A playbook class is 1 through 7.
pub fn check_playbook_class(class: u8) -> (r: Result<(), &'static str>)
    ensures
        r is Ok <==> 1 <= class <= 7,
        r matches Err(m) ==> m@ == "playbook class must be 1-7"@,
{
    if 1 <= class && class <= 7 {
        Ok(())
    } else {
        Err("playbook class must be 1-7")
    }
}

/// The file-name prefix of a playbook class: two digits and a dash.
pub fn playbook_prefix(class: u8) -> (r: String)
    requires
        1 <= class <= 7,
    ensures
        r@ == "0"@ + dec(class as nat) + "-"@,
{
    let mut v = chars_of("0");
    append(&mut v, &u64_dec(class as u64));
    append(&mut v, &chars_of("-"));
    string_of(&v)
}

/// Single-quoting for a generated shell script: `'...'`, each embedded
/// quote written as `'\''`.
pub open spec fn shell_quoted(s: Seq<char>) -> Seq<char> {
    "'"@ + replace_all(s, "'"@, "'\\''"@) + "'"@
}

/// How a POSIX shell reads back a word made of single-quoted runs and
/// backslash escapes: inside quotes every character stands for itself up
/// to the closing quote; outside, a quote opens a run and `\c` stands for
/// `c`.
pub open spec fn sh_read(q: Seq<char>, quoted: bool) -> Seq<char>
    decreases q.len(),
{
    if q.len() == 0 {
        seq![]
    } else if quoted {
        if q[0] == '\'' {
            sh_read(q.drop_first(), false)
        } else {
            seq![q[0]] + sh_read(q.drop_first(), true)
        }
    } else if q[0] == '\'' {
        sh_read(q.drop_first(), true)
    } else if q[0] == '\\' && q.len() >= 2 {
        seq![q[1]] + sh_read(q.skip(2), false)
    } else {
        seq![q[0]] + sh_read(q.drop_first(), false)
    }
}

/// Whether a shell reads `q` as quoting only: it ends outside quotes, and
/// outside quotes there is nothing but quotes and backslash escapes (no
/// bare character a shell could take as a separator, an expansion or an
/// operator).
pub open spec fn sh_quoting_only(q: Seq<char>, quoted: bool) -> bool
    decreases q.len(),
{
    if q.len() == 0 {
        !quoted
    } else if quoted {
        sh_quoting_only(q.drop_first(), q[0] != '\'')
    } else if q[0] == '\'' {
        sh_quoting_only(q.drop_first(), true)
    } else if q[0] == '\\' && q.len() >= 2 {
        sh_quoting_only(q.skip(2), false)
    } else {
        false
    }
}

proof fn lemma_quoted_body(s: Seq<char>, rest: Seq<char>)
    ensures
        sh_read(replace_all(s, "'"@, "'\\''"@) + rest, true) == s + sh_read(rest, true),
        sh_quoting_only(replace_all(s, "'"@, "'\\''"@) + rest, true) == sh_quoting_only(rest, true),
    decreases s.len(),
{
    reveal_strlit("'");
    reveal_strlit("'\\''");
    assert("'"@ =~= seq!['\'']);
    assert("'\\''"@ =~= seq!['\'', '\\', '\'', '\'']);
    let body = replace_all(s, "'"@, "'\\''"@);
    if s.len() == 0 {
        assert(body + rest =~= rest);
        assert(s + sh_read(rest, true) =~= sh_read(rest, true));
    } else if s.take(1) =~= "'"@ {
        let t = s.skip(1);
        lemma_quoted_body(t, rest);
        let q = body + rest;
        let tail = replace_all(t, "'"@, "'\\''"@) + rest;
        assert(q =~= "'\\''"@ + tail);
        let q1 = q.drop_first();
        assert(q1[0] == '\\' && q1[1] == '\'');
        let q2 = q1.skip(2);
        assert(q2 =~= seq!['\''] + tail);
        assert(q2.drop_first() =~= tail);
        assert(sh_read(q, true) == sh_read(q1, false));
        assert(sh_read(q1, false) == seq!['\''] + sh_read(q2, false));
        assert(sh_read(q2, false) == sh_read(tail, true));
        assert(sh_quoting_only(q, true) == sh_quoting_only(q1, false));
        assert(sh_quoting_only(q1, false) == sh_quoting_only(q2, false));
        assert(sh_quoting_only(q2, false) == sh_quoting_only(tail, true));
        assert(s =~= seq!['\''] + t);
        assert(s + sh_read(rest, true) =~= seq!['\''] + (t + sh_read(rest, true)));
    } else {
        let t = s.drop_first();
        lemma_quoted_body(t, rest);
        let q = body + rest;
        let tail = replace_all(t, "'"@, "'\\''"@) + rest;
        assert(q =~= seq![s[0]] + tail);
        assert(s[0] != '\'') by {
            if s[0] == '\'' {
                assert(s.take(1) =~= "'"@);
            }
        }
        assert(q.drop_first() =~= tail);
        assert(sh_read(q, true) == seq![s[0]] + sh_read(tail, true));
        assert(sh_quoting_only(q, true) == sh_quoting_only(tail, true));
        assert(s + sh_read(rest, true) =~= seq![s[0]] + (t + sh_read(rest, true)));
    }
}

/// A shell reads a quoted string back as exactly the string, and the
/// quoted form is quoting only: whatever `s` holds, embedding
/// `shell_quoted(s)` in a script passes `s` as one literal word.
pub proof fn law_shell_quoting_reads_back(s: Seq<char>)
    ensures
        sh_read(shell_quoted(s), false) == s,
        sh_quoting_only(shell_quoted(s), false),
{
    reveal_strlit("'");
    assert("'"@ =~= seq!['\'']);
    let body = replace_all(s, "'"@, "'\\''"@);
    lemma_quoted_body(s, "'"@);
    let q = shell_quoted(s);
    assert(q =~= seq!['\''] + (body + "'"@));
    assert(q.drop_first() =~= body + "'"@);
    let close: Seq<char> = "'"@;
    assert(close.drop_first() =~= Seq::<char>::empty());
    assert(sh_read(close.drop_first(), false) =~= Seq::<char>::empty());
    assert(sh_quoting_only(close.drop_first(), false));
    assert(sh_read(close, true) =~= Seq::<char>::empty());
    assert(s + sh_read(close, true) =~= s);
    assert(sh_quoting_only(close, true));
}

/// Single-quotes a string for safe embedding in a generated shell script.
pub fn shq(s: &str) -> (r: String)
    ensures
        r@ == shell_quoted(s@),
{
    proof {
        reveal_strlit("'");
    }
    let mut v = chars_of("'");
    let body = replace_chars(&chars_of(s), &chars_of("'"), &chars_of("'\\''"));
    append(&mut v, &body);
    append(&mut v, &chars_of("'"));
    string_of(&v)
}

/// The script run inside the isolation wrapper: write the run lock, then in
/// an errexit subshell build the candidate and run the verdict pipeline.
pub open spec fn inner_script_spec(
    run_id: Seq<char>,
    lock: Seq<char>,
    build: Seq<char>,
    target: Seq<char>,
    candidate_bin: Seq<char>,
    class: Seq<char>,
    hypothesis: Seq<char>,
    hotspot: Seq<char>,
    patch_file: Seq<char>,
    isolation: Seq<char>,
) -> Seq<char> {
    "printf %s "@ + shell_quoted(run_id) + " > "@ + shell_quoted(lock) + "\n( set -e\n"@ + build
        + "\ncargo run -q -p verdict -- "@ + shell_quoted(target)
        + " --rebuild-baseline --candidate-bin "@ + shell_quoted(candidate_bin) + " --run-id "@
        + shell_quoted(run_id) + " --playbook-class "@ + shell_quoted(class) + " --hypothesis "@
        + shell_quoted(hypothesis) + " --hotspot "@ + shell_quoted(hotspot) + " --patch-file "@
        + shell_quoted(patch_file) + " --isolation-note "@ + shell_quoted(isolation) + "\n)\n"@
}

/// The script run outside the wrapper: invoke the wrapper on the inner
/// script, then always release the lock and mark a failed run.
pub open spec fn outer_script_spec(wrapper: Seq<char>, inner: Seq<char>, lock: Seq<char>) -> Seq<
    char,
> {
    shell_quoted(wrapper) + " sh -c "@ + shell_quoted(inner) + "\nrc=$?\nrm -f "@ + shell_quoted(
        lock,
    ) + "\n[ \"$rc\" -eq 0 ] || echo \"HOTPATH-PIPELINE-FAILED (exit $rc)\"\n"@
}

fn push_str(v: &mut Vec<char>, s: &str)
    ensures
        final(v)@ == old(v)@ + s@,
{
    append(v, &chars_of(s));
}

fn push_quoted(v: &mut Vec<char>, s: &str)
    ensures
        final(v)@ == old(v)@ + shell_quoted(s@),
{
    let q = shq(s);
    append(v, &chars_of(q.as_str()));
}

/// The script run inside the isolation wrapper (see `inner_script_spec`),
/// every value single-quoted.
pub fn inner_script(
    run_id: &str,
    lock: &str,
    build: &str,
    target: &str,
    candidate_bin: &str,
    class: &str,
    hypothesis: &str,
    hotspot: &str,
    patch_file: &str,
    isolation: &str,
) -> (r: String)
    ensures
        r@ == inner_script_spec(
            run_id@,
            lock@,
            build@,
            target@,
            candidate_bin@,
            class@,
            hypothesis@,
            hotspot@,
            patch_file@,
            isolation@,
        ),
{
    let mut v: Vec<char> = Vec::new();
    push_str(&mut v, "printf %s ");
    push_quoted(&mut v, run_id);
    push_str(&mut v, " > ");
    push_quoted(&mut v, lock);
    push_str(&mut v, "\n( set -e\n");
    push_str(&mut v, build);
    push_str(&mut v, "\ncargo run -q -p verdict -- ");
    push_quoted(&mut v, target);
    push_str(&mut v, " --rebuild-baseline --candidate-bin ");
    push_quoted(&mut v, candidate_bin);
    push_str(&mut v, " --run-id ");
    push_quoted(&mut v, run_id);
    push_str(&mut v, " --playbook-class ");
    push_quoted(&mut v, class);
    push_str(&mut v, " --hypothesis ");
    push_quoted(&mut v, hypothesis);
    push_str(&mut v, " --hotspot ");
    push_quoted(&mut v, hotspot);
    push_str(&mut v, " --patch-file ");
    push_quoted(&mut v, patch_file);
    push_str(&mut v, " --isolation-note ");
    push_quoted(&mut v, isolation);
    push_str(&mut v, "\n)\n");
    assert(v@ =~= inner_script_spec(
        run_id@,
        lock@,
        build@,
        target@,
        candidate_bin@,
        class@,
        hypothesis@,
        hotspot@,
        patch_file@,
        isolation@,
    ));
    string_of(&v)
}

/// The script run outside the wrapper (see `outer_script_spec`): the
/// failure accounting survives a wrapper that never runs the inner script.
pub fn outer_script(wrapper: &str, inner: &str, lock: &str) -> (r: String)
    ensures
        r@ == outer_script_spec(wrapper@, inner@, lock@),
{
    let mut v: Vec<char> = Vec::new();
    push_quoted(&mut v, wrapper);
    push_str(&mut v, " sh -c ");
    push_quoted(&mut v, inner);
    push_str(&mut v, "\nrc=$?\nrm -f ");
    push_quoted(&mut v, lock);
    push_str(&mut v, "\n[ \"$rc\" -eq 0 ] || echo \"HOTPATH-PIPELINE-FAILED (exit $rc)\"\n");
    assert(v@ =~= outer_script_spec(wrapper@, inner@, lock@));
    string_of(&v)
}

/// The isolation note recorded for a run: an explicit wrapper is recorded
/// as itself; the default wrapper says plainly when it will run without a
/// network namespace (`HOTPATH_ALLOW_UNISOLATED=1` on a host without one).
pub open spec fn isolation_note_spec(
    env_wrapper: Option<Seq<char>>,
    allow_unisolated: bool,
    netns_available: bool,
) -> Seq<char> {
    match env_wrapper {
        Some(w) => w,
        None => if allow_unisolated && !netns_available {
            "no-net.sh (HOTPATH_ALLOW_UNISOLATED=1 \u{2014} network NOT isolated)"@
        } else {
            "no-net.sh"@
        },
    }
}

/// The isolation note recorded for a run (see `isolation_note_spec`).
pub fn isolation_note(env_wrapper: Option<&str>, allow_unisolated: bool, netns_available: bool) -> (r:
    String)
    ensures
        r@ == isolation_note_spec(
            match env_wrapper {
                Some(w) => Some(w@),
                None => None,
            },
            allow_unisolated,
            netns_available,
        ),
{
    match env_wrapper {
        Some(w) => String::from_str(w),
        None => if allow_unisolated && !netns_available {
            String::from_str("no-net.sh (HOTPATH_ALLOW_UNISOLATED=1 \u{2014} network NOT isolated)")
        } else {
            String::from_str("no-net.sh")
        },
    }
}

/// The numbered rendering of lines `start..end`: `<n>\t<line>` with 1-based
/// numbers, joined with `\n`.
pub open spec fn numbered_window(ls: Seq<Seq<char>>, start: int, end: int) -> Seq<char> {
    join_with(
        Seq::new((end - start) as nat, |i: int| dec((start + i + 1) as nat) + "\t"@ + ls[start + i]),
        "\n"@,
    )
}

/// A window of a source file for one response: lines `offset..offset+limit`
/// (clamped to the file), numbered. Returns the content, the total line
/// count, the first and last line numbers returned, and whether lines
/// remain after the window.
pub fn read_window(text: &str, offset: usize, limit: usize) -> (r: (String, usize, usize, usize, bool))
    requires
        text@.len() < usize::MAX,
    ensures
        ({
            let ls = lines(text@);
            let total = ls.len() as int;
            let end = if offset + limit < total {
                offset + limit
            } else {
                total
            };
            let start = if offset < total {
                offset as int
            } else {
                total
            };
            &&& r.0@ == numbered_window(ls, start, end)
            &&& r.1 == total
            &&& r.2 == start + 1
            &&& r.3 == end
            &&& r.4 == (end < total)
        }),
{
    let cs = chars_of(text);
    let ls = split_lines(&cs);
    let ghost all = ls@.map_values(|l: Vec<char>| l@);
    let total = ls.len();
    let reach = offset.saturating_add(limit);
    let end = if reach < total {
        reach
    } else {
        total
    };
    let start = if offset < total {
        offset
    } else {
        total
    };
    let mut rows: Vec<Vec<char>> = Vec::new();
    let mut k = start;
    while k < end
        invariant
            start <= k <= end,
            end <= total,
            total == ls.len(),
            all == ls@.map_values(|l: Vec<char>| l@),
            rows@.len() == k - start,
            forall|i: int|
                0 <= i < rows@.len() ==> (#[trigger] rows@[i])@ == dec((start + i + 1) as nat)
                    + "\t"@ + all[start + i],
        decreases end - k,
    {
        let mut row = u64_dec((k + 1) as u64);
        push_str(&mut row, "\t");
        append(&mut row, &ls[k]);
        rows.push(row);
        k += 1;
    }
    let joined = join_exec(&rows, &chars_of("\n"));
    assert(rows@.map_values(|l: Vec<char>| l@) =~= Seq::new(
        (end - start) as nat,
        |i: int| dec((start + i + 1) as nat) + "\t"@ + all[start + i],
    ));
    proof {
        crate::text::lemma_lines_len(text@);
    }
    (string_of(&joined), total, start + 1, end, end < total)
}

/// The last twelve lines of a run log, joined with `\n`.
pub fn log_tail(text: &str) -> (r: String)
    ensures
        ({
            let ls = lines(text@);
            let from = if ls.len() > 12 {
                ls.len() - 12
            } else {
                0
            };
            r@ == join_with(ls.skip(from as int), "\n"@)
        }),
{
    let cs = chars_of(text);
    let ls = split_lines(&cs);
    let ghost all = ls@.map_values(|l: Vec<char>| l@);
    let from = if ls.len() > 12 {
        ls.len() - 12
    } else {
        0
    };
    let mut tail: Vec<Vec<char>> = Vec::new();
    let mut k = from;
    while k < ls.len()
        invariant
            from <= k <= ls.len(),
            all == ls@.map_values(|l: Vec<char>| l@),
            tail@.map_values(|l: Vec<char>| l@) == all.subrange(from as int, k as int),
        decreases ls.len() - k,
    {
        let ghost before = tail@.map_values(|l: Vec<char>| l@);
        let row = slice_of(&ls[k], 0, ls[k].len());
        assert(row@ =~= ls@[k as int]@);
        assert(all[k as int] == ls@[k as int]@);
        tail.push(row);
        assert(tail@.map_values(|l: Vec<char>| l@) =~= before.push(all[k as int]));
        assert(all.subrange(from as int, k + 1) =~= all.subrange(from as int, k as int).push(
            all[k as int],
        ));
        k += 1;
    }
    assert(all.subrange(from as int, ls.len() as int) =~= all.skip(from as int));
    string_of(&join_exec(&tail, &chars_of("\n")))
}

/// Whether a run log carries the launcher's failure marker.
pub fn pipeline_failed(log: &str) -> (b: bool)
    ensures
        b == contains(log@, "HOTPATH-PIPELINE-FAILED"@),
{
    contains_exec(&chars_of(log), &chars_of("HOTPATH-PIPELINE-FAILED"))
}

/// The id of a proposed patch: the first twelve hex digits of the SHA-256
/// of the diff's bytes.
pub fn patch_id(diff: &str) -> (r: String)
    ensures
        r@ == crate::pin::hex_lower(crate::pin::sha256_digest(diff.spec_bytes())).take(12),
{
    let h = crate::pin::sha256_hex_of(diff.as_bytes());
    let cs = chars_of(h.as_str());
    let head = slice_of(&cs, 0, 12);
    assert(head@ =~= h@.take(12));
    string_of(&head)
}

} // verus!
