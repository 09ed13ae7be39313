//! The decisions of the core gate sequence: the test-suite pin's path, the
//! differential-fuzz plan and its grading, and the outcome of each layer.
//! Processes, files and hashing of real outputs stay with the caller.

use vstd::prelude::*;
use crate::gates::{GateInputs, GateLayer, GateOutcome, GateReport};
use crate::policy::Divergence;
use crate::text::{debug_quoted, debug_string};
use crate::text::{
    all_digits, append, chars_of, dec, digits_value, first_index, first_index_exec, i32_dec, lines,
    parse_u64, replace_all, sdec, slice_of, split_lines, starts_with, starts_with_exec, string_of,
    u64_dec, is_digit, lemma_dec_spells, lemma_first_index, lemma_lines_append, strip_cr,
};

verus! {

// ------------------------------------------------------------------
// Test-suite pin path
// ------------------------------------------------------------------

/// Where the body of a path starts: after a leading `/` (the root), or after
/// a leading `.` component (`.` alone or `./...`); otherwise at 0.
pub open spec fn body_start(s: Seq<char>) -> int {
    if s.len() > 0 && s[0] == '/' {
        1
    } else if s.len() > 0 && s[0] == '.' && (s.len() == 1 || s[1] == '/') {
        1
    } else {
        0
    }
}

/// A piece between separators that names something: neither empty (a
/// doubled or trailing `/`) nor a `.`, both of which are read past.
pub open spec fn is_component(c: Seq<char>) -> bool {
    c.len() > 0 && !(c.len() == 1 && c[0] == '.')
}

/// Walking back from `k` inside the piece that ends at `e`: the path up to
/// the end of the last component, with trailing separators and `.`
/// pieces dropped, never cutting into the first `b` characters.
pub open spec fn trim_back(s: Seq<char>, k: int, e: int, b: int) -> Seq<char>
    decreases k,
{
    if k <= b || k <= 0 {
        if is_component(s.subrange(k, e)) {
            s.take(e)
        } else {
            s.take(k)
        }
    } else if s[k - 1] == '/' {
        if is_component(s.subrange(k, e)) {
            s.take(e)
        } else {
            trim_back(s, k - 1, k - 1, b)
        }
    } else {
        trim_back(s, k - 1, e, b)
    }
}

/// Walking back from `k` inside the piece that ends at `e`: drop the last
/// component and what follows it, then trim what is left (`trim_back`);
/// `None` when no component lies after the first `b` characters.
pub open spec fn parent_back(s: Seq<char>, k: int, e: int, b: int) -> Option<Seq<char>>
    decreases k,
{
    if k <= b || k <= 0 {
        if is_component(s.subrange(k, e)) {
            Some(s.take(k))
        } else {
            None
        }
    } else if s[k - 1] == '/' {
        if is_component(s.subrange(k, e)) {
            Some(trim_back(s, k - 1, k - 1, b))
        } else {
            parent_back(s, k - 1, k - 1, b)
        }
    } else {
        parent_back(s, k - 1, e, b)
    }
}

/// The parent of a Unix path, read by components: the path without its
/// final component (doubled separators, trailing separators and `.` pieces
/// are read past). A path with one relative component, or the path `.`, has
/// the empty parent; the empty path and the root alone have none.
pub open spec fn path_parent(s: Seq<char>) -> Option<Seq<char>> {
    let b = body_start(s);
    match parent_back(s, s.len() as int, s.len() as int, b) {
        Some(q) => Some(q),
        None => if b == 1 && s[0] == '.' {
            Some(Seq::<char>::empty())
        } else {
            None
        },
    }
}

/// `name` joined under the directory `dir`: a `/` goes between them unless
/// `dir` is empty or already ends with one.
pub open spec fn join_path(dir: Seq<char>, name: Seq<char>) -> Seq<char> {
    if dir.len() > 0 && dir.last() != '/' {
        dir + "/"@ + name
    } else {
        dir + name
    }
}

/// `TESTSUITE.sha256` beside the corpus manifest: joined under the
/// manifest path's parent, or under the empty path where it has none.
pub open spec fn suite_manifest_path_spec(corpus_manifest: Seq<char>) -> Seq<char> {
    let dir = match path_parent(corpus_manifest) {
        Some(q) => q,
        None => Seq::<char>::empty(),
    };
    join_path(dir, "TESTSUITE.sha256"@)
}

fn body_start_exec(cs: &Vec<char>) -> (b: usize)
    ensures
        b == body_start(cs@),
        b <= 1,
        b <= cs.len(),
{
    if cs.len() > 0 && cs[0] == '/' {
        1
    } else if cs.len() > 0 && cs[0] == '.' && (cs.len() == 1 || cs[1] == '/') {
        1
    } else {
        0
    }
}

fn is_component_at(cs: &Vec<char>, k: usize, e: usize) -> (r: bool)
    requires
        k <= e <= cs.len(),
    ensures
        r == is_component(cs@.subrange(k as int, e as int)),
{
    e > k && !(e == k + 1 && cs[k] == '.')
}

/// Length of `trim_back(cs, k0, k0, b)`, which is always a prefix of `cs`.
fn trim_back_len(cs: &Vec<char>, k0: usize, b: usize) -> (m: usize)
    requires
        b <= k0 <= cs.len(),
    ensures
        m <= cs.len(),
        cs@.take(m as int) == trim_back(cs@, k0 as int, k0 as int, b as int),
{
    let mut k = k0;
    let mut e = k0;
    loop
        invariant
            b <= k <= e <= k0 <= cs.len(),
            trim_back(cs@, k as int, e as int, b as int) == trim_back(cs@, k0 as int, k0 as int, b as int),
        decreases k,
    {
        if k <= b {
            if is_component_at(cs, k, e) {
                return e;
            } else {
                return k;
            }
        }
        if cs[k - 1] == '/' {
            if is_component_at(cs, k, e) {
                return e;
            }
            k = k - 1;
            e = k;
        } else {
            k = k - 1;
        }
    }
}

/// Length of `path_parent(cs)`, which is always a prefix of `cs`.
fn path_parent_len(cs: &Vec<char>) -> (r: Option<usize>)
    ensures
        match r {
            Some(m) => m <= cs.len() && path_parent(cs@) == Some(cs@.take(m as int)),
            None => path_parent(cs@) is None,
        },
{
    let b = body_start_exec(cs);
    let n = cs.len();
    let mut k = n;
    let mut e = n;
    let mut found: Option<usize> = None;
    loop
        invariant_except_break
            found is None,
        invariant
            b <= k <= e <= n == cs.len(),
            b == body_start(cs@),
            b <= 1,
            parent_back(cs@, k as int, e as int, b as int) == parent_back(cs@, n as int, n as int, b as int),
        ensures
            b == body_start(cs@),
            b <= 1,
            match found {
                Some(m) => m <= n && parent_back(cs@, n as int, n as int, b as int) == Some(
                    cs@.take(m as int),
                ),
                None => parent_back(cs@, n as int, n as int, b as int) is None,
            },
        decreases k,
    {
        if k <= b {
            if is_component_at(cs, k, e) {
                found = Some(k);
            }
            break;
        }
        if cs[k - 1] == '/' {
            if is_component_at(cs, k, e) {
                let m = trim_back_len(cs, k - 1, b);
                found = Some(m);
                break;
            }
            k = k - 1;
            e = k;
        } else {
            k = k - 1;
        }
    }
    match found {
        Some(m) => Some(m),
        None => if b == 1 && cs[0] == '.' {
            proof {
                assert(cs@.take(0) =~= Seq::<char>::empty());
            }
            Some(0)
        } else {
            None
        },
    }
}

/// TESTSUITE.sha256 lives beside the corpus MANIFEST.sha256, so its path
/// derives from the manifest's: joined under the manifest path's parent.
pub fn suite_manifest_path(corpus_manifest: &str) -> (r: String)
    ensures
        r@ == suite_manifest_path_spec(corpus_manifest@),
{
    let cs = chars_of(corpus_manifest);
    let m: usize = match path_parent_len(&cs) {
        Some(m) => m,
        None => 0,
    };
    proof {
        assert(cs@.take(0) =~= Seq::<char>::empty());
    }
    let mut out = slice_of(&cs, 0, m);
    proof {
        assert(out@ =~= cs@.take(m as int));
    }
    if m > 0 && cs[m - 1] != '/' {
        out.push('/');
    }
    let name = chars_of("TESTSUITE.sha256");
    append(&mut out, &name);
    proof {
        reveal_strlit("/");
    }
    string_of(&out)
}

// ------------------------------------------------------------------
// FUZZ-RESULT parsing
// ------------------------------------------------------------------

/// A strict unsigned decimal: one or more ASCII digits, no sign, fitting a u64.
pub open spec fn strict_u64(s: Seq<char>) -> Option<u64> {
    if s.len() > 0 && all_digits(s) && digits_value(s) <= u64::MAX {
        Some(digits_value(s) as u64)
    } else {
        None
    }
}

/// A strict unsigned decimal (see `strict_u64`).
pub fn parse_u64_strict(s: &[char]) -> (r: Option<u64>)
    ensures
        r == strict_u64(s@),
{
    if s.len() == 0 {
        return None;
    }
    let mut i: usize = 0;
    while i < s.len()
        invariant
            i <= s.len(),
            forall|k: int| 0 <= k < i ==> crate::text::is_digit(#[trigger] s@[k]),
        decreases s.len() - i,
    {
        let u = s[i] as u32;
        if !(48 <= u && u <= 57) {
            return None;
        }
        i += 1;
    }
    assert(s@[0] != '+');
    parse_u64(s)
}

/// `s` with one trailing `\r` removed, if present.
pub open spec fn strip_one_cr(s: Seq<char>) -> Seq<char> {
    if s.len() > 0 && s.last() == '\r' {
        s.drop_last()
    } else {
        s
    }
}

/// `(iters, divergences)` of a line of the exact form
/// `FUZZ-RESULT iters=<u64> divergences=<u64>` (single spaces, no sign).
pub open spec fn fuzz_line(line: Seq<char>) -> Option<(u64, u64)> {
    let l = strip_one_cr(line);
    let pre = "FUZZ-RESULT iters="@;
    if !starts_with(l, pre) {
        None
    } else {
        let rest = l.skip(pre.len() as int);
        let sp = first_index(rest, ' ');
        if sp >= rest.len() {
            None
        } else {
            let iters = rest.take(sp as int);
            let tail = rest.skip(sp + 1 as int);
            if !starts_with(tail, "divergences="@) {
                None
            } else {
                match (strict_u64(iters), strict_u64(tail.skip(12))) {
                    (Some(i), Some(d)) => Some((i, d)),
                    _ => None,
                }
            }
        }
    }
}

/// The result of the last line that parses, scanning from the end.
pub open spec fn last_fuzz_result(ls: Seq<Seq<char>>) -> Option<(u64, u64)>
    decreases ls.len(),
{
    if ls.len() == 0 {
        None
    } else {
        match fuzz_line(ls.last()) {
            Some(x) => Some(x),
            None => last_fuzz_result(ls.drop_last()),
        }
    }
}

/// A fuzz run that ends its output with the line
/// `FUZZ-RESULT iters=<i> divergences=<d>` (decimal, after any number of
/// complete earlier lines) is read as exactly those counts: `i` iterations
/// and `d` divergences. Its gate passes exactly when the command succeeded
/// and `d` is zero, and a divergence is recorded exactly when `d` is not.
pub proof fn law_fuzz_result_reads_the_written_counts(
    before: Seq<char>,
    iters: u64,
    divergences: u64,
    success: bool,
    exit_code: Option<i32>,
)
    requires
        before.len() == 0 || before.last() == '\n',
    ensures
        ({
            let line = "FUZZ-RESULT iters="@ + dec(iters as nat) + " divergences="@ + dec(
                divergences as nat,
            );
            let out = before + line + "\n"@;
            &&& last_fuzz_result(lines(out)) == Some((iters, divergences))
            &&& fuzz_grade(out, success, exit_code).0 == (success && divergences == 0)
            &&& fuzz_grade(out, success, exit_code).2 == iters
            &&& fuzz_grade(out, success, exit_code).3 == (divergences > 0)
        }),
{
    reveal_strlit("FUZZ-RESULT iters=");
    reveal_strlit(" divergences=");
    reveal_strlit("divergences=");
    reveal_strlit("\n");
    let pre = "FUZZ-RESULT iters="@;
    let mid = " divergences="@;
    let di = dec(iters as nat);
    let dd = dec(divergences as nat);
    lemma_dec_spells(iters as nat);
    lemma_dec_spells(divergences as nat);
    let line = pre + di + mid + dd;
    let nl = "\n"@;
    let out = before + line + nl;
    // the line as `fuzz_line` reads it
    assert(line.last() == dd.last());
    assert(is_digit(dd[dd.len() - 1]));
    assert(strip_one_cr(line) == line);
    assert(line.take(pre.len() as int) =~= pre);
    let rest = line.skip(pre.len() as int);
    assert(rest =~= di + mid + dd);
    assert forall|k: int| 0 <= k < di.len() implies rest[k] != ' ' by {
        assert(rest[k] == di[k]);
        assert(is_digit(di[k]));
    }
    assert(rest[di.len() as int] == ' ');
    lemma_first_index(rest, ' ', di.len() as int);
    assert(rest.take(di.len() as int) =~= di);
    let tail = rest.skip(di.len() + 1 as int);
    assert(tail =~= "divergences="@ + dd);
    assert(tail.take(12) =~= "divergences="@);
    assert(tail.skip(12) =~= dd);
    assert(fuzz_line(line) == Some((iters, divergences)));
    // the lines of the output: those before, then this one
    assert(before + line + nl =~= before + (line + nl));
    lemma_lines_append(before, line + nl);
    let ln = line + nl;
    assert forall|k: int| 0 <= k < line.len() implies ln[k] != '\n' by {
        assert(ln[k] == line[k]);
        if k >= pre.len() + di.len() + mid.len() {
            assert(line[k] == dd[k - pre.len() - di.len() - mid.len()]);
            assert(is_digit(dd[k - pre.len() - di.len() - mid.len()]));
        } else if k >= pre.len() && k < pre.len() + di.len() {
            assert(line[k] == di[k - pre.len()]);
            assert(is_digit(di[k - pre.len()]));
        }
    }
    lemma_first_index(ln, '\n', line.len() as int);
    assert(ln.take(line.len() as int) =~= line);
    assert(strip_cr(line) == line);
    assert(ln.skip(line.len() + 1 as int) =~= Seq::<char>::empty());
    assert(lines(Seq::<char>::empty()) =~= Seq::<Seq<char>>::empty());
    assert(lines(ln) =~= seq![line]);
    let all = lines(out);
    assert(all =~= lines(before) + seq![line]);
    assert(all.last() == line);
}

fn fuzz_line_exec(line: &[char]) -> (r: Option<(u64, u64)>)
    ensures
        r == fuzz_line(line@),
{
    proof {
        reveal_strlit("FUZZ-RESULT iters=");
        reveal_strlit("divergences=");
    }
    let l: Vec<char> = if line.len() > 0 && line[line.len() - 1] == '\r' {
        slice_of(line, 0, line.len() - 1)
    } else {
        slice_of(line, 0, line.len())
    };
    assert(l@ =~= strip_one_cr(line@));
    let pre = chars_of("FUZZ-RESULT iters=");
    if !starts_with_exec(&l, &pre) {
        return None;
    }
    let rest = slice_of(&l, pre.len(), l.len());
    assert(rest@ =~= l@.skip(pre@.len() as int));
    let sp = first_index_exec(&rest, 0, ' ');
    assert(rest@.skip(0) =~= rest@);
    if sp >= rest.len() {
        return None;
    }
    let iters = slice_of(&rest, 0, sp);
    let tail = slice_of(&rest, sp + 1, rest.len());
    assert(iters@ =~= rest@.take(sp as int));
    assert(tail@ =~= rest@.skip(sp + 1));
    let dpre = chars_of("divergences=");
    if !starts_with_exec(&tail, &dpre) {
        return None;
    }
    let dv = slice_of(&tail, 12, tail.len());
    assert(dv@ =~= tail@.skip(12));
    match (parse_u64_strict(&iters), parse_u64_strict(&dv)) {
        (Some(i), Some(d)) => Some((i, d)),
        _ => None,
    }
}

/// Parses the last `FUZZ-RESULT iters=<u64> divergences=<u64>` stdout line
/// of a fuzz command (exact ASCII form, single spaces). Returns
/// `(iters, divergences)`, or `None` when no line matches.
pub fn parse_fuzz_result(stdout: &str) -> (r: Option<(u64, u64)>)
    ensures
        r == last_fuzz_result(lines(stdout@)),
{
    let cs = chars_of(stdout);
    let ls = split_lines(&cs);
    let ghost all = ls@.map_values(|l: Vec<char>| l@);
    let mut k: usize = ls.len();
    assert(all.take(k as int) =~= all);
    while k > 0
        invariant
            k <= ls.len(),
            all == ls@.map_values(|l: Vec<char>| l@),
            all == lines(stdout@),
            last_fuzz_result(all) == last_fuzz_result(all.take(k as int)),
        decreases k,
    {
        let ghost t = all.take(k as int);
        assert(t.last() == ls@[k - 1]@);
        assert(t.drop_last() =~= all.take(k - 1));
        match fuzz_line_exec(&ls[k - 1]) {
            Some(x) => return Some(x),
            None => {},
        }
        k -= 1;
    }
    assert(all.take(0) =~= Seq::<Seq<char>>::empty());
    None
}

// ------------------------------------------------------------------
// Fuzz command and plan
// ------------------------------------------------------------------

/// `s` with every non-overlapping occurrence of `p` replaced by `r`.
pub fn replace_chars(s: &[char], p: &[char], r: &[char]) -> (out: Vec<char>)
    requires
        p@.len() > 0,
    ensures
        out@ == replace_all(s@, p@, r@),
{
    let mut out: Vec<char> = Vec::new();
    let mut pos: usize = 0;
    assert(s@.skip(0) =~= s@);
    while pos < s.len()
        invariant
            pos <= s.len(),
            p@.len() > 0,
            replace_all(s@, p@, r@) == out@ + replace_all(s@.skip(pos as int), p@, r@),
        decreases s.len() - pos,
    {
        let ghost t = s@.skip(pos as int);
        if s.len() - pos < p.len() {
            assert(replace_all(t, p@, r@) == t);
            let rest = slice_of(s, pos, s.len());
            assert(rest@ =~= t);
            append(&mut out, &rest);
            pos = s.len();
            assert(s@.skip(pos as int) =~= Seq::<char>::empty());
        } else if crate::text::occurs_at_exec(s, p, pos) {
            assert(t.take(p@.len() as int) =~= s@.subrange(pos as int, pos + p@.len()));
            assert(t.skip(p@.len() as int) =~= s@.skip(pos + p@.len()));
            let ghost before = out@;
            append(&mut out, r);
            assert(before + (r@ + replace_all(s@.skip(pos + p@.len()), p@, r@)) =~= out@
                + replace_all(s@.skip(pos + p@.len()), p@, r@));
            pos = pos + p.len();
        } else {
            assert(t.take(p@.len() as int) =~= s@.subrange(pos as int, pos + p@.len()));
            assert(t.drop_first() =~= s@.skip(pos + 1));
            let ghost before = out@;
            out.push(s[pos]);
            assert(before + (seq![t[0]] + replace_all(s@.skip(pos + 1), p@, r@)) =~= out@
                + replace_all(s@.skip(pos + 1), p@, r@));
            pos = pos + 1;
        }
    }
    assert(s@.skip(pos as int) =~= Seq::<char>::empty());
    assert(out@ + Seq::<char>::empty() =~= out@);
    out
}

/// The fuzz command template with `{iters}`, `{baseline}` and `{candidate}`
/// substituted, in that order.
pub open spec fn fuzz_command_spec(tmpl: Seq<char>, iters: u64, baseline: Seq<char>, candidate: Seq<
    char,
>) -> Seq<char> {
    replace_all(
        replace_all(replace_all(tmpl, "{iters}"@, dec(iters as nat)), "{baseline}"@, baseline),
        "{candidate}"@,
        candidate,
    )
}

/// Substitutes the three `[gates].fuzz` template placeholders: `{iters}`
/// is the iteration budget, `{baseline}` the pristine baseline binary and
/// `{candidate}` the patched one.
pub fn fuzz_command(tmpl: &str, iters: u64, baseline: &str, candidate: &str) -> (r: String)
    ensures
        r@ == fuzz_command_spec(tmpl@, iters, baseline@, candidate@),
{
    proof {
        reveal_strlit("{iters}");
        reveal_strlit("{baseline}");
        reveal_strlit("{candidate}");
    }
    let t = chars_of(tmpl);
    let n = u64_dec(iters);
    let s1 = replace_chars(&t, &chars_of("{iters}"), &n);
    let s2 = replace_chars(&s1, &chars_of("{baseline}"), &chars_of(baseline));
    let s3 = replace_chars(&s2, &chars_of("{candidate}"), &chars_of(candidate));
    string_of(&s3)
}

/// Recorded verbatim when the target declares no fuzz command at all.
pub open spec fn no_command_reason() -> Seq<char> {
    "no fuzz command declared in target.toml [gates].fuzz"@
}

/// Recorded verbatim when a fuzz command exists but there is no pristine
/// baseline: comparing the candidate against itself would be a gate that
/// cannot fail.
pub open spec fn no_baseline_reason() -> Seq<char> {
    "differential fuzz needs a pristine baseline binary; run the accept path (`just verdict`), which rebuilds one"@
}

/// What the differential-fuzz gate will do, decided before any process runs.
#[derive(Debug, PartialEq, Eq)]
pub enum FuzzPlan {
    Skip(&'static str),
    Run(String),
}

/// Differential fuzz is a baseline-vs-candidate gate: it needs both sides.
/// Missing either one is a skip with the reason recorded, never a silent
/// self-comparison and never a hard error.
pub fn plan_fuzz(fuzz: Option<&str>, inputs: &GateInputs) -> (r: FuzzPlan)
    ensures
        fuzz is None ==> (r matches FuzzPlan::Skip(m) && m@ == no_command_reason()),
        fuzz is Some && inputs.baseline_binary is None ==> (r matches FuzzPlan::Skip(m) && m@
            == no_baseline_reason()),
        fuzz matches Some(t) ==> (inputs.baseline_binary matches Some(b) ==> r matches FuzzPlan::Run(
            c,
        ) && c@ == fuzz_command_spec(t@, inputs.fuzz_iters, b@, inputs.candidate_binary@)),
{
    match (fuzz, inputs.baseline_binary) {
        (None, _) => FuzzPlan::Skip("no fuzz command declared in target.toml [gates].fuzz"),
        (Some(_), None) => FuzzPlan::Skip(
            "differential fuzz needs a pristine baseline binary; run the accept path (`just verdict`), which rebuilds one",
        ),
        (Some(tmpl), Some(baseline)) => FuzzPlan::Run(
            fuzz_command(tmpl, inputs.fuzz_iters, baseline, inputs.candidate_binary),
        ),
    }
}

// ------------------------------------------------------------------
// Gate grading
// ------------------------------------------------------------------

/// What `{:?}` prints for an `Option<i32>`.
pub open spec fn option_i32_debug(e: Option<i32>) -> Seq<char> {
    match e {
        None => "None"@,
        Some(x) => "Some("@ + sdec(x as int) + ")"@,
    }
}

pub open spec fn no_result_detail() -> Seq<char> {
    "fuzz command did not report FUZZ-RESULT"@
}

/// Grade of one executed fuzz run: passed iff the command exited 0, printed
/// a well-formed `FUZZ-RESULT` line, and reported zero divergences.
/// Returns `(outcome, iterations executed, divergence found)`.
pub open spec fn fuzz_grade(stdout: Seq<char>, success: bool, exit_code: Option<i32>) -> (
    bool,
    Seq<char>,
    u64,
    bool,
) {
    match last_fuzz_result(lines(stdout)) {
        None => (false, no_result_detail(), 0, false),
        Some((iters, div)) => (
            success && div == 0,
            "exit="@ + option_i32_debug(exit_code) + " iters="@ + dec(iters as nat)
                + " divergences="@ + dec(div as nat),
            iters,
            div > 0,
        ),
    }
}

fn option_i32_debug_exec(e: Option<i32>) -> (r: Vec<char>)
    ensures
        r@ == option_i32_debug(e),
{
    match e {
        None => chars_of("None"),
        Some(x) => {
            let mut v = chars_of("Some(");
            append(&mut v, &i32_dec(x));
            append(&mut v, &chars_of(")"));
            v
        },
    }
}

/// Grades one executed fuzz run (see `fuzz_grade`): a run that never
/// reports the result line is a failed gate, not a pass by silence.
pub fn fuzz_gate_outcome(stdout: &str, success: bool, exit_code: Option<i32>) -> (r: (
    GateOutcome,
    u64,
    bool,
))
    ensures
        ({
            let (passed, detail, iters, diverged) = fuzz_grade(stdout@, success, exit_code);
            &&& passed ==> r.0 is Passed
            &&& !passed ==> (r.0 matches GateOutcome::Failed { detail: d } && d@ == detail)
            &&& r.1 == iters
            &&& r.2 == diverged
        }),
{
    match parse_fuzz_result(stdout) {
        None => (
            GateOutcome::Failed {
                detail: String::from_str("fuzz command did not report FUZZ-RESULT"),
            },
            0,
            false,
        ),
        Some((iters, divergences)) => {
            let outcome = if success && divergences == 0 {
                GateOutcome::Passed
            } else {
                let mut v = chars_of("exit=");
                append(&mut v, &option_i32_debug_exec(exit_code));
                append(&mut v, &chars_of(" iters="));
                append(&mut v, &u64_dec(iters));
                append(&mut v, &chars_of(" divergences="));
                append(&mut v, &u64_dec(divergences));
                GateOutcome::Failed { detail: string_of(&v) }
            };
            (outcome, iters, divergences > 0)
        },
    }
}

/// The outcome of a skipped fuzz gate: no iterations, no divergence.
pub fn fuzz_skip_outcome(reason: &str) -> (r: (GateOutcome, u64, bool))
    ensures
        r.0 matches GateOutcome::Skipped { reason: m } && m@ == reason@,
        r.1 == 0,
        !r.2,
{
    (GateOutcome::Skipped { reason: String::from_str(reason) }, 0, false)
}

pub open spec fn missing_reference_detail() -> Seq<char> {
    "fp-tolerance policy requires corpus.golden_reference in target.toml"@
}

/// The fp-tolerance policy fails closed without a committed reference
/// output: there is nothing a tolerance could compare against.
pub fn fp_reference<T>(golden_reference: Option<&T>) -> (r: Result<&T, GateOutcome>)
    ensures
        golden_reference matches Some(p) ==> r == Ok::<&T, GateOutcome>(p),
        golden_reference is None ==> (r matches Err(GateOutcome::Failed { detail: d }) && d@
            == missing_reference_detail()),
{
    match golden_reference {
        Some(p) => Ok(p),
        None => Err(
            GateOutcome::Failed {
                detail: String::from_str(
                    "fp-tolerance policy requires corpus.golden_reference in target.toml",
                ),
            },
        ),
    }
}

/// The upstream-test layer: passed on success, otherwise failed with the
/// first 2000 characters of the suite's stderr.
pub fn upstream_outcome(success: bool, stderr: &str) -> (r: GateOutcome)
    ensures
        success ==> r is Passed,
        !success ==> (r matches GateOutcome::Failed { detail: d } && d@ == stderr@.take(
            if stderr@.len() < 2000 {
                stderr@.len() as int
            } else {
                2000
            },
        )),
{
    if success {
        GateOutcome::Passed
    } else {
        let cs = chars_of(stderr);
        let n = if cs.len() < 2000 {
            cs.len()
        } else {
            2000
        };
        let head = slice_of(&cs, 0, n);
        assert(head@ =~= stderr@.take(n as int));
        GateOutcome::Failed { detail: string_of(&head) }
    }
}

/// The byte-identical golden-replay layer: passed iff the replay succeeded
/// and its stdout hash equals the pinned one.
pub fn golden_hash_outcome(success: bool, exit_code: Option<i32>, expected: &str, actual: &str) -> (r:
    GateOutcome)
    ensures
        (success && expected@ == actual@) ==> r is Passed,
        !(success && expected@ == actual@) ==> (r matches GateOutcome::Failed { detail: d } && d@
            == "exit="@ + option_i32_debug(exit_code) + " expected="@ + expected@ + " actual="@
            + actual@),
{
    let e = chars_of(expected);
    let a = chars_of(actual);
    let same = e.len() == a.len() && starts_with_exec(&e, &a);
    proof {
        if same {
            assert(e@ =~= a@);
        }
    }
    if success && same {
        GateOutcome::Passed
    } else {
        let mut v = chars_of("exit=");
        append(&mut v, &option_i32_debug_exec(exit_code));
        append(&mut v, &chars_of(" expected="));
        append(&mut v, &e);
        append(&mut v, &chars_of(" actual="));
        append(&mut v, &a);
        GateOutcome::Failed { detail: string_of(&v) }
    }
}

/// The byte-identical golden-replay layer over the replay's raw stdout:
/// its SHA-256, in lowercase hex, must equal the pinned hash.
pub fn golden_stdout_outcome(success: bool, exit_code: Option<i32>, expected: &str, stdout: &[u8]) -> (r:
    GateOutcome)
    ensures
        ({
            let actual = crate::pin::hex_lower(crate::pin::sha256_digest(stdout@));
            &&& (success && expected@ == actual) ==> r is Passed
            &&& !(success && expected@ == actual) ==> (r matches GateOutcome::Failed { detail: d }
                && d@ == "exit="@ + option_i32_debug(exit_code) + " expected="@ + expected@
                + " actual="@ + actual)
        }),
{
    let actual = crate::pin::sha256_hex_of(stdout);
    golden_hash_outcome(success, exit_code, expected, actual.as_str())
}

/// The text of a golden-replay divergence under a tolerance policy.
pub open spec fn divergence_detail(token: usize, baseline: Seq<char>, candidate: Seq<char>, reason: Seq<
    char,
>) -> Seq<char> {
    "diverged at token/offset "@ + dec(token as nat) + ": baseline="@ + debug_quoted(baseline)
        + " candidate="@ + debug_quoted(candidate) + " \u{2014} "@ + reason
}

/// The golden-replay layer under a tolerance policy, from whether the
/// replay command succeeded and how its stdout compared with the committed
/// reference (the comparison is read only when the replay succeeded).
pub fn replay_outcome(success: bool, exit_code: Option<i32>, compared: Result<(), Divergence>) -> (r:
    GateOutcome)
    ensures
        !success ==> (r matches GateOutcome::Failed { detail: d } && d@
            == "golden replay command failed (exit="@ + option_i32_debug(exit_code) + ")"@),
        success && compared is Ok ==> r is Passed,
        success ==> (compared matches Err(v) ==> (r matches GateOutcome::Failed { detail: d } && d@
            == divergence_detail(v.token, v.baseline@, v.candidate@, v.reason@))),
{
    if !success {
        let mut v = chars_of("golden replay command failed (exit=");
        append(&mut v, &option_i32_debug_exec(exit_code));
        append(&mut v, &chars_of(")"));
        return GateOutcome::Failed { detail: string_of(&v) };
    }
    match compared {
        Ok(()) => GateOutcome::Passed,
        Err(d) => {
            let mut v = chars_of("diverged at token/offset ");
            append(&mut v, &u64_dec(d.token as u64));
            append(&mut v, &chars_of(": baseline="));
            append(&mut v, &chars_of(debug_string(&d.baseline).as_str()));
            append(&mut v, &chars_of(" candidate="));
            append(&mut v, &chars_of(debug_string(&d.candidate).as_str()));
            append(&mut v, &chars_of(" \u{2014} "));
            append(&mut v, &chars_of(d.reason.as_str()));
            GateOutcome::Failed { detail: string_of(&v) }
        },
    }
}

/// A command template with `{binary}` substituted by the binary under test
/// (the golden-replay and bench commands).
pub fn substitute_binary(tmpl: &str, binary: &str) -> (r: String)
    ensures
        r@ == replace_all(tmpl@, "{binary}"@, binary@),
{
    proof {
        reveal_strlit("{binary}");
    }
    let out = replace_chars(&chars_of(tmpl), &chars_of("{binary}"), &chars_of(binary));
    string_of(&out)
}

pub open spec fn sanitizers_deferred_reason() -> Seq<char> {
    "sanitizers run on the accept path in verdict (ASan/UBSan, TSan when configured)"@
}

/// The sanitizer layer of the core gates: deferred to the accept path.
pub fn sanitizers_deferred() -> (r: GateOutcome)
    ensures
        r matches GateOutcome::Skipped { reason: m } && m@ == sanitizers_deferred_reason(),
{
    GateOutcome::Skipped {
        reason: String::from_str(
            "sanitizers run on the accept path in verdict (ASan/UBSan, TSan when configured)",
        ),
    }
}

/// The equivalence mode a report records.
pub open spec fn mode_name(fp_tolerance: bool) -> Seq<char> {
    if fp_tolerance {
        "fp-tolerance"@
    } else {
        "byte-identical"@
    }
}

/// The report of one core gate run: the four layers in their fixed order
/// (upstream tests, golden replay, differential fuzz, and the sanitizer
/// layer, deferred to the accept path), the fuzz counts, and the
/// equivalence mode in force.
pub fn core_report(
    upstream: GateOutcome,
    golden: GateOutcome,
    fuzz: (GateOutcome, u64, bool),
    fp_tolerance: bool,
) -> (r: GateReport)
    ensures
        r.gates@.len() == 4,
        r.gates@[0] == (GateLayer::UpstreamTests, upstream),
        r.gates@[1] == (GateLayer::GoldenReplay, golden),
        r.gates@[2] == (GateLayer::DifferentialFuzz, fuzz.0),
        r.gates@[3].0 == GateLayer::Sanitizers,
        r.gates@[3].1 matches GateOutcome::Skipped { reason: m } && m@ == sanitizers_deferred_reason(),
        r.fuzz_iters == fuzz.1,
        r.fuzz_divergence == fuzz.2,
        r.equivalence_mode@ == mode_name(fp_tolerance),
{
    let (fuzz_outcome, fuzz_iters, fuzz_divergence) = fuzz;
    let mut gates: Vec<(GateLayer, GateOutcome)> = Vec::new();
    gates.push((GateLayer::UpstreamTests, upstream));
    gates.push((GateLayer::GoldenReplay, golden));
    gates.push((GateLayer::DifferentialFuzz, fuzz_outcome));
    gates.push((GateLayer::Sanitizers, sanitizers_deferred()));
    let mode = if fp_tolerance {
        String::from_str("fp-tolerance")
    } else {
        String::from_str("byte-identical")
    };
    GateReport { gates, fuzz_iters, fuzz_divergence, equivalence_mode: mode }
}

} // verus!
