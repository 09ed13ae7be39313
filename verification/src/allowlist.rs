//! Diff-header path vetting: the allowlist between agent-authored diffs and
//! `git apply` in a target workspace. Every path a diff header names must be
//! a plain relative path inside the workspace: no absolute paths, no `..`
//! component, no `.git`, no quoting.

use vstd::prelude::*;
use crate::text::{
    chars_of, concat, contains, debug_quoted, debug_string, first_index, first_index_exec, lines, occurs_at, occurs_at_exec, slice_of,
    same_chars, split_at_char, split_lines, split_on, starts_with, starts_with_exec, string_of, trim_end,
    trim_end_len, free_of, lemma_lines_free_of_newline, lemma_lines_of_one_line,
};

verus! {

// ------------------------------------------------------------------
// Error values
// ------------------------------------------------------------------

/// Why a single path was refused.
#[derive(Debug, Clone, PartialEq, Eq)]
pub enum PathViolation {
    /// A relative path was required.
    Absolute,
    /// A `.git` component.
    GitDir,
    /// A `..` component; carries the whole path.
    Escapes(String),
    /// An empty path in a diff header.
    Empty,
    /// A C-quoted path in a diff header.
    Quoted(String),
    /// An absolute path in a diff header other than `/dev/null`.
    AbsoluteDiff(String),
    /// A `---`/`+++` path without the `a/` or `b/` prefix.
    NoPrefix(String),
}

/// Why a whole diff was refused.
#[derive(Debug, Clone, PartialEq, Eq)]
pub enum DiffPathError {
    /// A `diff --git` line whose two paths could not be split; carries the line.
    BadGitHeader(String),
    /// A path from a `diff --git` or rename/copy header was refused.
    Path(PathViolation),
    /// The path of a `---`/`+++` line was refused; carries the line.
    FileHeader(PathViolation, String),
}

pub enum PathViolationV {
    Absolute,
    GitDir,
    Escapes(Seq<char>),
    Empty,
    Quoted(Seq<char>),
    AbsoluteDiff(Seq<char>),
    NoPrefix(Seq<char>),
}

pub enum DiffPathErrorV {
    BadGitHeader(Seq<char>),
    Path(PathViolationV),
    FileHeader(PathViolationV, Seq<char>),
}

impl View for PathViolation {
    type V = PathViolationV;

    open spec fn view(&self) -> PathViolationV {
        match self {
            PathViolation::Absolute => PathViolationV::Absolute,
            PathViolation::GitDir => PathViolationV::GitDir,
            PathViolation::Escapes(p) => PathViolationV::Escapes(p@),
            PathViolation::Empty => PathViolationV::Empty,
            PathViolation::Quoted(p) => PathViolationV::Quoted(p@),
            PathViolation::AbsoluteDiff(p) => PathViolationV::AbsoluteDiff(p@),
            PathViolation::NoPrefix(p) => PathViolationV::NoPrefix(p@),
        }
    }
}

impl View for DiffPathError {
    type V = DiffPathErrorV;

    open spec fn view(&self) -> DiffPathErrorV {
        match self {
            DiffPathError::BadGitHeader(l) => DiffPathErrorV::BadGitHeader(l@),
            DiffPathError::Path(v) => DiffPathErrorV::Path(v@),
            DiffPathError::FileHeader(v, l) => DiffPathErrorV::FileHeader(v@, l@),
        }
    }
}

// ------------------------------------------------------------------
// Definitions
// ------------------------------------------------------------------

/// The first `/`-separated segment that is `..` or `.git`, if any (empty and
/// `.` segments are what `Path::components` skips or reports as `CurDir`).
pub open spec fn first_bad_segment(segs: Seq<Seq<char>>) -> Option<Seq<char>>
    decreases segs.len(),
{
    if segs.len() == 0 {
        None
    } else if segs[0] == ".."@ || segs[0] == ".git"@ {
        Some(segs[0])
    } else {
        first_bad_segment(segs.drop_first())
    }
}

/// The verdict on one relative path: refused if absolute, or at the first
/// `..` or `.git` component.
pub open spec fn rel_path_verdict(p: Seq<char>) -> Option<PathViolationV> {
    if starts_with(p, "/"@) {
        Some(PathViolationV::Absolute)
    } else {
        match first_bad_segment(split_on(p, '/')) {
            None => None,
            Some(seg) => if seg == ".."@ {
                Some(PathViolationV::Escapes(p))
            } else {
                Some(PathViolationV::GitDir)
            },
        }
    }
}

/// A path taken out of a diff header: `/dev/null` passes; otherwise it must
/// be non-empty, unquoted, not absolute, and a safe relative path.
pub open spec fn extracted_verdict(p: Seq<char>) -> Option<PathViolationV> {
    if p == "/dev/null"@ {
        None
    } else if p.len() == 0 {
        Some(PathViolationV::Empty)
    } else if starts_with(p, "\""@) {
        Some(PathViolationV::Quoted(p))
    } else if starts_with(p, "/"@) {
        Some(PathViolationV::AbsoluteDiff(p))
    } else {
        rel_path_verdict(p)
    }
}

/// The path of a header line: text before any tab, trailing whitespace dropped.
pub open spec fn header_path_of(rest: Seq<char>) -> Seq<char> {
    trim_end(rest.take(first_index(rest, '\t') as int))
}

/// The path of a `---`/`+++` line (`rest` follows the four-character marker).
pub open spec fn file_header_verdict(rest: Seq<char>) -> Option<PathViolationV> {
    let p = header_path_of(rest);
    if p == "/dev/null"@ {
        None
    } else if starts_with(p, "\""@) {
        Some(PathViolationV::Quoted(p))
    } else if starts_with(p, "a/"@) || starts_with(p, "b/"@) {
        extracted_verdict(p.skip(2))
    } else {
        Some(PathViolationV::NoPrefix(p))
    }
}

/// `i` is the last index at which `p` occurs in `s`.
pub open spec fn is_last_occurrence(s: Seq<char>, p: Seq<char>, i: int) -> bool {
    occurs_at(s, p, i) && forall|j: int| i < j ==> !occurs_at(s, p, j)
}

/// `diff --git a/<x> b/<y>`: `rest` follows `diff --git `; split at the last
/// ` b/` so that nothing embedded in `<x>` can truncate `<y>`.
pub open spec fn git_header_paths(rest: Seq<char>) -> Option<(Seq<char>, Seq<char>)> {
    if !starts_with(rest, "a/"@) {
        None
    } else {
        let a_rest = rest.skip(2);
        if !contains(a_rest, " b/"@) {
            None
        } else {
            let idx = choose|i: int| is_last_occurrence(a_rest, " b/"@, i);
            Some((a_rest.take(idx), trim_end(a_rest.skip(idx + 3))))
        }
    }
}

/// The rename/copy extended headers whose remainder is a path.
pub open spec fn rename_copy_rest(line: Seq<char>) -> Option<Seq<char>> {
    if starts_with(line, "rename from "@) {
        Some(line.skip(12))
    } else if starts_with(line, "rename to "@) {
        Some(line.skip(10))
    } else if starts_with(line, "copy from "@) {
        Some(line.skip(10))
    } else if starts_with(line, "copy to "@) {
        Some(line.skip(8))
    } else {
        None
    }
}

/// The verdict on one line of a diff; `None` means the line passes.
pub open spec fn line_verdict(line: Seq<char>) -> Option<DiffPathErrorV> {
    if starts_with(line, "diff --git "@) {
        match git_header_paths(line.skip(11)) {
            None => Some(DiffPathErrorV::BadGitHeader(line)),
            Some((a, b)) => match extracted_verdict(a) {
                Some(v) => Some(DiffPathErrorV::Path(v)),
                None => match extracted_verdict(b) {
                    Some(v) => Some(DiffPathErrorV::Path(v)),
                    None => None,
                },
            },
        }
    } else if starts_with(line, "--- "@) || starts_with(line, "+++ "@) {
        match file_header_verdict(line.skip(4)) {
            Some(v) => Some(DiffPathErrorV::FileHeader(v, line)),
            None => None,
        }
    } else {
        match rename_copy_rest(line) {
            Some(rest) => match extracted_verdict(header_path_of(rest)) {
                Some(v) => Some(DiffPathErrorV::Path(v)),
                None => None,
            },
            None => None,
        }
    }
}

/// The first refused line of a diff, in order.
pub open spec fn first_refusal(ls: Seq<Seq<char>>) -> Option<DiffPathErrorV>
    decreases ls.len(),
{
    if ls.len() == 0 {
        None
    } else {
        match line_verdict(ls[0]) {
            Some(e) => Some(e),
            None => first_refusal(ls.drop_first()),
        }
    }
}

/// What `check_diff_paths` decides for a whole diff.
pub open spec fn diff_verdict(diff: Seq<char>) -> Option<DiffPathErrorV> {
    first_refusal(lines(diff))
}

/// The text of a path refusal.
pub open spec fn violation_message(v: PathViolationV) -> Seq<char> {
    match v {
        PathViolationV::Absolute => "absolute paths forbidden"@,
        PathViolationV::GitDir => ".git access forbidden"@,
        PathViolationV::Escapes(p) => "path escapes workspace: "@ + p,
        PathViolationV::Empty => "empty path in diff header"@,
        PathViolationV::Quoted(p) => "quoted diff paths forbidden: "@ + p
            + " (rewrite the patch with plain ASCII paths)"@,
        PathViolationV::AbsoluteDiff(p) =>
            "absolute diff paths forbidden (only /dev/null is allowed, for new/deleted files): "@
            + p,
        PathViolationV::NoPrefix(p) => "diff path "@ + debug_quoted(p)
            + " lacks the a/ or b/ prefix \u{2014} regenerate with standard `git diff` output (--no-prefix diffs are rejected)"@,
    }
}

/// The text of a diff refusal. A `---`/`+++` refusal names the line and
/// explains that a hunk body line can collide with the header rule.
pub open spec fn diff_error_message(e: DiffPathErrorV) -> Seq<char> {
    match e {
        DiffPathErrorV::BadGitHeader(l) => "cannot parse diff header "@ + debug_quoted(l)
            + ": expected `diff --git a/<path> b/<path>` with plain unquoted paths"@,
        DiffPathErrorV::Path(v) => violation_message(v),
        DiffPathErrorV::FileHeader(v, l) => violation_message(v) + "\n  offending line: "@
            + debug_quoted(l) + "\n  "@ + header_collision_note(),
    }
}

/// Appended to every `---`/`+++` refusal: that rule is the one place where a
/// hunk body line can be taken for a header.
pub open spec fn header_collision_note() -> Seq<char> {
    "note: this line was vetted as a `---`/`+++` file header. The scanner does not track hunk boundaries \u{2014} deliberate, and it stays that way: a real header must never slip past it as body text \u{2014} so a hunk body line reaches this rule too. REMOVING a line whose own text begins with `-- ` renders at column 0 as `--- ...` (an unindented SQL/Lua `-- comment`), and ADDING one that begins with `++ ` renders as `+++ ...`. If that is what this line is, the patch is being rejected on a false positive. Workaround: leave such lines untouched as context and edit around them. Rewording or indenting the line does NOT help \u{2014} the removal itself is what renders as `--- `. Mind the space: `--x`/`++x` (C decrement/increment) never collide."@
}

// ------------------------------------------------------------------
// Lemmas
// ------------------------------------------------------------------

proof fn lemma_last_occurrence_unique(s: Seq<char>, p: Seq<char>, i: int)
    requires
        is_last_occurrence(s, p, i),
    ensures
        contains(s, p),
        (choose|k: int| is_last_occurrence(s, p, k)) == i,
{
    let k = choose|k: int| is_last_occurrence(s, p, k);
    assert(is_last_occurrence(s, p, k));
    if k < i {
        assert(!occurs_at(s, p, i));
    }
    if i < k {
        assert(!occurs_at(s, p, k));
    }
}

// ------------------------------------------------------------------
// What an accepted diff is
// ------------------------------------------------------------------

/// A path the allowlist lets through: `/dev/null`, or a non-empty,
/// unquoted, relative path none of whose `/`-separated components is `..`
/// or `.git`.
pub open spec fn safe_path(p: Seq<char>) -> bool {
    ||| p == "/dev/null"@
    ||| {
        &&& p.len() > 0
        &&& !starts_with(p, "\""@)
        &&& !starts_with(p, "/"@)
        &&& !split_on(p, '/').contains(".."@)
        &&& !split_on(p, '/').contains(".git"@)
    }
}

/// Every path a header line names is safe: both paths of a `diff --git`
/// line (which must parse), the prefixed path of a `---`/`+++` line, the
/// path of a rename/copy line. Other lines name no path.
pub open spec fn header_line_safe(line: Seq<char>) -> bool {
    if starts_with(line, "diff --git "@) {
        match git_header_paths(line.skip(11)) {
            Some((a, b)) => safe_path(a) && safe_path(b),
            None => false,
        }
    } else if starts_with(line, "--- "@) || starts_with(line, "+++ "@) {
        let p = header_path_of(line.skip(4));
        p == "/dev/null"@ || ((starts_with(p, "a/"@) || starts_with(p, "b/"@)) && safe_path(
            p.skip(2),
        ))
    } else {
        match rename_copy_rest(line) {
            Some(rest) => safe_path(header_path_of(rest)),
            None => true,
        }
    }
}

proof fn lemma_first_bad_segment(segs: Seq<Seq<char>>)
    ensures
        first_bad_segment(segs) is None <==> !segs.contains(".."@) && !segs.contains(".git"@),
    decreases segs.len(),
{
    if segs.len() > 0 {
        lemma_first_bad_segment(segs.drop_first());
        if segs[0] != ".."@ && segs[0] != ".git"@ {
            assert forall|x: Seq<char>| segs.contains(x) <==> (x == segs[0] || segs.drop_first().contains(x)) by {
                if segs.contains(x) {
                    let k = choose|k: int| 0 <= k < segs.len() && segs[k] == x;
                    if k > 0 {
                        assert(segs.drop_first()[k - 1] == x);
                    }
                }
                if segs.drop_first().contains(x) {
                    let k = choose|k: int| 0 <= k < segs.drop_first().len() && segs.drop_first()[k] == x;
                    assert(segs[k + 1] == x);
                }
            }
        } else {
            assert(segs.contains(segs[0]));
        }
    }
}

proof fn lemma_extracted_verdict(p: Seq<char>)
    ensures
        extracted_verdict(p) is None <==> safe_path(p),
{
    lemma_first_bad_segment(split_on(p, '/'));
}

proof fn lemma_line_verdict(line: Seq<char>)
    ensures
        line_verdict(line) is None <==> header_line_safe(line),
{
    if starts_with(line, "diff --git "@) {
        match git_header_paths(line.skip(11)) {
            Some((a, b)) => {
                lemma_extracted_verdict(a);
                lemma_extracted_verdict(b);
            },
            None => {},
        }
    } else if starts_with(line, "--- "@) || starts_with(line, "+++ "@) {
        let p = header_path_of(line.skip(4));
        lemma_extracted_verdict(p.skip(2));
        reveal_strlit("/dev/null");
        reveal_strlit("\"");
        reveal_strlit("a/");
        reveal_strlit("b/");
        assert("\""@ =~= seq!['"']);
        assert("a/"@ =~= seq!['a', '/']);
        assert("b/"@ =~= seq!['b', '/']);
        assert("/dev/null"@ =~= seq!['/', 'd', 'e', 'v', '/', 'n', 'u', 'l', 'l']);
        if starts_with(p, "\""@) {
            assert(p.take(1) =~= seq!['"']);
            assert(p.take(1)[0] == p[0]);
            assert(!starts_with(p, "a/"@) && !starts_with(p, "b/"@));
            assert(p != "/dev/null"@);
        }
    } else {
        match rename_copy_rest(line) {
            Some(rest) => lemma_extracted_verdict(header_path_of(rest)),
            None => {},
        }
    }
}

/// A diff passes the allowlist exactly when every path that any of its
/// header lines names is safe (`safe_path`): no absolute path, no `..` or
/// `.git` component, no quoting, no empty path, and `---`/`+++` paths carry
/// the `a/`/`b/` prefix.
pub proof fn law_diff_passes_iff_every_header_safe(diff: Seq<char>)
    ensures
        diff_verdict(diff) is None <==> forall|i: int|
            0 <= i < lines(diff).len() ==> header_line_safe(#[trigger] lines(diff)[i]),
{
    lemma_first_refusal(lines(diff));
}

proof fn lemma_first_refusal(ls: Seq<Seq<char>>)
    ensures
        first_refusal(ls) is None <==> forall|i: int| 0 <= i < ls.len() ==> header_line_safe(#[trigger] ls[i]),
    decreases ls.len(),
{
    if ls.len() > 0 {
        lemma_first_refusal(ls.drop_first());
        lemma_line_verdict(ls[0]);
        if first_refusal(ls) is None {
            assert forall|i: int| 0 <= i < ls.len() implies header_line_safe(#[trigger] ls[i]) by {
                if i > 0 {
                    assert(ls.drop_first()[i - 1] == ls[i]);
                }
            }
        }
        if forall|i: int| 0 <= i < ls.len() ==> header_line_safe(#[trigger] ls[i]) {
            assert(header_line_safe(ls[0]));
            assert forall|i: int| 0 <= i < ls.drop_first().len() implies header_line_safe(
                #[trigger] ls.drop_first()[i],
            ) by {
                assert(ls.drop_first()[i] == ls[i + 1]);
            }
        }
    }
}

proof fn lemma_blank_line_passes()
    ensures
        line_verdict(Seq::<char>::empty()) is None,
{
    reveal_strlit("diff --git ");
    reveal_strlit("--- ");
    reveal_strlit("+++ ");
    reveal_strlit("rename from ");
    reveal_strlit("rename to ");
    reveal_strlit("copy from ");
    reveal_strlit("copy to ");
}

/// A line judged as a whole diff of its own gets the verdict it gets in
/// any diff.
proof fn lemma_line_alone(l: Seq<char>)
    requires
        free_of(l, '\n'),
    ensures
        diff_verdict(l) == line_verdict(l),
{
    lemma_lines_of_one_line(l);
    let none: Seq<Seq<char>> = Seq::empty();
    assert(first_refusal(none) is None);
    if l.len() == 0 {
        lemma_blank_line_passes();
        assert(l =~= Seq::<char>::empty());
        assert(lines(l) =~= none);
    } else {
        assert(seq![l].drop_first() =~= none);
        assert(first_refusal(seq![l]) == match line_verdict(l) {
            Some(e) => Some(e),
            None => first_refusal(none),
        });
    }
}

proof fn lemma_first_refusal_by_line(ls: Seq<Seq<char>>)
    requires
        forall|i: int| 0 <= i < ls.len() ==> free_of(#[trigger] ls[i], '\n'),
    ensures
        first_refusal(ls) is None <==> forall|i: int|
            0 <= i < ls.len() ==> diff_verdict(#[trigger] ls[i]) is None,
        first_refusal(ls) is Some ==> exists|k: int|
            0 <= k < ls.len() && first_refusal(ls) == diff_verdict(#[trigger] ls[k]) && forall|j: int|
                0 <= j < k ==> diff_verdict(#[trigger] ls[j]) is None,
    decreases ls.len(),
{
    if ls.len() > 0 {
        let rest = ls.drop_first();
        assert forall|i: int| 0 <= i < rest.len() implies free_of(#[trigger] rest[i], '\n') by {
            assert(rest[i] == ls[i + 1]);
        }
        lemma_first_refusal_by_line(rest);
        lemma_line_alone(ls[0]);
        if line_verdict(ls[0]) is Some {
            assert(0 <= 0 < ls.len() && first_refusal(ls) == diff_verdict(ls[0]));
        } else {
            if first_refusal(ls) is None {
                assert forall|i: int| 0 <= i < ls.len() implies diff_verdict(#[trigger] ls[i]) is None by {
                    if i > 0 {
                        assert(ls[i] == rest[i - 1]);
                    }
                }
            } else {
                let k = choose|k: int|
                    0 <= k < rest.len() && first_refusal(rest) == diff_verdict(#[trigger] rest[k])
                        && forall|j: int| 0 <= j < k ==> diff_verdict(#[trigger] rest[j]) is None;
                assert(ls[k + 1] == rest[k]);
                assert forall|j: int| 0 <= j < k + 1 implies diff_verdict(#[trigger] ls[j]) is None by {
                    if j > 0 {
                        assert(ls[j] == rest[j - 1]);
                    }
                }
            }
            if forall|i: int| 0 <= i < ls.len() ==> diff_verdict(#[trigger] ls[i]) is None {
                assert forall|i: int| 0 <= i < rest.len() implies diff_verdict(#[trigger] rest[i]) is None by {
                    assert(rest[i] == ls[i + 1]);
                }
            }
        }
    }
}

/// Every line is vetted alone, with no hunk tracking: a diff passes
/// exactly when each of its lines passes as a diff of its own, and a
/// refused diff is refused with the error of its first refused line. So
/// hunk context, line order and line count never change whether a line
/// passes.
pub proof fn law_diff_vetted_line_by_line(diff: Seq<char>)
    ensures
        diff_verdict(diff) is None <==> forall|i: int|
            0 <= i < lines(diff).len() ==> diff_verdict(#[trigger] lines(diff)[i]) is None,
        diff_verdict(diff) is Some ==> exists|k: int|
            0 <= k < lines(diff).len() && diff_verdict(diff) == diff_verdict(#[trigger] lines(diff)[k])
                && forall|j: int| 0 <= j < k ==> diff_verdict(#[trigger] lines(diff)[j]) is None,
{
    lemma_lines_free_of_newline(diff);
    lemma_first_refusal_by_line(lines(diff));
}

proof fn lemma_last_occurrence_exists(s: Seq<char>, p: Seq<char>, i: int)
    requires
        occurs_at(s, p, i),
    ensures
        exists|k: int| is_last_occurrence(s, p, k),
    decreases s.len() - i,
{
    if exists|j: int| i < j && occurs_at(s, p, j) {
        let j = choose|j: int| i < j && occurs_at(s, p, j);
        lemma_last_occurrence_exists(s, p, j);
    } else {
        assert(is_last_occurrence(s, p, i));
    }
}

/// Splitting a `diff --git` header removes only the ` b/` it splits at,
/// and splits at the last one: the header is `a/<a> b/<t>` with `<b>` the
/// trimmed `<t>`, and no ` b/` occurs in `<t>`. So a `..` component in
/// either real path lands whole in one of the two extracted paths.
pub proof fn law_git_header_split_is_lossless(rest: Seq<char>, a: Seq<char>, b: Seq<char>)
    requires
        git_header_paths(rest) == Some((a, b)),
    ensures
        exists|t: Seq<char>|
            rest == "a/"@ + a + " b/"@ + t && b == trim_end(t) && !contains(t, " b/"@),
{
    reveal_strlit("a/");
    reveal_strlit(" b/");
    let a_rest = rest.skip(2);
    let i0 = choose|i: int| occurs_at(a_rest, " b/"@, i);
    lemma_last_occurrence_exists(a_rest, " b/"@, i0);
    let idx = choose|i: int| is_last_occurrence(a_rest, " b/"@, i);
    assert(is_last_occurrence(a_rest, " b/"@, idx));
    let t = a_rest.skip(idx + 3);
    assert(a_rest.subrange(idx, idx + 3) =~= " b/"@);
    assert(rest =~= "a/"@ + a + " b/"@ + t) by {
        assert(rest.take(2) =~= "a/"@);
        assert(a_rest =~= a_rest.take(idx) + a_rest.subrange(idx, idx + 3) + t);
    }
    assert(!contains(t, " b/"@)) by {
        if contains(t, " b/"@) {
            let k = choose|k: int| occurs_at(t, " b/"@, k);
            assert(a_rest.subrange(idx + 3 + k, idx + 3 + k + 3) =~= t.subrange(k, k + 3));
            assert(occurs_at(a_rest, " b/"@, idx + 3 + k));
        }
    }
}

// ------------------------------------------------------------------
// Executable code
// ------------------------------------------------------------------

impl PathViolation {
    /// The refusal as text.
    pub fn message(&self) -> (r: String)
        ensures
            r@ == violation_message(self@),
    {
        match self {
            PathViolation::Absolute => String::from_str("absolute paths forbidden"),
            PathViolation::GitDir => String::from_str(".git access forbidden"),
            PathViolation::Escapes(p) => concat(
                &String::from_str("path escapes workspace: "),
                p.as_str(),
            ),
            PathViolation::Empty => String::from_str("empty path in diff header"),
            PathViolation::Quoted(p) => {
                let s = concat(&String::from_str("quoted diff paths forbidden: "), p.as_str());
                concat(&s, " (rewrite the patch with plain ASCII paths)")
            },
            PathViolation::AbsoluteDiff(p) => concat(
                &String::from_str(
                    "absolute diff paths forbidden (only /dev/null is allowed, for new/deleted files): ",
                ),
                p.as_str(),
            ),
            PathViolation::NoPrefix(p) => {
                let s = concat(&String::from_str("diff path "), debug_string(p).as_str());
                concat(
                    &s,
                    " lacks the a/ or b/ prefix \u{2014} regenerate with standard `git diff` output (--no-prefix diffs are rejected)",
                )
            },
        }
    }
}

impl DiffPathError {
    /// The refusal as text.
    pub fn message(&self) -> (r: String)
        ensures
            r@ == diff_error_message(self@),
    {
        match self {
            DiffPathError::BadGitHeader(l) => {
                let s = concat(&String::from_str("cannot parse diff header "), debug_string(l).as_str());
                concat(&s, ": expected `diff --git a/<path> b/<path>` with plain unquoted paths")
            },
            DiffPathError::Path(v) => v.message(),
            DiffPathError::FileHeader(v, l) => {
                let s = concat(&v.message(), "\n  offending line: ");
                let s = concat(&s, debug_string(l).as_str());
                let s = concat(&s, "\n  ");
                concat(&s, "note: this line was vetted as a `---`/`+++` file header. The scanner does not track hunk boundaries \u{2014} deliberate, and it stays that way: a real header must never slip past it as body text \u{2014} so a hunk body line reaches this rule too. REMOVING a line whose own text begins with `-- ` renders at column 0 as `--- ...` (an unindented SQL/Lua `-- comment`), and ADDING one that begins with `++ ` renders as `+++ ...`. If that is what this line is, the patch is being rejected on a false positive. Workaround: leave such lines untouched as context and edit around them. Rewording or indenting the line does NOT help \u{2014} the removal itself is what renders as `--- `. Mind the space: `--x`/`++x` (C decrement/increment) never collide.")
            },
        }
    }
}

/// Relative paths only; no parent components, no `.git`, no absolutes.
pub fn check_rel_path(p: &str) -> (r: Result<(), PathViolation>)
    ensures
        r is Ok <==> rel_path_verdict(p@) is None,
        r matches Err(e) ==> rel_path_verdict(p@) == Some(e@),
{
    let cs = chars_of(p);
    check_rel_chars(&cs)
}

fn check_rel_chars(cs: &[char]) -> (r: Result<(), PathViolation>)
    ensures
        r is Ok <==> rel_path_verdict(cs@) is None,
        r matches Err(e) ==> rel_path_verdict(cs@) == Some(e@),
{
    let slash = chars_of("/");
    if starts_with_exec(cs, &slash) {
        return Err(PathViolation::Absolute);
    }
    let dotdot = chars_of("..");
    let git = chars_of(".git");
    let segs = split_at_char(cs, '/');
    let ghost all = segs@.map_values(|l: Vec<char>| l@);
    let mut i: usize = 0;
    assert(all.skip(0) =~= all);
    while i < segs.len()
        invariant
            i <= segs.len(),
            all == segs@.map_values(|l: Vec<char>| l@),
            all == split_on(cs@, '/'),
            dotdot@ == ".."@,
            git@ == ".git"@,
            !starts_with(cs@, "/"@),
            first_bad_segment(all) == first_bad_segment(all.skip(i as int)),
        decreases segs.len() - i,
    {
        let seg = &segs[i];
        assert(all.skip(i as int)[0] == seg@);
        assert(all.skip(i as int).drop_first() =~= all.skip(i + 1));
        if same_chars(seg, &dotdot) {
            return Err(PathViolation::Escapes(string_of(cs)));
        }
        if same_chars(seg, &git) {
            proof {
                reveal_strlit("..");
                reveal_strlit(".git");
                assert(seg@ != ".."@) by {
                    assert(seg@.len() != 2);
                }
            }
            return Err(PathViolation::GitDir);
        }
        i += 1;
    }
    assert(all.skip(i as int) =~= Seq::<Seq<char>>::empty());
    Ok(())
}

/// Vets a path extracted from a diff header.
fn vet_extracted(p: &[char]) -> (r: Result<(), PathViolation>)
    ensures
        r is Ok <==> extracted_verdict(p@) is None,
        r matches Err(e) ==> extracted_verdict(p@) == Some(e@),
{
    let dev_null = chars_of("/dev/null");
    if same_chars(p, &dev_null) {
        return Ok(());
    }
    if p.len() == 0 {
        return Err(PathViolation::Empty);
    }
    let quote = chars_of("\"");
    if starts_with_exec(p, &quote) {
        return Err(PathViolation::Quoted(string_of(p)));
    }
    let slash = chars_of("/");
    if starts_with_exec(p, &slash) {
        return Err(PathViolation::AbsoluteDiff(string_of(p)));
    }
    check_rel_chars(p)
}

/// The path of a header line: text before any tab, trailing whitespace dropped.
fn header_path(rest: &[char]) -> (r: Vec<char>)
    ensures
        r@ == header_path_of(rest@),
{
    let t = first_index_exec(rest, 0, '\t');
    assert(rest@.skip(0) =~= rest@);
    let head = slice_of(rest, 0, t);
    assert(head@ =~= rest@.take(t as int));
    let b = trim_end_len(&head);
    slice_of(&head, 0, b)
}

/// Vets the path on a `---`/`+++` file-header line.
fn vet_file_header(rest: &[char]) -> (r: Result<(), PathViolation>)
    ensures
        r is Ok <==> file_header_verdict(rest@) is None,
        r matches Err(e) ==> file_header_verdict(rest@) == Some(e@),
{
    let p = header_path(rest);
    let dev_null = chars_of("/dev/null");
    if same_chars(&p, &dev_null) {
        return Ok(());
    }
    let quote = chars_of("\"");
    if starts_with_exec(&p, &quote) {
        return Err(PathViolation::Quoted(string_of(&p)));
    }
    proof {
        reveal_strlit("a/");
        reveal_strlit("b/");
    }
    let a = chars_of("a/");
    let b = chars_of("b/");
    if starts_with_exec(&p, &a) || starts_with_exec(&p, &b) {
        let stripped = slice_of(&p, 2, p.len());
        assert(stripped@ =~= p@.skip(2));
        vet_extracted(&stripped)
    } else {
        Err(PathViolation::NoPrefix(string_of(&p)))
    }
}

/// Splits the remainder of a `diff --git ` line into its two paths.
fn split_git_header_paths(rest: &[char]) -> (r: Option<(Vec<char>, Vec<char>)>)
    ensures
        r is None <==> git_header_paths(rest@) is None,
        r matches Some((a, b)) ==> git_header_paths(rest@) == Some((a@, b@)),
{
    proof {
        reveal_strlit("a/");
        reveal_strlit(" b/");
    }
    let a = chars_of("a/");
    if !starts_with_exec(rest, &a) {
        return None;
    }
    let a_rest = slice_of(rest, 2, rest.len());
    assert(a_rest@ =~= rest@.skip(2));
    let sep = chars_of(" b/");
    if sep.len() > a_rest.len() {
        proof {
            assert forall|i: int| !occurs_at(a_rest@, " b/"@, i) by {}
        }
        return None;
    }
    let mut i: usize = a_rest.len() - sep.len() + 1;
    while i > 0
        invariant
            sep@ == " b/"@,
            sep.len() == 3,
            sep.len() <= a_rest.len(),
            a_rest@ == rest@.skip(2),
            starts_with(rest@, "a/"@),
            i <= a_rest.len() - sep.len() + 1,
            forall|j: int| i <= j ==> !occurs_at(a_rest@, " b/"@, j),
        decreases i,
    {
        if occurs_at_exec(&a_rest, &sep, i - 1) {
            let idx = i - 1;
            proof {
                lemma_last_occurrence_unique(a_rest@, " b/"@, idx as int);
            }
            let first = slice_of(&a_rest, 0, idx);
            let tail = slice_of(&a_rest, idx + 3, a_rest.len());
            assert(tail@ =~= a_rest@.skip(idx + 3));
            let b = trim_end_len(&tail);
            let second = slice_of(&tail, 0, b);
            assert(first@ =~= a_rest@.take(idx as int));
            return Some((first, second));
        }
        i -= 1;
    }
    None
}

/// The remainder of a rename/copy extended header, if `line` is one.
fn rename_copy_rest_exec(line: &[char]) -> (r: Option<Vec<char>>)
    ensures
        r is None <==> rename_copy_rest(line@) is None,
        r matches Some(v) ==> rename_copy_rest(line@) == Some(v@),
{
    proof {
        reveal_strlit("rename from ");
        reveal_strlit("rename to ");
        reveal_strlit("copy from ");
        reveal_strlit("copy to ");
    }
    let p1 = chars_of("rename from ");
    if starts_with_exec(line, &p1) {
        return Some(slice_of(line, 12, line.len()));
    }
    let p2 = chars_of("rename to ");
    if starts_with_exec(line, &p2) {
        return Some(slice_of(line, 10, line.len()));
    }
    let p3 = chars_of("copy from ");
    if starts_with_exec(line, &p3) {
        return Some(slice_of(line, 10, line.len()));
    }
    let p4 = chars_of("copy to ");
    if starts_with_exec(line, &p4) {
        return Some(slice_of(line, 8, line.len()));
    }
    None
}

fn check_line(line: &[char]) -> (r: Result<(), DiffPathError>)
    ensures
        r is Ok <==> line_verdict(line@) is None,
        r matches Err(e) ==> line_verdict(line@) == Some(e@),
{
    proof {
        reveal_strlit("diff --git ");
        reveal_strlit("--- ");
        reveal_strlit("+++ ");
    }
    let git = chars_of("diff --git ");
    if starts_with_exec(line, &git) {
        let rest = slice_of(line, 11, line.len());
        assert(rest@ =~= line@.skip(11));
        match split_git_header_paths(&rest) {
            None => return Err(DiffPathError::BadGitHeader(string_of(line))),
            Some((a, b)) => {
                match vet_extracted(&a) {
                    Err(v) => return Err(DiffPathError::Path(v)),
                    Ok(()) => {},
                }
                match vet_extracted(&b) {
                    Err(v) => return Err(DiffPathError::Path(v)),
                    Ok(()) => {},
                }
                return Ok(());
            },
        }
    }
    let minus = chars_of("--- ");
    let plus = chars_of("+++ ");
    if starts_with_exec(line, &minus) || starts_with_exec(line, &plus) {
        let rest = slice_of(line, 4, line.len());
        assert(rest@ =~= line@.skip(4));
        return match vet_file_header(&rest) {
            Err(v) => Err(DiffPathError::FileHeader(v, string_of(line))),
            Ok(()) => Ok(()),
        };
    }
    match rename_copy_rest_exec(line) {
        Some(rest) => {
            let p = header_path(&rest);
            match vet_extracted(&p) {
                Err(v) => Err(DiffPathError::Path(v)),
                Ok(()) => Ok(()),
            }
        },
        None => Ok(()),
    }
}

/// Vets every path-bearing header line of a unified git diff: `diff --git`,
/// `---`, `+++`, and the rename/copy extended headers. The whole diff is
/// refused at the first line whose path is absolute, contains a `..`
/// component, names `.git`, is quoted, or (for `---`/`+++`) lacks the
/// `a/`/`b/` prefix. Lines are scanned without tracking hunk boundaries, so
/// a body line that collides with a header prefix is vetted too.
pub fn check_diff_paths(diff: &str) -> (r: Result<(), DiffPathError>)
    ensures
        r is Ok <==> diff_verdict(diff@) is None,
        r matches Err(e) ==> diff_verdict(diff@) == Some(e@),
{
    let cs = chars_of(diff);
    let ls = split_lines(&cs);
    let ghost all = ls@.map_values(|l: Vec<char>| l@);
    let mut i: usize = 0;
    assert(all.skip(0) =~= all);
    while i < ls.len()
        invariant
            i <= ls.len(),
            all == ls@.map_values(|l: Vec<char>| l@),
            all == lines(diff@),
            first_refusal(all) == first_refusal(all.skip(i as int)),
        decreases ls.len() - i,
    {
        assert(all.skip(i as int)[0] == ls@[i as int]@);
        assert(all.skip(i as int).drop_first() =~= all.skip(i + 1));
        match check_line(&ls[i]) {
            Err(e) => return Err(e),
            Ok(()) => {},
        }
        i += 1;
    }
    assert(all.skip(i as int) =~= Seq::<Seq<char>>::empty());
    Ok(())
}

} // verus!
