//! Per-target spec sections (`targets/<name>/target.toml`), as plain values,
//! and the pinned golden hash. All commands and paths are relative to the
//! repository root; `{binary}` in commands is the built binary path and
//! `{out}` in build templates the isolated output directory.

use vstd::prelude::*;
use crate::orchestrate::replace_chars;
use crate::text::{
    chars_of, first_ws, first_ws_exec, lines, replace_all, slice_of, split_lines, starts_with,
    starts_with_exec, string_of, trim, trimmed,
};

verus! {

#[derive(Debug, Clone)]
pub struct Bench {
    /// Bench command; `{binary}` substituted per side. Run from repo root.
    pub command: String,
    /// Human-readable workload statement, printed with every number.
    pub workload: String,
}

#[derive(Debug, Clone)]
pub struct Build {
    /// Baseline build command, run from repo root.
    pub baseline: String,
    /// Built binary path, relative to repo root.
    pub binary: String,
    /// Instrumented (ASan/UBSan) build command, if the target declares one.
    pub sanitizer: Option<String>,
    pub sanitizer_binary: Option<String>,
    /// TSan build command, if the target declares one.
    pub tsan: Option<String>,
    pub tsan_binary: Option<String>,
}

#[derive(Debug, Clone)]
pub struct Gates {
    /// Upstream test suite command, run from repo root.
    pub tests: String,
    /// Golden replay command; stdout is hashed. `{binary}` substituted.
    pub golden: String,
    /// Differential fuzz command template (`{iters}`, `{baseline}`, `{candidate}`).
    pub fuzz: Option<String>,
}

#[derive(Debug, Clone)]
pub struct Corpus {
    /// sha256sum-format manifest of the corpus inputs.
    pub manifest: String,
    /// Directory the manifest's relative paths resolve against.
    pub root: String,
    /// File whose last entry's first field is the expected sha256 of the
    /// golden command's stdout.
    pub golden_sha256: String,
    /// Committed reference output for the fp-tolerance policy.
    pub golden_reference: Option<String>,
}

/// The first whitespace-separated field of each non-blank, non-`#` line,
/// last one wins.
pub open spec fn golden_hash_spec(ls: Seq<Seq<char>>) -> Option<Seq<char>>
    decreases ls.len(),
{
    if ls.len() == 0 {
        None
    } else {
        let t = trim(ls.last());
        if t.len() > 0 && !starts_with(t, "#"@) {
            Some(t.take(first_ws(t) as int))
        } else {
            golden_hash_spec(ls.drop_last())
        }
    }
}

/// The expected stdout hash in the text of a GOLDEN.sha256 file: the first
/// field of its last entry (comment lines starting with `#` ignored).
pub fn golden_hash_in(raw: &str) -> (r: Option<String>)
    ensures
        r is None <==> golden_hash_spec(lines(raw@)) is None,
        r matches Some(h) ==> golden_hash_spec(lines(raw@)) == Some(h@),
{
    let cs = chars_of(raw);
    let ls = split_lines(&cs);
    let ghost all = ls@.map_values(|l: Vec<char>| l@);
    let hash = chars_of("#");
    let mut k: usize = ls.len();
    assert(all.take(k as int) =~= all);
    while k > 0
        invariant
            k <= ls.len(),
            all == ls@.map_values(|l: Vec<char>| l@),
            all == lines(raw@),
            hash@ == "#"@,
            golden_hash_spec(all) == golden_hash_spec(all.take(k as int)),
        decreases k,
    {
        assert(all.take(k as int).last() == ls@[k - 1]@);
        assert(all.take(k as int).drop_last() =~= all.take(k - 1));
        let t = trimmed(&ls[k - 1]);
        if t.len() > 0 && !starts_with_exec(&t, &hash) {
            let w = first_ws_exec(&t);
            let f = slice_of(&t, 0, w);
            assert(f@ =~= t@.take(w as int));
            return Some(string_of(&f));
        }
        k -= 1;
    }
    assert(all.take(0) =~= Seq::<Seq<char>>::empty());
    None
}

/// A build template with `{out}` (the isolated output directory)
/// substituted.
pub fn subst_out(tmpl: &str, out: &str) -> (r: String)
    ensures
        r@ == replace_all(tmpl@, "{out}"@, out@),
{
    proof {
        reveal_strlit("{out}");
    }
    string_of(&replace_chars(&chars_of(tmpl), &chars_of("{out}"), &chars_of(out)))
}

} // verus!
