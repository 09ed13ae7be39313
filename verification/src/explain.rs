//! Post-verdict diagnosis of one ledger row. Everything here is a function
//! of the row's values alone, so an explanation regenerates byte for byte:
//! the header, what decided the verdict, the caps and caveats, the isolation note,
//! and the mechanical shape of the stored diff. The lines that quote bench
//! numbers are formatted by the caller, which holds them as floats; the CI
//! classes they fall into are named here.

use vstd::prelude::*;
use crate::text::{
    append, chars_of, chars_of_each, contains, contains_exec, dec, i64_dec, join_exec, join_with,
    lines, same_chars, sdec, split_lines, starts_with, starts_with_exec, string_of, u64_dec,
    lemma_join_contains, occurs_at,
};

verus! {

/// Where the bootstrap CI of the speedup ratio landed, relative to 1.0 and
/// (when the row records it) the accept bar.
#[derive(Debug, Clone, Copy, PartialEq, Eq, Structural)]
pub enum CiClass {
    /// Lower bound clears the recorded bar.
    MeetsBar,
    /// CI excludes 1.0 upward, but does not clear the bar (or no bar recorded).
    RealBelowBar,
    /// CI straddles 1.0: indistinguishable from no change.
    Indistinguishable,
    /// CI entirely below 1.0: a measured regression.
    Regression,
}

#[derive(Debug, Clone, Copy, PartialEq, Eq)]
pub struct DiffStats {
    pub files: usize,
    pub added: usize,
    pub removed: usize,
}

/// `(files, added, removed)` over the lines of a unified diff: `+++ ` lines
/// count files, other `+` lines additions, `-` lines that are not `---`
/// removals.
pub open spec fn diff_counts(ls: Seq<Seq<char>>) -> (nat, nat, nat)
    decreases ls.len(),
{
    if ls.len() == 0 {
        (0, 0, 0)
    } else {
        let (f, a, r) = diff_counts(ls.drop_last());
        let l = ls.last();
        if starts_with(l, "+++ "@) {
            (f + 1, a, r)
        } else if starts_with(l, "+"@) && !starts_with(l, "+++"@) {
            (f, a + 1, r)
        } else if starts_with(l, "-"@) && !starts_with(l, "---"@) {
            (f, a, r + 1)
        } else {
            (f, a, r)
        }
    }
}

proof fn lemma_diff_counts_bound(ls: Seq<Seq<char>>)
    ensures
        diff_counts(ls).0 + diff_counts(ls).1 + diff_counts(ls).2 <= ls.len(),
    decreases ls.len(),
{
    if ls.len() > 0 {
        lemma_diff_counts_bound(ls.drop_last());
    }
}

/// Mechanical shape of the stored unified diff; `None` when the row carries
/// a placeholder instead of a real patch (no `--- ` or no `+++ ` in it).
pub fn diff_stats(patch: &str) -> (r: Option<DiffStats>)
    ensures
        r is None <==> !(contains(patch@, "--- "@) && contains(patch@, "+++ "@)),
        r matches Some(d) ==> (d.files as nat, d.added as nat, d.removed as nat) == diff_counts(
            lines(patch@),
        ),
{
    let cs = chars_of(patch);
    if !contains_exec(&cs, &chars_of("--- ")) || !contains_exec(&cs, &chars_of("+++ ")) {
        return None;
    }
    let ls = split_lines(&cs);
    let ghost all = ls@.map_values(|l: Vec<char>| l@);
    let plus3s = chars_of("+++ ");
    let plus = chars_of("+");
    let plus3 = chars_of("+++");
    let minus = chars_of("-");
    let minus3 = chars_of("---");
    let mut files: usize = 0;
    let mut added: usize = 0;
    let mut removed: usize = 0;
    let mut i: usize = 0;
    assert(all.take(0) =~= Seq::<Seq<char>>::empty());
    while i < ls.len()
        invariant
            i <= ls.len(),
            all == ls@.map_values(|l: Vec<char>| l@),
            plus3s@ == "+++ "@,
            plus@ == "+"@,
            plus3@ == "+++"@,
            minus@ == "-"@,
            minus3@ == "---"@,
            (files as nat, added as nat, removed as nat) == diff_counts(all.take(i as int)),
        decreases ls.len() - i,
    {
        proof {
            assert(all.take(i + 1).drop_last() =~= all.take(i as int));
            assert(all.take(i + 1).last() == ls@[i as int]@);
            lemma_diff_counts_bound(all.take(i as int));
        }
        let line = &ls[i];
        if starts_with_exec(line, &plus3s) {
            files += 1;
        } else if starts_with_exec(line, &plus) && !starts_with_exec(line, &plus3) {
            added += 1;
        } else if starts_with_exec(line, &minus) && !starts_with_exec(line, &minus3) {
            removed += 1;
        }
        i += 1;
    }
    assert(all.take(ls.len() as int) =~= all);
    Some(DiffStats { files, added, removed })
}

// ------------------------------------------------------------------
// The explanation's text
// ------------------------------------------------------------------

/// The `patch shape:` line for a stored patch.
pub open spec fn patch_shape_line(patch: Seq<char>) -> Seq<char> {
    if contains(patch, "--- "@) && contains(patch, "+++ "@) {
        let (f, a, r) = diff_counts(lines(patch));
        "patch shape: "@ + dec(f) + " file(s), +"@ + dec(a) + " / -"@ + dec(r) + " lines"@
    } else {
        "patch shape: no source diff recorded (build-config or out-of-band attempt)"@
    }
}

/// The opening lines of an explanation: what was attempted and the
/// verdict as the machine recorded it.
pub open spec fn header_text(
    run_id: Seq<char>,
    target: Seq<char>,
    playbook_class: int,
    hotspot: Seq<char>,
    timestamp: Seq<char>,
    hypothesis: Seq<char>,
    patch: Seq<char>,
    verdict: Seq<char>,
) -> Seq<Seq<char>> {
    seq![
        "explain "@ + run_id + " \u{2014} advisory diagnosis"@,
        "derived solely from the ledger row; regeneration is byte-identical; this can never change a verdict"@,
        Seq::<char>::empty(),
        "attempt: "@ + target + " | class "@ + sdec(playbook_class) + " | hotspot: "@ + hotspot
            + " | recorded "@ + timestamp,
        "hypothesis: "@ + hypothesis,
        patch_shape_line(patch),
        Seq::<char>::empty(),
        "verdict (machine record): "@ + verdict,
    ]
}

/// The gates a row records as failed, in the order they run.
pub open spec fn failed_gates(upstream_tests: bool, golden_replay: bool, fuzz_divergence: bool) -> Seq<
    Seq<char>,
> {
    (if upstream_tests {
        Seq::<Seq<char>>::empty()
    } else {
        seq!["upstream test suite"@]
    }) + (if golden_replay {
        Seq::<Seq<char>>::empty()
    } else {
        seq!["golden replay"@]
    }) + (if fuzz_divergence {
        seq!["differential fuzz (divergence found)"@]
    } else {
        Seq::<Seq<char>>::empty()
    })
}

/// `p` found in `b` is found in `a + b`, shifted by the length of `a`.
proof fn lemma_contains_after(a: Seq<char>, b: Seq<char>, p: Seq<char>)
    requires
        contains(b, p),
    ensures
        contains(a + b, p),
{
    let i = choose|i: int| occurs_at(b, p, i);
    assert((a + b).subrange(a.len() + i, a.len() + i + p.len()) =~= b.subrange(i, i + p.len()));
    assert(occurs_at(a + b, p, a.len() + i));
}

/// A gate rejection is explained in two lines, and the first names every
/// gate the row records as failed: the upstream test suite when it did not
/// pass, the golden replay when it did not match, the differential fuzz
/// when it found a divergence. Only a row that records no failed gate says
/// that the failing gate is not individually recorded.
pub proof fn law_gate_rejection_names_each_failed_gate(
    upstream_tests: bool,
    golden_replay: bool,
    fuzz_divergence: bool,
)
    ensures
        ({
            let d = decision_text("rejected-gate"@, upstream_tests, golden_replay, fuzz_divergence);
            &&& d is Some
            &&& d->0.len() == 2
            &&& !upstream_tests ==> contains(d->0[0], "upstream test suite"@)
            &&& !golden_replay ==> contains(d->0[0], "golden replay"@)
            &&& fuzz_divergence ==> contains(d->0[0], "differential fuzz (divergence found)"@)
            &&& (upstream_tests && golden_replay && !fuzz_divergence) ==> d->0[0]
                == "decided by: a gate failure (the failing gate is not individually recorded in this row)"@
            &&& !(upstream_tests && golden_replay && !fuzz_divergence) ==> starts_with(
                d->0[0],
                "decided by: gate failure \u{2014} "@,
            )
        }),
{
    let failed = failed_gates(upstream_tests, golden_replay, fuzz_divergence);
    let pre = "decided by: gate failure \u{2014} "@;
    let joined = join_with(failed, ", "@);
    let d = decision_text("rejected-gate"@, upstream_tests, golden_replay, fuzz_divergence);
    let u = if upstream_tests { Seq::<Seq<char>>::empty() } else { seq!["upstream test suite"@] };
    let g = if golden_replay { Seq::<Seq<char>>::empty() } else { seq!["golden replay"@] };
    let f = if fuzz_divergence {
        seq!["differential fuzz (divergence found)"@]
    } else {
        Seq::<Seq<char>>::empty()
    };
    assert(failed =~= u + g + f);
    if failed.len() > 0 {
        assert(d->0[0] == pre + joined);
        assert((pre + joined).take(pre.len() as int) =~= pre);
        if !upstream_tests {
            assert(failed[0] == "upstream test suite"@);
            lemma_join_contains(failed, ", "@, 0);
            lemma_contains_after(pre, joined, "upstream test suite"@);
        }
        if !golden_replay {
            let k = u.len() as int;
            assert(failed[k] == "golden replay"@);
            lemma_join_contains(failed, ", "@, k);
            lemma_contains_after(pre, joined, "golden replay"@);
        }
        if fuzz_divergence {
            let k = (u.len() + g.len()) as int;
            assert(failed[k] == "differential fuzz (divergence found)"@);
            lemma_join_contains(failed, ", "@, k);
            lemma_contains_after(pre, joined, "differential fuzz (divergence found)"@);
        }
    }
}

/// Verdicts decided by the bench numbers (and the caps over them).
pub open spec fn bench_decided(verdict: Seq<char>) -> bool {
    verdict == "accepted"@ || verdict == "rejected-bench"@ || verdict == "needs-human-review"@
}

/// What decided a verdict, when the bench numbers did not: a gate
/// rejection names its failing gates; a verdict outside the known set is
/// said to be one. `None` for the bench-decided verdicts.
pub open spec fn decision_text(
    verdict: Seq<char>,
    upstream_tests: bool,
    golden_replay: bool,
    fuzz_divergence: bool,
) -> Option<Seq<Seq<char>>> {
    if verdict == "rejected-gate"@ {
        let failed = failed_gates(upstream_tests, golden_replay, fuzz_divergence);
        Some(
            seq![
                if failed.len() == 0 {
                    "decided by: a gate failure (the failing gate is not individually recorded in this row)"@
                } else {
                    "decided by: gate failure \u{2014} "@ + join_with(failed, ", "@)
                },
                "inference: the patch changed observable behavior or broke the build contract; the bench (if any ran) is irrelevant until equivalence holds"@,
            ],
        )
    } else if bench_decided(verdict) {
        None
    } else {
        Some(
            seq![
                "verdict string '"@ + verdict
                    + "' is outside the known set \u{2014} inspect the row by hand"@,
            ],
        )
    }
}

/// The caps behind a `needs-human-review` row.
pub open spec fn review_caveats(
    risk_signals: Seq<Seq<char>>,
    fuzz_iters: nat,
    equivalence_mode: Option<Seq<char>>,
) -> Seq<Seq<char>> {
    (if risk_signals.len() > 0 {
        seq![
            "routed to human review by the lexical risk classifier: "@ + join_with(
                risk_signals,
                ", "@,
            ),
            "inference: the numbers do not clear a risk class \u{2014} concurrency/unsafe/FP changes can be correct on this workload and wrong in production"@,
        ]
    } else if fuzz_iters == 0 {
        seq![
            "no passed differential-fuzz gate on record \u{2014} the no-fuzz-no-accept rule caps any would-be accept at review"@,
        ]
    } else {
        Seq::<Seq<char>>::empty()
    }) + (if equivalence_mode == Some("fp-tolerance"@) {
        seq!["equivalence used the fp-tolerance tier \u{2014} always a review signal"@]
    } else {
        Seq::<Seq<char>>::empty()
    })
}

/// The caveats on an `accepted` row: a missing sanitizer pass, the fuzz
/// record, a TSan flag.
pub open spec fn accept_caveats(sanitizers_clean: bool, fuzz_iters: nat, tsan_clean: Option<bool>) -> Seq<
    Seq<char>,
> {
    (if sanitizers_clean {
        Seq::<Seq<char>>::empty()
    } else {
        seq![
            "CAUTION: accepted with sanitizers_clean=false \u{2014} this row predates the machine-enforced sanitizer lane; under current doctrine it could not be machine-accepted. See results/rulings/"@,
        ]
    }) + seq![
        if fuzz_iters == 0 {
            "fuzz: 0 iterations in the machine record \u{2014} a pre-integration row; differential fuzz ran out-of-band via scripts through Phase 5 (an accept today requires a passed in-pipeline run)"@
        } else {
            "fuzz: "@ + dec(fuzz_iters) + " iterations executed, no divergence"@
        },
    ] + (if tsan_clean == Some(false) {
        seq!["CAUTION: TSan lane flagged this attempt"@]
    } else {
        Seq::<Seq<char>>::empty()
    })
}

/// The closing caps-and-caveats lines of an explanation.
pub open spec fn caveat_text(
    verdict: Seq<char>,
    risk_signals: Seq<Seq<char>>,
    fuzz_iters: nat,
    equivalence_mode: Option<Seq<char>>,
    sanitizers_clean: bool,
    tsan_clean: Option<bool>,
) -> Seq<Seq<char>> {
    (if verdict == "needs-human-review"@ {
        review_caveats(risk_signals, fuzz_iters, equivalence_mode)
    } else {
        Seq::<Seq<char>>::empty()
    }) + (if verdict == "accepted"@ {
        accept_caveats(sanitizers_clean, fuzz_iters, tsan_clean)
    } else {
        Seq::<Seq<char>>::empty()
    })
}

/// The line flagging a bench run that lacked the network-namespace
/// boundary, from the isolation note on record.
pub open spec fn isolation_caveat_text(note: Seq<char>) -> Option<Seq<char>> {
    if contains(note, "NOT isolated"@) || note == "unwrapped-host"@ {
        Some(
            "isolation note on record: \""@ + note
                + "\" \u{2014} this run did not have the network-namespace boundary"@,
        )
    } else {
        None
    }
}

/// The text of each line.
pub open spec fn texts(v: Seq<String>) -> Seq<Seq<char>> {
    v.map_values(|s: String| s@)
}

fn same_as(s: &str, lit: &str) -> (b: bool)
    ensures
        b == (s@ == lit@),
{
    same_chars(&chars_of(s), &chars_of(lit))
}

/// The `patch shape:` line for a stored patch.
pub fn patch_shape(patch: &str) -> (r: String)
    ensures
        r@ == patch_shape_line(patch@),
{
    match diff_stats(patch) {
        Some(d) => {
            let mut v = chars_of("patch shape: ");
            append(&mut v, &u64_dec(d.files as u64));
            append(&mut v, &chars_of(" file(s), +"));
            append(&mut v, &u64_dec(d.added as u64));
            append(&mut v, &chars_of(" / -"));
            append(&mut v, &u64_dec(d.removed as u64));
            append(&mut v, &chars_of(" lines"));
            string_of(&v)
        },
        None => String::from_str(
            "patch shape: no source diff recorded (build-config or out-of-band attempt)",
        ),
    }
}

/// The opening lines of the explanation of one row.
pub fn explain_header(
    run_id: &str,
    target: &str,
    playbook_class: i64,
    hotspot: &str,
    timestamp: &str,
    hypothesis: &str,
    patch: &str,
    verdict: &str,
) -> (r: Vec<String>)
    ensures
        texts(r@) == header_text(
            run_id@,
            target@,
            playbook_class as int,
            hotspot@,
            timestamp@,
            hypothesis@,
            patch@,
            verdict@,
        ),
{
    let mut out: Vec<String> = Vec::new();
    let mut v = chars_of("explain ");
    append(&mut v, &chars_of(run_id));
    append(&mut v, &chars_of(" \u{2014} advisory diagnosis"));
    out.push(string_of(&v));
    out.push(
        String::from_str(
            "derived solely from the ledger row; regeneration is byte-identical; this can never change a verdict",
        ),
    );
    out.push(String::new());
    let mut v = chars_of("attempt: ");
    append(&mut v, &chars_of(target));
    append(&mut v, &chars_of(" | class "));
    append(&mut v, &i64_dec(playbook_class));
    append(&mut v, &chars_of(" | hotspot: "));
    append(&mut v, &chars_of(hotspot));
    append(&mut v, &chars_of(" | recorded "));
    append(&mut v, &chars_of(timestamp));
    out.push(string_of(&v));
    let mut v = chars_of("hypothesis: ");
    append(&mut v, &chars_of(hypothesis));
    out.push(string_of(&v));
    out.push(patch_shape(patch));
    out.push(String::new());
    let mut v = chars_of("verdict (machine record): ");
    append(&mut v, &chars_of(verdict));
    out.push(string_of(&v));
    assert(texts(out@) =~= header_text(
        run_id@,
        target@,
        playbook_class as int,
        hotspot@,
        timestamp@,
        hypothesis@,
        patch@,
        verdict@,
    ));
    out
}

/// What decided a verdict when the bench numbers did not (see
/// `decision_text`); `None` for the bench-decided verdicts, whose lines
/// quote the numbers.
pub fn decision_lines(
    verdict: &str,
    upstream_tests: bool,
    golden_replay: bool,
    fuzz_divergence: bool,
) -> (r: Option<Vec<String>>)
    ensures
        match r {
            Some(v) => decision_text(verdict@, upstream_tests, golden_replay, fuzz_divergence)
                == Some(texts(v@)),
            None => decision_text(verdict@, upstream_tests, golden_replay, fuzz_divergence) is None,
        },
{
    if same_as(verdict, "rejected-gate") {
        let mut failed: Vec<Vec<char>> = Vec::new();
        if !upstream_tests {
            failed.push(chars_of("upstream test suite"));
        }
        if !golden_replay {
            failed.push(chars_of("golden replay"));
        }
        if fuzz_divergence {
            failed.push(chars_of("differential fuzz (divergence found)"));
        }
        assert(failed@.map_values(|l: Vec<char>| l@) =~= failed_gates(
            upstream_tests,
            golden_replay,
            fuzz_divergence,
        ));
        let mut out: Vec<String> = Vec::new();
        if failed.len() == 0 {
            out.push(
                String::from_str(
                    "decided by: a gate failure (the failing gate is not individually recorded in this row)",
                ),
            );
        } else {
            let mut v = chars_of("decided by: gate failure \u{2014} ");
            append(&mut v, &join_exec(&failed, &chars_of(", ")));
            out.push(string_of(&v));
        }
        out.push(
            String::from_str(
                "inference: the patch changed observable behavior or broke the build contract; the bench (if any ran) is irrelevant until equivalence holds",
            ),
        );
        proof {
            let d = decision_text(verdict@, upstream_tests, golden_replay, fuzz_divergence);
            assert(d is Some);
            assert(texts(out@) =~= d->0);
        }
        Some(out)
    } else if same_as(verdict, "accepted") || same_as(verdict, "rejected-bench") || same_as(
        verdict,
        "needs-human-review",
    ) {
        None
    } else {
        let mut v = chars_of("verdict string '");
        append(&mut v, &chars_of(verdict));
        append(&mut v, &chars_of("' is outside the known set \u{2014} inspect the row by hand"));
        let mut out: Vec<String> = Vec::new();
        out.push(string_of(&v));
        proof {
            let d = decision_text(verdict@, upstream_tests, golden_replay, fuzz_divergence);
            assert(texts(out@) =~= d->0);
        }
        Some(out)
    }
}

/// The closing caps-and-caveats lines of the explanation of one row.
pub fn caveat_lines(
    verdict: &str,
    risk_signals: &Vec<String>,
    fuzz_iters: u64,
    equivalence_mode: Option<&str>,
    sanitizers_clean: bool,
    tsan_clean: Option<bool>,
) -> (r: Vec<String>)
    ensures
        texts(r@) == caveat_text(
            verdict@,
            texts(risk_signals@),
            fuzz_iters as nat,
            match equivalence_mode {
                Some(m) => Some(m@),
                None => None,
            },
            sanitizers_clean,
            tsan_clean,
        ),
{
    let ghost mode = match equivalence_mode {
        Some(m) => Some(m@),
        None => None::<Seq<char>>,
    };
    let mut out: Vec<String> = Vec::new();
    if same_as(verdict, "needs-human-review") {
        if risk_signals.len() > 0 {
            let each = chars_of_each(risk_signals);
            let mut v = chars_of("routed to human review by the lexical risk classifier: ");
            append(&mut v, &join_exec(&each, &chars_of(", ")));
            out.push(string_of(&v));
            out.push(
                String::from_str(
                    "inference: the numbers do not clear a risk class \u{2014} concurrency/unsafe/FP changes can be correct on this workload and wrong in production",
                ),
            );
        } else if fuzz_iters == 0 {
            out.push(
                String::from_str(
                    "no passed differential-fuzz gate on record \u{2014} the no-fuzz-no-accept rule caps any would-be accept at review",
                ),
            );
        }
        let fp = match equivalence_mode {
            Some(m) => same_as(m, "fp-tolerance"),
            None => false,
        };
        if fp {
            out.push(
                String::from_str(
                    "equivalence used the fp-tolerance tier \u{2014} always a review signal",
                ),
            );
        }
        assert(texts(out@) =~= review_caveats(texts(risk_signals@), fuzz_iters as nat, mode));
    }
    let ghost before = texts(out@);
    if same_as(verdict, "accepted") {
        if !sanitizers_clean {
            out.push(
                String::from_str(
                    "CAUTION: accepted with sanitizers_clean=false \u{2014} this row predates the machine-enforced sanitizer lane; under current doctrine it could not be machine-accepted. See results/rulings/",
                ),
            );
        }
        if fuzz_iters == 0 {
            out.push(
                String::from_str(
                    "fuzz: 0 iterations in the machine record \u{2014} a pre-integration row; differential fuzz ran out-of-band via scripts through Phase 5 (an accept today requires a passed in-pipeline run)",
                ),
            );
        } else {
            let mut v = chars_of("fuzz: ");
            append(&mut v, &u64_dec(fuzz_iters));
            append(&mut v, &chars_of(" iterations executed, no divergence"));
            out.push(string_of(&v));
        }
        if tsan_clean == Some(false) {
            out.push(String::from_str("CAUTION: TSan lane flagged this attempt"));
        }
        assert(texts(out@) =~= before + accept_caveats(sanitizers_clean, fuzz_iters as nat, tsan_clean));
    }
    assert(texts(out@) =~= caveat_text(
        verdict@,
        texts(risk_signals@),
        fuzz_iters as nat,
        mode,
        sanitizers_clean,
        tsan_clean,
    ));
    out
}

/// The line flagging a bench run without the network-namespace boundary,
/// or `None` when the isolation note on record shows the boundary held.
pub fn isolation_caveat(note: &str) -> (r: Option<String>)
    ensures
        match r {
            Some(l) => isolation_caveat_text(note@) == Some(l@),
            None => isolation_caveat_text(note@) is None,
        },
{
    if contains_exec(&chars_of(note), &chars_of("NOT isolated")) || same_as(note, "unwrapped-host") {
        let mut v = chars_of("isolation note on record: \"");
        append(&mut v, &chars_of(note));
        append(&mut v, &chars_of("\" \u{2014} this run did not have the network-namespace boundary"));
        Some(string_of(&v))
    } else {
        None
    }
}

} // verus!
