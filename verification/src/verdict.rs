//! The verdict rules of the attempt pipeline: any gate failure rejects
//! before the bench; a bench accept is then only ever capped (to
//! needs-human-review), never upgraded. A machine accept requires clean
//! sanitizers, a clean TSan lane where one is declared, no lexical risk
//! signal, and a differential-fuzz gate that actually passed.

use vstd::prelude::*;
use vstd::relations::{sorted_by, total_ordering};
use crate::gates::{first_of_layer, GateLayer, GateOutcome, GateReport};
use crate::ledger::{GateResults, Verdict};
use crate::orchestrate::replace_chars;
use crate::risk::{classify, signals};
use crate::text::{
    append, chars_of, contains, contains_exec, first_index_exec, lines, parse_u64, replace_all,
    same_chars, slice_of, split_lines, starts_with_exec, string_of,
};

verus! {

/// The word for the state of the differential-fuzz gate.
pub open spec fn fuzz_state_name(outcome: Option<GateOutcome>) -> Seq<char> {
    match outcome {
        Some(GateOutcome::Passed) => "passed"@,
        Some(GateOutcome::Failed { .. }) => "failed"@,
        Some(GateOutcome::Skipped { .. }) => "skipped"@,
        None => "not run"@,
    }
}

/// One word for the state of the differential-fuzz gate.
pub fn fuzz_state(outcome: Option<&GateOutcome>) -> (r: &'static str)
    ensures
        r@ == fuzz_state_name(
            match outcome {
                Some(o) => Some(*o),
                None => None,
            },
        ),
{
    match outcome {
        Some(GateOutcome::Passed) => "passed",
        Some(GateOutcome::Failed { .. }) => "failed",
        Some(GateOutcome::Skipped { .. }) => "skipped",
        None => "not run",
    }
}

/// The usual order on `u64`, as a relation.
pub open spec fn u64_leq() -> spec_fn(u64, u64) -> bool {
    |a: u64, b: u64| a <= b
}

/// Median of a sample: the middle of the sorted sample, or the mean
/// (rounded down) of the two middle values when the count is even.
pub open spec fn median_spec(xs: Seq<u64>) -> int {
    let s = xs.sort_by(u64_leq());
    let n = s.len() as int;
    if n % 2 == 1 {
        s[n / 2] as int
    } else {
        (s[n / 2 - 1] + s[n / 2]) / 2
    }
}

proof fn lemma_u64_leq_total()
    ensures
        total_ordering(u64_leq()),
{
}

/// A sorted copy of `xs`.
fn sorted_copy(xs: &[u64]) -> (r: Vec<u64>)
    ensures
        sorted_by(r@, u64_leq()),
        r@.to_multiset() == xs@.to_multiset(),
{
    broadcast use vstd::seq_lib::group_to_multiset_ensures;

    let mut out: Vec<u64> = Vec::new();
    let mut i: usize = 0;
    assert(xs@.take(0) =~= Seq::<u64>::empty());
    while i < xs.len()
        invariant
            i <= xs.len(),
            sorted_by(out@, u64_leq()),
            out@.to_multiset() == xs@.take(i as int).to_multiset(),
        decreases xs.len() - i,
    {
        let x = xs[i];
        let mut p: usize = 0;
        while p < out.len() && out[p] <= x
            invariant
                p <= out.len(),
                forall|k: int| 0 <= k < p ==> out@[k] <= x,
            decreases out.len() - p,
        {
            p += 1;
        }
        let ghost before = out@;
        out.insert(p, x);
        assert(xs@.take(i + 1) =~= xs@.take(i as int).push(x));
        proof {
            vstd::seq_lib::to_multiset_insert(before, p as int, x);
            vstd::seq_lib::to_multiset_build(xs@.take(i as int), x);
        }
        assert(sorted_by(out@, u64_leq())) by {
            assert forall|a: int, b: int| 0 <= a < b < out@.len() implies #[trigger] (u64_leq())(
                out@[a],
                out@[b],
            ) by {
                if p < before.len() {
                    assert(before[p as int] > x);
                }
                if a < p && b > p {
                    assert(out@[b] == before[b - 1]);
                    assert(before[a] <= x);
                    if p < before.len() {
                        assert((u64_leq())(before[p as int], before[b - 1]) || p == b - 1);
                    }
                } else if a == p {
                    assert(out@[b] == before[b - 1]);
                    assert((u64_leq())(before[p as int], before[b - 1]) || p == b - 1);
                } else if b == p {
                    assert(before[a] <= x);
                } else if a > p {
                    assert((u64_leq())(before[a - 1], before[b - 1]));
                } else {
                    assert((u64_leq())(before[a], before[b]));
                }
            }
        }
        i += 1;
    }
    assert(xs@.take(xs.len() as int) =~= xs@);
    out
}

/// Median of per-run max-RSS samples (KiB); an even count averages the
/// two middle values, rounding down. The average is computed without
/// intermediate overflow.
pub fn median_u64(xs: &[u64]) -> (r: u64)
    requires
        xs@.len() > 0,
    ensures
        r == median_spec(xs@),
{
    let v = sorted_copy(xs);
    proof {
        lemma_u64_leq_total();
        xs@.lemma_sort_by_ensures(u64_leq());
        vstd::seq_lib::lemma_sorted_unique(v@, xs@.sort_by(u64_leq()), u64_leq());
        v@.to_multiset_ensures();
        xs@.to_multiset_ensures();
    }
    let n = v.len();
    if n % 2 == 1 {
        v[n / 2]
    } else {
        let a = v[n / 2 - 1];
        let b = v[n / 2];
        let r = a / 2 + b / 2 + (a % 2 + b % 2) / 2;
        assert(r == (a + b) / 2) by (nonlinear_arith)
            requires
                r == a / 2 + b / 2 + (a % 2 + b % 2) / 2,
        ;
        r
    }
}

// ------------------------------------------------------------------
// Verdict caps
// ------------------------------------------------------------------

/// The manual review flag caps a would-be accept.
pub open spec fn after_review_flag_spec(decided: Verdict, needs_human_review: bool) -> Verdict {
    if needs_human_review && decided == Verdict::Accepted {
        Verdict::NeedsHumanReview
    } else {
        decided
    }
}

/// The verdict caps that apply to a would-be accept, and the clean flags the
/// ledger records: `sanitizers` is the ASan/UBSan lane (`None`: no lane, or
/// it could not be built), `tsan` is `None` when no TSan build is declared,
/// `Some(None)` when it is declared but could not run.
pub open spec fn cap_accept_spec(
    sanitizers: Option<bool>,
    tsan: Option<Option<bool>>,
    risk_signals_present: bool,
    fuzz_passed: bool,
) -> (Verdict, bool, Option<bool>) {
    let san_ok = sanitizers == Some(true);
    let tsan_ok = match tsan {
        None => true,
        Some(Some(clean)) => clean,
        Some(None) => false,
    };
    let tsan_clean = match tsan {
        Some(Some(clean)) => Some(clean),
        _ => None,
    };
    let v = if san_ok && tsan_ok && !risk_signals_present && fuzz_passed {
        Verdict::Accepted
    } else {
        Verdict::NeedsHumanReview
    };
    (v, san_ok, tsan_clean)
}

/// The manual `--needs-human-review` flag: caps a would-be accept, leaves
/// every other verdict as it is. The lanes of `cap_accept` run only when
/// this still yields `Accepted`.
pub fn after_review_flag(decided: Verdict, needs_human_review: bool) -> (r: Verdict)
    ensures
        r == after_review_flag_spec(decided, needs_human_review),
{
    if needs_human_review && decided == Verdict::Accepted {
        Verdict::NeedsHumanReview
    } else {
        decided
    }
}

/// Applies the accept-path caps in order (sanitizers, TSan, risk signals,
/// differential fuzz) to a verdict that is still `Accepted` after the
/// review flag. Returns the verdict with the `sanitizers_clean` and
/// `tsan_clean` values to record.
pub fn cap_accept(
    sanitizers: Option<bool>,
    tsan: Option<Option<bool>>,
    risk_signals_present: bool,
    fuzz_passed: bool,
) -> (r: (Verdict, bool, Option<bool>))
    ensures
        r == cap_accept_spec(sanitizers, tsan, risk_signals_present, fuzz_passed),
{
    let mut v = Verdict::Accepted;
    let mut sanitizers_clean = false;
    let mut tsan_clean: Option<bool> = None;
    match sanitizers {
        Some(true) => {
            sanitizers_clean = true;
        },
        Some(false) => {
            v = Verdict::NeedsHumanReview;
        },
        None => {
            v = Verdict::NeedsHumanReview;
        },
    }
    match tsan {
        None => {},
        Some(Some(clean)) => {
            tsan_clean = Some(clean);
            if !clean {
                v = Verdict::NeedsHumanReview;
            }
        },
        Some(None) => {
            v = Verdict::NeedsHumanReview;
        },
    }
    if v == Verdict::Accepted && risk_signals_present {
        v = Verdict::NeedsHumanReview;
    }
    if v == Verdict::Accepted && !fuzz_passed {
        v = Verdict::NeedsHumanReview;
    }
    (v, sanitizers_clean, tsan_clean)
}

/// The whole settlement of an attempt's verdict. `bench` is the verdict the
/// bench decided (`None` when the bench did not run because a gate failed);
/// the lane results are those of `cap_accept`, consulted only when the
/// would-be verdict is still an accept after the review flag.
pub open spec fn settle_spec(
    gates_passed: bool,
    bench: Option<Verdict>,
    needs_human_review: bool,
    sanitizers: Option<bool>,
    tsan: Option<Option<bool>>,
    risk_signals_present: bool,
    fuzz_passed: bool,
) -> Verdict {
    if !gates_passed || bench is None {
        Verdict::RejectedGate
    } else {
        let v = after_review_flag_spec(bench->0, needs_human_review);
        if v == Verdict::Accepted {
            cap_accept_spec(sanitizers, tsan, risk_signals_present, fuzz_passed).0
        } else {
            v
        }
    }
}

/// A verdict is only ever capped, never upgraded: the settled verdict is
/// either the bench's own verdict or needs-human-review, and anything the
/// bench did not accept stays exactly as the bench decided.
pub proof fn law_caps_never_upgrade(
    bench: Verdict,
    needs_human_review: bool,
    sanitizers: Option<bool>,
    tsan: Option<Option<bool>>,
    risk_signals_present: bool,
    fuzz_passed: bool,
)
    ensures
        ({
            let s = settle_spec(
                true,
                Some(bench),
                needs_human_review,
                sanitizers,
                tsan,
                risk_signals_present,
                fuzz_passed,
            );
            &&& s == bench || s == Verdict::NeedsHumanReview
            &&& bench != Verdict::Accepted ==> s == bench
        }),
{
}

/// A machine accept carries every required piece of evidence: the gates
/// passed, the bench accepted, no manual review flag, clean sanitizers, a
/// clean TSan lane wherever one is declared, no lexical risk signal, and a
/// differential-fuzz gate that passed. Missing any one of them, an accept
/// is never the outcome.
pub proof fn law_accept_needs_all_evidence(
    gates_passed: bool,
    bench: Option<Verdict>,
    needs_human_review: bool,
    sanitizers: Option<bool>,
    tsan: Option<Option<bool>>,
    risk_signals_present: bool,
    fuzz_passed: bool,
)
    ensures
        settle_spec(
            gates_passed,
            bench,
            needs_human_review,
            sanitizers,
            tsan,
            risk_signals_present,
            fuzz_passed,
        ) == Verdict::Accepted <==> {
            &&& gates_passed
            &&& bench == Some(Verdict::Accepted)
            &&& !needs_human_review
            &&& sanitizers == Some(true)
            &&& (tsan is None || tsan == Some(Some(true)))
            &&& !risk_signals_present
            &&& fuzz_passed
        },
{
}

/// Any gate failure is a rejected-gate verdict, whatever else holds.
pub proof fn law_gate_failure_rejects(
    bench: Option<Verdict>,
    needs_human_review: bool,
    sanitizers: Option<bool>,
    tsan: Option<Option<bool>>,
    risk_signals_present: bool,
    fuzz_passed: bool,
)
    ensures
        settle_spec(
            false,
            bench,
            needs_human_review,
            sanitizers,
            tsan,
            risk_signals_present,
            fuzz_passed,
        ) == Verdict::RejectedGate,
{
}

/// Settles an attempt's verdict from whether the gates passed, the bench verdict
/// and the accept-path lane results (see `settle_spec`).
pub fn settle(
    gates_passed: bool,
    bench: Option<Verdict>,
    needs_human_review: bool,
    sanitizers: Option<bool>,
    tsan: Option<Option<bool>>,
    risk_signals_present: bool,
    fuzz_passed: bool,
) -> (r: Verdict)
    ensures
        r == settle_spec(
            gates_passed,
            bench,
            needs_human_review,
            sanitizers,
            tsan,
            risk_signals_present,
            fuzz_passed,
        ),
{
    match bench {
        Some(b) if gates_passed => {
            let v = after_review_flag(b, needs_human_review);
            if v == Verdict::Accepted {
                cap_accept(sanitizers, tsan, risk_signals_present, fuzz_passed).0
            } else {
                v
            }
        },
        _ => Verdict::RejectedGate,
    }
}

/// The phase a run id's `phase<N>-` namespace names; 1 for ids without one.
pub open spec fn phase_of(run_id: Seq<char>) -> u8 {
    if crate::text::starts_with(run_id, "phase"@) {
        let rest = run_id.skip(5);
        let digits = rest.take(crate::text::first_index(rest, '-') as int);
        match crate::text::parses_u64(digits) {
            Some(n) => if n <= 255 {
                n as u8
            } else {
                1
            },
            None => 1,
        }
    } else {
        1
    }
}

/// Derives the ledger phase from the run id (`phaseN-...`), falling back
/// to 1 for ids outside that namespace.
pub fn phase_from_run_id(run_id: &str) -> (r: u8)
    ensures
        r == phase_of(run_id@),
{
    proof {
        reveal_strlit("phase");
    }
    let cs = chars_of(run_id);
    let pre = chars_of("phase");
    if !starts_with_exec(&cs, &pre) {
        return 1;
    }
    let rest = slice_of(&cs, 5, cs.len());
    assert(rest@ =~= cs@.skip(5));
    let j = first_index_exec(&rest, 0, '-');
    assert(rest@.skip(0) =~= rest@);
    let digits = slice_of(&rest, 0, j);
    assert(digits@ =~= rest@.take(j as int));
    match parse_u64(&digits) {
        Some(n) => if n <= 255 {
            n as u8
        } else {
            1
        },
        None => 1,
    }
}

// ------------------------------------------------------------------
// The record of the gates, and the bench command
// ------------------------------------------------------------------

/// Whether the report's entry for `layer` is a pass (a missing layer is not).
pub open spec fn layer_passed(gates: Seq<(GateLayer, GateOutcome)>, layer: GateLayer) -> bool {
    match first_of_layer(gates, layer) {
        Some(i) => gates[i].1 is Passed,
        None => false,
    }
}

/// Whether a gate run's report shows `layer` passed.
pub fn passed(report: &GateReport, layer: GateLayer) -> (b: bool)
    ensures
        b == layer_passed(report.gates@, layer),
{
    match report.outcome(layer) {
        Some(GateOutcome::Passed) => true,
        _ => false,
    }
}

/// What the ledger records of an attempt's gates, before the accept
/// path runs its lanes: which core gates passed, the fuzz counts, the
/// lexical risk signals of `patch` (with the fp-tolerance signal when the
/// report's equivalence mode is fp-tolerance) and that mode. The
/// sanitizer and TSan results are filled in by the accept path.
pub fn gate_results_of(report: &GateReport, patch: &str) -> (r: GateResults)
    ensures
        r.upstream_tests == layer_passed(report.gates@, GateLayer::UpstreamTests),
        r.golden_replay == layer_passed(report.gates@, GateLayer::GoldenReplay),
        r.fuzz_iters == report.fuzz_iters,
        r.fuzz_divergence == report.fuzz_divergence,
        !r.sanitizers_clean,
        r.tsan_clean is None,
        r.risk_signals@.map_values(|s: String| s@) == signals(
            patch@,
            report.equivalence_mode@ == "fp-tolerance"@,
        ),
        r.equivalence_mode matches Some(m) && m@ == report.equivalence_mode@,
{
    let fp = same_chars(&chars_of(report.equivalence_mode.as_str()), &chars_of("fp-tolerance"));
    GateResults {
        upstream_tests: passed(report, GateLayer::UpstreamTests),
        golden_replay: passed(report, GateLayer::GoldenReplay),
        fuzz_iters: report.fuzz_iters,
        fuzz_divergence: report.fuzz_divergence,
        sanitizers_clean: false,
        tsan_clean: None,
        risk_signals: classify(patch, fp),
        equivalence_mode: Some(report.equivalence_mode.clone()),
    }
}

/// The shell command that benches one binary: the target's bench command
/// with `{binary}` substituted, run by `sh -c`, behind the pinning prefix
/// when there is one.
pub open spec fn bench_command_text(pin: Seq<char>, command: Seq<char>, binary: Seq<char>) -> Seq<
    char,
> {
    let cmd = replace_all(command, "{binary}"@, binary);
    if pin.len() == 0 {
        "sh -c \""@ + cmd + "\""@
    } else {
        pin + " sh -c \""@ + cmd + "\""@
    }
}

/// The bench command for one binary (see `bench_command_text`).
pub fn bench_command(pin: &str, command: &str, binary: &str) -> (r: String)
    ensures
        r@ == bench_command_text(pin@, command@, binary@),
{
    proof {
        reveal_strlit("{binary}");
    }
    let cmd = replace_chars(&chars_of(command), &chars_of("{binary}"), &chars_of(binary));
    let p = chars_of(pin);
    let mut v: Vec<char> = Vec::new();
    if p.len() > 0 {
        append(&mut v, &p);
        append(&mut v, &chars_of(" sh -c \""));
    } else {
        append(&mut v, &chars_of("sh -c \""));
    }
    append(&mut v, &cmd);
    append(&mut v, &chars_of("\""));
    assert(v@ =~= bench_command_text(pin@, command@, binary@));
    string_of(&v)
}

// ------------------------------------------------------------------
// Sanitizer lanes
// ------------------------------------------------------------------

/// The stderr markers that flag an instrumented run even when it exits 0.
pub open spec fn sanitizer_markers() -> Seq<Seq<char>> {
    seq![
        "ERROR: AddressSanitizer"@,
        "ERROR: LeakSanitizer"@,
        "ERROR: ThreadSanitizer"@,
        "WARNING: ThreadSanitizer"@,
        "runtime error:"@,
    ]
}

/// An instrumented run is clean when it exited 0 and its stderr carries
/// none of the sanitizer markers.
pub open spec fn lane_clean_spec(success: bool, stderr: Seq<char>) -> bool {
    success && !(exists|k: int|
        0 <= k < sanitizer_markers().len() && contains(stderr, #[trigger] sanitizer_markers()[k]))
}

/// Whether one instrumented run is clean (see `lane_clean_spec`).
pub fn lane_clean(success: bool, stderr: &str) -> (b: bool)
    ensures
        b == lane_clean_spec(success, stderr@),
{
    let cs = chars_of(stderr);
    let markers = vec![
        chars_of("ERROR: AddressSanitizer"),
        chars_of("ERROR: LeakSanitizer"),
        chars_of("ERROR: ThreadSanitizer"),
        chars_of("WARNING: ThreadSanitizer"),
        chars_of("runtime error:"),
    ];
    let ghost ms = sanitizer_markers();
    assert(markers@.map_values(|m: Vec<char>| m@) =~= ms);
    let mut i: usize = 0;
    while i < markers.len()
        invariant
            i <= markers.len(),
            markers@.len() == ms.len(),
            forall|k: int| 0 <= k < markers@.len() ==> #[trigger] markers@[k]@ == ms[k],
            cs@ == stderr@,
            ms == sanitizer_markers(),
            forall|k: int| 0 <= k < i ==> !contains(stderr@, #[trigger] ms[k]),
        decreases markers.len() - i,
    {
        assert(markers@[i as int]@ == ms[i as int]);
        if contains_exec(&cs, &markers[i]) {
            assert(contains(stderr@, sanitizer_markers()[i as int]));
            return false;
        }
        i += 1;
    }
    success
}

/// A lane is clean exactly when the run exited 0 and its stderr holds none
/// of the five sanitizer markers, each written out: any one of them flags
/// the run whatever its exit status.
pub proof fn law_lane_flagged_by_each_marker(success: bool, stderr: Seq<char>)
    ensures
        lane_clean_spec(success, stderr) <==> (success && !contains(
            stderr,
            "ERROR: AddressSanitizer"@,
        ) && !contains(stderr, "ERROR: LeakSanitizer"@) && !contains(
            stderr,
            "ERROR: ThreadSanitizer"@,
        ) && !contains(stderr, "WARNING: ThreadSanitizer"@) && !contains(
            stderr,
            "runtime error:"@,
        )),
{
    let ms = sanitizer_markers();
    assert(ms[0] == "ERROR: AddressSanitizer"@);
    assert(ms[1] == "ERROR: LeakSanitizer"@);
    assert(ms[2] == "ERROR: ThreadSanitizer"@);
    assert(ms[3] == "WARNING: ThreadSanitizer"@);
    assert(ms[4] == "runtime error:"@);
    if exists|k: int| 0 <= k < ms.len() && contains(stderr, #[trigger] ms[k]) {
        let k = choose|k: int| 0 <= k < ms.len() && contains(stderr, #[trigger] ms[k]);
        assert(0 <= k < 5);
    }
}

/// The last eight non-empty lines of a flagged run's stderr, in order.
pub open spec fn flagged_tail_spec(stderr: Seq<char>) -> Seq<Seq<char>> {
    let kept = lines(stderr).filter(|l: Seq<char>| l.len() > 0);
    kept.skip(if kept.len() > 8 {
        kept.len() - 8
    } else {
        0
    })
}

/// The stderr lines shown for a flagged run (see `flagged_tail_spec`).
pub fn flagged_tail(stderr: &str) -> (r: Vec<String>)
    ensures
        r@.map_values(|s: String| s@) == flagged_tail_spec(stderr@),
{
    let cs = chars_of(stderr);
    let ls = split_lines(&cs);
    let ghost all = ls@.map_values(|l: Vec<char>| l@);
    let ghost keep = |l: Seq<char>| l.len() > 0;
    let mut kept: Vec<Vec<char>> = Vec::new();
    let mut i: usize = 0;
    assert(all.take(0) =~= Seq::<Seq<char>>::empty());
    while i < ls.len()
        invariant
            i <= ls.len(),
            all == ls@.map_values(|l: Vec<char>| l@),
            all == lines(stderr@),
            keep == (|l: Seq<char>| l.len() > 0),
            kept@.map_values(|l: Vec<char>| l@) == all.take(i as int).filter(keep),
        decreases ls.len() - i,
    {
        assert(all.take(i + 1).drop_last() =~= all.take(i as int));
        assert(all.take(i + 1).last() == ls@[i as int]@);
        let ghost before = kept@.map_values(|l: Vec<char>| l@);
        if ls[i].len() > 0 {
            let row = slice_of(&ls[i], 0, ls[i].len());
            assert(row@ =~= ls@[i as int]@);
            kept.push(row);
            assert(kept@.map_values(|l: Vec<char>| l@) =~= before.push(ls@[i as int]@));
        }
        assert(all.take(i + 1).filter(keep) == if keep(ls@[i as int]@) {
            all.take(i as int).filter(keep).push(ls@[i as int]@)
        } else {
            all.take(i as int).filter(keep)
        }) by {
            reveal(Seq::filter);
        }
        i += 1;
    }
    assert(all.take(ls.len() as int) =~= all);
    let from = if kept.len() > 8 {
        kept.len() - 8
    } else {
        0
    };
    let mut out: Vec<String> = Vec::new();
    let mut k = from;
    while k < kept.len()
        invariant
            from <= k <= kept.len(),
            out@.len() == k - from,
            forall|j: int| 0 <= j < out@.len() ==> (#[trigger] out@[j])@ == kept@[from + j]@,
        decreases kept.len() - k,
    {
        out.push(string_of(&kept[k]));
        k += 1;
    }
    assert(out@.map_values(|s: String| s@) =~= kept@.map_values(|l: Vec<char>| l@).skip(
        from as int,
    ));
    out
}

} // verus!
