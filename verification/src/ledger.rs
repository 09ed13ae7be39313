//! The ledger's vocabulary: the four verdicts an attempt can end in and the
//! gate results recorded beside them.

use vstd::prelude::*;

verus! {

#[derive(Debug, Clone, Copy, PartialEq, Eq, Structural)]
pub enum Verdict {
    Accepted,
    RejectedGate,
    RejectedBench,
    NeedsHumanReview,
}

/// The kebab-case name the ledger stores for a verdict.
pub open spec fn verdict_name(v: Verdict) -> Seq<char> {
    match v {
        Verdict::Accepted => "accepted"@,
        Verdict::RejectedGate => "rejected-gate"@,
        Verdict::RejectedBench => "rejected-bench"@,
        Verdict::NeedsHumanReview => "needs-human-review"@,
    }
}

impl Verdict {
    pub fn as_str(&self) -> (r: &'static str)
        ensures
            r@ == verdict_name(*self),
    {
        match self {
            Verdict::Accepted => "accepted",
            Verdict::RejectedGate => "rejected-gate",
            Verdict::RejectedBench => "rejected-bench",
            Verdict::NeedsHumanReview => "needs-human-review",
        }
    }
}

/// Gate outcomes for one attempt, as the ledger records them.
#[derive(Debug, Clone)]
pub struct GateResults {
    pub upstream_tests: bool,
    pub golden_replay: bool,
    pub fuzz_iters: u64,
    pub fuzz_divergence: bool,
    pub sanitizers_clean: bool,
    /// TSan lane result; `None` when the target declares no TSan build.
    pub tsan_clean: Option<bool>,
    /// Lexical risk-classifier signals (see `risk::classify`).
    pub risk_signals: Vec<String>,
    /// "byte-identical" | "fp-tolerance"; `None` on rows that predate it.
    pub equivalence_mode: Option<String>,
}

impl Default for GateResults {
    fn default() -> (r: Self)
        ensures
            !r.upstream_tests && !r.golden_replay && r.fuzz_iters == 0 && !r.fuzz_divergence
                && !r.sanitizers_clean && r.tsan_clean is None && r.risk_signals@.len() == 0
                && r.equivalence_mode is None,
    {
        GateResults {
            upstream_tests: false,
            golden_replay: false,
            fuzz_iters: 0,
            fuzz_divergence: false,
            sanitizers_clean: false,
            tsan_clean: None,
            risk_signals: Vec::new(),
            equivalence_mode: None,
        }
    }
}

} // verus!
