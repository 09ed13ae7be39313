//! Equivalence-gate outcomes and their aggregation: all layers must pass,
//! any failure is an auto-reject, and a run in which nothing passed is no
//! pass at all.

use vstd::prelude::*;

verus! {

/// Outcome of one gate layer. `Skipped` always records its reason.
#[derive(Debug, Clone, PartialEq, Eq)]
pub enum GateOutcome {
    Passed,
    Failed { detail: String },
    Skipped { reason: String },
}

#[derive(Debug, Clone, Copy, PartialEq, Eq, Structural)]
pub enum GateLayer {
    UpstreamTests,
    GoldenReplay,
    DifferentialFuzz,
    Sanitizers,
}

/// Every layer passed or was skipped, and at least one actually passed.
pub open spec fn all_passed_spec(results: Seq<(GateLayer, GateOutcome)>) -> bool {
    &&& forall|i: int| 0 <= i < results.len() ==> !(#[trigger] results[i].1 is Failed)
    &&& exists|i: int| 0 <= i < results.len() && #[trigger] results[i].1 is Passed
}

/// All layers must pass (a skip with its reason is allowed); any failure
/// is an auto-reject, and all-skipped is not a pass.
pub fn all_passed(results: &[(GateLayer, GateOutcome)]) -> (r: bool)
    ensures
        r == all_passed_spec(results@),
        (exists|i: int| 0 <= i < results@.len() && #[trigger] results@[i].1 is Failed) ==> !r,
        (forall|i: int| 0 <= i < results@.len() ==> #[trigger] results@[i].1 is Skipped) ==> !r,
{
    let mut any_pass = false;
    let mut i: usize = 0;
    while i < results.len()
        invariant
            i <= results.len(),
            forall|k: int| 0 <= k < i ==> !(#[trigger] results@[k].1 is Failed),
            any_pass == exists|k: int| 0 <= k < i && #[trigger] results@[k].1 is Passed,
        decreases results.len() - i,
    {
        match &results[i].1 {
            GateOutcome::Failed { .. } => {
                assert(results@[i as int].1 is Failed);
                return false;
            },
            GateOutcome::Passed => {
                assert(results@[i as int].1 is Passed);
                any_pass = true;
            },
            GateOutcome::Skipped { .. } => {},
        }
        i += 1;
    }
    any_pass
}

/// Inputs to one gate run: the candidate binary under test, the pristine
/// baseline to differ it against (`None` when the caller has none; the
/// differential fuzz gate is then skipped with that reason), and the
/// differential-fuzz iteration budget.
#[derive(Debug, Clone, Copy)]
pub struct GateInputs<'a> {
    pub candidate_binary: &'a str,
    pub baseline_binary: Option<&'a str>,
    pub fuzz_iters: u64,
}

/// Everything one gate run produced: the four layers in fixed order plus
/// the fuzz counts and equivalence mode the ledger records.
#[derive(Debug, Clone)]
pub struct GateReport {
    pub gates: Vec<(GateLayer, GateOutcome)>,
    /// Fuzz iterations actually executed; 0 when fuzzing was skipped or
    /// never reported.
    pub fuzz_iters: u64,
    pub fuzz_divergence: bool,
    /// "byte-identical" | "fp-tolerance"
    pub equivalence_mode: String,
}

/// Index of the first entry for `layer`, if any.
pub open spec fn first_of_layer(gates: Seq<(GateLayer, GateOutcome)>, layer: GateLayer) -> Option<
    int,
> {
    if exists|i: int| 0 <= i < gates.len() && #[trigger] gates[i].0 == layer {
        Some(
            choose|i: int|
                0 <= i < gates.len() && #[trigger] gates[i].0 == layer && forall|j: int|
                    0 <= j < i ==> #[trigger] gates[j].0 != layer,
        )
    } else {
        None
    }
}

impl GateReport {
    /// The outcome recorded for `layer` (the first entry for it), if any.
    pub fn outcome(&self, layer: GateLayer) -> (r: Option<&GateOutcome>)
        ensures
            r is None <==> first_of_layer(self.gates@, layer) is None,
            r matches Some(o) ==> first_of_layer(self.gates@, layer) matches Some(i) && *o
                == self.gates@[i].1,
    {
        let mut i: usize = 0;
        while i < self.gates.len()
            invariant
                i <= self.gates.len(),
                forall|j: int| 0 <= j < i ==> #[trigger] self.gates@[j].0 != layer,
            decreases self.gates.len() - i,
        {
            if self.gates[i].0 == layer {
                proof {
                    let g = self.gates@;
                    assert(0 <= i < g.len() && g[i as int].0 == layer);
                    let k = choose|k: int|
                        0 <= k < g.len() && #[trigger] g[k].0 == layer && forall|j: int|
                            0 <= j < k ==> #[trigger] g[j].0 != layer;
                    assert(0 <= i < g.len() && g[i as int].0 == layer && forall|j: int|
                        0 <= j < i ==> #[trigger] g[j].0 != layer);
                    if k < i {
                        assert(g[k].0 != layer);
                    }
                    if i < k {
                        assert(g[i as int].0 != layer);
                    }
                }
                return Some(&self.gates[i].1);
            }
            i += 1;
        }
        None
    }

    /// `all_passed` over this report's layers.
    pub fn all_passed(&self) -> (r: bool)
        ensures
            r == all_passed_spec(self.gates@),
    {
        all_passed(self.gates.as_slice())
    }
}

} // verus!
