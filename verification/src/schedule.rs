//! Interleaved run scheduling: baseline and candidate run ABAB..., never in
//! sequential blocks, so thermal and background drift land on both sides.

use vstd::prelude::*;

verus! {

#[derive(Debug, Clone, Copy, PartialEq, Eq, Structural)]
pub enum Side {
    Baseline,
    Candidate,
}

/// Entry `k` of the schedule: even entries are baseline runs, odd ones
/// candidate runs; the first `warmup` pairs are unmeasured.
pub open spec fn schedule_entry(k: int, warmup: int) -> (Side, bool) {
    (if k % 2 == 0 {
        Side::Baseline
    } else {
        Side::Candidate
    }, k / 2 >= warmup)
}

/// The whole schedule for `runs` measured runs per side after `warmup`
/// warm-up pairs.
pub open spec fn schedule(runs: nat, warmup: nat) -> Seq<(Side, bool)> {
    Seq::new(2 * (runs + warmup), |k: int| schedule_entry(k, warmup as int))
}

/// How many entries of `plan` equal `e`.
pub open spec fn count_entries(plan: Seq<(Side, bool)>, e: (Side, bool)) -> nat
    decreases plan.len(),
{
    if plan.len() == 0 {
        0
    } else {
        count_entries(plan.drop_last(), e) + if plan.last() == e {
            1nat
        } else {
            0nat
        }
    }
}

/// ABAB... schedule with `runs_per_side` measured runs on each side,
/// preceded by `warmup` unmeasured warm-up pairs (alternating too, so both
/// binaries reach steady state).
pub fn interleaved(runs_per_side: usize, warmup: usize) -> (plan: Vec<(Side, bool)>)
    requires
        2 * (runs_per_side + warmup) <= usize::MAX,
    ensures
        plan@.len() == 2 * (runs_per_side + warmup),
        forall|k: int| 0 <= k < plan@.len() ==> #[trigger] plan@[k] == schedule_entry(k, warmup as int),
        plan@ == schedule(runs_per_side as nat, warmup as nat),
{
    let total = runs_per_side + warmup;
    let mut plan: Vec<(Side, bool)> = Vec::with_capacity(2 * total);
    let mut i: usize = 0;
    while i < total
        invariant
            i <= total,
            total == runs_per_side + warmup,
            plan@.len() == 2 * i,
            forall|k: int| 0 <= k < plan@.len() ==> #[trigger] plan@[k] == schedule_entry(k, warmup as int),
        decreases total - i,
    {
        let measured = i >= warmup;
        plan.push((Side::Baseline, measured));
        plan.push((Side::Candidate, measured));
        proof {
            let n = plan@.len() as int;
            assert((n - 2) / 2 == i && (n - 1) / 2 == i);
            assert(plan@[n - 2] == schedule_entry(n - 2, warmup as int));
            assert(plan@[n - 1] == schedule_entry(n - 1, warmup as int));
        }
        i += 1;
    }
    assert(plan@ =~= schedule(runs_per_side as nat, warmup as nat));
    plan
}

/// Within a schedule, entry `k` is measured exactly when it lies past the
/// `warmup` warm-up pairs, and each pair is a baseline run followed by a
/// candidate run that is measured alike.
pub proof fn law_schedule_balanced(runs_per_side: nat, warmup: nat, k: int)
    requires
        0 <= k < 2 * (runs_per_side + warmup),
    ensures
        schedule_entry(k, warmup as int).1 <==> k >= 2 * warmup,
        k % 2 == 0 ==> schedule_entry(k + 1, warmup as int) == (
            Side::Candidate,
            schedule_entry(k, warmup as int).1,
        ),
{
}

proof fn lemma_pair_counts(runs: nat, warmup: nat, n: nat)
    requires
        n <= runs + warmup,
    ensures
        count_entries(schedule(runs, warmup).take(2 * n as int), (Side::Baseline, true)) == (if n > warmup {
            n - warmup
        } else {
            0
        }),
        count_entries(schedule(runs, warmup).take(2 * n as int), (Side::Candidate, true)) == (if n > warmup {
            n - warmup
        } else {
            0
        }),
        count_entries(schedule(runs, warmup).take(2 * n as int), (Side::Baseline, false)) == (if n > warmup {
            warmup
        } else {
            n
        }),
        count_entries(schedule(runs, warmup).take(2 * n as int), (Side::Candidate, false)) == (if n > warmup {
            warmup
        } else {
            n
        }),
    decreases n,
{
    let full = schedule(runs, warmup);
    if n == 0 {
        assert(full.take(0) =~= Seq::<(Side, bool)>::empty());
    } else {
        lemma_pair_counts(runs, warmup, (n - 1) as nat);
        let s = full.take(2 * n as int);
        assert(s.drop_last() =~= full.take(2 * n - 1));
        assert(s.drop_last().drop_last() =~= full.take(2 * (n - 1)));
        let a: int = 2 * n - 2;
        let b: int = 2 * n - 1;
        assert(a % 2 == 0 && a / 2 == n - 1);
        assert(b % 2 == 1 && b / 2 == n - 1);
        assert(s.last() == schedule_entry(b, warmup as int));
        assert(s.drop_last().last() == schedule_entry(a, warmup as int));
        assert(schedule_entry(a, warmup as int) == (Side::Baseline, n - 1 >= warmup));
        assert(schedule_entry(b, warmup as int) == (Side::Candidate, n - 1 >= warmup));
        assert forall|e: (Side, bool)|
            #![trigger count_entries(s, e)]
            count_entries(s, e) == count_entries(full.take(2 * (n - 1)), e) + (if s.drop_last().last()
                == e {
                1nat
            } else {
                0nat
            }) + (if s.last() == e {
                1nat
            } else {
                0nat
            }) by {
            assert(count_entries(s, e) == count_entries(s.drop_last(), e) + (if s.last() == e {
                1nat
            } else {
                0nat
            }));
            assert(count_entries(s.drop_last(), e) == count_entries(s.drop_last().drop_last(), e) + (
            if s.drop_last().last() == e {
                1nat
            } else {
                0nat
            }));
        }
    }
}

/// A schedule holds exactly `runs` measured baseline runs and `runs`
/// measured candidate runs, and `warmup` unmeasured runs of each side.
pub proof fn law_measured_runs_per_side(runs: nat, warmup: nat)
    ensures
        count_entries(schedule(runs, warmup), (Side::Baseline, true)) == runs,
        count_entries(schedule(runs, warmup), (Side::Candidate, true)) == runs,
        count_entries(schedule(runs, warmup), (Side::Baseline, false)) == warmup,
        count_entries(schedule(runs, warmup), (Side::Candidate, false)) == warmup,
{
    lemma_pair_counts(runs, warmup, runs + warmup);
    assert(schedule(runs, warmup).take(2 * (runs + warmup) as int) =~= schedule(runs, warmup));
}

} // verus!
