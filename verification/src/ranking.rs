//! The evidence behind the learned class-selection prior: per playbook
//! class, how many ledger attempts there were, how many were shippable
//! wins (accepted and sanitizer-clean) and how many were held for human
//! review. The Wilson bound over these counts is floating point and is
//! computed by the caller.

use vstd::prelude::*;
use crate::text::{chars_of, same_chars};

verus! {

/// One ledger outcome: `(playbook_class, target, verdict, sanitizers_clean)`.
pub open spec fn outcome_view(o: (u8, String, String, bool)) -> (u8, Seq<char>, Seq<char>, bool) {
    (o.0, o.1@, o.2@, o.3)
}

/// Whether an outcome is evidence about `class` (within `target`, when one
/// is given).
pub open spec fn counts_for(o: (u8, Seq<char>, Seq<char>, bool), class: u8, target: Option<Seq<char>>) -> bool {
    o.0 == class && match target {
        Some(t) => o.1 == t,
        None => true,
    }
}

/// `(attempts, wins, held)` for `class` over the outcomes: a win is an
/// `accepted` verdict with clean sanitizers, a hold a `needs-human-review`.
pub open spec fn tally(rows: Seq<(u8, Seq<char>, Seq<char>, bool)>, class: u8, target: Option<Seq<char>>) -> (
    nat,
    nat,
    nat,
)
    decreases rows.len(),
{
    if rows.len() == 0 {
        (0, 0, 0)
    } else {
        let (a, w, h) = tally(rows.drop_last(), class, target);
        let o = rows.last();
        if !counts_for(o, class, target) {
            (a, w, h)
        } else if o.2 == "accepted"@ && o.3 {
            (a + 1, w + 1, h)
        } else if o.2 == "needs-human-review"@ {
            (a + 1, w, h + 1)
        } else {
            (a + 1, w, h)
        }
    }
}

proof fn lemma_tally_bounds(rows: Seq<(u8, Seq<char>, Seq<char>, bool)>, class: u8, target: Option<Seq<char>>)
    ensures
        tally(rows, class, target).1 + tally(rows, class, target).2 <= tally(rows, class, target).0,
        tally(rows, class, target).0 <= rows.len(),
    decreases rows.len(),
{
    if rows.len() > 0 {
        lemma_tally_bounds(rows.drop_last(), class, target);
    }
}

/// Counts the evidence for one playbook class (see `tally`). Wins and
/// holds never exceed the attempts they are counted among.
pub fn class_tally(outcomes: &[(u8, String, String, bool)], class: u8, target: Option<&str>) -> (r: (
    u64,
    u64,
    u64,
))
    ensures
        (r.0 as nat, r.1 as nat, r.2 as nat) == tally(
            outcomes@.map_values(|o: (u8, String, String, bool)| outcome_view(o)),
            class,
            match target {
                Some(t) => Some(t@),
                None => None,
            },
        ),
        r.1 + r.2 <= r.0,
{
    let ghost rows = outcomes@.map_values(|o: (u8, String, String, bool)| outcome_view(o));
    let ghost want = match target {
        Some(t) => Some(t@),
        None => None::<Seq<char>>,
    };
    let accepted = chars_of("accepted");
    let review = chars_of("needs-human-review");
    let (mut attempts, mut wins, mut held): (u64, u64, u64) = (0, 0, 0);
    let mut i: usize = 0;
    assert(rows.take(0) =~= Seq::<(u8, Seq<char>, Seq<char>, bool)>::empty());
    while i < outcomes.len()
        invariant
            i <= outcomes.len(),
            rows == outcomes@.map_values(|o: (u8, String, String, bool)| outcome_view(o)),
            want == match target {
                Some(t) => Some(t@),
                None => None::<Seq<char>>,
            },
            accepted@ == "accepted"@,
            review@ == "needs-human-review"@,
            (attempts as nat, wins as nat, held as nat) == tally(rows.take(i as int), class, want),
        decreases outcomes.len() - i,
    {
        proof {
            lemma_tally_bounds(rows.take(i as int), class, want);
            assert(rows.take(i + 1).drop_last() =~= rows.take(i as int));
            assert(rows.take(i + 1).last() == outcome_view(outcomes@[i as int]));
        }
        let (c, t, v, clean) = &outcomes[i];
        let in_scope = *c == class && match target {
            Some(want_t) => same_chars(&chars_of(t.as_str()), &chars_of(want_t)),
            None => true,
        };
        if in_scope {
            let vs = chars_of(v.as_str());
            attempts += 1;
            if same_chars(&vs, &accepted) && *clean {
                wins += 1;
            } else if same_chars(&vs, &review) {
                held += 1;
            }
        }
        i += 1;
    }
    assert(rows.take(outcomes.len() as int) =~= rows);
    proof {
        lemma_tally_bounds(rows, class, want);
    }
    (attempts, wins, held)
}

/// A short human note on the evidence state of a class.
pub fn evidence_note(attempts: u64, wins: u64, held: u64) -> (r: &'static str)
    ensures
        r@ == if attempts == 0 {
            "untried \u{2014} cheapest-first prior only"@
        } else if wins > 0 {
            "proven winner"@
        } else if held > 0 {
            "held for human review (measured win, tier-gated)"@
        } else {
            "evidence against \u{2014} tried, no shippable win"@
        },
{
    if attempts == 0 {
        "untried \u{2014} cheapest-first prior only"
    } else if wins > 0 {
        "proven winner"
    } else if held > 0 {
        "held for human review (measured win, tier-gated)"
    } else {
        "evidence against \u{2014} tried, no shippable win"
    }
}

} // verus!
