use peltier::ranking::{class_tally, evidence_note};

fn outcomes() -> Vec<(u8, String, String, bool)> {
    vec![
        (5, "t".into(), "accepted".into(), true),
        (5, "t".into(), "accepted".into(), false),
        (5, "u".into(), "accepted".into(), true),
        (5, "t".into(), "needs-human-review".into(), true),
        (6, "t".into(), "rejected-bench".into(), false),
    ]
}

#[test]
fn tally_counts_wins_holds_and_attempts() {
    let o = outcomes();
    assert_eq!(class_tally(&o, 5, None), (4, 2, 1));
    assert_eq!(class_tally(&o, 5, Some("t")), (3, 1, 1));
    assert_eq!(class_tally(&o, 6, None), (1, 0, 0));
    assert_eq!(class_tally(&o, 7, None), (0, 0, 0));
}

#[test]
fn notes_follow_the_evidence() {
    assert_eq!(evidence_note(0, 0, 0), "untried \u{2014} cheapest-first prior only");
    assert_eq!(evidence_note(3, 1, 1), "proven winner");
    assert_eq!(evidence_note(3, 0, 1), "held for human review (measured win, tier-gated)");
    assert_eq!(evidence_note(3, 0, 0), "evidence against \u{2014} tried, no shippable win");
}
