//! Lexical risk classifier. Scans only the changed lines of a unified diff
//! for concurrency / unsafe / floating-point tokens; any would-be accept
//! that hits one is routed to human review. Plain token presence decides.

use vstd::prelude::*;
use crate::text::{
    free_of, join_with, lemma_lines_append, lemma_lines_free_of_newline, lemma_lines_of_join, strip_cr,
    chars_of, contains, contains_exec, lines, occurs_at, occurs_at_exec, split_lines, starts_with,
    starts_with_exec, string_of,
};

verus! {

pub open spec fn concurrency_tokens() -> Seq<Seq<char>> {
    seq![
        "pthread_"@,
        "std::sync"@,
        "std::thread"@,
        "Atomic"@,
        "atomic_"@,
        "__atomic_"@,
        "__sync_"@,
        "Mutex"@,
        "RwLock"@,
        "Condvar"@,
        "mpsc"@,
        "rayon::"@,
        "memory_order"@,
        "volatile"@,
    ]
}

pub open spec fn unsafe_tokens() -> Seq<Seq<char>> {
    seq!["unsafe "@, "transmute"@, "from_raw"@, "MaybeUninit"@, "UnsafeCell"@]
}

/// Spaced floating-point type names carry their own trailing boundary.
pub open spec fn fp_spaced_tokens() -> Seq<Seq<char>> {
    seq!["float "@, "double "@]
}

/// An identifier letter for the `f32`/`f64` boundary check: an ASCII
/// letter or `_` (digits do not count, so `1.0f32` still triggers).
pub open spec fn ident_letter(c: char) -> bool {
    let u = c as u32;
    (65 <= u <= 90) || (97 <= u <= 122) || u == 95
}

/// `token` occurs in `line` with no identifier letter glued to either side
/// (digits may touch it, so literal suffixes like `1.0f32` count).
pub open spec fn has_bounded_token(line: Seq<char>, token: Seq<char>) -> bool {
    exists|i: int| bounded_at(line, token, i)
}

/// `token` occurs at `i` with no identifier letter directly before or after.
pub open spec fn bounded_at(line: Seq<char>, token: Seq<char>, i: int) -> bool {
    occurs_at(line, token, i) && (i == 0 || !ident_letter(line[i - 1])) && (i + token.len()
        >= line.len() || !ident_letter(line[i + token.len()]))
}

pub open spec fn has_any(line: Seq<char>, toks: Seq<Seq<char>>) -> bool {
    exists|k: int| 0 <= k < toks.len() && contains(line, #[trigger] toks[k])
}

/// An added or removed line of a diff (file headers excluded).
pub open spec fn is_changed(line: Seq<char>) -> bool {
    (starts_with(line, "+"@) && !starts_with(line, "+++"@)) || (starts_with(line, "-"@)
        && !starts_with(line, "---"@))
}

pub open spec fn concurrency_line(line: Seq<char>) -> bool {
    has_any(line, concurrency_tokens())
}

pub open spec fn unsafe_line(line: Seq<char>) -> bool {
    has_any(line, unsafe_tokens())
}

pub open spec fn fp_line(line: Seq<char>) -> bool {
    has_any(line, fp_spaced_tokens()) || has_bounded_token(line, "f32"@) || has_bounded_token(
        line,
        "f64"@,
    )
}

/// The token family of a signal: 0 concurrency, 1 unsafe, otherwise floating point.
pub open spec fn family_hit(kind: int, line: Seq<char>) -> bool {
    if kind == 0 {
        concurrency_line(line)
    } else if kind == 1 {
        unsafe_line(line)
    } else {
        fp_line(line)
    }
}

/// Among the first `n` lines, a changed one hits the family `kind`.
pub open spec fn hits_before(ls: Seq<Seq<char>>, n: int, kind: int) -> bool {
    exists|k: int| 0 <= k < n && is_changed(#[trigger] ls[k]) && family_hit(kind, ls[k])
}

/// Some changed line of `diff` hits the family `kind`.
pub open spec fn some_changed(diff: Seq<char>, kind: int) -> bool {
    hits_before(lines(diff), lines(diff).len() as int, kind)
}

/// The added and removed lines of a diff.
pub open spec fn changed_lines(diff: Seq<char>) -> Set<Seq<char>> {
    Set::new(|l: Seq<char>| lines(diff).contains(l) && is_changed(l))
}

proof fn lemma_some_changed_transfers(d1: Seq<char>, d2: Seq<char>, kind: int)
    requires
        changed_lines(d1) == changed_lines(d2),
        some_changed(d1, kind),
    ensures
        some_changed(d2, kind),
{
    let ls1 = lines(d1);
    let ls2 = lines(d2);
    let k = choose|k: int| 0 <= k < ls1.len() && is_changed(#[trigger] ls1[k]) && family_hit(kind, ls1[k]);
    let l = ls1[k];
    assert(ls1.contains(l));
    assert(changed_lines(d1).contains(l));
    assert(changed_lines(d2).contains(l));
    let j = choose|j: int| 0 <= j < ls2.len() && ls2[j] == l;
    assert(is_changed(ls2[j]) && family_hit(kind, ls2[j]));
}

/// Only added and removed lines are scanned: two diffs that add and
/// remove the same lines, whatever their headers and context lines, carry
/// the same signals.
pub proof fn law_signals_read_changed_lines_only(d1: Seq<char>, d2: Seq<char>, fp_tolerance: bool)
    requires
        changed_lines(d1) == changed_lines(d2),
    ensures
        signals(d1, fp_tolerance) == signals(d2, fp_tolerance),
{
    assert forall|kind: int| some_changed(d1, kind) == some_changed(d2, kind) by {
        if some_changed(d1, kind) {
            lemma_some_changed_transfers(d1, d2, kind);
        }
        if some_changed(d2, kind) {
            lemma_some_changed_transfers(d2, d1, kind);
        }
    }
    assert(some_changed(d1, 0) == some_changed(d2, 0));
    assert(some_changed(d1, 1) == some_changed(d2, 1));
    assert(some_changed(d1, 2) == some_changed(d2, 2));
}

// ------------------------------------------------------------------
// A trailing carriage return never matters
// ------------------------------------------------------------------

proof fn lemma_cr_tail_occurs(l: Seq<char>, t: Seq<char>, i: int)
    requires
        l.len() > 0,
        l.last() == '\r',
        t.len() > 0,
        free_of(t, '\r'),
    ensures
        occurs_at(l, t, i) == occurs_at(l.drop_last(), t, i),
{
    let s = l.drop_last();
    if occurs_at(l, t, i) {
        if i + t.len() == l.len() {
            assert(l.subrange(i, i + t.len())[t.len() - 1] == l.last());
        }
        assert(s.subrange(i, i + t.len()) =~= l.subrange(i, i + t.len()));
    }
    if occurs_at(s, t, i) {
        assert(s.subrange(i, i + t.len()) =~= l.subrange(i, i + t.len()));
    }
}

proof fn lemma_cr_tail_contains(l: Seq<char>, t: Seq<char>)
    requires
        l.len() > 0,
        l.last() == '\r',
        t.len() > 0,
        free_of(t, '\r'),
    ensures
        contains(l, t) == contains(l.drop_last(), t),
{
    if contains(l, t) {
        let i = choose|i: int| occurs_at(l, t, i);
        lemma_cr_tail_occurs(l, t, i);
    }
    if contains(l.drop_last(), t) {
        let i = choose|i: int| occurs_at(l.drop_last(), t, i);
        lemma_cr_tail_occurs(l, t, i);
    }
}

proof fn lemma_cr_tail_bounded(l: Seq<char>, t: Seq<char>)
    requires
        l.len() > 0,
        l.last() == '\r',
        t.len() > 0,
        free_of(t, '\r'),
    ensures
        has_bounded_token(l, t) == has_bounded_token(l.drop_last(), t),
{
    let s = l.drop_last();
    assert(!ident_letter('\r'));
    assert forall|i: int| bounded_at(l, t, i) == bounded_at(s, t, i) by {
        lemma_cr_tail_occurs(l, t, i);
        if occurs_at(s, t, i) {
            if i > 0 {
                assert(l[i - 1] == s[i - 1]);
            }
            if i + t.len() < s.len() {
                assert(l[i + t.len()] == s[i + t.len()]);
            } else {
                assert(l[i + t.len()] == '\r');
            }
        }
    }
    if has_bounded_token(l, t) {
        let i = choose|i: int| bounded_at(l, t, i);
        assert(bounded_at(s, t, i));
    }
    if has_bounded_token(s, t) {
        let i = choose|i: int| bounded_at(s, t, i);
        assert(bounded_at(l, t, i));
    }
}

proof fn lemma_cr_tail_has_any(l: Seq<char>, toks: Seq<Seq<char>>)
    requires
        l.len() > 0,
        l.last() == '\r',
        forall|k: int| 0 <= k < toks.len() ==> (#[trigger] toks[k]).len() > 0 && free_of(toks[k], '\r'),
    ensures
        has_any(l, toks) == has_any(l.drop_last(), toks),
{
    assert forall|k: int| 0 <= k < toks.len() implies contains(l, #[trigger] toks[k]) == contains(
        l.drop_last(),
        toks[k],
    ) by {
        lemma_cr_tail_contains(l, toks[k]);
    }
}

proof fn lemma_cr_tail_prefix(l: Seq<char>, p: Seq<char>)
    requires
        l.len() > 0,
        l.last() == '\r',
        free_of(p, '\r'),
    ensures
        starts_with(l, p) == starts_with(l.drop_last(), p),
{
    let s = l.drop_last();
    if starts_with(l, p) && p.len() == l.len() {
        assert(l.take(p.len() as int)[p.len() - 1] == l.last());
    }
    if p.len() <= s.len() {
        assert(s.take(p.len() as int) =~= l.take(p.len() as int));
    }
}

/// The token lists hold no carriage return and no empty token.
proof fn lemma_tokens_plain()
    ensures
        forall|k: int|
            0 <= k < concurrency_tokens().len() ==> (#[trigger] concurrency_tokens()[k]).len() > 0
                && free_of(concurrency_tokens()[k], '\r'),
        forall|k: int|
            0 <= k < unsafe_tokens().len() ==> (#[trigger] unsafe_tokens()[k]).len() > 0 && free_of(
                unsafe_tokens()[k],
                '\r',
            ),
        forall|k: int|
            0 <= k < fp_spaced_tokens().len() ==> (#[trigger] fp_spaced_tokens()[k]).len() > 0
                && free_of(fp_spaced_tokens()[k], '\r'),
        "f32"@.len() > 0 && free_of("f32"@, '\r'),
        "f64"@.len() > 0 && free_of("f64"@, '\r'),
        free_of("+"@, '\r') && free_of("+++"@, '\r') && free_of("-"@, '\r') && free_of("---"@, '\r'),
        "+"@.len() == 1 && "-"@.len() == 1,
{
    reveal_strlit("pthread_");
    reveal_strlit("std::sync");
    reveal_strlit("std::thread");
    reveal_strlit("Atomic");
    reveal_strlit("atomic_");
    reveal_strlit("__atomic_");
    reveal_strlit("__sync_");
    reveal_strlit("Mutex");
    reveal_strlit("RwLock");
    reveal_strlit("Condvar");
    reveal_strlit("mpsc");
    reveal_strlit("rayon::");
    reveal_strlit("memory_order");
    reveal_strlit("volatile");
    reveal_strlit("unsafe ");
    reveal_strlit("transmute");
    reveal_strlit("from_raw");
    reveal_strlit("MaybeUninit");
    reveal_strlit("UnsafeCell");
    reveal_strlit("float ");
    reveal_strlit("double ");
    reveal_strlit("f32");
    reveal_strlit("f64");
    reveal_strlit("+");
    reveal_strlit("+++");
    reveal_strlit("-");
    reveal_strlit("---");
}

/// Dropping the `\r` of a line's ending changes neither whether the line
/// is an added or removed one nor which token families it hits.
proof fn lemma_strip_cr_keeps_signal(l: Seq<char>, kind: int)
    ensures
        is_changed(strip_cr(l)) == is_changed(l),
        family_hit(kind, strip_cr(l)) == family_hit(kind, l),
{
    if l.len() > 0 && l.last() == '\r' {
        lemma_tokens_plain();
        lemma_cr_tail_prefix(l, "+"@);
        lemma_cr_tail_prefix(l, "+++"@);
        lemma_cr_tail_prefix(l, "-"@);
        lemma_cr_tail_prefix(l, "---"@);
        lemma_cr_tail_has_any(l, concurrency_tokens());
        lemma_cr_tail_has_any(l, unsafe_tokens());
        lemma_cr_tail_has_any(l, fp_spaced_tokens());
        lemma_cr_tail_bounded(l, "f32"@);
        lemma_cr_tail_bounded(l, "f64"@);
    }
}

// ------------------------------------------------------------------
// Laws over whole diffs
// ------------------------------------------------------------------

/// The added and removed lines of a diff, in order.
pub open spec fn changed_only(diff: Seq<char>) -> Seq<Seq<char>> {
    lines(diff).filter(|l: Seq<char>| is_changed(l))
}

/// File headers and context lines never matter: a diff carries the same
/// signals as its added and removed lines alone, joined with `\n`.
pub proof fn law_signals_of_changed_lines_joined(diff: Seq<char>, fp_tolerance: bool)
    ensures
        signals(diff, fp_tolerance) == signals(join_with(changed_only(diff), "\n"@), fp_tolerance),
{
    let ls = lines(diff);
    let pred = |l: Seq<char>| is_changed(l);
    let c = changed_only(diff);
    let j = join_with(c, "\n"@);
    lemma_tokens_plain();
    lemma_lines_free_of_newline(diff);
    assert forall|i: int| 0 <= i < c.len() implies (#[trigger] c[i]).len() > 0 && free_of(c[i], '\n') && is_changed(c[i])
        && ls.contains(c[i]) by {
        ls.lemma_filter_pred(pred, i);
        assert(c.contains(c[i]));
        ls.lemma_filter_contains_rev(pred, c[i]);
        let k = choose|k: int| 0 <= k < ls.len() && ls[k] == c[i];
        assert(free_of(ls[k], '\n'));
    }
    lemma_lines_of_join(c);
    let lj = lines(j);
    assert forall|kind: int| some_changed(diff, kind) == some_changed(j, kind) by {
        if some_changed(diff, kind) {
            let k = choose|k: int| 0 <= k < ls.len() && is_changed(#[trigger] ls[k]) && family_hit(kind, ls[k]);
            ls.lemma_filter_contains(pred, k);
            let i = choose|i: int| 0 <= i < c.len() && c[i] == ls[k];
            lemma_strip_cr_keeps_signal(c[i], kind);
            assert(is_changed(lj[i]) && family_hit(kind, lj[i]));
            assert(hits_before(lj, lj.len() as int, kind));
        }
        if some_changed(j, kind) {
            let i = choose|i: int| 0 <= i < lj.len() && is_changed(#[trigger] lj[i]) && family_hit(kind, lj[i]);
            lemma_strip_cr_keeps_signal(c[i], kind);
            assert(is_changed(c[i]) && family_hit(kind, c[i]));
            let k = choose|k: int| 0 <= k < ls.len() && ls[k] == c[i];
            assert(is_changed(ls[k]) && family_hit(kind, ls[k]));
            assert(hits_before(ls, ls.len() as int, kind));
        }
    }
    assert(some_changed(diff, 0) == some_changed(j, 0));
    assert(some_changed(diff, 1) == some_changed(j, 1));
    assert(some_changed(diff, 2) == some_changed(j, 2));
}

/// `a` can be read off `b` left to right, skipping some of `b`.
pub open spec fn is_subsequence<A>(a: Seq<A>, b: Seq<A>) -> bool
    decreases b.len(),
{
    if a.len() == 0 {
        true
    } else if b.len() == 0 {
        false
    } else {
        (a[0] == b[0] && is_subsequence(a.drop_first(), b.drop_first())) || is_subsequence(
            a,
            b.drop_first(),
        )
    }
}

proof fn lemma_subsequence_prepend<A>(a: Seq<A>, b: Seq<A>, c: Seq<A>)
    requires
        is_subsequence(a, b),
    ensures
        is_subsequence(a, c + b),
    decreases c.len(),
{
    if c.len() > 0 {
        lemma_subsequence_prepend(a, b, c.drop_first());
        assert((c + b).drop_first() =~= c.drop_first() + b);
    }
}

proof fn lemma_subsequence_concat<A>(a1: Seq<A>, b1: Seq<A>, a2: Seq<A>, b2: Seq<A>)
    requires
        is_subsequence(a1, b1),
        is_subsequence(a2, b2),
    ensures
        is_subsequence(a1 + a2, b1 + b2),
    decreases b1.len(),
{
    if a1.len() == 0 {
        assert(a1 + a2 =~= a2);
        lemma_subsequence_prepend(a2, b2, b1);
    } else {
        assert((b1 + b2).drop_first() =~= b1.drop_first() + b2);
        assert((a1 + a2)[0] == a1[0] && (b1 + b2)[0] == b1[0]);
        if a1[0] == b1[0] && is_subsequence(a1.drop_first(), b1.drop_first()) {
            lemma_subsequence_concat(a1.drop_first(), b1.drop_first(), a2, b2);
            assert((a1 + a2).drop_first() =~= a1.drop_first() + a2);
        } else {
            lemma_subsequence_concat(a1, b1.drop_first(), a2, b2);
        }
    }
}

proof fn lemma_optional_name(present: bool, later: bool, name: Seq<char>)
    requires
        present ==> later,
    ensures
        is_subsequence(
            if present {
                seq![name]
            } else {
                Seq::<Seq<char>>::empty()
            },
            if later {
                seq![name]
            } else {
                Seq::<Seq<char>>::empty()
            },
        ),
{
    let e = Seq::<Seq<char>>::empty();
    assert(is_subsequence(e, e));
    if present {
        let one = seq![name];
        assert(one.drop_first() =~= e);
        assert(one[0] == one[0] && is_subsequence(one.drop_first(), one.drop_first()));
        assert(is_subsequence(one, one));
    } else {
        assert(is_subsequence(e, if later {
            seq![name]
        } else {
            e
        }));
    }
}

/// Appending lines never drops a signal: for a diff that is empty or ends
/// with a line feed, every family it hits is still hit with more lines
/// after it, and its signals are a subsequence of the longer diff's.
pub proof fn law_appending_lines_keeps_signals(d1: Seq<char>, d2: Seq<char>, fp_tolerance: bool)
    requires
        d1.len() == 0 || d1.last() == '\n',
    ensures
        forall|kind: int| #[trigger] some_changed(d1, kind) ==> some_changed(d1 + d2, kind),
        is_subsequence(signals(d1, fp_tolerance), signals(d1 + d2, fp_tolerance)),
{
    lemma_lines_append(d1, d2);
    let l1 = lines(d1);
    let l12 = lines(d1 + d2);
    assert forall|kind: int| #[trigger] some_changed(d1, kind) implies some_changed(d1 + d2, kind) by {
        let k = choose|k: int| 0 <= k < l1.len() && is_changed(#[trigger] l1[k]) && family_hit(kind, l1[k]);
        assert(l12[k] == l1[k]);
        assert(hits_before(l12, l12.len() as int, kind));
    }
    let e = Seq::<Seq<char>>::empty();
    let o = |b: bool, n: Seq<char>| if b { seq![n] } else { e };
    assert(some_changed(d1, 0) ==> some_changed(d1 + d2, 0));
    assert(some_changed(d1, 1) ==> some_changed(d1 + d2, 1));
    assert(some_changed(d1, 2) ==> some_changed(d1 + d2, 2));
    lemma_optional_name(some_changed(d1, 0), some_changed(d1 + d2, 0), "concurrency"@);
    lemma_optional_name(some_changed(d1, 1), some_changed(d1 + d2, 1), "unsafe"@);
    lemma_optional_name(some_changed(d1, 2), some_changed(d1 + d2, 2), "floating-point"@);
    lemma_optional_name(fp_tolerance, fp_tolerance, "fp-tolerance-equivalence"@);
    let a0 = o(some_changed(d1, 0), "concurrency"@);
    let a1 = o(some_changed(d1, 1), "unsafe"@);
    let a2 = o(some_changed(d1, 2), "floating-point"@);
    let a3 = o(fp_tolerance, "fp-tolerance-equivalence"@);
    let b0 = o(some_changed(d1 + d2, 0), "concurrency"@);
    let b1 = o(some_changed(d1 + d2, 1), "unsafe"@);
    let b2 = o(some_changed(d1 + d2, 2), "floating-point"@);
    lemma_subsequence_concat(a0, b0, a1, b1);
    lemma_subsequence_concat(a0 + a1, b0 + b1, a2, b2);
    lemma_subsequence_concat(a0 + a1 + a2, b0 + b1 + b2, a3, a3);
    assert(signals(d1, fp_tolerance) =~= a0 + a1 + a2 + a3);
    assert(signals(d1 + d2, fp_tolerance) =~= b0 + b1 + b2 + a3);
}

proof fn lemma_hits_step(ls: Seq<Seq<char>>, i: int, kind: int)
    requires
        0 <= i < ls.len(),
    ensures
        hits_before(ls, i + 1, kind) == (hits_before(ls, i, kind) || (is_changed(ls[i])
            && family_hit(kind, ls[i]))),
{
    if is_changed(ls[i]) && family_hit(kind, ls[i]) {
        assert(hits_before(ls, i + 1, kind));
    }
    if hits_before(ls, i + 1, kind) {
        let k = choose|k: int| 0 <= k < i + 1 && is_changed(#[trigger] ls[k]) && family_hit(kind, ls[k]);
        if k < i {
            assert(hits_before(ls, i, kind));
        }
    }
}

/// The signal names `classify` reports, in their fixed order.
pub open spec fn signals(diff: Seq<char>, fp_tolerance: bool) -> Seq<Seq<char>> {
    (if some_changed(diff, 0) {
        seq!["concurrency"@]
    } else {
        seq![]
    }) + (if some_changed(diff, 1) {
        seq!["unsafe"@]
    } else {
        seq![]
    }) + (if some_changed(diff, 2) {
        seq!["floating-point"@]
    } else {
        seq![]
    }) + (if fp_tolerance {
        seq!["fp-tolerance-equivalence"@]
    } else {
        seq![]
    })
}

/// Whether `c` is an identifier letter for the boundary check.
pub fn is_ident_letter(c: char) -> (b: bool)
    ensures
        b == ident_letter(c),
{
    let u = c as u32;
    (65 <= u && u <= 90) || (97 <= u && u <= 122) || u == 95
}

/// The search for a bounded `token` steps one character past each
/// occurrence that is not bounded; it can only step past an ASCII character
/// inside the line. Every occurrence that it passes (each one before the
/// first bounded one, or all of them when none is bounded) allows that step.
pub open spec fn token_walk_total(line: Seq<char>, token: Seq<char>) -> bool {
    forall|j: int|
        #![trigger occurs_at(line, token, j)]
        occurs_at(line, token, j) && !bounded_at(line, token, j) && (forall|k: int|
            0 <= k < j ==> !#[trigger] bounded_at(line, token, k)) ==> j < line.len() && (line[j]
            as u32) < 128
}

/// A token that starts with an ASCII character never stops the search: each
/// occurrence lies inside the line and starts with that character.
pub proof fn lemma_ascii_led_token_walks(line: Seq<char>, token: Seq<char>)
    requires
        token.len() > 0,
        (token[0] as u32) < 128,
    ensures
        token_walk_total(line, token),
{
    assert forall|j: int| #[trigger] occurs_at(line, token, j) implies j < line.len() && (line[j]
        as u32) < 128 by {
        assert(line.subrange(j, j + token.len())[0] == token[0]);
    }
}

/// Whether `token` occurs in `line` not glued to an identifier letter.
pub fn has_fp_token(line: &[char], token: &[char]) -> (b: bool)
    requires
        token_walk_total(line@, token@),
    ensures
        b == has_bounded_token(line@, token@),
{
    let mut i: usize = 0;
    while i < line.len()
        invariant
            i <= line.len(),
            forall|j: int| 0 <= j < i ==> !#[trigger] bounded_at(line@, token@, j),
        decreases line.len() - i,
    {
        if occurs_at_exec(line, token, i) {
            let before_ok = i == 0 || !is_ident_letter(line[i - 1]);
            let after_ok = i + token.len() >= line.len() || !is_ident_letter(
                line[i + token.len()],
            );
            if before_ok && after_ok {
                assert(bounded_at(line@, token@, i as int));
                return true;
            }
        }
        i += 1;
    }
    if token.len() == 0 && (i == 0 || !is_ident_letter(line[i - 1])) {
        assert(line@.subrange(i as int, i as int) =~= token@);
        assert(bounded_at(line@, token@, i as int));
        return true;
    }
    assert forall|j: int| !#[trigger] bounded_at(line@, token@, j) by {
        if bounded_at(line@, token@, j) {
            assert(j <= i);
            if j == i {
                assert(token@.len() == 0);
            }
        }
    }
    false
}

/// Whether `line` contains any of `toks`.
fn has_any_exec(line: &[char], toks: &Vec<Vec<char>>) -> (b: bool)
    ensures
        b == has_any(line@, toks@.map_values(|t: Vec<char>| t@)),
{
    let ghost ts = toks@.map_values(|t: Vec<char>| t@);
    let mut k: usize = 0;
    while k < toks.len()
        invariant
            k <= toks.len(),
            ts == toks@.map_values(|t: Vec<char>| t@),
            forall|m: int| 0 <= m < k ==> !contains(line@, #[trigger] ts[m]),
        decreases toks.len() - k,
    {
        if contains_exec(line, &toks[k]) {
            assert(ts[k as int] == toks@[k as int]@);
            return true;
        }
        k += 1;
    }
    false
}

fn is_changed_line(line: &[char]) -> (b: bool)
    ensures
        b == is_changed(line@),
{
    let plus = chars_of("+");
    let plus3 = chars_of("+++");
    let minus = chars_of("-");
    let minus3 = chars_of("---");
    (starts_with_exec(line, &plus) && !starts_with_exec(line, &plus3)) || (starts_with_exec(
        line,
        &minus,
    ) && !starts_with_exec(line, &minus3))
}

fn concurrency_list() -> (r: Vec<Vec<char>>)
    ensures
        r@.map_values(|t: Vec<char>| t@) == concurrency_tokens(),
{
    let r = vec![
        chars_of("pthread_"),
        chars_of("std::sync"),
        chars_of("std::thread"),
        chars_of("Atomic"),
        chars_of("atomic_"),
        chars_of("__atomic_"),
        chars_of("__sync_"),
        chars_of("Mutex"),
        chars_of("RwLock"),
        chars_of("Condvar"),
        chars_of("mpsc"),
        chars_of("rayon::"),
        chars_of("memory_order"),
        chars_of("volatile"),
    ];
    assert(r@.map_values(|t: Vec<char>| t@) =~= concurrency_tokens());
    r
}

fn unsafe_list() -> (r: Vec<Vec<char>>)
    ensures
        r@.map_values(|t: Vec<char>| t@) == unsafe_tokens(),
{
    let r = vec![
        chars_of("unsafe "),
        chars_of("transmute"),
        chars_of("from_raw"),
        chars_of("MaybeUninit"),
        chars_of("UnsafeCell"),
    ];
    assert(r@.map_values(|t: Vec<char>| t@) =~= unsafe_tokens());
    r
}

fn fp_spaced_list() -> (r: Vec<Vec<char>>)
    ensures
        r@.map_values(|t: Vec<char>| t@) == fp_spaced_tokens(),
{
    let r = vec![chars_of("float "), chars_of("double ")];
    assert(r@.map_values(|t: Vec<char>| t@) =~= fp_spaced_tokens());
    r
}

/// Classifies a unified diff into risk-signal names, in the fixed order
/// concurrency, unsafe, floating-point, fp-tolerance-equivalence. Only
/// added and removed lines are scanned; `fp_tolerance` (the target's
/// equivalence mode is fp-tolerance) is a signal of its own. Each name
/// appears at most once; an empty result means no signal.
pub fn classify(diff: &str, fp_tolerance: bool) -> (r: Vec<String>)
    ensures
        r@.map_values(|s: String| s@) == signals(diff@, fp_tolerance),
        forall|i: int, j: int|
            0 <= i < j < r@.len() ==> #[trigger] r@[i]@ != #[trigger] r@[j]@,
{
    let cs = chars_of(diff);
    let ls = split_lines(&cs);
    let ghost all = ls@.map_values(|l: Vec<char>| l@);
    let conc = concurrency_list();
    let uns = unsafe_list();
    let spaced = fp_spaced_list();
    proof {
        reveal_strlit("f32");
        reveal_strlit("f64");
        reveal_strlit("concurrency");
        reveal_strlit("unsafe");
        reveal_strlit("floating-point");
        reveal_strlit("fp-tolerance-equivalence");
    }
    let f32_tok = chars_of("f32");
    let f64_tok = chars_of("f64");
    let (mut concurrency, mut unsafe_sig, mut fp) = (false, false, false);
    let mut i: usize = 0;
    while i < ls.len()
        invariant
            i <= ls.len(),
            all == ls@.map_values(|l: Vec<char>| l@),
            all == lines(diff@),
            conc@.map_values(|t: Vec<char>| t@) == concurrency_tokens(),
            uns@.map_values(|t: Vec<char>| t@) == unsafe_tokens(),
            spaced@.map_values(|t: Vec<char>| t@) == fp_spaced_tokens(),
            f32_tok@ == "f32"@,
            f64_tok@ == "f64"@,
            f32_tok@.len() == 3,
            f64_tok@.len() == 3,
            concurrency == hits_before(all, i as int, 0),
            unsafe_sig == hits_before(all, i as int, 1),
            fp == hits_before(all, i as int, 2),
        decreases ls.len() - i,
    {
        let line = &ls[i];
        assert(all[i as int] == line@);
        proof {
            lemma_hits_step(all, i as int, 0);
            lemma_hits_step(all, i as int, 1);
            lemma_hits_step(all, i as int, 2);
        }
        if is_changed_line(line) {
            proof {
                reveal_strlit("f32");
                reveal_strlit("f64");
                lemma_ascii_led_token_walks(line@, f32_tok@);
                lemma_ascii_led_token_walks(line@, f64_tok@);
            }
            let c = has_any_exec(line, &conc);
            let u = has_any_exec(line, &uns);
            let f = has_any_exec(line, &spaced) || has_fp_token(line, &f32_tok) || has_fp_token(
                line,
                &f64_tok,
            );
            concurrency = concurrency || c;
            unsafe_sig = unsafe_sig || u;
            fp = fp || f;
        }
        i += 1;
    }
    let mut signals_out: Vec<String> = Vec::new();
    if concurrency {
        signals_out.push(String::from_str("concurrency"));
    }
    if unsafe_sig {
        signals_out.push(String::from_str("unsafe"));
    }
    if fp {
        signals_out.push(String::from_str("floating-point"));
    }
    if fp_tolerance {
        signals_out.push(String::from_str("fp-tolerance-equivalence"));
    }
    proof {
        assert(signals_out@.map_values(|s: String| s@) =~= signals(diff@, fp_tolerance));
        reveal_strlit("concurrency");
        reveal_strlit("unsafe");
        reveal_strlit("floating-point");
        reveal_strlit("fp-tolerance-equivalence");
        assert("concurrency"@.len() == 11);
        assert("unsafe"@.len() == 6);
        assert("floating-point"@.len() == 14);
        assert("fp-tolerance-equivalence"@.len() == 24);
        assert("concurrency"@ != "unsafe"@);
        assert("concurrency"@ != "floating-point"@);
        assert("concurrency"@ != "fp-tolerance-equivalence"@);
        assert("unsafe"@ != "floating-point"@);
        assert("unsafe"@ != "fp-tolerance-equivalence"@);
        assert("floating-point"@ != "fp-tolerance-equivalence"@);
    }
    signals_out
}

/// The token families, read literally: a line hits the concurrency, unsafe
/// or floating-point family exactly when it holds one of that family's
/// tokens (`f32`/`f64` only where no identifier letter touches them).
proof fn lemma_families_literal(line: Seq<char>)
    ensures
        concurrency_line(line) <==> (
            contains(line, "pthread_"@) ||
            contains(line, "std::sync"@) ||
            contains(line, "std::thread"@) ||
            contains(line, "Atomic"@) ||
            contains(line, "atomic_"@) ||
            contains(line, "__atomic_"@) ||
            contains(line, "__sync_"@) ||
            contains(line, "Mutex"@) ||
            contains(line, "RwLock"@) ||
            contains(line, "Condvar"@) ||
            contains(line, "mpsc"@) ||
            contains(line, "rayon::"@) ||
            contains(line, "memory_order"@) ||
            contains(line, "volatile"@)
        ),
        unsafe_line(line) <==> (
            contains(line, "unsafe "@) ||
            contains(line, "transmute"@) ||
            contains(line, "from_raw"@) ||
            contains(line, "MaybeUninit"@) ||
            contains(line, "UnsafeCell"@)
        ),
        fp_line(line) <==> (contains(line, "float "@) || contains(line, "double "@)
            || has_bounded_token(line, "f32"@) || has_bounded_token(line, "f64"@)),
{
    let ct = concurrency_tokens();
    let ut = unsafe_tokens();
    let ft = fp_spaced_tokens();
    assert(ct[0] == "pthread_"@);
    assert(ct[1] == "std::sync"@);
    assert(ct[2] == "std::thread"@);
    assert(ct[3] == "Atomic"@);
    assert(ct[4] == "atomic_"@);
    assert(ct[5] == "__atomic_"@);
    assert(ct[6] == "__sync_"@);
    assert(ct[7] == "Mutex"@);
    assert(ct[8] == "RwLock"@);
    assert(ct[9] == "Condvar"@);
    assert(ct[10] == "mpsc"@);
    assert(ct[11] == "rayon::"@);
    assert(ct[12] == "memory_order"@);
    assert(ct[13] == "volatile"@);
    assert(ut[0] == "unsafe "@);
    assert(ut[1] == "transmute"@);
    assert(ut[2] == "from_raw"@);
    assert(ut[3] == "MaybeUninit"@);
    assert(ut[4] == "UnsafeCell"@);
    assert(ft[0] == "float "@);
    assert(ft[1] == "double "@);
    if concurrency_line(line) {
        let k = choose|k: int| 0 <= k < ct.len() && contains(line, #[trigger] ct[k]);
        assert(0 <= k < 14);
    }
    if unsafe_line(line) {
        let k = choose|k: int| 0 <= k < ut.len() && contains(line, #[trigger] ut[k]);
        assert(0 <= k < 5);
    }
    if has_any(line, ft) {
        let k = choose|k: int| 0 <= k < ft.len() && contains(line, #[trigger] ft[k]);
        assert(0 <= k < 2);
    }
}

/// What each signal of `classify` stands for, with every family's tokens
/// written out: a signal is reported exactly when some added or removed
/// line of the diff holds one of its tokens (`fp-tolerance-equivalence`
/// exactly when the fp-tolerance tier was used). In particular a changed
/// line holding `float ` always yields `floating-point`.
pub proof fn law_signals_name_their_tokens(diff: Seq<char>, fp_tolerance: bool)
    ensures
        signals(diff, fp_tolerance).contains("concurrency"@) <==> exists|k: int|
            0 <= k < lines(diff).len() && is_changed(#[trigger] lines(diff)[k]) && (
            contains(lines(diff)[k], "pthread_"@) ||
            contains(lines(diff)[k], "std::sync"@) ||
            contains(lines(diff)[k], "std::thread"@) ||
            contains(lines(diff)[k], "Atomic"@) ||
            contains(lines(diff)[k], "atomic_"@) ||
            contains(lines(diff)[k], "__atomic_"@) ||
            contains(lines(diff)[k], "__sync_"@) ||
            contains(lines(diff)[k], "Mutex"@) ||
            contains(lines(diff)[k], "RwLock"@) ||
            contains(lines(diff)[k], "Condvar"@) ||
            contains(lines(diff)[k], "mpsc"@) ||
            contains(lines(diff)[k], "rayon::"@) ||
            contains(lines(diff)[k], "memory_order"@) ||
            contains(lines(diff)[k], "volatile"@)
        ),
        signals(diff, fp_tolerance).contains("unsafe"@) <==> exists|k: int|
            0 <= k < lines(diff).len() && is_changed(#[trigger] lines(diff)[k]) && (
            contains(lines(diff)[k], "unsafe "@) ||
            contains(lines(diff)[k], "transmute"@) ||
            contains(lines(diff)[k], "from_raw"@) ||
            contains(lines(diff)[k], "MaybeUninit"@) ||
            contains(lines(diff)[k], "UnsafeCell"@)
        ),
        signals(diff, fp_tolerance).contains("floating-point"@) <==> exists|k: int|
            0 <= k < lines(diff).len() && is_changed(#[trigger] lines(diff)[k]) && (contains(
                lines(diff)[k],
                "float "@,
            ) || contains(lines(diff)[k], "double "@) || has_bounded_token(lines(diff)[k], "f32"@)
                || has_bounded_token(lines(diff)[k], "f64"@)),
        signals(diff, fp_tolerance).contains("fp-tolerance-equivalence"@) <==> fp_tolerance,
{
    reveal_strlit("concurrency");
    reveal_strlit("unsafe");
    reveal_strlit("floating-point");
    reveal_strlit("fp-tolerance-equivalence");
    assert("concurrency"@.len() == 11);
    assert("unsafe"@.len() == 6);
    assert("floating-point"@.len() == 14);
    assert("fp-tolerance-equivalence"@.len() == 24);
    let ls = lines(diff);
    assert forall|k: int| 0 <= k < ls.len() implies (concurrency_line(#[trigger] ls[k]) <==> (
        contains(ls[k], "pthread_"@) ||
        contains(ls[k], "std::sync"@) ||
        contains(ls[k], "std::thread"@) ||
        contains(ls[k], "Atomic"@) ||
        contains(ls[k], "atomic_"@) ||
        contains(ls[k], "__atomic_"@) ||
        contains(ls[k], "__sync_"@) ||
        contains(ls[k], "Mutex"@) ||
        contains(ls[k], "RwLock"@) ||
        contains(ls[k], "Condvar"@) ||
        contains(ls[k], "mpsc"@) ||
        contains(ls[k], "rayon::"@) ||
        contains(ls[k], "memory_order"@) ||
        contains(ls[k], "volatile"@)
    )) && (unsafe_line(ls[k]) <==> (
        contains(ls[k], "unsafe "@) ||
        contains(ls[k], "transmute"@) ||
        contains(ls[k], "from_raw"@) ||
        contains(ls[k], "MaybeUninit"@) ||
        contains(ls[k], "UnsafeCell"@)
    )) && (fp_line(ls[k]) <==> (contains(ls[k], "float "@) || contains(ls[k], "double "@)
        || has_bounded_token(ls[k], "f32"@) || has_bounded_token(ls[k], "f64"@))) by {
        lemma_families_literal(ls[k]);
    }
    let sig = signals(diff, fp_tolerance);
    let c = if some_changed(diff, 0) { seq!["concurrency"@] } else { Seq::<Seq<char>>::empty() };
    let u = if some_changed(diff, 1) { seq!["unsafe"@] } else { Seq::<Seq<char>>::empty() };
    let f = if some_changed(diff, 2) { seq!["floating-point"@] } else { Seq::<Seq<char>>::empty() };
    let t = if fp_tolerance { seq!["fp-tolerance-equivalence"@] } else { Seq::<Seq<char>>::empty() };
    assert(sig =~= c + u + f + t);
    assert(sig.contains("concurrency"@) <==> some_changed(diff, 0)) by {
        if sig.contains("concurrency"@) {
            let j = choose|j: int| 0 <= j < sig.len() && sig[j] == "concurrency"@;
        }
        if some_changed(diff, 0) {
            assert(sig[0] == "concurrency"@);
        }
    }
    assert(sig.contains("unsafe"@) <==> some_changed(diff, 1)) by {
        if sig.contains("unsafe"@) {
            let j = choose|j: int| 0 <= j < sig.len() && sig[j] == "unsafe"@;
        }
        if some_changed(diff, 1) {
            assert(sig[c.len() as int] == "unsafe"@);
        }
    }
    assert(sig.contains("floating-point"@) <==> some_changed(diff, 2)) by {
        if sig.contains("floating-point"@) {
            let j = choose|j: int| 0 <= j < sig.len() && sig[j] == "floating-point"@;
        }
        if some_changed(diff, 2) {
            assert(sig[(c.len() + u.len()) as int] == "floating-point"@);
        }
    }
    assert(sig.contains("fp-tolerance-equivalence"@) <==> fp_tolerance) by {
        if sig.contains("fp-tolerance-equivalence"@) {
            let j = choose|j: int| 0 <= j < sig.len() && sig[j] == "fp-tolerance-equivalence"@;
        }
        if fp_tolerance {
            assert(sig[(c.len() + u.len() + f.len()) as int] == "fp-tolerance-equivalence"@);
        }
    }
}

} // verus!
