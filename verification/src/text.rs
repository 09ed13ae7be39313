//! Character-sequence toolkit shared by every parser in the crate: the
//! mathematical meaning of `lines`, `trim`, substring search, decimal
//! digits, and their executable counterparts over `&[char]`.

use vstd::prelude::*;

verus! {

// ------------------------------------------------------------------
// Definitions
// ------------------------------------------------------------------

/// Unicode `White_Space`, the set that `char::is_whitespace` is documented to test.
pub open spec fn is_ws(c: char) -> bool {
    let u = c as u32;
    ||| 0x9 <= u <= 0xd
    ||| u == 0x20
    ||| u == 0x85
    ||| u == 0xa0
    ||| u == 0x1680
    ||| 0x2000 <= u <= 0x200a
    ||| u == 0x2028
    ||| u == 0x2029
    ||| u == 0x202f
    ||| u == 0x205f
    ||| u == 0x3000
}

pub open spec fn is_digit(c: char) -> bool {
    48 <= (c as u32) <= 57
}

pub open spec fn starts_with(s: Seq<char>, p: Seq<char>) -> bool {
    p.len() <= s.len() && s.take(p.len() as int) =~= p
}

pub open spec fn ends_with(s: Seq<char>, p: Seq<char>) -> bool {
    p.len() <= s.len() && s.skip(s.len() - p.len()) =~= p
}

/// `p` occurs in `s` starting at index `i`.
pub open spec fn occurs_at(s: Seq<char>, p: Seq<char>, i: int) -> bool {
    0 <= i && i + p.len() <= s.len() && s.subrange(i, i + p.len()) =~= p
}

pub open spec fn contains(s: Seq<char>, p: Seq<char>) -> bool {
    exists|i: int| occurs_at(s, p, i)
}

/// Index of the first `c` in `s`, or `s.len()` when there is none.
pub open spec fn first_index(s: Seq<char>, c: char) -> nat
    decreases s.len(),
{
    if s.len() == 0 {
        0
    } else if s[0] == c {
        0
    } else {
        1 + first_index(s.drop_first(), c)
    }
}

/// A line without its terminator: a `\r` directly before the `\n` goes too.
pub open spec fn strip_cr(l: Seq<char>) -> Seq<char> {
    if l.len() > 0 && l.last() == '\r' {
        l.drop_last()
    } else {
        l
    }
}

/// What `str::lines` yields: pieces split at `\n` (a `\r\n` ending loses
/// its `\r`); a final line ending adds no empty line.
pub open spec fn lines(s: Seq<char>) -> Seq<Seq<char>>
    decreases s.len(),
{
    if s.len() == 0 {
        seq![]
    } else {
        let i = first_index(s, '\n');
        if i >= s.len() {
            seq![s]
        } else {
            seq![strip_cr(s.take(i as int))] + lines(s.skip(i + 1 as int))
        }
    }
}

/// Number of leading whitespace characters.
pub open spec fn ws_lead(s: Seq<char>) -> nat
    decreases s.len(),
{
    if s.len() > 0 && is_ws(s[0]) {
        1 + ws_lead(s.drop_first())
    } else {
        0
    }
}

/// Number of trailing whitespace characters.
pub open spec fn ws_trail(s: Seq<char>) -> nat
    decreases s.len(),
{
    if s.len() > 0 && is_ws(s.last()) {
        1 + ws_trail(s.drop_last())
    } else {
        0
    }
}

pub open spec fn trim_start(s: Seq<char>) -> Seq<char> {
    s.skip(ws_lead(s) as int)
}

pub open spec fn trim_end(s: Seq<char>) -> Seq<char> {
    s.take(s.len() - ws_trail(s))
}

/// `str::trim`: whitespace removed from both ends.
pub open spec fn trim(s: Seq<char>) -> Seq<char> {
    trim_end(trim_start(s))
}

pub open spec fn digit_char(d: nat) -> char {
    if d == 0 {
        '0'
    } else if d == 1 {
        '1'
    } else if d == 2 {
        '2'
    } else if d == 3 {
        '3'
    } else if d == 4 {
        '4'
    } else if d == 5 {
        '5'
    } else if d == 6 {
        '6'
    } else if d == 7 {
        '7'
    } else if d == 8 {
        '8'
    } else {
        '9'
    }
}

/// Decimal digits of `n`, most significant first, no leading zeros.
pub open spec fn dec(n: nat) -> Seq<char>
    decreases n,
{
    if n < 10 {
        seq![digit_char(n)]
    } else {
        dec(n / 10).push(digit_char(n % 10))
    }
}

/// Decimal form of a signed integer, `-` first when negative.
pub open spec fn sdec(i: int) -> Seq<char> {
    if i < 0 {
        seq!['-'] + dec((-i) as nat)
    } else {
        dec(i as nat)
    }
}

pub open spec fn all_digits(s: Seq<char>) -> bool {
    forall|i: int| 0 <= i < s.len() ==> is_digit(#[trigger] s[i])
}

pub open spec fn digit_value(c: char) -> nat {
    ((c as u32) - 48) as nat
}

/// The number a run of ASCII digits spells.
pub open spec fn digits_value(s: Seq<char>) -> nat
    decreases s.len(),
{
    if s.len() == 0 {
        0
    } else {
        digits_value(s.drop_last()) * 10 + digit_value(s.last())
    }
}

/// What `u64::from_str` accepts: an optional `+`, then one or more ASCII
/// digits whose value fits in a `u64`.
pub open spec fn parses_u64(s: Seq<char>) -> Option<u64> {
    let d = if s.len() > 0 && s[0] == '+' {
        s.drop_first()
    } else {
        s
    };
    if d.len() > 0 && all_digits(d) && digits_value(d) <= u64::MAX {
        Some(digits_value(d) as u64)
    } else {
        None
    }
}

/// `s` with every non-overlapping occurrence of `p` (left to right)
/// replaced by `r`, as `str::replace` does for a non-empty pattern.
pub open spec fn replace_all(s: Seq<char>, p: Seq<char>, r: Seq<char>) -> Seq<char>
    decreases s.len(),
{
    if p.len() == 0 || s.len() < p.len() {
        s
    } else if s.take(p.len() as int) =~= p {
        r + replace_all(s.skip(p.len() as int), p, r)
    } else {
        seq![s[0]] + replace_all(s.drop_first(), p, r)
    }
}

/// `s` split at every `c` (always at least one piece).
pub open spec fn split_on(s: Seq<char>, c: char) -> Seq<Seq<char>>
    decreases s.len(),
{
    let i = first_index(s, c);
    if i >= s.len() {
        seq![s]
    } else {
        seq![s.take(i as int)] + split_on(s.skip(i + 1 as int), c)
    }
}

/// The pieces with `sep` between each two of them (what `[..].join(sep)`
/// gives).
pub open spec fn join_with(ps: Seq<Seq<char>>, sep: Seq<char>) -> Seq<char>
    decreases ps.len(),
{
    if ps.len() == 0 {
        seq![]
    } else if ps.len() == 1 {
        ps[0]
    } else {
        join_with(ps.drop_last(), sep) + sep + ps.last()
    }
}

// ------------------------------------------------------------------
// Lemmas
// ------------------------------------------------------------------

pub proof fn lemma_first_index(t: Seq<char>, c: char, j: int)
    requires
        0 <= j <= t.len(),
        forall|k: int| 0 <= k < j ==> t[k] != c,
        j == t.len() || t[j] == c,
    ensures
        first_index(t, c) == j,
    decreases j,
{
    if j > 0 {
        lemma_first_index(t.drop_first(), c, j - 1);
    }
}

/// The first index at which `p` occurs in `s` (meaningful when `contains(s, p)`).
pub open spec fn first_occurrence(s: Seq<char>, p: Seq<char>) -> int {
    choose|i: int| occurs_at(s, p, i) && forall|j: int| 0 <= j < i ==> !occurs_at(s, p, j)
}

pub proof fn lemma_first_occurrence(s: Seq<char>, p: Seq<char>, i: int)
    requires
        occurs_at(s, p, i),
        forall|j: int| 0 <= j < i ==> !occurs_at(s, p, j),
    ensures
        contains(s, p),
        first_occurrence(s, p) == i,
{
    let k = first_occurrence(s, p);
    assert(occurs_at(s, p, k) && forall|j: int| 0 <= j < k ==> !occurs_at(s, p, j));
    if k < i {
        assert(!occurs_at(s, p, k));
    }
    if i < k {
        assert(!occurs_at(s, p, i));
    }
}

/// Index of the first whitespace character of `s`, or `s.len()`.
pub open spec fn first_ws(s: Seq<char>) -> nat
    decreases s.len(),
{
    if s.len() == 0 {
        0
    } else if is_ws(s[0]) {
        0
    } else {
        1 + first_ws(s.drop_first())
    }
}

pub proof fn lemma_first_ws(t: Seq<char>, j: int)
    requires
        0 <= j <= t.len(),
        forall|k: int| 0 <= k < j ==> !is_ws(#[trigger] t[k]),
        j == t.len() || is_ws(t[j]),
    ensures
        first_ws(t) == j,
    decreases j,
{
    if j > 0 {
        lemma_first_ws(t.drop_first(), j - 1);
    }
}

/// `first_index` is the index of the first `c`, or the length when there is none.
pub proof fn lemma_first_index_props(s: Seq<char>, c: char)
    ensures
        first_index(s, c) <= s.len(),
        forall|k: int| 0 <= k < first_index(s, c) ==> s[k] != c,
        first_index(s, c) < s.len() ==> s[first_index(s, c) as int] == c,
    decreases s.len(),
{
    if s.len() > 0 && s[0] != c {
        lemma_first_index_props(s.drop_first(), c);
        assert forall|k: int| 0 <= k < first_index(s, c) implies s[k] != c by {
            if k > 0 {
                assert(s[k] == s.drop_first()[k - 1]);
            }
        }
    }
}

/// `s` holds no `c`.
pub open spec fn free_of(s: Seq<char>, c: char) -> bool {
    forall|k: int| 0 <= k < s.len() ==> s[k] != c
}

/// No line of a text holds a line feed.
pub proof fn lemma_lines_free_of_newline(s: Seq<char>)
    ensures
        forall|i: int| 0 <= i < lines(s).len() ==> free_of(#[trigger] lines(s)[i], '\n'),
    decreases s.len(),
{
    if s.len() > 0 {
        let i = first_index(s, '\n');
        lemma_first_index_props(s, '\n');
        if i < s.len() {
            lemma_lines_free_of_newline(s.skip(i + 1 as int));
            let head = strip_cr(s.take(i as int));
            assert(free_of(head, '\n')) by {
                assert forall|k: int| 0 <= k < head.len() implies head[k] != '\n' by {
                    assert(head[k] == s[k]);
                }
            }
            let rest = lines(s.skip(i + 1 as int));
            assert forall|j: int| 0 <= j < lines(s).len() implies free_of(#[trigger] lines(s)[j], '\n') by {
                if j > 0 {
                    assert(lines(s)[j] == rest[j - 1]);
                }
            }
        }
    }
}

/// A text without a line feed is at most one line: itself.
pub proof fn lemma_lines_of_one_line(l: Seq<char>)
    requires
        free_of(l, '\n'),
    ensures
        lines(l) == (if l.len() == 0 {
            Seq::<Seq<char>>::empty()
        } else {
            seq![l]
        }),
{
    if l.len() > 0 {
        lemma_first_index(l, '\n', l.len() as int);
    }
}

/// Lines of a text that ends with a line feed (or is empty) followed by
/// more text: the lines of each, in order.
pub proof fn lemma_lines_append(a: Seq<char>, b: Seq<char>)
    requires
        a.len() == 0 || a.last() == '\n',
    ensures
        lines(a + b) == lines(a) + lines(b),
    decreases a.len(),
{
    if a.len() == 0 {
        assert(a + b =~= b);
        assert(lines(a) + lines(b) =~= lines(b));
    } else {
        let i = first_index(a, '\n');
        lemma_first_index_props(a, '\n');
        assert(i < a.len()) by {
            if i >= a.len() {
                assert(a[a.len() - 1] != '\n');
            }
        }
        let ab = a + b;
        assert forall|k: int| 0 <= k < i implies ab[k] != '\n' by {
            assert(ab[k] == a[k]);
        }
        lemma_first_index(ab, '\n', i as int);
        assert(ab.take(i as int) =~= a.take(i as int));
        assert(ab.skip(i + 1 as int) =~= a.skip(i + 1 as int) + b);
        let rest = a.skip(i + 1 as int);
        assert(rest.len() == 0 || rest.last() == '\n');
        lemma_lines_append(rest, b);
        assert(lines(ab) =~= lines(a) + lines(b));
    }
}

/// Joining with a separator, read from the front.
pub proof fn lemma_join_front(x: Seq<char>, rest: Seq<Seq<char>>, sep: Seq<char>)
    requires
        rest.len() > 0,
    ensures
        join_with(seq![x] + rest, sep) == x + sep + join_with(rest, sep),
    decreases rest.len(),
{
    let all = seq![x] + rest;
    if rest.len() == 1 {
        assert(all.drop_last() =~= seq![x]);
        assert(all.last() == rest[0]);
        assert(join_with(seq![x], sep) == x);
        assert(join_with(rest, sep) == rest[0]);
        assert(join_with(all, sep) == join_with(all.drop_last(), sep) + sep + all.last());
    } else {
        lemma_join_front(x, rest.drop_last(), sep);
        assert(all.drop_last() =~= seq![x] + rest.drop_last());
        assert(all.last() == rest.last());
        assert(join_with(all, sep) == join_with(all.drop_last(), sep) + sep + all.last());
        assert(join_with(rest, sep) == join_with(rest.drop_last(), sep) + sep + rest.last());
        assert(x + sep + join_with(rest.drop_last(), sep) + sep + rest.last() =~= x + sep + (
        join_with(rest.drop_last(), sep) + sep + rest.last()));
    }
}

/// The lines of non-empty, line-feed-free pieces joined with `\n`: the
/// pieces again, every one but the last losing a trailing `\r`.
pub proof fn lemma_lines_of_join(ps: Seq<Seq<char>>)
    requires
        forall|i: int| 0 <= i < ps.len() ==> (#[trigger] ps[i]).len() > 0 && free_of(ps[i], '\n'),
    ensures
        lines(join_with(ps, "\n"@)).len() == ps.len(),
        forall|i: int|
            0 <= i < ps.len() ==> #[trigger] lines(join_with(ps, "\n"@))[i] == if i + 1 < ps.len() {
                strip_cr(ps[i])
            } else {
                ps[i]
            },
    decreases ps.len(),
{
    reveal_strlit("\n");
    assert("\n"@ =~= seq!['\n']);
    if ps.len() == 1 {
        lemma_lines_of_one_line(ps[0]);
    } else if ps.len() > 1 {
        let x = ps[0];
        let rest = ps.drop_first();
        assert(ps =~= seq![x] + rest);
        lemma_join_front(x, rest, "\n"@);
        lemma_lines_of_join(rest);
        let jr = join_with(rest, "\n"@);
        let xn = x + "\n"@;
        assert(xn.last() == '\n');
        assert(x + "\n"@ + jr =~= xn + jr);
        lemma_lines_append(xn, jr);
        assert forall|k: int| 0 <= k < x.len() implies xn[k] != '\n' by {
            assert(xn[k] == x[k]);
        }
        lemma_first_index(xn, '\n', x.len() as int);
        assert(xn.take(x.len() as int) =~= x);
        assert(xn.skip(x.len() + 1 as int) =~= Seq::<char>::empty());
        let empty = Seq::<char>::empty();
        assert(lines(empty) =~= Seq::<Seq<char>>::empty());
        assert(lines(xn) == seq![strip_cr(xn.take(x.len() as int))] + lines(xn.skip(x.len() + 1 as int)));
        assert(lines(xn) =~= seq![strip_cr(x)]);
        let lj = lines(join_with(ps, "\n"@));
        assert(lj =~= seq![strip_cr(x)] + lines(jr));
        assert forall|i: int| 0 <= i < ps.len() implies #[trigger] lines(join_with(ps, "\n"@))[i]
            == if i + 1 < ps.len() {
            strip_cr(ps[i])
        } else {
            ps[i]
        } by {
            if i > 0 {
                assert(lj[i] == lines(jr)[i - 1]);
                assert(ps[i] == rest[i - 1]);
            }
        }
    }
}

/// A text has no more lines than characters.
pub proof fn lemma_lines_len(s: Seq<char>)
    ensures
        lines(s).len() <= s.len(),
    decreases s.len(),
{
    if s.len() > 0 {
        let i = first_index(s, '\n');
        if i < s.len() {
            lemma_lines_len(s.skip(i + 1 as int));
        }
    }
}

pub proof fn lemma_ws_lead(t: Seq<char>, j: int)
    requires
        0 <= j <= t.len(),
        forall|k: int| 0 <= k < j ==> is_ws(#[trigger] t[k]),
        j == t.len() || !is_ws(t[j]),
    ensures
        ws_lead(t) == j,
    decreases j,
{
    if j > 0 {
        lemma_ws_lead(t.drop_first(), j - 1);
    }
}

pub proof fn lemma_ws_trail(t: Seq<char>, j: int)
    requires
        0 <= j <= t.len(),
        forall|k: int| t.len() - j <= k < t.len() ==> is_ws(#[trigger] t[k]),
        j == t.len() || !is_ws(t[t.len() - 1 - j]),
    ensures
        ws_trail(t) == j,
    decreases j,
{
    if j > 0 {
        lemma_ws_trail(t.drop_last(), j - 1);
    }
}

pub proof fn lemma_digits_value_push(s: Seq<char>, c: char)
    ensures
        digits_value(s.push(c)) == digits_value(s) * 10 + digit_value(c),
{
    assert(s.push(c).drop_last() =~= s);
}

/// Every piece occurs in the pieces joined with a separator.
pub proof fn lemma_join_contains(ps: Seq<Seq<char>>, sep: Seq<char>, k: int)
    requires
        0 <= k < ps.len(),
    ensures
        contains(join_with(ps, sep), ps[k]),
    decreases ps.len(),
{
    let j = join_with(ps, sep);
    if ps.len() == 1 {
        assert(j.subrange(0, ps[0].len() as int) =~= ps[0]);
        assert(occurs_at(j, ps[k], 0));
    } else {
        let front = join_with(ps.drop_last(), sep);
        assert(j == front + sep + ps.last());
        if k == ps.len() - 1 {
            let i: int = (front.len() + sep.len()) as int;
            assert(j.subrange(i, i + ps[k].len()) =~= ps[k]);
            assert(occurs_at(j, ps[k], i));
        } else {
            lemma_join_contains(ps.drop_last(), sep, k);
            assert(ps.drop_last()[k] == ps[k]);
            let i = choose|i: int| occurs_at(front, ps[k], i);
            assert(j.subrange(i, i + ps[k].len()) =~= front.subrange(i, i + ps[k].len()));
            assert(occurs_at(j, ps[k], i));
        }
    }
}

/// The digit written for a value below ten is a digit worth that value.
pub proof fn lemma_digit_char(d: nat)
    requires
        d < 10,
    ensures
        is_digit(digit_char(d)),
        digit_value(digit_char(d)) == d,
{
}

/// The decimal form of `n`: one or more digits that spell `n`.
pub proof fn lemma_dec_spells(n: nat)
    ensures
        dec(n).len() > 0,
        all_digits(dec(n)),
        digits_value(dec(n)) == n,
    decreases n,
{
    if n < 10 {
        lemma_digit_char(n);
        assert(dec(n).drop_last() =~= Seq::<char>::empty());
        assert(digits_value(Seq::<char>::empty()) == 0);
    } else {
        lemma_dec_spells(n / 10);
        lemma_digit_char(n % 10);
        lemma_digits_value_push(dec(n / 10), digit_char(n % 10));
        assert((n / 10) * 10 + n % 10 == n) by (nonlinear_arith);
        assert forall|i: int| 0 <= i < dec(n).len() implies is_digit(#[trigger] dec(n)[i]) by {
            if i < dec(n / 10).len() {
                assert(dec(n)[i] == dec(n / 10)[i]);
            }
        }
    }
}

/// A longer run of digits never spells a smaller number.
pub proof fn lemma_digits_value_prefix(s: Seq<char>, i: int)
    requires
        0 <= i <= s.len(),
        all_digits(s),
    ensures
        digits_value(s.take(i)) <= digits_value(s),
    decreases s.len() - i,
{
    if i < s.len() {
        lemma_digits_value_prefix(s, i + 1);
        assert(s.take(i + 1).drop_last() =~= s.take(i));
        assert(s.take(i + 1).last() == s[i]);
        assert(is_digit(s[i]));
        assert(digits_value(s.take(i + 1)) == digits_value(s.take(i)) * 10 + digit_value(s[i]));
    } else {
        assert(s.take(i) =~= s);
    }
}

// ------------------------------------------------------------------
// Executable helpers
// ------------------------------------------------------------------

/// Appends one character to a `String`: std's `String::push`, documented
/// to append `c` to the end of the string.
#[verifier::external_body]
fn push_char(s: &mut String, c: char)
    ensures
        final(s)@ == old(s)@.push(c),
{
    s.push(c);
}

/// The characters of `s`, in order.
pub fn chars_of(s: &str) -> (r: Vec<char>)
    ensures
        r@ == s@,
{
    let mut r: Vec<char> = Vec::new();
    for c in it: s.chars()
        invariant
            r@ == it.seq().take(it.index() as int),
    {
        r.push(c);
    }
    r
}

/// A `String` holding exactly `v`.
pub fn string_of(v: &[char]) -> (r: String)
    ensures
        r@ == v@,
{
    let mut r = String::new();
    let mut i: usize = 0;
    while i < v.len()
        invariant
            i <= v.len(),
            r@ == v@.take(i as int),
        decreases v.len() - i,
    {
        push_char(&mut r, v[i]);
        assert(v@.take(i as int).push(v@[i as int]) =~= v@.take(i + 1));
        i += 1;
    }
    assert(v@.take(v.len() as int) =~= v@);
    r
}

/// `v` followed by `w`.
pub fn append(v: &mut Vec<char>, w: &[char])
    ensures
        final(v)@ == old(v)@ + w@,
{
    let ghost start = v@;
    let mut i: usize = 0;
    while i < w.len()
        invariant
            i <= w.len(),
            v@ == start + w@.take(i as int),
        decreases w.len() - i,
    {
        v.push(w[i]);
        assert(start + w@.take(i + 1) =~= (start + w@.take(i as int)).push(w@[i as int]));
        i += 1;
    }
    assert(w@.take(w.len() as int) =~= w@);
}

/// `ps` joined with `sep` between each two pieces.
pub fn join_exec(ps: &Vec<Vec<char>>, sep: &[char]) -> (r: Vec<char>)
    ensures
        r@ == join_with(ps@.map_values(|l: Vec<char>| l@), sep@),
{
    let ghost all = ps@.map_values(|l: Vec<char>| l@);
    let mut out: Vec<char> = Vec::new();
    let mut i: usize = 0;
    assert(all.take(0) =~= Seq::<Seq<char>>::empty());
    while i < ps.len()
        invariant
            i <= ps.len(),
            all == ps@.map_values(|l: Vec<char>| l@),
            out@ == join_with(all.take(i as int), sep@),
        decreases ps.len() - i,
    {
        assert(all.take(i + 1).drop_last() =~= all.take(i as int));
        assert(all.take(i + 1).last() == ps@[i as int]@);
        if i > 0 {
            append(&mut out, sep);
        } else {
            assert(all.take(1) =~= seq![ps@[0]@]);
            assert(out@ =~= Seq::<char>::empty());
        }
        append(&mut out, &ps[i]);
        proof {
            if i == 0 {
                assert(out@ =~= ps@[0]@);
            }
        }
        i += 1;
    }
    assert(all.take(ps.len() as int) =~= all);
    out
}

/// The characters of each string.
pub fn chars_of_each(ss: &Vec<String>) -> (r: Vec<Vec<char>>)
    ensures
        r@.map_values(|l: Vec<char>| l@) == ss@.map_values(|s: String| s@),
{
    let mut r: Vec<Vec<char>> = Vec::new();
    let mut i: usize = 0;
    while i < ss.len()
        invariant
            i <= ss.len(),
            r@.len() == i,
            forall|k: int| 0 <= k < i ==> (#[trigger] r@[k])@ == ss@[k]@,
        decreases ss.len() - i,
    {
        r.push(chars_of(ss[i].as_str()));
        i += 1;
    }
    assert(r@.map_values(|l: Vec<char>| l@) =~= ss@.map_values(|s: String| s@));
    r
}

/// Whether `a` and `b` hold the same characters.
pub fn same_chars(a: &[char], b: &[char]) -> (r: bool)
    ensures
        r == (a@ == b@),
{
    if a.len() != b.len() {
        return false;
    }
    let r = starts_with_exec(a, b);
    proof {
        if r {
            assert(a@.take(b@.len() as int) =~= a@);
        }
    }
    r
}

/// `s[a..b]` as a fresh vector.
pub fn slice_of(s: &[char], a: usize, b: usize) -> (r: Vec<char>)
    requires
        a <= b <= s.len(),
    ensures
        r@ == s@.subrange(a as int, b as int),
{
    vstd::slice::slice_to_vec(vstd::slice::slice_subrange(s, a, b))
}

/// `char::is_whitespace`.
pub fn is_whitespace(c: char) -> (b: bool)
    ensures
        b == is_ws(c),
{
    let u = c as u32;
    (0x9 <= u && u <= 0xd) || u == 0x20 || u == 0x85 || u == 0xa0 || u == 0x1680 || (0x2000 <= u
        && u <= 0x200a) || u == 0x2028 || u == 0x2029 || u == 0x202f || u == 0x205f || u == 0x3000
}

/// Whether `p` occurs in `s` at index `i`.
pub fn occurs_at_exec(s: &[char], p: &[char], i: usize) -> (b: bool)
    ensures
        b == occurs_at(s@, p@, i as int),
{
    if i > s.len() || p.len() > s.len() - i {
        return false;
    }
    let mut k: usize = 0;
    while k < p.len()
        invariant
            k <= p.len(),
            i + p.len() <= s.len(),
            forall|m: int| 0 <= m < k ==> s@[i + m] == p@[m],
        decreases p.len() - k,
    {
        if s[i + k] != p[k] {
            assert(s@.subrange(i as int, i + p.len())[k as int] != p@[k as int]);
            return false;
        }
        k += 1;
    }
    assert(s@.subrange(i as int, i + p.len()) =~= p@);
    true
}

/// Whether `s` starts with `p`.
pub fn starts_with_exec(s: &[char], p: &[char]) -> (b: bool)
    ensures
        b == starts_with(s@, p@),
{
    let r = occurs_at_exec(s, p, 0);
    proof {
        if p@.len() <= s@.len() {
            assert(s@.subrange(0, p@.len() as int) =~= s@.take(p@.len() as int));
        }
    }
    r
}

/// Whether `s` ends with `p`.
pub fn ends_with_exec(s: &[char], p: &[char]) -> (b: bool)
    ensures
        b == ends_with(s@, p@),
{
    if p.len() > s.len() {
        return false;
    }
    let r = occurs_at_exec(s, p, s.len() - p.len());
    proof {
        assert(s@.subrange(s@.len() - p@.len(), s@.len() as int) =~= s@.skip(
            s@.len() - p@.len(),
        ));
    }
    r
}

/// Index of the first occurrence of `p` in `s`, if any.
pub fn find(s: &[char], p: &[char]) -> (r: Option<usize>)
    ensures
        r is None <==> !contains(s@, p@),
        r matches Some(i) ==> occurs_at(s@, p@, i as int) && forall|j: int|
            0 <= j < i ==> !occurs_at(s@, p@, j),
        r matches Some(i) ==> first_occurrence(s@, p@) == i,
{
    if p.len() > s.len() {
        return None;
    }
    let mut i: usize = 0;
    while i <= s.len() - p.len()
        invariant
            p.len() <= s.len(),
            i <= s.len() - p.len() + 1,
            forall|j: int| 0 <= j < i ==> !occurs_at(s@, p@, j),
        decreases s.len() - p.len() + 1 - i,
    {
        if occurs_at_exec(s, p, i) {
            proof {
                lemma_first_occurrence(s@, p@, i as int);
            }
            return Some(i);
        }
        i += 1;
    }
    None
}

/// Whether `p` occurs in `s`.
pub fn contains_exec(s: &[char], p: &[char]) -> (b: bool)
    ensures
        b == contains(s@, p@),
{
    find(s, p).is_some()
}

/// Index of the first whitespace character of `s`, or `s.len()`.
pub fn first_ws_exec(s: &[char]) -> (r: usize)
    ensures
        r == first_ws(s@),
        r <= s.len(),
{
    let mut j: usize = 0;
    while j < s.len() && !is_whitespace(s[j])
        invariant
            j <= s.len(),
            forall|k: int| 0 <= k < j ==> !is_ws(#[trigger] s@[k]),
        decreases s.len() - j,
    {
        j += 1;
    }
    proof {
        lemma_first_ws(s@, j as int);
    }
    j
}

/// Index of the first `c` in `s`, or `s.len()`.
pub fn first_index_exec(s: &[char], from: usize, c: char) -> (r: usize)
    requires
        from <= s.len(),
    ensures
        from <= r <= s.len(),
        r == from + first_index(s@.skip(from as int), c),
{
    let mut j = from;
    while j < s.len() && s[j] != c
        invariant
            from <= j <= s.len(),
            forall|k: int| from <= k < j ==> s@[k] != c,
        decreases s.len() - j,
    {
        j += 1;
    }
    proof {
        lemma_first_index(s@.skip(from as int), c, j - from);
    }
    j
}

/// `str::lines`, one vector per line.
pub fn split_lines(s: &[char]) -> (r: Vec<Vec<char>>)
    ensures
        r@.map_values(|l: Vec<char>| l@) == lines(s@),
{
    let mut out: Vec<Vec<char>> = Vec::new();
    let mut pos: usize = 0;
    assert(s@.skip(0) =~= s@);
    while pos < s.len()
        invariant
            pos <= s.len(),
            lines(s@) == out@.map_values(|l: Vec<char>| l@) + lines(s@.skip(pos as int)),
        decreases s.len() - pos,
    {
        let j = first_index_exec(s, pos, '\n');
        let ghost t = s@.skip(pos as int);
        let ghost before = out@.map_values(|l: Vec<char>| l@);
        if j == s.len() {
            let line = slice_of(s, pos, j);
            assert(line@ =~= t);
            out.push(line);
            assert(out@.map_values(|l: Vec<char>| l@) =~= before.push(t));
            assert(s@.skip(j as int) =~= Seq::<char>::empty());
            assert(lines(t) =~= seq![t]);
            pos = j;
        } else {
            let end = if j > pos && s[j - 1] == '\r' {
                j - 1
            } else {
                j
            };
            let line = slice_of(s, pos, end);
            assert(t.take(j - pos) =~= s@.subrange(pos as int, j as int));
            assert(line@ =~= strip_cr(t.take(j - pos)));
            out.push(line);
            assert(out@.map_values(|l: Vec<char>| l@) =~= before.push(line@));
            assert(t.skip(j - pos + 1) =~= s@.skip(j + 1));
            pos = j + 1;
        }
    }
    assert(s@.skip(pos as int) =~= Seq::<char>::empty());
    assert(out@.map_values(|l: Vec<char>| l@) + seq![] =~= out@.map_values(|l: Vec<char>| l@));
    out
}

/// Splits `s` at every `c`.
pub fn split_at_char(s: &[char], c: char) -> (r: Vec<Vec<char>>)
    ensures
        r@.map_values(|l: Vec<char>| l@) == split_on(s@, c),
{
    let mut out: Vec<Vec<char>> = Vec::new();
    let mut pos: usize = 0;
    assert(s@.skip(0) =~= s@);
    loop
        invariant
            pos <= s.len(),
            split_on(s@, c) == out@.map_values(|l: Vec<char>| l@) + split_on(
                s@.skip(pos as int),
                c,
            ),
        decreases s.len() - pos,
    {
        let j = first_index_exec(s, pos, c);
        let ghost t = s@.skip(pos as int);
        let ghost before = out@.map_values(|l: Vec<char>| l@);
        let piece = slice_of(s, pos, j);
        assert(t.take(j - pos) =~= piece@);
        out.push(piece);
        assert(out@.map_values(|l: Vec<char>| l@) =~= before.push(piece@));
        if j == s.len() {
            assert(piece@ =~= t);
            assert(out@.map_values(|l: Vec<char>| l@) =~= before + split_on(t, c));
            return out;
        }
        assert(t.skip(j - pos + 1) =~= s@.skip(j + 1));
        pos = j + 1;
    }
}

/// The bounds `(a, b)` with `s[a..b] == trim(s)`.
pub fn trim_bounds(s: &[char]) -> (r: (usize, usize))
    ensures
        r.0 <= r.1 <= s.len(),
        s@.subrange(r.0 as int, r.1 as int) == trim(s@),
        s@.subrange(r.0 as int, s.len() as int) == trim_start(s@),
{
    let mut a: usize = 0;
    while a < s.len() && is_whitespace(s[a])
        invariant
            a <= s.len(),
            forall|k: int| 0 <= k < a ==> is_ws(#[trigger] s@[k]),
        decreases s.len() - a,
    {
        a += 1;
    }
    proof {
        lemma_ws_lead(s@, a as int);
    }
    let ghost t = s@.skip(a as int);
    let mut b: usize = s.len();
    while b > a && is_whitespace(s[b - 1])
        invariant
            a <= b <= s.len(),
            t == s@.skip(a as int),
            forall|k: int| b <= k < s.len() ==> is_ws(#[trigger] s@[k]),
        decreases b,
    {
        b -= 1;
    }
    proof {
        assert forall|k: int| t.len() - (s.len() - b) <= k < t.len() implies is_ws(#[trigger] t[k]) by {
            assert(t[k] == s@[a + k]);
        }
        if b > a {
            assert(t[t.len() - 1 - (s.len() - b)] == s@[b - 1]);
        }
        lemma_ws_trail(t, (s.len() - b) as int);
        assert(s@.subrange(a as int, s.len() as int) =~= t);
        assert(s@.subrange(a as int, b as int) =~= t.take(t.len() - ws_trail(t)));
    }
    (a, b)
}

/// `str::trim`.
pub fn trimmed(s: &[char]) -> (r: Vec<char>)
    ensures
        r@ == trim(s@),
{
    let (a, b) = trim_bounds(s);
    slice_of(s, a, b)
}

/// The bound `b` with `s[..b] == trim_end(s)`.
pub fn trim_end_len(s: &[char]) -> (b: usize)
    ensures
        b <= s.len(),
        s@.take(b as int) == trim_end(s@),
{
    let mut b: usize = s.len();
    while b > 0 && is_whitespace(s[b - 1])
        invariant
            b <= s.len(),
            forall|k: int| b <= k < s.len() ==> is_ws(#[trigger] s@[k]),
        decreases b,
    {
        b -= 1;
    }
    proof {
        lemma_ws_trail(s@, (s.len() - b) as int);
    }
    b
}

/// The decimal digit character for `d < 10`.
pub fn digit_char_exec(d: u64) -> (c: char)
    requires
        d < 10,
    ensures
        c == digit_char(d as nat),
{
    if d == 0 {
        '0'
    } else if d == 1 {
        '1'
    } else if d == 2 {
        '2'
    } else if d == 3 {
        '3'
    } else if d == 4 {
        '4'
    } else if d == 5 {
        '5'
    } else if d == 6 {
        '6'
    } else if d == 7 {
        '7'
    } else if d == 8 {
        '8'
    } else {
        '9'
    }
}

/// Decimal digits of `n` (what `n.to_string()` prints).
pub fn u64_dec(n: u64) -> (r: Vec<char>)
    ensures
        r@ == dec(n as nat),
    decreases n,
{
    if n < 10 {
        let mut v = Vec::new();
        v.push(digit_char_exec(n));
        assert(v@ =~= seq![digit_char(n as nat)]);
        v
    } else {
        let mut v = u64_dec(n / 10);
        v.push(digit_char_exec(n % 10));
        v
    }
}

/// Decimal form of a signed integer (what `{}` prints for an `i64`).
pub fn i64_dec(x: i64) -> (r: Vec<char>)
    ensures
        r@ == sdec(x as int),
{
    if x < 0 {
        let m: u64 = if x == i64::MIN {
            9223372036854775808u64
        } else {
            (-x) as u64
        };
        let mut v = Vec::new();
        v.push('-');
        let d = u64_dec(m);
        append(&mut v, &d);
        assert(v@ =~= seq!['-'] + dec((-x) as nat));
        v
    } else {
        u64_dec(x as u64)
    }
}

/// Decimal form of a signed integer (what `{}` prints for an `i32`).
pub fn i32_dec(x: i32) -> (r: Vec<char>)
    ensures
        r@ == sdec(x as int),
{
    i64_dec(x as i64)
}

/// `u64::from_str` over the characters of `s`.
pub fn parse_u64(s: &[char]) -> (r: Option<u64>)
    ensures
        r == parses_u64(s@),
{
    let start: usize = if s.len() > 0 && s[0] == '+' {
        1
    } else {
        0
    };
    let ghost d = if s@.len() > 0 && s@[0] == '+' {
        s@.drop_first()
    } else {
        s@
    };
    assert(d =~= s@.skip(start as int));
    if start >= s.len() {
        return None;
    }
    let mut i = start;
    while i < s.len()
        invariant
            start <= i <= s.len(),
            d == s@.skip(start as int),
            d == (if s@.len() > 0 && s@[0] == '+' {
                s@.drop_first()
            } else {
                s@
            }),
            forall|k: int| start <= k < i ==> is_digit(#[trigger] s@[k]),
        decreases s.len() - i,
    {
        let u = s[i] as u32;
        if !(48 <= u && u <= 57) {
            assert(d[i - start] == s@[i as int]);
            assert(!is_digit(d[i - start]));
            assert(!all_digits(d));
            return None;
        }
        i += 1;
    }
    assert(all_digits(d)) by {
        assert forall|k: int| 0 <= k < d.len() implies is_digit(#[trigger] d[k]) by {
            assert(d[k] == s@[start + k]);
        }
    }
    let mut v: u64 = 0;
    let mut i = start;
    while i < s.len()
        invariant
            start <= i <= s.len(),
            all_digits(d),
            d == s@.skip(start as int),
            d == (if s@.len() > 0 && s@[0] == '+' {
                s@.drop_first()
            } else {
                s@
            }),
            v as nat == digits_value(d.take(i - start)),
        decreases s.len() - i,
    {
        let c = s[i];
        assert(c == d[i - start]);
        assert(is_digit(d[i - start]));
        let dv = (c as u32 - 48) as u64;
        proof {
            assert(d.take(i - start + 1) =~= d.take(i - start).push(c));
            lemma_digits_value_push(d.take(i - start), c);
        }
        match v.checked_mul(10) {
            None => {
                proof {
                    lemma_digits_value_prefix(d, i - start + 1);
                    assert(digits_value(d.take(i - start + 1)) > u64::MAX);
                    assert(digits_value(d) > u64::MAX);
                }
                return None;
            },
            Some(m) => match m.checked_add(dv) {
                None => {
                    proof {
                        lemma_digits_value_prefix(d, i - start + 1);
                        assert(digits_value(d.take(i - start + 1)) > u64::MAX);
                        assert(digits_value(d) > u64::MAX);
                    }
                    return None;
                },
                Some(n) => {
                    v = n;
                },
            },
        }
        i += 1;
    }
    assert(d.take(d.len() as int) =~= d);
    Some(v)
}

} // verus!

verus! {

/// Name for what `{:?}` prints for a string: std's `Debug` for `str`, the
/// text in double quotes with quotes, backslashes and non-printable
/// characters escaped. Nothing more is claimed of it.
pub uninterp spec fn debug_quoted(s: Seq<char>) -> Seq<char>;

/// The `Debug` rendering of a string (`format!("{:?}", s)`, std's
/// `impl Debug for str`); its result is the name `debug_quoted` of `s`.
#[verifier::external_body]
pub(crate) fn debug_string(s: &String) -> (r: String)
    ensures
        r@ == debug_quoted(s@),
{
    format!("{:?}", s)
}

/// `s` followed by `t`, as a `String`.
pub fn concat(s: &String, t: &str) -> (r: String)
    ensures
        r@ == s@ + t@,
{
    let mut v = chars_of(s.as_str());
    let w = chars_of(t);
    append(&mut v, &w);
    string_of(&v)
}

} // verus!
