//! Equivalence policy. Byte-identical: outputs must match exactly, and a
//! mismatch reports the first diverging byte offset with the text around
//! it. Fp-tolerance: both outputs are split into whitespace-separated
//! tokens and paired up (a token-count mismatch is a divergence of its
//! own); comparing the paired tokens as floating-point numbers is the
//! caller's part.

use vstd::prelude::*;
use vstd::string::StringSliceAdditionalSpecFns;
use vstd::utf8::{
    decode_utf8, encode_utf8, encode_utf8_decode_utf8, encode_utf8_valid_utf8, is_char_boundary,
    is_char_boundary_iff_not_is_continuation_byte, is_char_boundary_start_end_of_seq,
    valid_utf8_split,
};
use crate::text::{chars_of, dec, is_whitespace, is_ws, replace_all, string_of, u64_dec, append};
use crate::orchestrate::replace_chars;

verus! {

/// The first place two outputs diverge under a policy.
#[derive(Debug, Clone, PartialEq)]
pub struct Divergence {
    /// Token index (fp-tolerance) or byte offset (byte-identical).
    pub token: usize,
    pub baseline: String,
    pub candidate: String,
    pub reason: String,
}

/// The text of `bytes` from 8 bytes before `pos` to 8 bytes after it
/// (clamped to the text), with newlines shown as `\n`; empty when those
/// offsets do not fall on character boundaries.
pub open spec fn snippet_spec(bytes: Seq<u8>, pos: int) -> Seq<char> {
    let start = if pos >= 8 {
        pos - 8
    } else {
        0
    };
    let end = if pos + 8 < bytes.len() {
        pos + 8
    } else {
        bytes.len() as int
    };
    if start <= end && is_char_boundary(bytes, start) && is_char_boundary(bytes, end) {
        replace_all(decode_utf8(bytes.subrange(start, end)), "\n"@, "\\n"@)
    } else {
        seq![]
    }
}

/// The context around byte offset `pos` of `s` (see `snippet_spec`).
pub fn snippet(s: &str, pos: usize) -> (r: String)
    ensures
        r@ == snippet_spec(s.spec_bytes(), pos as int),
{
    proof {
        reveal_strlit("\n");
        reveal_strlit("\\n");
        encode_utf8_valid_utf8(s@);
        is_char_boundary_start_end_of_seq(s.spec_bytes());
    }
    let len = s.as_bytes().len();
    let start = if pos >= 8 {
        pos - 8
    } else {
        0
    };
    let reach = pos.saturating_add(8);
    let end = if reach < len {
        reach
    } else {
        len
    };
    if start <= end && s.is_char_boundary(start) && s.is_char_boundary(end) {
        let ghost b = s.spec_bytes();
        let (_, rest) = s.split_at(start);
        proof {
            valid_utf8_split(b, start as int);
            let rb = rest.spec_bytes();
            assert(rb =~= b.subrange(start as int, b.len() as int));
            let k = end - start;
            if k == 0 {
            } else if end == b.len() {
                is_char_boundary_start_end_of_seq(rb);
            } else {
                is_char_boundary_iff_not_is_continuation_byte(b, end as int);
                is_char_boundary_iff_not_is_continuation_byte(rb, k as int);
                assert(rb[k as int] == b[end as int]);
            }
        }
        let (piece, _) = rest.split_at(end - start);
        proof {
            assert(piece.spec_bytes() =~= b.subrange(start as int, end as int));
            encode_utf8_decode_utf8(piece@);
        }
        let out = replace_chars(&chars_of(piece), &chars_of("\n"), &chars_of("\\n"));
        string_of(&out)
    } else {
        String::new()
    }
}

/// Index of the first differing byte of `a` and `b`, or the shorter length.
pub open spec fn first_difference(a: Seq<u8>, b: Seq<u8>) -> int
    decreases a.len(),
{
    if a.len() == 0 || b.len() == 0 {
        0
    } else if a[0] != b[0] {
        0
    } else {
        1 + first_difference(a.drop_first(), b.drop_first())
    }
}

proof fn lemma_first_difference(a: Seq<u8>, b: Seq<u8>, j: int)
    requires
        0 <= j <= a.len(),
        j <= b.len(),
        forall|k: int| 0 <= k < j ==> a[k] == b[k],
        j == a.len() || j == b.len() || a[j] != b[j],
    ensures
        first_difference(a, b) == j,
    decreases j,
{
    if j > 0 {
        lemma_first_difference(a.drop_first(), b.drop_first(), j - 1);
    }
}

pub open spec fn mismatch_reason() -> Seq<char> {
    "byte-identical mismatch"@
}

/// Byte-identical comparison: equal outputs pass; otherwise the divergence
/// names the first differing byte offset (or the shorter length when one
/// output is a prefix of the other) with both outputs' context there.
pub fn compare_byte_identical(baseline: &str, candidate: &str) -> (r: Result<(), Divergence>)
    ensures
        r is Ok <==> baseline@ == candidate@,
        r matches Err(d) ==> {
            let pos = first_difference(baseline.spec_bytes(), candidate.spec_bytes());
            &&& d.token == pos
            &&& d.baseline@ == snippet_spec(baseline.spec_bytes(), pos)
            &&& d.candidate@ == snippet_spec(candidate.spec_bytes(), pos)
            &&& d.reason@ == mismatch_reason()
        },
{
    let a = baseline.as_bytes();
    let b = candidate.as_bytes();
    let n = if a.len() < b.len() {
        a.len()
    } else {
        b.len()
    };
    let mut i: usize = 0;
    while i < n && a[i] == b[i]
        invariant
            i <= n,
            n <= a@.len(),
            n <= b@.len(),
            n == a@.len() || n == b@.len(),
            forall|k: int| 0 <= k < i ==> a@[k] == b@[k],
        decreases n - i,
    {
        i += 1;
    }
    proof {
        lemma_first_difference(a@, b@, i as int);
        encode_utf8_decode_utf8(baseline@);
        encode_utf8_decode_utf8(candidate@);
    }
    if i == a.len() && i == b.len() {
        assert(a@ =~= b@);
        return Ok(());
    }
    assert(a@ != b@) by {
        if i < n {
            assert(a@[i as int] != b@[i as int]);
        }
    }
    Err(
        Divergence {
            token: i,
            baseline: snippet(baseline, i),
            candidate: snippet(candidate, i),
            reason: String::from_str("byte-identical mismatch"),
        },
    )
}

// ------------------------------------------------------------------
// Whitespace tokens
// ------------------------------------------------------------------

/// Splitting left to right: the words completed so far and the word in
/// progress.
pub open spec fn split_ws(s: Seq<char>) -> (Seq<Seq<char>>, Seq<char>)
    decreases s.len(),
{
    if s.len() == 0 {
        (seq![], seq![])
    } else {
        let (done, cur) = split_ws(s.drop_last());
        let c = s.last();
        if is_ws(c) {
            if cur.len() > 0 {
                (done.push(cur), seq![])
            } else {
                (done, seq![])
            }
        } else {
            (done, cur.push(c))
        }
    }
}

/// The maximal runs of non-whitespace characters of `s`, in order (what
/// `str::split_whitespace` yields).
pub open spec fn words(s: Seq<char>) -> Seq<Seq<char>> {
    let (done, cur) = split_ws(s);
    if cur.len() > 0 {
        done.push(cur)
    } else {
        done
    }
}

/// The whitespace-separated tokens of `s`.
pub fn tokens(s: &str) -> (r: Vec<String>)
    ensures
        r@.map_values(|t: String| t@) == words(s@),
{
    let cs = chars_of(s);
    let mut done: Vec<String> = Vec::new();
    let mut cur: Vec<char> = Vec::new();
    let mut i: usize = 0;
    assert(cs@.take(0) =~= Seq::<char>::empty());
    while i < cs.len()
        invariant
            i <= cs.len(),
            cs@ == s@,
            (done@.map_values(|t: String| t@), cur@) == split_ws(cs@.take(i as int)),
        decreases cs.len() - i,
    {
        assert(cs@.take(i + 1).drop_last() =~= cs@.take(i as int));
        assert(cs@.take(i + 1).last() == cs@[i as int]);
        let c = cs[i];
        if is_whitespace(c) {
            if cur.len() > 0 {
                let ghost before = done@.map_values(|t: String| t@);
                done.push(string_of(&cur));
                assert(done@.map_values(|t: String| t@) =~= before.push(cur@));
                cur = Vec::new();
            }
        } else {
            cur.push(c);
        }
        i += 1;
    }
    assert(cs@.take(cs.len() as int) =~= cs@);
    if cur.len() > 0 {
        let ghost before = done@.map_values(|t: String| t@);
        done.push(string_of(&cur));
        assert(done@.map_values(|t: String| t@) =~= before.push(cur@));
    }
    done
}

pub open spec fn count_mismatch_reason() -> Seq<char> {
    "token-count mismatch"@
}

/// The tokens of both outputs, paired up in order, for a tolerance
/// comparison. Outputs with different token counts diverge at the shorter
/// count, each side reporting its own count.
pub fn token_pairs(baseline: &str, candidate: &str) -> (r: Result<Vec<(String, String)>, Divergence>)
    ensures
        r is Ok <==> words(baseline@).len() == words(candidate@).len(),
        r matches Ok(ps) ==> {
            &&& ps@.len() == words(baseline@).len()
            &&& forall|i: int|
                0 <= i < ps@.len() ==> (#[trigger] ps@[i]).0@ == words(baseline@)[i] && ps@[i].1@
                    == words(candidate@)[i]
        },
        r matches Err(d) ==> {
            let nb = words(baseline@).len();
            let nc = words(candidate@).len();
            &&& d.token == if nb < nc {
                nb
            } else {
                nc
            }
            &&& d.baseline@ == dec(nb) + " tokens"@
            &&& d.candidate@ == dec(nc) + " tokens"@
            &&& d.reason@ == count_mismatch_reason()
        },
{
    let bt = tokens(baseline);
    let ct = tokens(candidate);
    assert(bt@.map_values(|t: String| t@).len() == bt@.len());
    assert(ct@.map_values(|t: String| t@).len() == ct@.len());
    if bt.len() != ct.len() {
        let mut b = u64_dec(bt.len() as u64);
        append(&mut b, &chars_of(" tokens"));
        let mut c = u64_dec(ct.len() as u64);
        append(&mut c, &chars_of(" tokens"));
        return Err(
            Divergence {
                token: if bt.len() < ct.len() {
                    bt.len()
                } else {
                    ct.len()
                },
                baseline: string_of(&b),
                candidate: string_of(&c),
                reason: String::from_str("token-count mismatch"),
            },
        );
    }
    let mut ps: Vec<(String, String)> = Vec::new();
    let mut i: usize = 0;
    while i < bt.len()
        invariant
            i <= bt.len(),
            bt.len() == ct.len(),
            bt@.map_values(|t: String| t@) == words(baseline@),
            ct@.map_values(|t: String| t@) == words(candidate@),
            ps@.len() == i,
            forall|k: int|
                0 <= k < i ==> (#[trigger] ps@[k]).0@ == words(baseline@)[k] && ps@[k].1@
                    == words(candidate@)[k],
        decreases bt.len() - i,
    {
        assert(bt@.map_values(|t: String| t@)[i as int] == bt@[i as int]@);
        assert(ct@.map_values(|t: String| t@)[i as int] == ct@[i as int]@);
        let b = string_of(&chars_of(bt[i].as_str()));
        let c = string_of(&chars_of(ct[i].as_str()));
        ps.push((b, c));
        i += 1;
    }
    Ok(ps)
}

} // verus!
