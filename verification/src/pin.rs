//! Corpus hash-pinning, pure part: a `sha256sum`-format manifest is read
//! line by line, and every listed file's digest must match (ASCII case
//! aside) or nothing runs. Reading files is the caller's part.

use vstd::prelude::*;
use sha2::{Digest, Sha256};
use crate::text::{
    append, chars_of, contains, find, first_occurrence, lines, slice_of, split_lines, starts_with,
    starts_with_exec, string_of, trim, trimmed, u64_dec, dec,
};

verus! {

/// Name for the SHA-256 digest of a byte string (32 bytes).
pub uninterp spec fn sha256_digest(data: Seq<u8>) -> Seq<u8>;

/// `Sha256::digest` from the sha2 crate: the 32-byte SHA-256 digest.
#[verifier::external_body]
fn sha256_bytes(data: &[u8]) -> (r: Vec<u8>)
    ensures
        r@ == sha256_digest(data@),
        r@.len() == 32,
{
    Sha256::digest(data).to_vec()
}

pub open spec fn hex_digit(d: u8) -> char {
    if d < 10 {
        crate::text::digit_char(d as nat)
    } else if d == 10 {
        'a'
    } else if d == 11 {
        'b'
    } else if d == 12 {
        'c'
    } else if d == 13 {
        'd'
    } else if d == 14 {
        'e'
    } else {
        'f'
    }
}

/// Lowercase hex, two digits per byte, most significant nibble first.
pub open spec fn hex_lower(bytes: Seq<u8>) -> Seq<char>
    decreases bytes.len(),
{
    if bytes.len() == 0 {
        seq![]
    } else {
        hex_lower(bytes.drop_last()).push(hex_digit(bytes.last() / 16)).push(
            hex_digit(bytes.last() % 16),
        )
    }
}

fn hex_digit_exec(d: u8) -> (c: char)
    requires
        d < 16,
    ensures
        c == hex_digit(d),
{
    if d < 10 {
        crate::text::digit_char_exec(d as u64)
    } else if d == 10 {
        'a'
    } else if d == 11 {
        'b'
    } else if d == 12 {
        'c'
    } else if d == 13 {
        'd'
    } else if d == 14 {
        'e'
    } else {
        'f'
    }
}

/// Lowercase hex of `bytes`.
pub fn hex_of(bytes: &[u8]) -> (r: Vec<char>)
    ensures
        r@ == hex_lower(bytes@),
{
    let mut out: Vec<char> = Vec::new();
    let mut i: usize = 0;
    assert(bytes@.take(0) =~= Seq::<u8>::empty());
    while i < bytes.len()
        invariant
            i <= bytes.len(),
            out@ == hex_lower(bytes@.take(i as int)),
        decreases bytes.len() - i,
    {
        assert(bytes@.take(i + 1).drop_last() =~= bytes@.take(i as int));
        assert(bytes@.take(i + 1).last() == bytes@[i as int]);
        out.push(hex_digit_exec(bytes[i] / 16));
        out.push(hex_digit_exec(bytes[i] % 16));
        i += 1;
    }
    assert(bytes@.take(bytes.len() as int) =~= bytes@);
    out
}

/// The lowercase hex SHA-256 digest of `bytes` (what `{:x}` prints for it).
pub fn sha256_hex_of(bytes: &[u8]) -> (r: String)
    ensures
        r@ == hex_lower(sha256_digest(bytes@)),
        r@.len() == 64,
{
    let d = sha256_bytes(bytes);
    let h = hex_of(&d);
    proof {
        lemma_hex_len(d@);
    }
    string_of(&h)
}

proof fn lemma_hex_len(b: Seq<u8>)
    ensures
        hex_lower(b).len() == 2 * b.len(),
    decreases b.len(),
{
    if b.len() > 0 {
        lemma_hex_len(b.drop_last());
    }
}

// ------------------------------------------------------------------
// Manifest
// ------------------------------------------------------------------

#[derive(Debug, Clone, PartialEq, Eq)]
pub enum PinError {
    /// Reading `path` failed; `message` is the I/O error's text.
    Io { path: String, message: String },
    MalformedManifest { line: usize, content: String },
    Mismatch { path: String, expected: String, actual: String },
}

/// One manifest line, classified.
#[derive(Debug, Clone, PartialEq, Eq)]
pub enum ManifestLine {
    /// Blank or `#` comment.
    Skip,
    /// `<hex-digest>  <relative-path>`.
    Entry { expected: String, rel: String },
    /// No two-space separator; carries the 1-based line number and the trimmed text.
    Malformed { line: usize, content: String },
}

pub enum ManifestLineV {
    Skip,
    Entry(Seq<char>, Seq<char>),
    Malformed(nat, Seq<char>),
}

impl View for ManifestLine {
    type V = ManifestLineV;

    open spec fn view(&self) -> ManifestLineV {
        match self {
            ManifestLine::Skip => ManifestLineV::Skip,
            ManifestLine::Entry { expected, rel } => ManifestLineV::Entry(expected@, rel@),
            ManifestLine::Malformed { line, content } => ManifestLineV::Malformed(
                *line as nat,
                content@,
            ),
        }
    }
}

/// The classification of line `i` (0-based) of a manifest.
pub open spec fn manifest_line(i: nat, line: Seq<char>) -> ManifestLineV {
    let t = trim(line);
    if t.len() == 0 || starts_with(t, "#"@) {
        ManifestLineV::Skip
    } else if contains(t, "  "@) {
        let k = first_occurrence(t, "  "@);
        ManifestLineV::Entry(t.take(k), t.skip(k + 2))
    } else {
        ManifestLineV::Malformed(i + 1, t)
    }
}

/// Classifies every line of a `sha256sum`-format manifest, in order. The
/// caller hashes each entry's file and stops at the first malformed line or
/// mismatch, in line order.
pub fn manifest_lines(raw: &str) -> (r: Vec<ManifestLine>)
    ensures
        r@.len() == lines(raw@).len(),
        forall|i: int| 0 <= i < r@.len() ==> (#[trigger] r@[i])@ == manifest_line(i as nat, lines(raw@)[i]),
{
    proof {
        reveal_strlit("  ");
    }
    let cs = chars_of(raw);
    let ls = split_lines(&cs);
    let ghost all = ls@.map_values(|l: Vec<char>| l@);
    let hash = chars_of("#");
    let sep = chars_of("  ");
    let mut out: Vec<ManifestLine> = Vec::new();
    let mut i: usize = 0;
    while i < ls.len()
        invariant
            i <= ls.len(),
            all == ls@.map_values(|l: Vec<char>| l@),
            all == lines(raw@),
            hash@ == "#"@,
            sep@ == "  "@,
            sep@.len() == 2,
            out@.len() == i,
            forall|k: int| 0 <= k < i ==> (#[trigger] out@[k])@ == manifest_line(k as nat, all[k]),
        decreases ls.len() - i,
    {
        let t = trimmed(&ls[i]);
        assert(all[i as int] == ls@[i as int]@);
        let entry = if t.len() == 0 || starts_with_exec(&t, &hash) {
            ManifestLine::Skip
        } else {
            match find(&t, &sep) {
                Some(k) => {
                    let e = slice_of(&t, 0, k);
                    let r = slice_of(&t, k + 2, t.len());
                    assert(e@ =~= t@.take(k as int));
                    assert(r@ =~= t@.skip(k + 2));
                    ManifestLine::Entry { expected: string_of(&e), rel: string_of(&r) }
                },
                None => ManifestLine::Malformed { line: i + 1, content: string_of(&t) },
            }
        };
        out.push(entry);
        i += 1;
    }
    out
}

pub open spec fn ascii_lower(c: char) -> char {
    if 65 <= (c as u32) <= 90 {
        ((c as u32) + 32) as char
    } else {
        c
    }
}

/// Equal up to ASCII letter case.
pub open spec fn eq_ignore_ascii_case(a: Seq<char>, b: Seq<char>) -> bool {
    a.len() == b.len() && forall|i: int| 0 <= i < a.len() ==> ascii_lower(#[trigger] a[i])
        == ascii_lower(b[i])
}

fn ascii_lower_exec(c: char) -> (r: u32)
    ensures
        r == ascii_lower(c) as u32,
{
    let u = c as u32;
    if 65 <= u && u <= 90 {
        u + 32
    } else {
        u
    }
}

/// Checks one file's digest against the manifest's.
pub fn check_digest(path: &str, expected: &str, actual: &str) -> (r: Result<(), PinError>)
    ensures
        r is Ok <==> eq_ignore_ascii_case(actual@, expected@),
        r matches Err(e) ==> e matches PinError::Mismatch { path: p, expected: x, actual: a } && p@
            == path@ && x@ == expected@ && a@ == actual@,
{
    let a = chars_of(actual);
    let x = chars_of(expected);
    let mut same = a.len() == x.len();
    if same {
        let mut i: usize = 0;
        while same && i < a.len()
            invariant
                i <= a.len(),
                a.len() == x.len(),
                forall|k: int| 0 <= k < i ==> ascii_lower(#[trigger] a@[k]) == ascii_lower(x@[k]),
                !same ==> i < a.len() && ascii_lower(a@[i as int]) != ascii_lower(x@[i as int]),
            decreases a.len() - i, if same { 1int } else { 0int },
        {
            if ascii_lower_exec(a[i]) != ascii_lower_exec(x[i]) {
                same = false;
            } else {
                i += 1;
            }
        }
    }
    if same {
        Ok(())
    } else {
        Err(
            PinError::Mismatch {
                path: String::from_str(path),
                expected: String::from_str(expected),
                actual: String::from_str(actual),
            },
        )
    }
}

impl PinError {
    /// The error as text.
    pub fn message(&self) -> (r: String)
        ensures
            self matches PinError::Io { path, message } ==> r@ == "io error reading "@ + path@
                + ": "@ + message@,
            self matches PinError::Mismatch { path, expected, actual } ==> r@ == "HASH MISMATCH for "@
                + path@ + ": manifest "@ + expected@ + ", actual "@ + actual@
                + " \u{2014} refusing to run"@,
            self matches PinError::MalformedManifest { line, content } ==> r@
                == "malformed manifest line "@ + dec(*line as nat) + ": "@
                + crate::text::debug_quoted(content@),
    {
        let mut v: Vec<char>;
        match self {
            PinError::Io { path, message } => {
                v = chars_of("io error reading ");
                append(&mut v, &chars_of(path.as_str()));
                append(&mut v, &chars_of(": "));
                append(&mut v, &chars_of(message.as_str()));
            },
            PinError::MalformedManifest { line, content } => {
                v = chars_of("malformed manifest line ");
                append(&mut v, &u64_dec(*line as u64));
                append(&mut v, &chars_of(": "));
                let d = crate::text::debug_string(content);
                append(&mut v, &chars_of(d.as_str()));
            },
            PinError::Mismatch { path, expected, actual } => {
                v = chars_of("HASH MISMATCH for ");
                append(&mut v, &chars_of(path.as_str()));
                append(&mut v, &chars_of(": manifest "));
                append(&mut v, &chars_of(expected.as_str()));
                append(&mut v, &chars_of(", actual "));
                append(&mut v, &chars_of(actual.as_str()));
                append(&mut v, &chars_of(" \u{2014} refusing to run"));
            },
        }
        string_of(&v)
    }
}

} // verus!
