//! Environment fingerprint: every reported number carries the machine
//! state it was measured under. A field that could not be read is
//! recorded as "unknown", never omitted. Reading the files is the
//! caller's part; this module turns their contents into the record.

use vstd::prelude::*;
use crate::text::{
    append, chars_of, lines, slice_of, split_at_char, split_lines, split_on, starts_with,
    starts_with_exec, string_of, trim, trimmed,
};

verus! {

#[derive(Debug, Clone)]
pub struct EnvFingerprint {
    pub kernel: String,
    pub cpu_model: String,
    pub governor: String,
    pub smt: String,
    pub turbo: String,
    /// ASLR handling mode actually in effect for this session.
    pub aslr: String,
    pub cpu_pinning: String,
}

/// A file's trimmed content, or "unknown" when it could not be read.
pub open spec fn reading(content: Option<Seq<char>>) -> Seq<char> {
    match content {
        Some(c) => trim(c),
        None => "unknown"@,
    }
}

/// The index of the first line satisfying "starts with `model name`".
pub open spec fn first_model_line(ls: Seq<Seq<char>>) -> Option<int> {
    if exists|i: int| 0 <= i < ls.len() && starts_with(#[trigger] ls[i], "model name"@) {
        Some(
            choose|i: int|
                0 <= i < ls.len() && starts_with(#[trigger] ls[i], "model name"@) && forall|j: int|
                    0 <= j < i ==> !starts_with(#[trigger] ls[j], "model name"@),
        )
    } else {
        None
    }
}

/// The CPU model from `/proc/cpuinfo`: the text after the first `:` of the
/// first `model name` line, trimmed; "unknown" when the file, the line or
/// the `:` is missing.
pub open spec fn cpu_model_spec(cpuinfo: Option<Seq<char>>) -> Seq<char> {
    match cpuinfo {
        None => "unknown"@,
        Some(text) => {
            let ls = lines(text);
            match first_model_line(ls) {
                None => "unknown"@,
                Some(i) => {
                    let parts = split_on(ls[i], ':');
                    if parts.len() >= 2 {
                        trim(parts[1])
                    } else {
                        "unknown"@
                    }
                },
            }
        },
    }
}

/// One reading of a fingerprint file: its trimmed content, or `unknown`
/// when it could not be read.
pub fn reading_of(content: Option<&str>) -> (r: String)
    ensures
        r@ == reading(
            match content {
                Some(c) => Some(c@),
                None => None,
            },
        ),
{
    match content {
        Some(c) => string_of(&trimmed(&chars_of(c))),
        None => String::from_str("unknown"),
    }
}

/// The CPU model named by the first `model name` line of cpuinfo (the
/// trimmed text after its first `:`), or `unknown`.
pub fn cpu_model_of(cpuinfo: Option<&str>) -> (r: String)
    ensures
        r@ == cpu_model_spec(
            match cpuinfo {
                Some(c) => Some(c@),
                None => None,
            },
        ),
{
    let text = match cpuinfo {
        None => return String::from_str("unknown"),
        Some(t) => t,
    };
    let cs = chars_of(text);
    let ls = split_lines(&cs);
    let ghost all = ls@.map_values(|l: Vec<char>| l@);
    let pre = chars_of("model name");
    let mut i: usize = 0;
    while i < ls.len()
        invariant
            i <= ls.len(),
            all == ls@.map_values(|l: Vec<char>| l@),
            all == lines(text@),
            pre@ == "model name"@,
            cpuinfo == Some(text),
            forall|j: int| 0 <= j < i ==> !starts_with(#[trigger] all[j], "model name"@),
        decreases ls.len() - i,
    {
        assert(all[i as int] == ls@[i as int]@);
        if starts_with_exec(&ls[i], &pre) {
            proof {
                let k = choose|k: int|
                    0 <= k < all.len() && starts_with(#[trigger] all[k], "model name"@) && forall|
                        j: int,
                    | 0 <= j < k ==> !starts_with(#[trigger] all[j], "model name"@);
                assert(0 <= i < all.len() && starts_with(all[i as int], "model name"@) && forall|
                    j: int,
                | 0 <= j < i ==> !starts_with(#[trigger] all[j], "model name"@));
                if k < i {
                    assert(!starts_with(all[k], "model name"@));
                }
                if i < k {
                    assert(!starts_with(all[i as int], "model name"@));
                }
            }
            let parts = split_at_char(&ls[i], ':');
            if parts.len() >= 2 {
                assert(parts@.map_values(|l: Vec<char>| l@)[1] == parts@[1]@);
                return string_of(&trimmed(&parts[1]));
            } else {
                return String::from_str("unknown");
            }
        }
        i += 1;
    }
    String::from_str("unknown")
}

impl EnvFingerprint {
    /// The fingerprint from the raw readings of the kernel release, cpuinfo,
    /// scaling governor, SMT state, turbo switch and ASLR sysctl (`None`
    /// where a file could not be read), the pinning in force and the ASLR
    /// handling mode.
    pub fn from_readings(
        pinning: &str,
        aslr_mode: &str,
        osrelease: Option<&str>,
        cpuinfo: Option<&str>,
        governor: Option<&str>,
        smt: Option<&str>,
        no_turbo: Option<&str>,
        randomize_va_space: Option<&str>,
    ) -> (r: Self)
        ensures
            r.kernel@ == reading(
                match osrelease {
                    Some(c) => Some(c@),
                    None => None,
                },
            ),
            r.cpu_model@ == cpu_model_spec(
                match cpuinfo {
                    Some(c) => Some(c@),
                    None => None,
                },
            ),
            r.governor@ == reading(
                match governor {
                    Some(c) => Some(c@),
                    None => None,
                },
            ),
            r.smt@ == reading(
                match smt {
                    Some(c) => Some(c@),
                    None => None,
                },
            ),
            r.turbo@ == reading(
                match no_turbo {
                    Some(c) => Some(c@),
                    None => None,
                },
            ),
            r.aslr@ == "mode="@ + aslr_mode@ + " randomize_va_space="@ + reading(
                match randomize_va_space {
                    Some(c) => Some(c@),
                    None => None,
                },
            ),
            r.cpu_pinning@ == pinning@,
    {
        let mut aslr = chars_of("mode=");
        append(&mut aslr, &chars_of(aslr_mode));
        append(&mut aslr, &chars_of(" randomize_va_space="));
        let rv = reading_of(randomize_va_space);
        append(&mut aslr, &chars_of(rv.as_str()));
        EnvFingerprint {
            kernel: reading_of(osrelease),
            cpu_model: cpu_model_of(cpuinfo),
            governor: reading_of(governor),
            smt: reading_of(smt),
            turbo: reading_of(no_turbo),
            aslr: string_of(&aslr),
            cpu_pinning: String::from_str(pinning),
        }
    }
}

} // verus!
