//! The pure edge of command timing: normalizing the platform's `ru_maxrss`
//! reading to KiB, and the calibration acceptance rule.

use vstd::prelude::*;

verus! {

/// KiB of a raw `ru_maxrss` value: negative readings clamp to 0; a value in
/// bytes is divided by 1024 rounding up, so a nonzero RSS never records as 0.
pub open spec fn maxrss_kib(raw: i64, raw_is_bytes: bool) -> int {
    let c: int = if raw < 0 {
        0
    } else {
        raw as int
    };
    if raw_is_bytes {
        (c + 1023) / 1024
    } else {
        c
    }
}

/// Raw `ru_maxrss` to KiB. Its unit is platform-defined (KiB on Linux and
/// the BSDs, bytes on Apple platforms); `raw_is_bytes` says which.
pub fn maxrss_to_kib(raw: i64, raw_is_bytes: bool) -> (r: u64)
    ensures
        r == maxrss_kib(raw, raw_is_bytes),
        raw > 0 ==> r > 0,
        raw <= 0 ==> r == 0,
{
    let c: u64 = if raw < 0 {
        0
    } else {
        raw as u64
    };
    if raw_is_bytes {
        let q = c / 1024;
        if c % 1024 == 0 {
            q
        } else {
            q + 1
        }
    } else {
        c
    }
}

/// The calibration acceptance rule, in integers: over `sessions`
/// sessions, fewer than 5% A/A false positives and at least 95% of the
/// injected regressions detected.
pub open spec fn calibration_passes_spec(false_positives: nat, detections: nat, sessions: nat) -> bool {
    20 * false_positives < sessions && 20 * detections >= 19 * sessions
}

/// Whether a calibration run meets the acceptance rule (see
/// `calibration_passes_spec`).
pub fn calibration_passes(false_positives: usize, detections: usize, sessions: usize) -> (b: bool)
    ensures
        b == calibration_passes_spec(false_positives as nat, detections as nat, sessions as nat),
{
    let fp = false_positives as u128;
    let det = detections as u128;
    let n = sessions as u128;
    20 * fp < n && 20 * det >= 19 * n
}

} // verus!
