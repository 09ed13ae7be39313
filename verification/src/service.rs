//! Service-mode load sessions, pure part: the shell command that starts a
//! server under test. Sockets, threads and the latency clock are the
//! caller's.

use vstd::prelude::*;
use crate::text::{append, chars_of, dec, string_of, trim, trimmed, u64_dec};

verus! {

/// `HOTPATH_INJECT_US=<us> ` when a calibration run injects latency.
pub open spec fn inject_prefix(inject_us: Option<u64>) -> Seq<char> {
    match inject_us {
        Some(us) => "HOTPATH_INJECT_US="@ + dec(us as nat) + " "@,
        None => Seq::<char>::empty(),
    }
}

/// The command line of a server under test:
/// `[HOTPATH_INJECT_US=<us> ]<pin> <bin> <port> <doc> <iters>`, trimmed.
pub open spec fn server_command_text(
    inject_us: Option<u64>,
    pin_prefix: Seq<char>,
    server_bin: Seq<char>,
    port: u16,
    doc: Seq<char>,
    iters: u64,
) -> Seq<char> {
    trim(
        inject_prefix(inject_us) + pin_prefix + " "@ + server_bin + " "@ + dec(port as nat) + " "@
            + doc + " "@ + dec(iters as nat),
    )
}

/// The shell command that starts the server under test for one session,
/// pinned by `pin_prefix`, serving `doc` with `iters` parse+print rounds
/// per request on `port`.
pub fn server_command(
    inject_us: Option<u64>,
    pin_prefix: &str,
    server_bin: &str,
    port: u16,
    doc: &str,
    iters: u64,
) -> (r: String)
    ensures
        r@ == server_command_text(inject_us, pin_prefix@, server_bin@, port, doc@, iters),
{
    let mut v: Vec<char> = Vec::new();
    if let Some(us) = inject_us {
        append(&mut v, &chars_of("HOTPATH_INJECT_US="));
        append(&mut v, &u64_dec(us));
        append(&mut v, &chars_of(" "));
    }
    append(&mut v, &chars_of(pin_prefix));
    append(&mut v, &chars_of(" "));
    append(&mut v, &chars_of(server_bin));
    append(&mut v, &chars_of(" "));
    append(&mut v, &u64_dec(port as u64));
    append(&mut v, &chars_of(" "));
    append(&mut v, &chars_of(doc));
    append(&mut v, &chars_of(" "));
    append(&mut v, &u64_dec(iters));
    assert(v@ =~= inject_prefix(inject_us) + pin_prefix@ + " "@ + server_bin@ + " "@ + dec(
        port as nat,
    ) + " "@ + doc@ + " "@ + dec(iters as nat));
    string_of(&trimmed(&v))
}

} // verus!
