//! `perf stat` counter capture, pure part: parsing `perf stat -x,` CSV and
//! bucketing the values per event. Counters are diagnostics only; they
//! never feed the accept decision.

use vstd::prelude::*;
use crate::text::{
    chars_of, lines, parse_u64, parses_u64, split_at_char, split_lines, split_on, starts_with,
    starts_with_exec, string_of, trim, trimmed,
};

verus! {

/// The events captured, in bucket order.
pub open spec fn perf_events() -> Seq<Seq<char>> {
    seq!["cycles"@, "instructions"@, "cache-misses"@, "branch-misses"@]
}

/// One CSV line: field 0 is the counter value, field 2 the event name.
/// Blank and `#` lines, lines with fewer than three fields, and values that
/// are not a `u64` (`<not counted>`, `<not supported>`) yield nothing.
pub open spec fn perf_line(line: Seq<char>) -> Option<(Seq<char>, u64)> {
    let t = trim(line);
    if t.len() == 0 || starts_with(t, "#"@) {
        None
    } else {
        let fs = split_on(t, ',');
        if fs.len() < 3 {
            None
        } else {
            match parses_u64(trim(fs[0])) {
                Some(v) => Some((trim(fs[2]), v)),
                None => None,
            }
        }
    }
}

/// The `(event, count)` pairs of a CSV text, in file order.
pub open spec fn perf_entries(ls: Seq<Seq<char>>) -> Seq<(Seq<char>, u64)>
    decreases ls.len(),
{
    if ls.len() == 0 {
        seq![]
    } else {
        let rest = perf_entries(ls.drop_last());
        match perf_line(ls.last()) {
            Some(e) => rest.push(e),
            None => rest,
        }
    }
}

fn perf_line_exec(line: &[char]) -> (r: Option<(String, u64)>)
    ensures
        r is None <==> perf_line(line@) is None,
        r matches Some((e, v)) ==> perf_line(line@) == Some((e@, v)),
{
    let t = trimmed(line);
    let hash = chars_of("#");
    if t.len() == 0 || starts_with_exec(&t, &hash) {
        return None;
    }
    let fs = split_at_char(&t, ',');
    if fs.len() < 3 {
        return None;
    }
    let ghost fsv = fs@.map_values(|l: Vec<char>| l@);
    assert(fsv[0] == fs@[0]@ && fsv[2] == fs@[2]@);
    match parse_u64(&trimmed(&fs[0])) {
        Some(v) => Some((string_of(&trimmed(&fs[2])), v)),
        None => None,
    }
}

/// Parses `perf stat -x,` CSV: field 0 is the counter value, field 2 the
/// event name (perf may append a modifier, e.g. `cycles:u`). Comment
/// lines, blank lines, and non-numeric values are skipped. Returns
/// `(event, count)` in file order.
pub fn parse_perf_csv(text: &str) -> (r: Vec<(String, u64)>)
    ensures
        r@.map_values(|p: (String, u64)| (p.0@, p.1)) == perf_entries(lines(text@)),
{
    let cs = chars_of(text);
    let ls = split_lines(&cs);
    let ghost all = ls@.map_values(|l: Vec<char>| l@);
    let mut out: Vec<(String, u64)> = Vec::new();
    let mut i: usize = 0;
    assert(all.take(0) =~= Seq::<Seq<char>>::empty());
    while i < ls.len()
        invariant
            i <= ls.len(),
            all == ls@.map_values(|l: Vec<char>| l@),
            all == lines(text@),
            out@.map_values(|p: (String, u64)| (p.0@, p.1)) == perf_entries(all.take(i as int)),
        decreases ls.len() - i,
    {
        let ghost before = out@.map_values(|p: (String, u64)| (p.0@, p.1));
        assert(all.take(i + 1).drop_last() =~= all.take(i as int));
        assert(all.take(i + 1).last() == ls@[i as int]@);
        match perf_line_exec(&ls[i]) {
            Some(e) => {
                out.push(e);
                assert(out@.map_values(|p: (String, u64)| (p.0@, p.1)) =~= before.push(
                    (out@[out@.len() - 1].0@, out@[out@.len() - 1].1),
                ));
            },
            None => {},
        }
        i += 1;
    }
    assert(all.take(ls.len() as int) =~= all);
    out
}

/// `event` names `name`, exactly or with a `:modifier` suffix.
pub open spec fn names_event(event: Seq<char>, name: Seq<char>) -> bool {
    event == name || (starts_with(event, name) && starts_with(event.skip(name.len() as int), ":"@))
}

/// Index of the first captured event that `event` names.
pub open spec fn event_index_spec(event: Seq<char>) -> Option<usize> {
    if names_event(event, perf_events()[0]) {
        Some(0)
    } else if names_event(event, perf_events()[1]) {
        Some(1)
    } else if names_event(event, perf_events()[2]) {
        Some(2)
    } else if names_event(event, perf_events()[3]) {
        Some(3)
    } else {
        None
    }
}

fn names_event_exec(event: &[char], name: &[char]) -> (b: bool)
    ensures
        b == names_event(event@, name@),
{
    if !starts_with_exec(event, name) {
        return false;
    }
    if event.len() == name.len() {
        assert(event@ =~= name@);
        return true;
    }
    let rest = crate::text::slice_of(event, name.len(), event.len());
    assert(rest@ =~= event@.skip(name@.len() as int));
    assert(event@ != name@);
    let colon = chars_of(":");
    starts_with_exec(&rest, &colon)
}

/// Index into the captured events, tolerating a perf modifier suffix
/// (`cycles:u`) but nothing else glued to the name.
pub fn event_index(event: &str) -> (r: Option<usize>)
    ensures
        r == event_index_spec(event@),
{
    let e = chars_of(event);
    if names_event_exec(&e, &chars_of("cycles")) {
        return Some(0);
    }
    if names_event_exec(&e, &chars_of("instructions")) {
        return Some(1);
    }
    if names_event_exec(&e, &chars_of("cache-misses")) {
        return Some(2);
    }
    if names_event_exec(&e, &chars_of("branch-misses")) {
        return Some(3);
    }
    None
}

/// One side's counter samples: `samples[i]` holds one value per measured
/// run for event `i`; runs where perf reported no value contribute nothing.
#[derive(Debug, Clone)]
pub struct PerfSide {
    pub samples: [Vec<u64>; 4],
}

#[derive(Debug, Clone)]
pub struct PerfReport {
    pub baseline: PerfSide,
    pub candidate: PerfSide,
}

/// The values of the entries whose event lands in bucket `k`, in order.
pub open spec fn bucket(parsed: Seq<(Seq<char>, u64)>, k: usize) -> Seq<u64>
    decreases parsed.len(),
{
    if parsed.len() == 0 {
        seq![]
    } else {
        let rest = bucket(parsed.drop_last(), k);
        if event_index_spec(parsed.last().0) == Some(k) {
            rest.push(parsed.last().1)
        } else {
            rest
        }
    }
}

impl Default for PerfSide {
    fn default() -> (r: Self)
        ensures
            forall|k: int| 0 <= k < 4 ==> (#[trigger] r.samples@[k])@.len() == 0,
    {
        PerfSide { samples: [Vec::new(), Vec::new(), Vec::new(), Vec::new()] }
    }
}

impl Default for PerfReport {
    fn default() -> (r: Self)
        ensures
            forall|k: int| 0 <= k < 4 ==> (#[trigger] r.baseline.samples@[k])@.len() == 0,
            forall|k: int| 0 <= k < 4 ==> (#[trigger] r.candidate.samples@[k])@.len() == 0,
    {
        PerfReport { baseline: PerfSide::default(), candidate: PerfSide::default() }
    }
}

impl PerfSide {
    /// Appends each parsed value to the bucket of its event; unknown events
    /// are dropped.
    pub fn absorb(&mut self, parsed: &[(String, u64)])
        ensures
            forall|k: int|
                0 <= k < 4 ==> (#[trigger] final(self).samples@[k])@ == old(self).samples@[k]@
                    + bucket(parsed@.map_values(|p: (String, u64)| (p.0@, p.1)), k as usize),
    {
        let ghost start = self.samples@;
        let ghost pv = parsed@.map_values(|p: (String, u64)| (p.0@, p.1));
        let mut i: usize = 0;
        while i < parsed.len()
            invariant
                i <= parsed.len(),
                pv == parsed@.map_values(|p: (String, u64)| (p.0@, p.1)),
                forall|k: int|
                    0 <= k < 4 ==> (#[trigger] self.samples@[k])@ == start[k]@ + bucket(
                        pv.take(i as int),
                        k as usize,
                    ),
            decreases parsed.len() - i,
        {
            assert(pv.take(i + 1).drop_last() =~= pv.take(i as int));
            assert(pv.take(i + 1).last() == (parsed@[i as int].0@, parsed@[i as int].1));
            let (event, value) = (&parsed[i].0, parsed[i].1);
            match event_index(event.as_str()) {
                Some(b) => {
                    self.samples[b].push(value);
                },
                None => {},
            }
            proof {
                assert forall|k: int| 0 <= k < 4 implies (#[trigger] self.samples@[k])@ == start[k]@
                    + bucket(pv.take(i + 1), k as usize) by {
                    assert(start[k]@ + bucket(pv.take(i as int), k as usize).push(value) =~= (
                    start[k]@ + bucket(pv.take(i as int), k as usize)).push(value));
                }
            }
            i += 1;
        }
        assert(pv.take(parsed.len() as int) =~= pv);
    }
}

} // verus!
