use vstd::prelude::*;

pub mod text;
pub mod allowlist;
pub mod risk;
pub mod gates;
pub mod ledger;
pub mod verdict;
pub mod orchestrate;
pub mod schedule;
pub mod exec;
pub mod rng;
pub mod counters;
pub mod explain;
pub mod pin;
pub mod target;
pub mod fingerprint;
pub mod daemon;
pub mod policy;
pub mod service;
pub mod ranking;

verus! {

} // verus!
