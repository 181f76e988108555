//! Assembling the results of one scan.
//!
//! Probing a port is network work and happens outside the core; it reports one
//! boolean per port, in port-list order. This module turns those outcomes, or
//! a failed resolution, into the ordered result sequence that the state holds.

use vstd::prelude::*;
use crate::ports::port_list;
use crate::ports::port_list_spec;

verus! {

/// The outcome of probing one port of the target.
#[derive(Debug, Clone)]
pub struct ScanResult {
    /// The target exactly as the user typed it, not the resolved address.
    pub address: String,
    /// The probed port.
    pub port: u16,
    /// Whether a TCP connection completed within the timeout. Refused, timed
    /// out and unreachable all count as closed.
    pub open: bool,
}

/// What the network side of a scan reports back: either resolution failed, or
/// every port in the fixed list was probed, giving one outcome per port in
/// port-list order.
#[derive(Debug, Clone)]
pub enum ScanOutcome {
    ResolutionFailed,
    Probed(Vec<bool>),
}

/// `results` is exactly the fixed port list mapped 1:1, in port-list order, to
/// the probe outcomes, every entry carrying the target as typed.
pub open spec fn results_match(target: Seq<char>, outcomes: Seq<bool>, results: Seq<ScanResult>) -> bool {
    &&& results.len() == port_list_spec().len()
    &&& outcomes.len() == port_list_spec().len()
    &&& forall|i: int| 0 <= i < results.len() ==> {
        &&& (#[trigger] results[i]).address@ == target
        &&& results[i].port == port_list_spec()[i]
        &&& results[i].open == outcomes[i]
    }
}

/// A scan that reached no port: when every probe outcome is closed, the
/// assembled results are exactly one per fixed port, in list order, every one
/// closed.
pub proof fn lemma_unreachable_all_closed(
    target: Seq<char>,
    outcomes: Seq<bool>,
    results: Seq<ScanResult>,
)
    requires
        results_match(target, outcomes, results),
        forall|i: int| 0 <= i < outcomes.len() ==> !(#[trigger] outcomes[i]),
    ensures
        results.len() == 13,
        forall|i: int| 0 <= i < results.len() ==> !(#[trigger] results[i]).open,
        forall|i: int| 0 <= i < results.len() ==> (#[trigger] results[i]).port
            == port_list_spec()[i],
{
}

/// Builds the result sequence for one completed scan of `target`: one entry
/// per port of the fixed list, in list order, whose `open` field is the
/// corresponding probe outcome.
pub fn scan_target(target: &String, outcomes: &Vec<bool>) -> (r: Vec<ScanResult>)
    requires
        outcomes@.len() == port_list_spec().len(),
    ensures
        results_match(target@, outcomes@, r@),
{
    let ports = port_list();
    let mut r: Vec<ScanResult> = Vec::new();
    let mut i: usize = 0;
    while i < ports.len()
        invariant
            ports@ == port_list_spec(),
            outcomes@.len() == port_list_spec().len(),
            i <= ports@.len(),
            r@.len() == i,
            forall|j: int| 0 <= j < i ==> {
                &&& (#[trigger] r@[j]).address@ == target@
                &&& r@[j].port == port_list_spec()[j]
                &&& r@[j].open == outcomes@[j]
            },
        decreases ports@.len() - i,
    {
        r.push(ScanResult { address: target.clone(), port: ports[i], open: outcomes[i] });
        i = i + 1;
    }
    r
}

} // verus!
