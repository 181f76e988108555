//! The fixed list of well-known ports that every scan probes, in the order in
//! which they are probed and displayed.

use vstd::prelude::*;

verus! {

/// How many ports a full scan probes.
pub const NUM_PORTS: usize = 13;

/// The fixed port list, as a mathematical sequence. Both the scan order and
/// the display order follow this sequence.
pub open spec fn port_list_spec() -> Seq<u16> {
    seq![21u16, 22u16, 23u16, 25u16, 53u16, 80u16, 110u16, 143u16, 443u16, 3000u16, 5000u16, 8000u16, 8080u16]
}

/// The fixed port list as a vector, freshly allocated; its contents are always
/// exactly `port_list_spec()`.
pub fn port_list() -> (r: Vec<u16>)
    ensures
        r@ == port_list_spec(),
{
    let r: Vec<u16> = vec![21, 22, 23, 25, 53, 80, 110, 143, 443, 3000, 5000, 8000, 8080];
    proof {
        assert(r@ =~= port_list_spec());
    }
    r
}

/// The port list has one entry per probed port.
pub proof fn lemma_port_list_len()
    ensures
        port_list_spec().len() == NUM_PORTS,
{
}

} // verus!
