//! An interactive host port scanner, split into a verified core and a thin
//! terminal shell.
//!
//! The core holds the logic: cleaning a user-typed target, recognising IP
//! literals, assembling scan results in the fixed port order, and the key-event
//! state machine that drives editing, scanning and result browsing. Network
//! probing, DNS lookups and drawing live outside the core and only feed plain
//! values into it.

pub mod ports;
pub mod resolve;
pub mod scan;
pub mod state;

use vstd::prelude::*;

verus! {

} // verus!
