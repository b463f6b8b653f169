//! What the engine asks its surroundings to carry out: writes to the physical
//! distributor and messages to other cores. The engine appends to a log; the
//! caller performs the entries in order.

use vstd::prelude::*;
use crate::ipi::IpiInitcMessage;

verus! {

/// One request to the world outside the engine.
#[derive(Clone, Copy, Debug, PartialEq, Eq, Structural)]
pub enum Effect {
    /// Enable or disable the interrupt in the physical distributor.
    GicdSetEnable { int_id: usize, en: bool },
    /// Set the pending and active state of the interrupt in the physical
    /// distributor.
    GicdSetState { int_id: usize, state: usize },
    /// Bring the interrupt to `state` in the physical distributor unless it is
    /// in that state already.
    GicdEnsureState { int_id: usize, state: usize },
    /// Set the trigger configuration in the physical distributor.
    GicdSetIcfgr { int_id: usize, cfg: u8 },
    /// Set the priority in the physical distributor.
    GicdSetPriority { int_id: usize, prio: u8 },
    /// Set the CPU targets in the physical distributor.
    GicdSetTrgt { int_id: usize, trgt: u8 },
    /// Set or clear the active state in the physical distributor.
    GicdSetAct { int_id: usize, act: bool },
    /// Send `msg` to the physical core `target`.
    IpiSend { target: usize, msg: IpiInitcMessage },
    /// Send `msg` to every core that runs a virtual CPU of machine `vm_id`.
    IpiBroadcast { vm_id: usize, msg: IpiInitcMessage },
}

} // verus!
