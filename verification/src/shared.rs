//! Vocabulary shared by the two cores' state machines.
//!
//! Each machine names one action at a time: an access to a variable that both
//! cores see, or a piece of outside work. Whoever drives the machine performs
//! the action and hands its result back as a [`Reply`].
use vstd::prelude::*;

verus! {

/// Stage that core 1 reports once it has reached its steady-state loop.
pub const STAGE_RUNNING: u32 = 3;

/// Fingerprint with which both cores meet at the one-time synchronisation.
pub const HANDSHAKE_FINGERPRINT: u32 = 0;

/// How a core runs one round of its kernel.
#[derive(Clone, Copy, PartialEq, Eq, Debug)]
pub struct KernelRound {
    /// Return at once when there is nothing to do, in place of sleeping until an
    /// interrupt.
    pub no_sleep: bool,
    /// Hand the kernel the inter-process communication driver.
    pub with_ipc: bool,
}

/// The result of an action.
#[derive(Clone, Copy, PartialEq, Eq, Debug)]
pub enum Reply {
    /// The action has no result.
    Done,
    /// The flag that was read, or whether there was something to take.
    Flag(bool),
    /// The counter that was read.
    Word(u32),
    /// The byte that was read.
    Byte(u8),
}

} // verus!
