//! Decision logic of a dual-core lockstep board.
//!
//! Two cores run the same kernel side by side. This crate holds what that takes
//! beyond the kernel itself: resolving and sequencing the boot-ROM routines that
//! write flash ([`rom`], [`flash`]), parking core 1 in RAM while flash is off
//! ([`core1`], [`checks`]), start-up order, clocks, drivers and pins of the board
//! ([`boot`], [`clocks`], [`board`]), and replaying random numbers from one hart
//! to the other ([`rng`]). [`nor`] and [`system`] state what these do to a flash
//! chip and what the two cores guarantee together.
//!
//! Nothing here touches hardware. Functions take what was read and return what
//! to do.
pub mod board;
pub mod boot;
pub mod bytes;
pub mod checks;
pub mod clocks;
pub mod core1;
pub mod flash;
pub mod nor;
pub mod rng;
pub mod rom;
pub mod shared;
pub mod system;
