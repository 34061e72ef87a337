//! Core of a serprog programmer: a bridge between a host that speaks the
//! serprog line protocol over a serial link and an SPI flash chip.
//!
//! The crate holds the decisions of the firmware as plain state machines:
//! the command dispatcher ([`serprog`]), the worker that owns the SPI
//! hardware ([`spi`]), the coordinator that links the two
//! ([`coordinator`]) and the ring-buffered serial transport ([`uart`]).
//! Hardware access, waiting and scheduling are left to the caller, which
//! performs the actions these machines hand out.

use vstd::prelude::*;

pub mod coordinator;
pub mod serprog;
pub mod spi;
pub mod uart;

verus! {

/// Capacity in bytes of the buffer shared by the dispatcher and the SPI worker.
pub const SPI_BUF_LEN: usize = 16384;

/// Capacity in bytes of each direction of the serial transport.
pub const UART_BUF_LEN: usize = 16384;

} // verus!
