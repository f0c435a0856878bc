//! A 64-bit x86-like processor simulator: a fetch-decode-execute loop over a
//! flat virtual address space with 4-level page translation, port I/O,
//! privilege levels and a hardware interrupt protocol.
//!
//! The crate is organised as the machine is:
//! - [`memory`]: the physical memory bus (RAM/ROM banks behind address
//!   ranges) and the virtual-memory unit that walks page tables over it;
//! - [`instruction`]: the decoded instruction records and their operands;
//! - [`decode`]: the variable-length instruction decoder;
//! - [`device`]: the port bus and the `Device` contract for peripherals;
//! - [`state`]: the register file, the execution engine and the interrupt
//!   entry/exit protocol;
//! - [`interupt`]: the architectural interrupt values those layers surface.
//!
//! Every operation is specified against a mathematical view of the machine:
//! memory is a total map from physical address to byte, and each public
//! function's contract pins down the bytes read, the bytes written and the
//! interrupt surfaced, for every input.

pub mod decode;
pub mod device;
pub mod instruction;
pub mod interupt;
pub mod memory;
pub mod state;
pub mod word;
