//! Architectural interrupts and the in-memory interrupt descriptor format.

use vstd::prelude::*;
use crate::word::le64;

verus! {

/// An architectural interrupt: a value-level result of decoding, address
/// translation or execution. It propagates to the executor's step boundary,
/// where the interrupt engine consumes it; it never unwinds further.
#[derive(Clone, Copy, Debug, PartialEq, Eq, Structural)]
pub enum Interrupt {
    /// General protection. Unlike x86 this carries no error code, since
    /// segments do not exist in this machine.
    GeneralProtection,
    /// Page fault, as on x86: the error code and the faulting virtual
    /// address (which the executor latches into `CR2`).
    PageFault { error_code: u32, cr2: u64 },
    /// Undefined opcode.
    Undefined,
    /// A fault taken while entering an interrupt handler.
    DoubleFault,
    /// An external interrupt request with its vector.
    IRQ(u8),
}

/// A canonical virtual address has its high 17 bits all zero or all one.
pub open spec fn spec_is_cannonical(address: u64) -> bool {
    address >> 47 == 0 || address >> 47 == 0x1FFFF
}

/// Checks that a virtual address is canonical; a non-canonical address
/// surfaces general protection.
pub fn is_cannonical(address: u64) -> (r: Result<(), Interrupt>)
    ensures
        r == if spec_is_cannonical(address) {
            Result::<(), Interrupt>::Ok(())
        } else {
            Result::<(), Interrupt>::Err(Interrupt::GeneralProtection)
        },
{
    let shifted = address >> 47;
    if shifted == 0 || shifted == 0x1FFFF {
        Ok(())
    } else {
        Err(Interrupt::GeneralProtection)
    }
}

/// One entry of the interrupt descriptor table, as interpreted from its
/// 16-byte in-memory form: byte 0 bit 0 is the present flag, byte 1 bit 0
/// the disable-interrupt flag, byte 2 the required privilege level, and
/// bytes 8..16 the little-endian address of the service routine.
#[derive(Clone, Copy, Debug, PartialEq, Eq, Structural)]
pub struct InteruptDescriptorEntry {
    /// Marks the entry as present; a missing entry escalates to double fault.
    pub present: bool,
    /// Disable interrupts on entry (read by the environment, not by the core).
    pub disable_interrupt: bool,
    /// Required privilege level: entry from a less privileged level escalates
    /// to double fault.
    pub rpl: i8,
    /// The virtual address of the service routine.
    pub service_routine: u64,
}

impl InteruptDescriptorEntry {
    /// The entry encoded by 16 bytes of memory.
    pub open spec fn spec_parse(bytes: Seq<u8>) -> InteruptDescriptorEntry {
        InteruptDescriptorEntry {
            present: bytes[0] & 1 == 1,
            disable_interrupt: bytes[1] & 1 == 1,
            rpl: bytes[2] as i8,
            service_routine: le64(
                bytes[8], bytes[9], bytes[10], bytes[11],
                bytes[12], bytes[13], bytes[14], bytes[15],
            ),
        }
    }

    /// Interprets the 16-byte in-memory form of a descriptor entry.
    pub fn parse(bytes: &[u8]) -> (r: InteruptDescriptorEntry)
        requires
            bytes@.len() == 16,
        ensures
            r == Self::spec_parse(bytes@),
    {
        InteruptDescriptorEntry {
            present: bytes[0] & 1 == 1,
            disable_interrupt: bytes[1] & 1 == 1,
            rpl: bytes[2] as i8,
            service_routine: (bytes[8] as u64)
                | ((bytes[9] as u64) << 8)
                | ((bytes[10] as u64) << 16)
                | ((bytes[11] as u64) << 24)
                | ((bytes[12] as u64) << 32)
                | ((bytes[13] as u64) << 40)
                | ((bytes[14] as u64) << 48)
                | ((bytes[15] as u64) << 56),
        }
    }
}

} // verus!
