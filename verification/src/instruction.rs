//! Decoded instruction records and their operand forms.
//!
//! Each instruction variant carries a fixed tuple of operands: a register
//! number ([`Reg`]), an addressing form ([`RM`]) or a zero-extended
//! immediate ([`Immediate`]), exactly as the opcode table of the decoder
//! populates them.

use vstd::prelude::*;

verus! {

/// Which segment register, if any, a prefix selected for a memory operand.
/// Only FS and GS exist in this machine; other segment prefixes are ignored.
#[derive(Clone, Copy, Debug, PartialEq, Eq, Structural)]
pub enum SegmentOverride {
    NoOverride,
    Fs,
    Gs,
}

/// An addressing form out of the ModR/M and SIB bytes.
#[derive(Clone, Copy, Debug, PartialEq, Eq, Structural)]
pub enum RM {
    /// The operand is register `0..15` itself.
    Reg(u8),
    /// The effective address is `RIP + displacement`, where `RIP` is the
    /// next instruction's address (the pointer after advancing over this
    /// instruction); with the address override it is truncated to 16 bits.
    RipRel {
        displacement: u32,
        /// If set, the effective address is truncated.
        address_override: bool,
    },
    /// The effective address is `R[base] + (R[index] << scale) +
    /// displacement`; an index of 4 contributes zero, a base of `0xFF`
    /// contributes zero, and the address override truncates to 16 bits.
    Mem {
        index: u8,
        scale: u8,
        base: u8,
        displacement: u32,
        /// If set, the effective address is truncated.
        address_override: bool,
        /// Add the FS or GS base (recorded; unused by this machine's
        /// effective-address computation).
        segment_override: SegmentOverride,
    },
}

impl RM {
    /// Field ranges the decoder guarantees: register selectors fit the
    /// 16-lane register file (with 4 as the no-index and `0xFF` as the
    /// no-base sentinel) and the scale is two bits.
    pub open spec fn wf(&self) -> bool {
        match self {
            RM::Reg(r) => *r < 16,
            RM::RipRel { .. } => true,
            RM::Mem { index, scale, base, .. } => *index < 16 && *scale < 4 && (*base < 16 || *base
                == 0xFF),
        }
    }
}

/// A register number, `0..15`.
#[derive(Clone, Copy, Debug, PartialEq, Eq, Structural)]
pub struct Reg(pub u8);

impl Reg {
    pub open spec fn wf(&self) -> bool {
        self.0 < 16
    }
}

/// An immediate operand, zero-extended to 64 bits.
#[derive(Clone, Copy, Debug, PartialEq, Eq, Structural)]
pub struct Immediate(pub u64);

impl Immediate {
    /// Wraps an already zero-extended immediate value.
    pub fn parse(immediate: u64) -> (r: Immediate)
        ensures
            r == Immediate(immediate),
    {
        Immediate(immediate)
    }
}

/// A decoded instruction. `operand0` and `operand1` follow the opcode
/// table's operand encodings; immediates are zero-extended to 64 bits.
#[derive(Clone, Copy, Debug, PartialEq, Eq, Structural)]
pub enum Instruction {
    /// Read a byte from the immediate port into the low lane of register 0.
    In8 { operand0: Immediate },
    /// 16-bit port read (unsupported by the machine; fatal to execute).
    In16 { operand0: Immediate },
    /// 32-bit port read (unsupported by the machine; fatal to execute).
    In32 { operand0: Immediate },
    /// Read a byte from the port in register 2 into register 0.
    In8D {},
    /// 16-bit port read from register 2 (unsupported; fatal to execute).
    In16D {},
    /// 32-bit port read from register 2 (unsupported; fatal to execute).
    In32D {},
    /// Wrapping-increment the 8-bit operand.
    IncRM8 { operand0: RM },
    /// Wrapping-increment the 16-bit operand.
    IncRM16 { operand0: RM },
    /// Wrapping-increment the 32-bit operand.
    IncRM32 { operand0: RM },
    /// Wrapping-increment the 64-bit operand.
    IncRM64 { operand0: RM },
    /// Return from an interrupt: pop `RIP`, `RFLAGS`, `RSP` and the
    /// privilege level from the interrupt frame.
    Iret {},
    /// Jump by a sign-extended 8-bit relative.
    JmpRel8 { operand0: Immediate },
    /// Jump by a sign-extended 32-bit relative.
    JmpRel32 { operand0: Immediate },
    /// Move an 8-bit immediate into a register's low lane.
    MovReg8Imm { operand0: Reg, operand1: Immediate },
    /// Move a 16-bit immediate into a register's low lanes.
    MovReg16Imm { operand0: Reg, operand1: Immediate },
    /// Move a 32-bit immediate into a register, zero-extended.
    MovReg32Imm { operand0: Reg, operand1: Immediate },
    /// Move a 64-bit immediate into a register.
    MovReg64Imm { operand0: Reg, operand1: Immediate },
    /// Move the 8-bit operand into a register's low lane.
    MovReg8RM { operand0: Reg, operand1: RM },
    /// Move the 16-bit operand into a register's low lanes.
    MovReg16RM { operand0: Reg, operand1: RM },
    /// Move the 32-bit operand into a register, zero-extended.
    MovReg32RM { operand0: Reg, operand1: RM },
    /// Move the 64-bit operand into a register.
    MovReg64RM { operand0: Reg, operand1: RM },
    /// Store a register's low 8 bits into the operand.
    MovRM8Reg { operand0: RM, operand1: Reg },
    /// Store a register's low 16 bits into the operand.
    MovRM16Reg { operand0: RM, operand1: Reg },
    /// Store a register's low 32 bits into the operand.
    MovRM32Reg { operand0: RM, operand1: Reg },
    /// Store a register into the operand.
    MovRM64Reg { operand0: RM, operand1: Reg },
    /// Write the low byte of register 0 to the immediate port.
    Out8 { operand0: Immediate },
    /// 16-bit port write (unsupported by the machine; fatal to execute).
    Out16 { operand0: Immediate },
    /// Write the low 32 bits of register 0 across four consecutive ports.
    Out32 { operand0: Immediate },
    /// Load the page-table root from the 64-bit operand.
    Swi4 { operand0: RM },
    /// Write the 64-bit operand to the configuration register named by the
    /// immediate: an effect the executor surfaces to its caller to log.
    Wrcr { operand0: Immediate, operand1: RM },
}

impl Instruction {
    /// What the decoder guarantees of every instruction it yields: operand
    /// registers select one of the 16 lanes and each immediate fits the
    /// byte count its encoding reads.
    pub open spec fn wf(&self) -> bool {
        match self {
            Instruction::In8 { operand0 } => operand0.0 < 0x100,
            Instruction::In16 { operand0 } => operand0.0 < 0x100,
            Instruction::In32 { operand0 } => operand0.0 < 0x100,
            Instruction::In8D {} => true,
            Instruction::In16D {} => true,
            Instruction::In32D {} => true,
            Instruction::IncRM8 { operand0 } => operand0.wf(),
            Instruction::IncRM16 { operand0 } => operand0.wf(),
            Instruction::IncRM32 { operand0 } => operand0.wf(),
            Instruction::IncRM64 { operand0 } => operand0.wf(),
            Instruction::Iret {} => true,
            Instruction::JmpRel8 { operand0 } => operand0.0 < 0x100,
            Instruction::JmpRel32 { operand0 } => operand0.0 < 0x1_0000_0000,
            Instruction::MovReg8Imm { operand0, operand1 } => operand0.wf() && operand1.0 < 0x100,
            Instruction::MovReg16Imm { operand0, operand1 } => operand0.wf() && operand1.0
                < 0x1_0000,
            Instruction::MovReg32Imm { operand0, operand1 } => operand0.wf() && operand1.0
                < 0x1_0000_0000,
            Instruction::MovReg64Imm { operand0, operand1: _ } => operand0.wf(),
            Instruction::MovReg8RM { operand0, operand1 } => operand0.wf() && operand1.wf(),
            Instruction::MovReg16RM { operand0, operand1 } => operand0.wf() && operand1.wf(),
            Instruction::MovReg32RM { operand0, operand1 } => operand0.wf() && operand1.wf(),
            Instruction::MovReg64RM { operand0, operand1 } => operand0.wf() && operand1.wf(),
            Instruction::MovRM8Reg { operand0, operand1 } => operand0.wf() && operand1.wf(),
            Instruction::MovRM16Reg { operand0, operand1 } => operand0.wf() && operand1.wf(),
            Instruction::MovRM32Reg { operand0, operand1 } => operand0.wf() && operand1.wf(),
            Instruction::MovRM64Reg { operand0, operand1 } => operand0.wf() && operand1.wf(),
            Instruction::Out8 { operand0 } => operand0.0 < 0x100,
            Instruction::Out16 { operand0 } => operand0.0 < 0x100,
            Instruction::Out32 { operand0 } => operand0.0 < 0x100,
            Instruction::Swi4 { operand0 } => operand0.wf(),
            Instruction::Wrcr { operand0, operand1 } => operand0.0 < 0x100 && operand1.wf(),
        }
    }
}

} // verus!
