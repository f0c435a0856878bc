//! The instruction decoder: a variable-length parser from the byte stream at
//! the instruction pointer to an [`Instruction`] and a byte count.
//!
//! Decoding reads through the virtual-memory unit byte by byte — a fault in
//! the middle of an instruction surfaces at that moment, with no
//! prefetching — and is otherwise pure: the whole decoder is specified as a
//! function of the memory view and the instruction pointer.
//!
//! The shape follows the wire format: legacy prefixes are absorbed first
//! (idempotently; a REX prefix not immediately followed by the opcode is
//! discarded), then the opcode byte dispatches, reading a ModR/M byte, a SIB
//! byte, a displacement and an immediate as its table entry demands. An
//! instruction longer than 15 bytes is refused as undefined, so decoding
//! always terminates.

use vstd::prelude::*;

use crate::instruction::{Immediate, Instruction, Reg, RM, SegmentOverride};
use crate::interupt::Interrupt;
use crate::memory::{lemma_translate_fault_shape, mmu_read8, MemoryManagementUnit, MmuView};
use crate::word::{le16, le32, le64, wadd};

verus! {

/// The lock/repeat prefix class; recorded during prefix absorption, unused
/// by the instructions this machine implements.
#[derive(Clone, Copy, Debug, PartialEq, Eq, Structural)]
pub enum LockRep {
    Lock,
    Rep,
    Repe,
    Repne,
}

/// The four REX bits: W widens the operand, R, X and B extend the ModR/M
/// `reg`, SIB `index` and `base`/`rm` fields to 4 bits.
#[derive(Clone, Copy, Debug, PartialEq, Eq, Structural)]
pub struct Rex {
    pub w: bool,
    pub r: bool,
    pub x: bool,
    pub b: bool,
}

/// The REX record a prefix byte `0x40..0x4F` decodes to.
pub open spec fn spec_rex_of(byte: u8) -> Rex {
    Rex {
        w: (byte >> 3) & 1 == 1,
        r: (byte >> 2) & 1 == 1,
        x: (byte >> 1) & 1 == 1,
        b: byte & 1 == 1,
    }
}

impl Rex {
    /// Bit-decodes a REX prefix byte.
    fn new(byte: u8) -> (r: Rex)
        ensures
            r == spec_rex_of(byte),
    {
        Rex {
            w: (byte >> 3) & 1 == 1,
            r: (byte >> 2) & 1 == 1,
            x: (byte >> 1) & 1 == 1,
            b: byte & 1 == 1,
        }
    }
}

pub open spec fn spec_rex_w(rex: Option<Rex>) -> bool {
    match rex {
        Some(rex) => rex.w,
        None => false,
    }
}

pub open spec fn spec_rex_r(rex: Option<Rex>) -> bool {
    match rex {
        Some(rex) => rex.r,
        None => false,
    }
}

pub open spec fn spec_rex_x(rex: Option<Rex>) -> bool {
    match rex {
        Some(rex) => rex.x,
        None => false,
    }
}

pub open spec fn spec_rex_b(rex: Option<Rex>) -> bool {
    match rex {
        Some(rex) => rex.b,
        None => false,
    }
}

fn rex_w(rex: Option<Rex>) -> (r: bool)
    ensures
        r == spec_rex_w(rex),
{
    match rex {
        Some(rex) => rex.w,
        None => false,
    }
}

fn rex_r(rex: Option<Rex>) -> (r: bool)
    ensures
        r == spec_rex_r(rex),
{
    match rex {
        Some(rex) => rex.r,
        None => false,
    }
}

fn rex_x(rex: Option<Rex>) -> (r: bool)
    ensures
        r == spec_rex_x(rex),
{
    match rex {
        Some(rex) => rex.x,
        None => false,
    }
}

fn rex_b(rex: Option<Rex>) -> (r: bool)
    ensures
        r == spec_rex_b(rex),
{
    match rex {
        Some(rex) => rex.b,
        None => false,
    }
}

impl Reg {
    /// The register a suffix-encoded opcode byte selects: its low three
    /// bits, extended by REX.B.
    fn parse_suffix(opcode: u8, rex: Option<Rex>) -> (r: Reg)
        ensures
            r == spec_parse_suffix(opcode, rex),
            r.wf(),
    {
        let r = Reg(((rex_b(rex) as u8) << 3) | (opcode & 0x07));
        proof {
            lemma_field_extend_bounds(opcode, spec_rex_b(rex) as u8);
        }
        r
    }
}

/// The register a suffix-encoded opcode byte selects.
pub open spec fn spec_parse_suffix(opcode: u8, rex: Option<Rex>) -> Reg {
    Reg(((spec_rex_b(rex) as u8) << 3) | (opcode & 0x07))
}

/// Bounds of the 4-bit fields built from a ModR/M or SIB byte and a REX
/// extension bit.
proof fn lemma_field_extend_bounds(m: u8, x: u8)
    by (bit_vector)
    requires
        x == 0 || x == 1,
    ensures
        ((x << 3) | (m & 0x07)) < 16,
        ((x << 3) | ((m >> 3) & 0x07)) < 16,
        ((m >> 6) & 3) < 4,
        m >> 6 <= 3,
{
}

/// The prefix state accumulated before the opcode byte.
#[derive(Clone, Copy, Debug, PartialEq, Eq, Structural)]
pub struct DecodeContext {
    /// A `0x66` prefix was seen: select the operand-size-override variant.
    pub size_override: bool,
    /// A `0x67` prefix was seen: truncate effective addresses to 16 bits.
    pub address_override: bool,
    /// The last lock/repeat prefix seen.
    pub lock_rep: Option<LockRep>,
    /// The last FS/GS segment prefix seen.
    pub segment_override: SegmentOverride,
    /// A REX prefix, kept only when it immediately precedes the opcode.
    pub rex: Option<Rex>,
}

/// The context before any prefix byte.
pub open spec fn initial_context() -> DecodeContext {
    DecodeContext {
        size_override: false,
        address_override: false,
        lock_rep: None,
        segment_override: SegmentOverride::NoOverride,
        rex: None,
    }
}

/// Whether a byte is a legacy or REX prefix rather than an opcode.
pub open spec fn is_prefix_byte(b: u8) -> bool {
    ||| b == 0x26
    ||| b == 0x2E
    ||| b == 0x36
    ||| b == 0x3E
    ||| b == 0x64
    ||| b == 0x65
    ||| b == 0x66
    ||| b == 0x67
    ||| b == 0xF0
    ||| b == 0xF2
    ||| b == 0xF3
    ||| (0x40 <= b && b < 0x50)
}

/// How one prefix byte updates the context. Every non-REX prefix discards a
/// pending REX, since a REX counts only immediately before the opcode.
pub open spec fn apply_prefix(ctx: DecodeContext, b: u8) -> DecodeContext {
    if b == 0x64 {
        DecodeContext { segment_override: SegmentOverride::Fs, rex: None, ..ctx }
    } else if b == 0x65 {
        DecodeContext { segment_override: SegmentOverride::Gs, rex: None, ..ctx }
    } else if b == 0x66 {
        DecodeContext { size_override: true, rex: None, ..ctx }
    } else if b == 0x67 {
        DecodeContext { address_override: true, rex: None, ..ctx }
    } else if b == 0xF0 {
        DecodeContext { lock_rep: Some(LockRep::Lock), rex: None, ..ctx }
    } else if b == 0xF2 {
        DecodeContext { lock_rep: Some(LockRep::Repne), rex: None, ..ctx }
    } else if b == 0xF3 {
        DecodeContext { lock_rep: Some(LockRep::Repe), rex: None, ..ctx }
    } else if 0x40 <= b && b < 0x50 {
        DecodeContext { rex: Some(spec_rex_of(b)), ..ctx }
    } else {
        // 0x26, 0x2E, 0x36, 0x3E: segment overrides this machine ignores.
        DecodeContext { rex: None, ..ctx }
    }
}

/// The byte at offset `consumed` of the instruction, read through the
/// virtual-memory unit; an instruction past 15 bytes is undefined.
pub open spec fn spec_fetch(v: MmuView, ip: u64, consumed: u64) -> Result<u8, Interrupt> {
    if consumed >= 15 {
        Err(Interrupt::Undefined)
    } else {
        mmu_read8(v, wadd(ip, consumed))
    }
}

/// Reads the next instruction byte and advances the count.
fn fetch_next(mmu: &MemoryManagementUnit, size: &mut u64, instruction_pointer: u64) -> (r: Result<
    u8,
    Interrupt,
>)
    requires
        mmu.wf(),
    ensures
        match spec_fetch(mmu@, instruction_pointer, *old(size)) {
            Ok(b) => r == Ok::<u8, Interrupt>(b) && *old(size) < 15 && *final(size) == *old(size)
                + 1,
            Err(e) => r == Err::<u8, Interrupt>(e) && *final(size) == *old(size),
        },
{
    if *size >= 15 {
        return Err(Interrupt::Undefined);
    }
    let b = match mmu.read_u8(instruction_pointer.wrapping_add(*size)) {
        Ok(b) => b,
        Err(e) => {
            return Err(e);
        }
    };
    *size = size.wrapping_add(1);
    Ok(b)
}

/// An immediate of `nbytes` bytes read little-endian at offset `c`,
/// zero-extended to 64 bits, with the offset after it.
pub open spec fn spec_read_imm(v: MmuView, ip: u64, c: u64, nbytes: u8) -> Result<
    (u64, u64),
    Interrupt,
> {
    if nbytes == 0 {
        Ok((0, c))
    } else if nbytes == 1 {
        match spec_fetch(v, ip, c) {
            Err(e) => Err(e),
            Ok(b0) => Ok((b0 as u64, wadd(c, 1))),
        }
    } else if nbytes == 2 {
        match spec_fetch(v, ip, c) {
            Err(e) => Err(e),
            Ok(b0) => match spec_fetch(v, ip, wadd(c, 1)) {
                Err(e) => Err(e),
                Ok(b1) => Ok((le16(b0, b1) as u64, wadd(c, 2))),
            },
        }
    } else if nbytes == 4 {
        match spec_read_disp32(v, ip, c) {
            Err(e) => Err(e),
            Ok((d, c4)) => Ok((d as u64, c4)),
        }
    } else if nbytes == 8 {
        match spec_read_disp32(v, ip, c) {
            Err(e) => Err(e),
            Ok((lo, c4)) => match spec_read_disp32(v, ip, c4) {
                Err(e) => Err(e),
                Ok((hi, c8)) => Ok(((lo as u64) | ((hi as u64) << 32), c8)),
            },
        }
    } else {
        Ok((0, c))
    }
}

/// A 32-bit little-endian displacement at offset `c`, with the offset
/// after it.
pub open spec fn spec_read_disp32(v: MmuView, ip: u64, c: u64) -> Result<(u32, u64), Interrupt> {
    match spec_fetch(v, ip, c) {
        Err(e) => Err(e),
        Ok(b0) => match spec_fetch(v, ip, wadd(c, 1)) {
            Err(e) => Err(e),
            Ok(b1) => match spec_fetch(v, ip, wadd(c, 2)) {
                Err(e) => Err(e),
                Ok(b2) => match spec_fetch(v, ip, wadd(c, 3)) {
                    Err(e) => Err(e),
                    Ok(b3) => Ok((le32(b0, b1, b2, b3), wadd(c, 4))),
                },
            },
        },
    }
}

fn read_disp32(mmu: &MemoryManagementUnit, size: &mut u64, instruction_pointer: u64) -> (r: Result<
    u32,
    Interrupt,
>)
    requires
        mmu.wf(),
    ensures
        match spec_read_disp32(mmu@, instruction_pointer, *old(size)) {
            Ok((d, c)) => r == Ok::<u32, Interrupt>(d) && *final(size) == c && c == *old(size) + 4
                && c <= 15,
            Err(e) => r == Err::<u32, Interrupt>(e),
        },
{
    let b0 = match fetch_next(mmu, size, instruction_pointer) {
        Ok(b) => b,
        Err(e) => {
            return Err(e);
        }
    };
    let b1 = match fetch_next(mmu, size, instruction_pointer) {
        Ok(b) => b,
        Err(e) => {
            return Err(e);
        }
    };
    let b2 = match fetch_next(mmu, size, instruction_pointer) {
        Ok(b) => b,
        Err(e) => {
            return Err(e);
        }
    };
    let b3 = match fetch_next(mmu, size, instruction_pointer) {
        Ok(b) => b,
        Err(e) => {
            return Err(e);
        }
    };
    Ok((b0 as u32) | ((b1 as u32) << 8) | ((b2 as u32) << 16) | ((b3 as u32) << 24))
}

/// Reads an `nbytes`-byte little-endian immediate, zero-extended to 64
/// bits. Immediates are 0, 1, 2, 4 or 8 bytes wide.
fn read_immediate(
    mmu: &MemoryManagementUnit,
    size: &mut u64,
    instruction_pointer: u64,
    nbytes: u8,
) -> (r: Result<u64, Interrupt>)
    requires
        mmu.wf(),
        nbytes == 0 || nbytes == 1 || nbytes == 2 || nbytes == 4 || nbytes == 8,
    ensures
        match spec_read_imm(mmu@, instruction_pointer, *old(size), nbytes) {
            Ok((val, c)) => r == Ok::<u64, Interrupt>(val) && *final(size) == c && c == *old(
                size,
            ) + nbytes && (nbytes > 0 ==> c <= 15) && (nbytes == 1 ==> val < 0x100) && (nbytes == 2
                ==> val < 0x1_0000) && (nbytes == 4 ==> val < 0x1_0000_0000) && (nbytes == 0
                ==> val == 0),
            Err(e) => r == Err::<u64, Interrupt>(e),
        },
{
    if nbytes == 0 {
        return Ok(0);
    }
    if nbytes == 1 {
        let b0 = match fetch_next(mmu, size, instruction_pointer) {
            Ok(b) => b,
            Err(e) => {
                return Err(e);
            }
        };
        return Ok(b0 as u64);
    }
    if nbytes == 2 {
        let b0 = match fetch_next(mmu, size, instruction_pointer) {
            Ok(b) => b,
            Err(e) => {
                return Err(e);
            }
        };
        let b1 = match fetch_next(mmu, size, instruction_pointer) {
            Ok(b) => b,
            Err(e) => {
                return Err(e);
            }
        };
        return Ok(((b0 as u16) | ((b1 as u16) << 8)) as u64);
    }
    if nbytes == 4 {
        let d = match read_disp32(mmu, size, instruction_pointer) {
            Ok(d) => d,
            Err(e) => {
                return Err(e);
            }
        };
        return Ok(d as u64);
    }
    let lo = match read_disp32(mmu, size, instruction_pointer) {
        Ok(d) => d,
        Err(e) => {
            return Err(e);
        }
    };
    let hi = match read_disp32(mmu, size, instruction_pointer) {
        Ok(d) => d,
        Err(e) => {
            return Err(e);
        }
    };
    Ok((lo as u64) | ((hi as u64) << 32))
}

/// The memory operand a SIB byte denotes, with its REX extensions.
pub open spec fn spec_parse_sib(
    byte: u8,
    address_override: bool,
    segment_override: SegmentOverride,
    displacement: u32,
    rex: Option<Rex>,
) -> RM {
    RM::Mem {
        index: ((spec_rex_x(rex) as u8) << 3) | ((byte >> 3) & 7),
        scale: (byte >> 6) & 3,
        base: ((spec_rex_b(rex) as u8) << 3) | (byte & 7),
        displacement,
        address_override,
        segment_override,
    }
}

/// The memory operand of a SIB byte whose base is absent (base field 5
/// under mod 00): the base contributes zero.
pub open spec fn spec_parse_sib_no_base(
    byte: u8,
    address_override: bool,
    segment_override: SegmentOverride,
    displacement: u32,
    rex: Option<Rex>,
) -> RM {
    RM::Mem {
        index: ((spec_rex_x(rex) as u8) << 3) | ((byte >> 3) & 7),
        scale: (byte >> 6) & 3,
        base: 0xFF,
        displacement,
        address_override,
        segment_override,
    }
}

fn parse_sib(
    byte: u8,
    address_override: bool,
    segment_override: SegmentOverride,
    displacement: u32,
    rex: Option<Rex>,
) -> (r: RM)
    ensures
        r == spec_parse_sib(byte, address_override, segment_override, displacement, rex),
        r.wf(),
{
    let scale = (byte >> 6) & 3;
    let index = ((rex_x(rex) as u8) << 3) | ((byte >> 3) & 7);
    let base = ((rex_b(rex) as u8) << 3) | (byte & 7);
    proof {
        lemma_field_extend_bounds(byte, spec_rex_x(rex) as u8);
        lemma_field_extend_bounds(byte, spec_rex_b(rex) as u8);
    }
    RM::Mem { index, scale, base, displacement, address_override, segment_override }
}

fn parse_sib_no_base(
    byte: u8,
    address_override: bool,
    segment_override: SegmentOverride,
    displacement: u32,
    rex: Option<Rex>,
) -> (r: RM)
    ensures
        r == spec_parse_sib_no_base(byte, address_override, segment_override, displacement, rex),
        r.wf(),
{
    let scale = (byte >> 6) & 3;
    let index = ((rex_x(rex) as u8) << 3) | ((byte >> 3) & 7);
    proof {
        lemma_field_extend_bounds(byte, spec_rex_x(rex) as u8);
    }
    RM::Mem {
        index,
        scale,
        base: 0xFF,
        displacement,
        address_override,
        segment_override,
    }
}

/// The ModR/M parse at offset `c`: the 4-bit `reg` field and the addressing
/// form, including any SIB byte and displacement, with the offset after
/// them.
pub open spec fn spec_read_modrm(
    v: MmuView,
    ip: u64,
    c: u64,
    address_override: bool,
    segment_override: SegmentOverride,
    rex: Option<Rex>,
) -> Result<(u8, RM, u64), Interrupt> {
    match spec_fetch(v, ip, c) {
        Err(e) => Err(e),
        Ok(m) => {
            let c1 = wadd(c, 1);
            let reg = ((spec_rex_r(rex) as u8) << 3) | ((m >> 3) & 0x7);
            let rm_field = m & 0x7;
            let md = m >> 6;
            if md == 0 {
                if rm_field == 4 {
                    match spec_fetch(v, ip, c1) {
                        Err(e) => Err(e),
                        Ok(sib) => {
                            let c2 = wadd(c1, 1);
                            if sib & 7 == 5 {
                                match spec_read_disp32(v, ip, c2) {
                                    Err(e) => Err(e),
                                    Ok((d, c3)) => Ok(
                                        (
                                            reg,
                                            spec_parse_sib_no_base(
                                                sib,
                                                address_override,
                                                segment_override,
                                                d,
                                                rex,
                                            ),
                                            c3,
                                        ),
                                    ),
                                }
                            } else {
                                Ok(
                                    (
                                        reg,
                                        spec_parse_sib(
                                            sib,
                                            address_override,
                                            segment_override,
                                            0,
                                            rex,
                                        ),
                                        c2,
                                    ),
                                )
                            }
                        }
                    }
                } else if rm_field == 5 {
                    match spec_read_disp32(v, ip, c1) {
                        Err(e) => Err(e),
                        Ok((d, c2)) => Ok(
                            (reg, RM::RipRel { displacement: d, address_override }, c2),
                        ),
                    }
                } else {
                    Ok(
                        (
                            reg,
                            RM::Mem {
                                index: 4,
                                scale: 0,
                                base: ((spec_rex_b(rex) as u8) << 3) | rm_field,
                                displacement: 0,
                                address_override,
                                segment_override,
                            },
                            c1,
                        ),
                    )
                }
            } else if md == 1 {
                if rm_field == 4 {
                    match spec_fetch(v, ip, c1) {
                        Err(e) => Err(e),
                        Ok(sib) => {
                            let c2 = wadd(c1, 1);
                            match spec_fetch(v, ip, c2) {
                                Err(e) => Err(e),
                                Ok(d) => Ok(
                                    (
                                        reg,
                                        spec_parse_sib(
                                            sib,
                                            address_override,
                                            segment_override,
                                            d as u32,
                                            rex,
                                        ),
                                        wadd(c2, 1),
                                    ),
                                ),
                            }
                        }
                    }
                } else {
                    match spec_fetch(v, ip, c1) {
                        Err(e) => Err(e),
                        Ok(d) => Ok(
                            (
                                reg,
                                RM::Mem {
                                    index: 4,
                                    scale: 0,
                                    base: ((spec_rex_b(rex) as u8) << 3) | rm_field,
                                    displacement: d as u32,
                                    address_override,
                                    segment_override,
                                },
                                wadd(c1, 1),
                            ),
                        ),
                    }
                }
            } else if md == 2 {
                if rm_field == 4 {
                    match spec_fetch(v, ip, c1) {
                        Err(e) => Err(e),
                        Ok(sib) => {
                            let c2 = wadd(c1, 1);
                            match spec_read_disp32(v, ip, c2) {
                                Err(e) => Err(e),
                                Ok((d, c3)) => Ok(
                                    (
                                        reg,
                                        spec_parse_sib(
                                            sib,
                                            address_override,
                                            segment_override,
                                            d,
                                            rex,
                                        ),
                                        c3,
                                    ),
                                ),
                            }
                        }
                    }
                } else {
                    match spec_read_disp32(v, ip, c1) {
                        Err(e) => Err(e),
                        Ok((d, c2)) => Ok(
                            (
                                reg,
                                RM::Mem {
                                    index: 4,
                                    scale: 0,
                                    base: ((spec_rex_b(rex) as u8) << 3) | rm_field,
                                    displacement: d,
                                    address_override,
                                    segment_override,
                                },
                                c2,
                            ),
                        ),
                    }
                }
            } else {
                Ok((reg, RM::Reg(((spec_rex_b(rex) as u8) << 3) | rm_field), c1))
            }
        }
    }
}

/// Parses the ModR/M byte (and any SIB byte and displacement) at the
/// current offset; yields the extended `reg` field and the addressing form.
fn read_modrm(
    mmu: &MemoryManagementUnit,
    size: &mut u64,
    instruction_pointer: u64,
    address_override: bool,
    segment_override: SegmentOverride,
    rex: Option<Rex>,
) -> (r: Result<(u8, RM), Interrupt>)
    requires
        mmu.wf(),
    ensures
        match spec_read_modrm(
            mmu@,
            instruction_pointer,
            *old(size),
            address_override,
            segment_override,
            rex,
        ) {
            Ok((reg, rm, c)) => r == Ok::<(u8, RM), Interrupt>((reg, rm)) && *final(size) == c
                && *old(size) < c <= 15 && reg < 16 && rm.wf(),
            Err(e) => r == Err::<(u8, RM), Interrupt>(e),
        },
{
    let modrm_byte = match fetch_next(mmu, size, instruction_pointer) {
        Ok(b) => b,
        Err(e) => {
            return Err(e);
        }
    };
    proof {
        lemma_field_extend_bounds(modrm_byte, spec_rex_r(rex) as u8);
        lemma_field_extend_bounds(modrm_byte, spec_rex_b(rex) as u8);
    }
    let reg = ((rex_r(rex) as u8) << 3) | ((modrm_byte >> 3) & 0x7);
    let rm_field = modrm_byte & 0x7;
    let md = modrm_byte >> 6;
    let rm: RM = if md == 0 {
        if rm_field == 4 {
            let sib_byte = match fetch_next(mmu, size, instruction_pointer) {
                Ok(b) => b,
                Err(e) => {
                    return Err(e);
                }
            };
            if sib_byte & 7 == 5 {
                let displacement = match read_disp32(mmu, size, instruction_pointer) {
                    Ok(d) => d,
                    Err(e) => {
                        return Err(e);
                    }
                };
                parse_sib_no_base(sib_byte, address_override, segment_override, displacement, rex)
            } else {
                parse_sib(sib_byte, address_override, segment_override, 0, rex)
            }
        } else if rm_field == 5 {
            let displacement = match read_disp32(mmu, size, instruction_pointer) {
                Ok(d) => d,
                Err(e) => {
                    return Err(e);
                }
            };
            RM::RipRel { displacement, address_override }
        } else {
            RM::Mem {
                index: 4,
                scale: 0,
                base: ((rex_b(rex) as u8) << 3) | rm_field,
                displacement: 0,
                address_override,
                segment_override,
            }
        }
    } else if md == 1 {
        if rm_field == 4 {
            let sib_byte = match fetch_next(mmu, size, instruction_pointer) {
                Ok(b) => b,
                Err(e) => {
                    return Err(e);
                }
            };
            let displacement = match fetch_next(mmu, size, instruction_pointer) {
                Ok(d) => d as u32,
                Err(e) => {
                    return Err(e);
                }
            };
            parse_sib(sib_byte, address_override, segment_override, displacement, rex)
        } else {
            let displacement = match fetch_next(mmu, size, instruction_pointer) {
                Ok(d) => d as u32,
                Err(e) => {
                    return Err(e);
                }
            };
            RM::Mem {
                index: 4,
                scale: 0,
                base: ((rex_b(rex) as u8) << 3) | rm_field,
                displacement,
                address_override,
                segment_override,
            }
        }
    } else if md == 2 {
        if rm_field == 4 {
            let sib_byte = match fetch_next(mmu, size, instruction_pointer) {
                Ok(b) => b,
                Err(e) => {
                    return Err(e);
                }
            };
            let displacement = match read_disp32(mmu, size, instruction_pointer) {
                Ok(d) => d,
                Err(e) => {
                    return Err(e);
                }
            };
            parse_sib(sib_byte, address_override, segment_override, displacement, rex)
        } else {
            let displacement = match read_disp32(mmu, size, instruction_pointer) {
                Ok(d) => d,
                Err(e) => {
                    return Err(e);
                }
            };
            RM::Mem {
                index: 4,
                scale: 0,
                base: ((rex_b(rex) as u8) << 3) | rm_field,
                displacement,
                address_override,
                segment_override,
            }
        }
    } else {
        RM::Reg(((rex_b(rex) as u8) << 3) | rm_field)
    };
    Ok((reg, rm))
}



/// The decode of one opcode byte `b` with prefix context `ctx`, starting at
/// offset `c` (just past the opcode): the two-level dispatch of the opcode
/// table, the operand reads it demands, and the REX.W / size-override
/// variant selection.
pub open spec fn spec_decode_op(v: MmuView, ip: u64, c: u64, ctx: DecodeContext, b: u8) -> Result<
    (Instruction, u64),
    Interrupt,
> {
    let so = ctx.size_override;
    let ao = ctx.address_override;
    let seg = ctx.segment_override;
    let rex = ctx.rex;
    if b == 0x3F {
        match spec_read_modrm(v, ip, c, ao, seg, rex) {
            Err(e) => Err(e),
            Ok((reg, rm, c1)) => if reg == 0 {
                match spec_read_imm(v, ip, c1, 1) {
                    Err(e) => Err(e),
                    Ok((imm, c2)) => Ok(
                        (Instruction::Wrcr { operand0: Immediate(imm), operand1: rm }, c2),
                    ),
                }
            } else if reg == 1 {
                Ok((Instruction::Swi4 { operand0: rm }, c1))
            } else {
                Err(Interrupt::Undefined)
            },
        }
    } else if b == 0x88 {
        match spec_read_modrm(v, ip, c, ao, seg, rex) {
            Err(e) => Err(e),
            Ok((reg, rm, c1)) => Ok(
                (Instruction::MovRM8Reg { operand0: rm, operand1: Reg(reg) }, c1),
            ),
        }
    } else if b == 0x89 {
        match spec_read_modrm(v, ip, c, ao, seg, rex) {
            Err(e) => Err(e),
            Ok((reg, rm, c1)) => if spec_rex_w(rex) {
                Ok((Instruction::MovRM64Reg { operand0: rm, operand1: Reg(reg) }, c1))
            } else if so {
                Ok((Instruction::MovRM16Reg { operand0: rm, operand1: Reg(reg) }, c1))
            } else {
                Ok((Instruction::MovRM32Reg { operand0: rm, operand1: Reg(reg) }, c1))
            },
        }
    } else if b == 0x8A {
        match spec_read_modrm(v, ip, c, ao, seg, rex) {
            Err(e) => Err(e),
            Ok((reg, rm, c1)) => Ok(
                (Instruction::MovReg8RM { operand0: Reg(reg), operand1: rm }, c1),
            ),
        }
    } else if b == 0x8B {
        match spec_read_modrm(v, ip, c, ao, seg, rex) {
            Err(e) => Err(e),
            Ok((reg, rm, c1)) => if spec_rex_w(rex) {
                Ok((Instruction::MovReg64RM { operand0: Reg(reg), operand1: rm }, c1))
            } else if so {
                Ok((Instruction::MovReg16RM { operand0: Reg(reg), operand1: rm }, c1))
            } else {
                Ok((Instruction::MovReg32RM { operand0: Reg(reg), operand1: rm }, c1))
            },
        }
    } else if 0xB0 <= b && b <= 0xB7 {
        match spec_read_imm(v, ip, c, 1) {
            Err(e) => Err(e),
            Ok((imm, c1)) => Ok(
                (
                    Instruction::MovReg8Imm {
                        operand0: spec_parse_suffix(b, rex),
                        operand1: Immediate(imm),
                    },
                    c1,
                ),
            ),
        }
    } else if 0xB8 <= b && b <= 0xBF {
        if spec_rex_w(rex) {
            match spec_read_imm(v, ip, c, 8) {
                Err(e) => Err(e),
                Ok((imm, c1)) => Ok(
                    (
                        Instruction::MovReg64Imm {
                            operand0: spec_parse_suffix(b, rex),
                            operand1: Immediate(imm),
                        },
                        c1,
                    ),
                ),
            }
        } else if so {
            match spec_read_imm(v, ip, c, 2) {
                Err(e) => Err(e),
                Ok((imm, c1)) => Ok(
                    (
                        Instruction::MovReg16Imm {
                            operand0: spec_parse_suffix(b, rex),
                            operand1: Immediate(imm),
                        },
                        c1,
                    ),
                ),
            }
        } else {
            match spec_read_imm(v, ip, c, 4) {
                Err(e) => Err(e),
                Ok((imm, c1)) => Ok(
                    (
                        Instruction::MovReg32Imm {
                            operand0: spec_parse_suffix(b, rex),
                            operand1: Immediate(imm),
                        },
                        c1,
                    ),
                ),
            }
        }
    } else if b == 0xCF {
        Ok((Instruction::Iret {}, c))
    } else if b == 0xE4 {
        match spec_read_imm(v, ip, c, 1) {
            Err(e) => Err(e),
            Ok((imm, c1)) => Ok((Instruction::In8 { operand0: Immediate(imm) }, c1)),
        }
    } else if b == 0xE5 {
        match spec_read_imm(v, ip, c, 1) {
            Err(e) => Err(e),
            Ok((imm, c1)) => if so {
                Ok((Instruction::In16 { operand0: Immediate(imm) }, c1))
            } else {
                Ok((Instruction::In32 { operand0: Immediate(imm) }, c1))
            },
        }
    } else if b == 0xE6 {
        match spec_read_imm(v, ip, c, 1) {
            Err(e) => Err(e),
            Ok((imm, c1)) => Ok((Instruction::Out8 { operand0: Immediate(imm) }, c1)),
        }
    } else if b == 0xE7 {
        match spec_read_imm(v, ip, c, 1) {
            Err(e) => Err(e),
            Ok((imm, c1)) => if so {
                Ok((Instruction::Out16 { operand0: Immediate(imm) }, c1))
            } else {
                Ok((Instruction::Out32 { operand0: Immediate(imm) }, c1))
            },
        }
    } else if b == 0xE9 {
        match spec_read_imm(v, ip, c, 4) {
            Err(e) => Err(e),
            Ok((imm, c1)) => Ok((Instruction::JmpRel32 { operand0: Immediate(imm) }, c1)),
        }
    } else if b == 0xEB {
        match spec_read_imm(v, ip, c, 1) {
            Err(e) => Err(e),
            Ok((imm, c1)) => Ok((Instruction::JmpRel8 { operand0: Immediate(imm) }, c1)),
        }
    } else if b == 0xEC {
        Ok((Instruction::In8D {}, c))
    } else if b == 0xED {
        if so {
            Ok((Instruction::In16D {}, c))
        } else {
            Ok((Instruction::In32D {}, c))
        }
    } else if b == 0xFE {
        match spec_read_modrm(v, ip, c, ao, seg, rex) {
            Err(e) => Err(e),
            Ok((reg, rm, c1)) => if reg == 0 {
                Ok((Instruction::IncRM8 { operand0: rm }, c1))
            } else {
                Err(Interrupt::Undefined)
            },
        }
    } else if b == 0xFF {
        match spec_read_modrm(v, ip, c, ao, seg, rex) {
            Err(e) => Err(e),
            Ok((reg, rm, c1)) => if reg == 0 {
                if spec_rex_w(rex) {
                    Ok((Instruction::IncRM64 { operand0: rm }, c1))
                } else if so {
                    Ok((Instruction::IncRM16 { operand0: rm }, c1))
                } else {
                    Ok((Instruction::IncRM32 { operand0: rm }, c1))
                }
            } else {
                Err(Interrupt::Undefined)
            },
        }
    } else {
        Err(Interrupt::Undefined)
    }
}

/// The prefix-absorption loop from offset `c`: prefix bytes update the
/// context until the first non-prefix byte dispatches as the opcode. The
/// 15-byte instruction limit bounds the loop.
pub open spec fn spec_decode_loop(v: MmuView, ip: u64, c: u64, ctx: DecodeContext) -> Result<
    (Instruction, u64),
    Interrupt,
>
    decreases 15 - c,
{
    if c >= 15 {
        Err(Interrupt::Undefined)
    } else {
        match mmu_read8(v, wadd(ip, c)) {
            Err(e) => Err(e),
            Ok(b) => {
                if is_prefix_byte(b) {
                    spec_decode_loop(v, ip, (c + 1) as u64, apply_prefix(ctx, b))
                } else {
                    spec_decode_op(v, ip, (c + 1) as u64, ctx, b)
                }
            }
        }
    }
}

/// What `decode` yields: a pure function of the memory view and the
/// instruction pointer.
pub open spec fn spec_decode(v: MmuView, ip: u64) -> Result<(Instruction, u64), Interrupt> {
    spec_decode_loop(v, ip, 0, initial_context())
}

/// Decodes the opcode byte `b` at offset `c` under prefix context `ctx`.
#[verifier::rlimit(100)]
#[verifier::spinoff_prover]
fn decode_op(
    mmu: &MemoryManagementUnit,
    instruction_pointer: u64,
    consumed: u64,
    ctx: DecodeContext,
    b: u8,
) -> (r: Result<(Instruction, u64), Interrupt>)
    requires
        mmu.wf(),
        consumed <= 15,
    ensures
        r == spec_decode_op(mmu@, instruction_pointer, consumed, ctx, b),
        r matches Ok(t) ==> t.0.wf() && consumed <= t.1 <= 15,
{
    let mut size = consumed;
    let address_override = ctx.address_override;
    let segment_override = ctx.segment_override;
    let size_override = ctx.size_override;
    let rex = ctx.rex;
    match b {
        0x3F => {
            let (reg, rm) = match read_modrm(
                mmu,
                &mut size,
                instruction_pointer,
                address_override,
                segment_override,
                rex,
            ) {
                Ok(t) => t,
                Err(e) => {
                    return Err(e);
                }
            };
            if reg == 0 {
                let imm = match read_immediate(mmu, &mut size, instruction_pointer, 1) {
                    Ok(x) => x,
                    Err(e) => {
                        return Err(e);
                    }
                };
                Ok((Instruction::Wrcr { operand0: Immediate::parse(imm), operand1: rm }, size))
            } else if reg == 1 {
                Ok((Instruction::Swi4 { operand0: rm }, size))
            } else {
                Err(Interrupt::Undefined)
            }
        }
        0x88 => {
            let (reg, rm) = match read_modrm(
                mmu,
                &mut size,
                instruction_pointer,
                address_override,
                segment_override,
                rex,
            ) {
                Ok(t) => t,
                Err(e) => {
                    return Err(e);
                }
            };
            Ok((Instruction::MovRM8Reg { operand0: rm, operand1: Reg(reg) }, size))
        }
        0x89 => {
            let (reg, rm) = match read_modrm(
                mmu,
                &mut size,
                instruction_pointer,
                address_override,
                segment_override,
                rex,
            ) {
                Ok(t) => t,
                Err(e) => {
                    return Err(e);
                }
            };
            if rex_w(rex) {
                Ok((Instruction::MovRM64Reg { operand0: rm, operand1: Reg(reg) }, size))
            } else if size_override {
                Ok((Instruction::MovRM16Reg { operand0: rm, operand1: Reg(reg) }, size))
            } else {
                Ok((Instruction::MovRM32Reg { operand0: rm, operand1: Reg(reg) }, size))
            }
        }
        0x8A => {
            let (reg, rm) = match read_modrm(
                mmu,
                &mut size,
                instruction_pointer,
                address_override,
                segment_override,
                rex,
            ) {
                Ok(t) => t,
                Err(e) => {
                    return Err(e);
                }
            };
            Ok((Instruction::MovReg8RM { operand0: Reg(reg), operand1: rm }, size))
        }
        0x8B => {
            let (reg, rm) = match read_modrm(
                mmu,
                &mut size,
                instruction_pointer,
                address_override,
                segment_override,
                rex,
            ) {
                Ok(t) => t,
                Err(e) => {
                    return Err(e);
                }
            };
            if rex_w(rex) {
                Ok((Instruction::MovReg64RM { operand0: Reg(reg), operand1: rm }, size))
            } else if size_override {
                Ok((Instruction::MovReg16RM { operand0: Reg(reg), operand1: rm }, size))
            } else {
                Ok((Instruction::MovReg32RM { operand0: Reg(reg), operand1: rm }, size))
            }
        }
        0xCF => Ok((Instruction::Iret {}, size)),
        0xE4 => {
            let imm = match read_immediate(mmu, &mut size, instruction_pointer, 1) {
                Ok(x) => x,
                Err(e) => {
                    return Err(e);
                }
            };
            Ok((Instruction::In8 { operand0: Immediate::parse(imm) }, size))
        }
        0xE5 => {
            let imm = match read_immediate(mmu, &mut size, instruction_pointer, 1) {
                Ok(x) => x,
                Err(e) => {
                    return Err(e);
                }
            };
            if size_override {
                Ok((Instruction::In16 { operand0: Immediate::parse(imm) }, size))
            } else {
                Ok((Instruction::In32 { operand0: Immediate::parse(imm) }, size))
            }
        }
        0xE6 => {
            let imm = match read_immediate(mmu, &mut size, instruction_pointer, 1) {
                Ok(x) => x,
                Err(e) => {
                    return Err(e);
                }
            };
            Ok((Instruction::Out8 { operand0: Immediate::parse(imm) }, size))
        }
        0xE7 => {
            let imm = match read_immediate(mmu, &mut size, instruction_pointer, 1) {
                Ok(x) => x,
                Err(e) => {
                    return Err(e);
                }
            };
            if size_override {
                Ok((Instruction::Out16 { operand0: Immediate::parse(imm) }, size))
            } else {
                Ok((Instruction::Out32 { operand0: Immediate::parse(imm) }, size))
            }
        }
        0xE9 => {
            let imm = match read_immediate(mmu, &mut size, instruction_pointer, 4) {
                Ok(x) => x,
                Err(e) => {
                    return Err(e);
                }
            };
            Ok((Instruction::JmpRel32 { operand0: Immediate::parse(imm) }, size))
        }
        0xEB => {
            let imm = match read_immediate(mmu, &mut size, instruction_pointer, 1) {
                Ok(x) => x,
                Err(e) => {
                    return Err(e);
                }
            };
            Ok((Instruction::JmpRel8 { operand0: Immediate::parse(imm) }, size))
        }
        0xEC => Ok((Instruction::In8D {}, size)),
        0xED => {
            if size_override {
                Ok((Instruction::In16D {}, size))
            } else {
                Ok((Instruction::In32D {}, size))
            }
        }
        0xFE => {
            let (reg, rm) = match read_modrm(
                mmu,
                &mut size,
                instruction_pointer,
                address_override,
                segment_override,
                rex,
            ) {
                Ok(t) => t,
                Err(e) => {
                    return Err(e);
                }
            };
            if reg == 0 {
                Ok((Instruction::IncRM8 { operand0: rm }, size))
            } else {
                Err(Interrupt::Undefined)
            }
        }
        0xFF => {
            let (reg, rm) = match read_modrm(
                mmu,
                &mut size,
                instruction_pointer,
                address_override,
                segment_override,
                rex,
            ) {
                Ok(t) => t,
                Err(e) => {
                    return Err(e);
                }
            };
            if reg == 0 {
                if rex_w(rex) {
                    Ok((Instruction::IncRM64 { operand0: rm }, size))
                } else if size_override {
                    Ok((Instruction::IncRM16 { operand0: rm }, size))
                } else {
                    Ok((Instruction::IncRM32 { operand0: rm }, size))
                }
            } else {
                Err(Interrupt::Undefined)
            }
        }
        _ => {
            if 0xB0 <= b && b <= 0xB7 {
                let imm = match read_immediate(mmu, &mut size, instruction_pointer, 1) {
                    Ok(x) => x,
                    Err(e) => {
                        return Err(e);
                    }
                };
                Ok(
                    (
                        Instruction::MovReg8Imm {
                            operand0: Reg::parse_suffix(b, rex),
                            operand1: Immediate::parse(imm),
                        },
                        size,
                    ),
                )
            } else if 0xB8 <= b && b <= 0xBF {
                if rex_w(rex) {
                    let imm = match read_immediate(mmu, &mut size, instruction_pointer, 8) {
                        Ok(x) => x,
                        Err(e) => {
                            return Err(e);
                        }
                    };
                    Ok(
                        (
                            Instruction::MovReg64Imm {
                                operand0: Reg::parse_suffix(b, rex),
                                operand1: Immediate::parse(imm),
                            },
                            size,
                        ),
                    )
                } else if size_override {
                    let imm = match read_immediate(mmu, &mut size, instruction_pointer, 2) {
                        Ok(x) => x,
                        Err(e) => {
                            return Err(e);
                        }
                    };
                    Ok(
                        (
                            Instruction::MovReg16Imm {
                                operand0: Reg::parse_suffix(b, rex),
                                operand1: Immediate::parse(imm),
                            },
                            size,
                        ),
                    )
                } else {
                    let imm = match read_immediate(mmu, &mut size, instruction_pointer, 4) {
                        Ok(x) => x,
                        Err(e) => {
                            return Err(e);
                        }
                    };
                    Ok(
                        (
                            Instruction::MovReg32Imm {
                                operand0: Reg::parse_suffix(b, rex),
                                operand1: Immediate::parse(imm),
                            },
                            size,
                        ),
                    )
                }
            } else {
                Err(Interrupt::Undefined)
            }
        }
    }
}

/// Decodes the instruction at `instruction_pointer`, reading through the
/// virtual-memory unit: legacy prefixes are absorbed, the opcode
/// dispatches, and the result is the instruction with the total byte count
/// consumed, prefixes included.
///
/// The whole result is a pure function of the memory view and the pointer
/// (`spec_decode`), so decoding the same memory twice yields the same
/// outcome, and an instruction is never longer than 15 bytes.
pub fn decode(mmu: &MemoryManagementUnit, instruction_pointer: u64) -> (r: Result<
    (Instruction, u64),
    Interrupt,
>)
    requires
        mmu.wf(),
    ensures
        r == spec_decode(mmu@, instruction_pointer),
        r matches Ok(t) ==> t.0.wf() && 1 <= t.1 <= 15,
{
    let mut consumed: u64 = 0;
    let mut ctx = DecodeContext {
        size_override: false,
        address_override: false,
        lock_rep: None,
        segment_override: SegmentOverride::NoOverride,
        rex: None,
    };
    loop
        invariant
            mmu.wf(),
            consumed <= 15,
            spec_decode(mmu@, instruction_pointer) == spec_decode_loop(
                mmu@,
                instruction_pointer,
                consumed,
                ctx,
            ),
        decreases 15 - consumed,
    {
        if consumed >= 15 {
            return Err(Interrupt::Undefined);
        }
        let b = match mmu.read_u8(instruction_pointer.wrapping_add(consumed)) {
            Ok(b) => b,
            Err(e) => {
                return Err(e);
            }
        };
        let ghost prev_ctx = ctx;
        consumed += 1;
        match b {
            0x26 | 0x2E | 0x36 | 0x3E => {
                ctx.rex = None;
            }
            0x64 => {
                ctx.segment_override = SegmentOverride::Fs;
                ctx.rex = None;
            }
            0x65 => {
                ctx.segment_override = SegmentOverride::Gs;
                ctx.rex = None;
            }
            0x66 => {
                ctx.size_override = true;
                ctx.rex = None;
            }
            0x67 => {
                ctx.address_override = true;
                ctx.rex = None;
            }
            0xF0 => {
                ctx.lock_rep = Some(LockRep::Lock);
                ctx.rex = None;
            }
            0xF2 => {
                ctx.lock_rep = Some(LockRep::Repne);
                ctx.rex = None;
            }
            0xF3 => {
                ctx.lock_rep = Some(LockRep::Repe);
                ctx.rex = None;
            }
            _ => {
                if 0x40 <= b && b < 0x50 {
                    ctx.rex = Some(Rex::new(b));
                } else {
                    return decode_op(mmu, instruction_pointer, consumed, ctx, b);
                }
            }
        }
        proof {
            assert(ctx == apply_prefix(prev_ctx, b));
        }
    }
}

/// The interrupts decoding can surface: an undefined opcode, a page fault
/// from fetching, or general protection from a non-canonical pointer.
pub open spec fn is_decode_interrupt(e: Interrupt) -> bool {
    e == Interrupt::Undefined || e is PageFault || e == Interrupt::GeneralProtection
}

proof fn lemma_fetch_shape(v: MmuView, ip: u64, c: u64)
    ensures
        match spec_fetch(v, ip, c) {
            Ok(_) => c < 15,
            Err(e) => is_decode_interrupt(e),
        },
{
    if c < 15 {
        lemma_translate_fault_shape(v, wadd(ip, c));
    }
}

proof fn lemma_read_disp32_shape(v: MmuView, ip: u64, c: u64)
    ensures
        match spec_read_disp32(v, ip, c) {
            Ok((_, c2)) => c2 == c + 4 && c2 <= 15,
            Err(e) => is_decode_interrupt(e),
        },
{
    lemma_fetch_shape(v, ip, c);
    lemma_fetch_shape(v, ip, wadd(c, 1));
    lemma_fetch_shape(v, ip, wadd(c, 2));
    lemma_fetch_shape(v, ip, wadd(c, 3));
}

proof fn lemma_read_imm_shape(v: MmuView, ip: u64, c: u64, nbytes: u8)
    ensures
        match spec_read_imm(v, ip, c, nbytes) {
            Ok((_, c2)) => (nbytes == 1 || nbytes == 2 || nbytes == 4 || nbytes == 8) ==> c <= c2
                <= 15,
            Err(e) => is_decode_interrupt(e),
        },
{
    lemma_fetch_shape(v, ip, c);
    lemma_fetch_shape(v, ip, wadd(c, 1));
    lemma_read_disp32_shape(v, ip, c);
    if spec_read_disp32(v, ip, c) is Ok {
        let (_, c4) = spec_read_disp32(v, ip, c)->Ok_0;
        lemma_read_disp32_shape(v, ip, c4);
    }
}

proof fn lemma_read_modrm_shape(
    v: MmuView,
    ip: u64,
    c: u64,
    ao: bool,
    seg: SegmentOverride,
    rex: Option<Rex>,
)
    ensures
        match spec_read_modrm(v, ip, c, ao, seg, rex) {
            Ok((_, _, c2)) => c < c2 <= 15,
            Err(e) => is_decode_interrupt(e),
        },
{
    lemma_fetch_shape(v, ip, c);
    lemma_fetch_shape(v, ip, wadd(c, 1));
    lemma_fetch_shape(v, ip, wadd(wadd(c, 1), 1));
    lemma_read_disp32_shape(v, ip, wadd(c, 1));
    lemma_read_disp32_shape(v, ip, wadd(wadd(c, 1), 1));
}

proof fn lemma_decode_op_shape(v: MmuView, ip: u64, c: u64, ctx: DecodeContext, b: u8)
    requires
        c <= 15,
    ensures
        match spec_decode_op(v, ip, c, ctx, b) {
            Ok((_, s)) => c <= s <= 15,
            Err(e) => is_decode_interrupt(e),
        },
{
    lemma_read_modrm_shape(v, ip, c, ctx.address_override, ctx.segment_override, ctx.rex);
    lemma_read_imm_shape(v, ip, c, 1);
    lemma_read_imm_shape(v, ip, c, 2);
    lemma_read_imm_shape(v, ip, c, 4);
    lemma_read_imm_shape(v, ip, c, 8);
    match spec_read_modrm(v, ip, c, ctx.address_override, ctx.segment_override, ctx.rex) {
        Ok((_, _, c1)) => {
            lemma_read_imm_shape(v, ip, c1, 1);
        }
        Err(_) => {}
    }
}

proof fn lemma_decode_loop_shape(v: MmuView, ip: u64, c: u64, ctx: DecodeContext)
    ensures
        match spec_decode_loop(v, ip, c, ctx) {
            Ok((_, s)) => c < s <= 15,
            Err(e) => is_decode_interrupt(e),
        },
    decreases 15 - c,
{
    if c < 15 {
        lemma_fetch_shape(v, ip, c);
        match mmu_read8(v, wadd(ip, c)) {
            Ok(b) => {
                if is_prefix_byte(b) {
                    lemma_decode_loop_shape(v, ip, (c + 1) as u64, apply_prefix(ctx, b));
                } else {
                    lemma_decode_op_shape(v, ip, (c + 1) as u64, ctx, b);
                }
            }
            Err(e) => {
                lemma_translate_fault_shape(v, wadd(ip, c));
            }
        }
    }
}

/// Decode totality: for every memory view and instruction pointer, decoding
/// either yields an instruction of 1 to 15 bytes or surfaces an undefined
/// opcode, a page fault or general protection — never any other interrupt.
/// (Termination, and freedom from panics, hold by verification of `decode`.)
pub proof fn lemma_decode_total(v: MmuView, ip: u64)
    ensures
        match spec_decode(v, ip) {
            Ok((_, size)) => 1 <= size <= 15,
            Err(e) => is_decode_interrupt(e),
        },
{
    lemma_decode_loop_shape(v, ip, 0, initial_context());
}

/// Applying the same prefix byte to the context twice is the same as
/// applying it once.
pub proof fn lemma_apply_prefix_idempotent(ctx: DecodeContext, b: u8)
    ensures
        apply_prefix(apply_prefix(ctx, b), b) == apply_prefix(ctx, b),
{
}

/// Dropping one byte of a doubled prefix changes nothing: if the bytes at
/// offsets `c` and `c + 1` are the same prefix, decoding from `c` and from
/// `c + 1` yield the same result — the same instruction, and the same end
/// offset, since both runs consume the stream up to the same opcode.
pub proof fn lemma_prefix_idempotent(v: MmuView, ip: u64, c: u64, ctx: DecodeContext, p: u8)
    requires
        is_prefix_byte(p),
        c < 0xFFFF_FFFF_FFFF_FFFF,
        mmu_read8(v, wadd(ip, c)) == Ok::<u8, Interrupt>(p),
        mmu_read8(v, wadd(ip, (c + 1) as u64)) == Ok::<u8, Interrupt>(p),
    ensures
        spec_decode_loop(v, ip, c, ctx) == spec_decode_loop(v, ip, (c + 1) as u64, ctx),
{
    if c < 15 {
        let c1 = (c + 1) as u64;
        let ctx1 = apply_prefix(ctx, p);
        assert(spec_decode_loop(v, ip, c, ctx) == spec_decode_loop(v, ip, c1, ctx1));
        if c1 < 15 {
            let c2 = (c1 + 1) as u64;
            lemma_apply_prefix_idempotent(ctx, p);
            assert(spec_decode_loop(v, ip, c1, ctx1) == spec_decode_loop(
                v,
                ip,
                c2,
                apply_prefix(ctx1, p),
            ));
            assert(spec_decode_loop(v, ip, c1, ctx) == spec_decode_loop(v, ip, c2, ctx1));
        }
    }
}

/// Prefix idempotence: a run of `n` copies of one prefix decodes exactly as
/// a run of one copy — the instruction is the same; only the prefix bytes
/// skipped over differ.
pub proof fn lemma_prefix_repetition(
    v: MmuView,
    ip: u64,
    c: u64,
    n: u64,
    ctx: DecodeContext,
    p: u8,
)
    requires
        is_prefix_byte(p),
        1 <= n,
        c + n <= 0xFFFF_FFFF_FFFF_FFFF,
        forall|j: u64| c <= j < c + n ==> mmu_read8(v, wadd(ip, j)) == Ok::<u8, Interrupt>(p),
    ensures
        spec_decode_loop(v, ip, c, ctx) == spec_decode_loop(v, ip, (c + n - 1) as u64, ctx),
    decreases n,
{
    if n > 1 {
        assert(mmu_read8(v, wadd(ip, c)) == Ok::<u8, Interrupt>(p));
        assert(mmu_read8(v, wadd(ip, (c + 1) as u64)) == Ok::<u8, Interrupt>(p));
        lemma_prefix_idempotent(v, ip, c, ctx, p);
        lemma_prefix_repetition(v, ip, (c + 1) as u64, (n - 1) as u64, ctx, p);
    }
}

} // verus!
