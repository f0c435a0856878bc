//! The processor: the register file, the execution engine, and the
//! interrupt entry/exit protocol.
//!
//! The machine's view ([`ProcView`]) is the sixteen general-purpose
//! registers, `CR2`, the memory view (byte map, writable set, page root),
//! the privilege level, the interrupt stack pointer, the descriptor-table
//! base, the instruction pointer and `RFLAGS`. Every step of the executor
//! is specified as a relation on this view: deterministic instructions pin
//! the next view down exactly; port input is quantified over every byte a
//! device may yield.

use vstd::prelude::*;

use crate::decode::{decode, spec_decode};
use crate::device::{Device, PortDevices};
use crate::instruction::{Instruction, Reg, RM};
use crate::interupt::{Interrupt, InteruptDescriptorEntry};
use crate::memory::{
    mmu_read16, mmu_read32, mmu_read64, mmu_read8, mmu_write16, mmu_write32, mmu_write64,
    mmu_write8, MemoryManagementUnit, MmuView,
};
use crate::word::{wadd, wsub};

verus! {

/// The register file: sixteen 64-bit lanes, and `CR2`, which latches the
/// faulting address of the last page fault.
pub struct Registers {
    /// The primary register file, always available.
    pub primary_registers: [u64; 16],
    /// Latched by the interrupt engine when handling a page fault.
    cr2: u64,
}

impl Registers {
    fn new() -> (r: Registers)
        ensures
            r.primary_registers@ == Seq::new(16, |i: int| 0u64),
            r.cr2 == 0,
    {
        let r = Registers { primary_registers: [0; 16], cr2: 0 };
        proof {
            assert(r.primary_registers@ =~= Seq::new(16, |i: int| 0u64));
        }
        r
    }
}

/// The mathematical view of the whole processor.
#[verifier::ext_equal]
pub struct ProcView {
    /// The sixteen general-purpose registers.
    pub regs: Seq<u64>,
    /// The faulting address latched by the last page fault.
    pub cr2: u64,
    /// The byte each physical address reads.
    pub mem: Map<u64, u8>,
    /// The physical addresses whose writes take effect.
    pub writable: Set<u64>,
    /// The page-table root.
    pub root: u64,
    /// The current privilege level.
    pub cpl: i8,
    /// Where the stack is placed on interrupt entry from an unprivileged
    /// level.
    pub interupt_stack_pointer: u64,
    /// The base of the interrupt descriptor table.
    pub idt: u64,
    /// The virtual address of the next instruction.
    pub rip: u64,
    /// The flags register.
    pub rflags: u64,
}

/// The memory part of the processor view.
pub open spec fn mmu_of(v: ProcView) -> MmuView {
    MmuView { mem: v.mem, writable: v.writable, root: v.root }
}

/// The processor view with its memory part replaced.
pub open spec fn with_mmu(v: ProcView, m: MmuView) -> ProcView {
    ProcView { mem: m.mem, writable: m.writable, root: m.root, ..v }
}

/// The view after advancing the instruction pointer over `size` bytes.
pub open spec fn advanced(v: ProcView, size: u64) -> ProcView {
    ProcView { rip: wadd(v.rip, size), ..v }
}

/// An 8-bit write into lane `r`: the low 8 bits are replaced, the upper 56
/// preserved.
pub open spec fn reg_write8(regs: Seq<u64>, r: u8, value: u8) -> Seq<u64> {
    regs.update(r as int, (regs[r as int] & 0xFFFF_FFFF_FFFF_FF00) | (value as u64))
}

/// A 16-bit write into lane `r`: the low 16 bits are replaced, the upper 48
/// preserved.
pub open spec fn reg_write16(regs: Seq<u64>, r: u8, value: u16) -> Seq<u64> {
    regs.update(r as int, (regs[r as int] & 0xFFFF_FFFF_FFFF_0000) | (value as u64))
}

/// A 32-bit write into lane `r`: zero-extended, the upper 32 bits cleared.
pub open spec fn reg_write32(regs: Seq<u64>, r: u8, value: u32) -> Seq<u64> {
    regs.update(r as int, value as u64)
}

/// A 64-bit write into lane `r`: a full replace.
pub open spec fn reg_write64(regs: Seq<u64>, r: u8, value: u64) -> Seq<u64> {
    regs.update(r as int, value)
}

/// The effective address of a memory operand: base register plus scaled
/// index plus displacement (each absent part contributing zero), or
/// `RIP`-relative; truncated to 16 bits under the address override. The
/// arithmetic wraps around the address space. A `RIP`-relative operand is
/// relative to the next instruction's address — `RIP` names the instruction
/// to execute next, so the base is the pointer after it advances over the
/// `size` bytes of the instruction being executed.
pub open spec fn spec_effective_address(v: ProcView, rm: RM, size: u64) -> u64 {
    match rm {
        RM::Reg(_) => 0,
        RM::RipRel { displacement, address_override } => {
            let ea = wadd(wadd(v.rip, size), displacement as u64);
            if address_override {
                ea & 0xFFFF
            } else {
                ea
            }
        },
        RM::Mem { index, scale, base, displacement, address_override, .. } => {
            let base_val = if base == 0xFF {
                0u64
            } else {
                v.regs[base as int]
            };
            let index_val = if index == 4 {
                0u64
            } else {
                v.regs[index as int]
            };
            let ea = wadd(wadd(base_val, index_val << scale), displacement as u64);
            if address_override {
                ea & 0xFFFF
            } else {
                ea
            }
        },
    }
}

/// An 8-bit read of an operand: the low lane of a register, or a translated
/// memory read at the effective address.
pub open spec fn spec_rm_read8(v: ProcView, rm: RM, size: u64) -> Result<u8, Interrupt> {
    match rm {
        RM::Reg(r) => Ok(v.regs[r as int] as u8),
        _ => mmu_read8(mmu_of(v), spec_effective_address(v, rm, size)),
    }
}

/// A 16-bit operand read; see `spec_rm_read8`.
pub open spec fn spec_rm_read16(v: ProcView, rm: RM, size: u64) -> Result<u16, Interrupt> {
    match rm {
        RM::Reg(r) => Ok(v.regs[r as int] as u16),
        _ => mmu_read16(mmu_of(v), spec_effective_address(v, rm, size)),
    }
}

/// A 32-bit operand read; see `spec_rm_read8`.
pub open spec fn spec_rm_read32(v: ProcView, rm: RM, size: u64) -> Result<u32, Interrupt> {
    match rm {
        RM::Reg(r) => Ok(v.regs[r as int] as u32),
        _ => mmu_read32(mmu_of(v), spec_effective_address(v, rm, size)),
    }
}

/// A 64-bit operand read; see `spec_rm_read8`.
pub open spec fn spec_rm_read64(v: ProcView, rm: RM, size: u64) -> Result<u64, Interrupt> {
    match rm {
        RM::Reg(r) => Ok(v.regs[r as int]),
        _ => mmu_read64(mmu_of(v), spec_effective_address(v, rm, size)),
    }
}

/// An 8-bit write of an operand: the narrow-write register rule, or a
/// translated memory write; on a fault the bytes written before it stay.
pub open spec fn spec_rm_write8(v: ProcView, rm: RM, value: u8, size: u64) -> (ProcView, Option<Interrupt>) {
    match rm {
        RM::Reg(r) => (ProcView { regs: reg_write8(v.regs, r, value), ..v }, None),
        _ => {
            let (m, e) = mmu_write8(mmu_of(v), spec_effective_address(v, rm, size), value);
            (with_mmu(v, m), e)
        },
    }
}

/// A 16-bit operand write; see `spec_rm_write8`.
pub open spec fn spec_rm_write16(v: ProcView, rm: RM, value: u16, size: u64) -> (ProcView, Option<Interrupt>) {
    match rm {
        RM::Reg(r) => (ProcView { regs: reg_write16(v.regs, r, value), ..v }, None),
        _ => {
            let (m, e) = mmu_write16(mmu_of(v), spec_effective_address(v, rm, size), value);
            (with_mmu(v, m), e)
        },
    }
}

/// A 32-bit operand write; see `spec_rm_write8`.
pub open spec fn spec_rm_write32(v: ProcView, rm: RM, value: u32, size: u64) -> (ProcView, Option<Interrupt>) {
    match rm {
        RM::Reg(r) => (ProcView { regs: reg_write32(v.regs, r, value), ..v }, None),
        _ => {
            let (m, e) = mmu_write32(mmu_of(v), spec_effective_address(v, rm, size), value);
            (with_mmu(v, m), e)
        },
    }
}

/// A 64-bit operand write; see `spec_rm_write8`.
pub open spec fn spec_rm_write64(v: ProcView, rm: RM, value: u64, size: u64) -> (ProcView, Option<Interrupt>) {
    match rm {
        RM::Reg(r) => (ProcView { regs: reg_write64(v.regs, r, value), ..v }, None),
        _ => {
            let (m, e) = mmu_write64(mmu_of(v), spec_effective_address(v, rm, size), value);
            (with_mmu(v, m), e)
        },
    }
}

/// The processor: registers, the virtual-memory unit (which holds the page
/// root), the port bus, the privilege level, the interrupt configuration
/// and the instruction pointer.
pub struct ProcessorState<D: Device> {
    /// The register file. The page-table root is not here: it lives in the
    /// memory management unit.
    pub registers: Registers,
    /// The memory management unit; all accesses go through paging.
    memory: MemoryManagementUnit,
    /// The port bus of the machine's peripherals.
    devices: PortDevices<D>,
    /// Current privilege level.
    cpl: i8,
    /// Where to place the stack for interrupts taken from unprivileged
    /// levels.
    pub interupt_stack_pointer: u64,
    /// The base of the interrupt descriptor table.
    pub idt: u64,
    /// The virtual address of the next instruction.
    instruction_pointer: u64,
    /// The flags register.
    rflags: u64,
}

impl<D: Device> View for ProcessorState<D> {
    type V = ProcView;

    closed spec fn view(&self) -> ProcView {
        ProcView {
            regs: self.registers.primary_registers@,
            cr2: self.registers.cr2,
            mem: self.memory@.mem,
            writable: self.memory@.writable,
            root: self.memory@.root,
            cpl: self.cpl,
            interupt_stack_pointer: self.interupt_stack_pointer,
            idt: self.idt,
            rip: self.instruction_pointer,
            rflags: self.rflags,
        }
    }
}

impl<D: Device> ProcessorState<D> {
    pub closed spec fn wf(&self) -> bool {
        &&& self.memory.wf()
        &&& self.devices.wf()
    }

    /// A fresh processor over the given memory and peripherals: all
    /// registers zero, privilege level 0, everything else zero.
    pub fn new(memory: MemoryManagementUnit, devices: PortDevices<D>) -> (r: ProcessorState<D>)
        requires
            memory.wf(),
            devices.wf(),
        ensures
            r.wf(),
            r@ == (ProcView {
                regs: Seq::new(16, |i: int| 0u64),
                cr2: 0u64,
                mem: memory@.mem,
                writable: memory@.writable,
                root: memory@.root,
                cpl: 0i8,
                interupt_stack_pointer: 0u64,
                idt: 0u64,
                rip: 0u64,
                rflags: 0u64,
            }),
    {
        ProcessorState {
            registers: Registers::new(),
            memory,
            devices,
            cpl: 0,
            interupt_stack_pointer: 0,
            idt: 0,
            instruction_pointer: 0,
            rflags: 0,
        }
    }

    /// The virtual address of the next instruction.
    pub fn rip(&self) -> (r: u64)
        ensures
            r == self@.rip,
    {
        self.instruction_pointer
    }

    /// The current privilege level.
    pub fn privilege_level(&self) -> (r: i8)
        ensures
            r == self@.cpl,
    {
        self.cpl
    }

    /// The flags register.
    pub fn flags_register(&self) -> (r: u64)
        ensures
            r == self@.rflags,
    {
        self.rflags
    }

    /// The faulting address latched by the last page fault.
    pub fn cr2(&self) -> (r: u64)
        ensures
            r == self@.cr2,
    {
        self.registers.cr2
    }

    /// The register file always holds sixteen 64-bit lanes.
    pub proof fn lemma_regs_len(&self)
        ensures
            self@.regs.len() == 16,
    {
    }

    /// The machine's memory, for inspection through the paging unit.
    pub fn memory(&self) -> (r: &MemoryManagementUnit)
        ensures
            self.wf() ==> r.wf(),
            r@ == mmu_of(self@),
    {
        &self.memory
    }

    /// Writes the low 8 bits of lane `reg`, preserving the upper 56.
    pub fn write_reg_u8(&mut self, reg: Reg, value: u8)
        requires
            old(self).wf(),
            reg.wf(),
        ensures
            final(self).wf(),
            final(self)@ == (ProcView { regs: reg_write8(old(self)@.regs, reg.0, value), ..old(
                self,
            )@ }),
    {
        let i = reg.0 as usize;
        let handle = self.registers.primary_registers[i];
        self.registers.primary_registers[i] = (handle & 0xFFFF_FFFF_FFFF_FF00) | (value as u64);
    }

    /// Writes the low 16 bits of lane `reg`, preserving the upper 48.
    pub fn write_reg_u16(&mut self, reg: Reg, value: u16)
        requires
            old(self).wf(),
            reg.wf(),
        ensures
            final(self).wf(),
            final(self)@ == (ProcView { regs: reg_write16(old(self)@.regs, reg.0, value), ..old(
                self,
            )@ }),
    {
        let i = reg.0 as usize;
        let handle = self.registers.primary_registers[i];
        self.registers.primary_registers[i] = (handle & 0xFFFF_FFFF_FFFF_0000) | (value as u64);
    }

    /// Writes lane `reg` with the value zero-extended: the upper 32 bits
    /// are cleared.
    pub fn write_reg_u32(&mut self, reg: Reg, value: u32)
        requires
            old(self).wf(),
            reg.wf(),
        ensures
            final(self).wf(),
            final(self)@ == (ProcView { regs: reg_write32(old(self)@.regs, reg.0, value), ..old(
                self,
            )@ }),
    {
        self.registers.primary_registers[reg.0 as usize] = value as u64;
    }

    /// Replaces lane `reg` entirely.
    pub fn write_reg_u64(&mut self, reg: Reg, value: u64)
        requires
            old(self).wf(),
            reg.wf(),
        ensures
            final(self).wf(),
            final(self)@ == (ProcView { regs: reg_write64(old(self)@.regs, reg.0, value), ..old(
                self,
            )@ }),
    {
        self.registers.primary_registers[reg.0 as usize] = value;
    }

    /// The low 8 bits of lane `reg`.
    pub fn read_reg_u8(&self, reg: Reg) -> (r: u8)
        requires
            self.wf(),
            reg.wf(),
        ensures
            r == self@.regs[reg.0 as int] as u8,
    {
        self.registers.primary_registers[reg.0 as usize] as u8
    }

    /// The low 16 bits of lane `reg`.
    pub fn read_reg_u16(&self, reg: Reg) -> (r: u16)
        requires
            self.wf(),
            reg.wf(),
        ensures
            r == self@.regs[reg.0 as int] as u16,
    {
        self.registers.primary_registers[reg.0 as usize] as u16
    }

    /// The low 32 bits of lane `reg`.
    pub fn read_reg_u32(&self, reg: Reg) -> (r: u32)
        requires
            self.wf(),
            reg.wf(),
        ensures
            r == self@.regs[reg.0 as int] as u32,
    {
        self.registers.primary_registers[reg.0 as usize] as u32
    }

    /// The full 64 bits of lane `reg`.
    pub fn read_reg_u64(&self, reg: Reg) -> (r: u64)
        requires
            self.wf(),
            reg.wf(),
        ensures
            r == self@.regs[reg.0 as int],
    {
        self.registers.primary_registers[reg.0 as usize]
    }

    /// The effective address of a memory operand, from the current
    /// registers, the instruction pointer, and the byte count of the
    /// instruction being executed (a `RIP`-relative operand is relative to
    /// the next instruction's address).
    fn effective_address(&self, rm: RM, size: u64) -> (r: u64)
        requires
            self.wf(),
            rm.wf(),
        ensures
            r == spec_effective_address(self@, rm, size),
    {
        match rm {
            RM::Reg(_) => 0,
            RM::RipRel { displacement, address_override } => {
                let ea = self.instruction_pointer.wrapping_add(size).wrapping_add(
                    displacement as u64,
                );
                if address_override {
                    ea & 0xFFFF
                } else {
                    ea
                }
            },
            RM::Mem { index, scale, base, displacement, address_override, segment_override: _ } => {
                let base_val = if base == 0xFF {
                    0
                } else {
                    self.registers.primary_registers[base as usize]
                };
                let index_val = if index == 4 {
                    0
                } else {
                    self.registers.primary_registers[index as usize]
                };
                let ea = base_val.wrapping_add(index_val << scale).wrapping_add(
                    displacement as u64,
                );
                if address_override {
                    ea & 0xFFFF
                } else {
                    ea
                }
            },
        }
    }

    fn read_rm_u8(&self, rm: RM, size: u64) -> (r: Result<u8, Interrupt>)
        requires
            self.wf(),
            rm.wf(),
        ensures
            r == spec_rm_read8(self@, rm, size),
    {
        match rm {
            RM::Reg(reg) => Ok(self.read_reg_u8(Reg(reg))),
            _ => self.memory.read_u8(self.effective_address(rm, size)),
        }
    }

    fn read_rm_u16(&self, rm: RM, size: u64) -> (r: Result<u16, Interrupt>)
        requires
            self.wf(),
            rm.wf(),
        ensures
            r == spec_rm_read16(self@, rm, size),
    {
        match rm {
            RM::Reg(reg) => Ok(self.read_reg_u16(Reg(reg))),
            _ => self.memory.read_u16(self.effective_address(rm, size)),
        }
    }

    fn read_rm_u32(&self, rm: RM, size: u64) -> (r: Result<u32, Interrupt>)
        requires
            self.wf(),
            rm.wf(),
        ensures
            r == spec_rm_read32(self@, rm, size),
    {
        match rm {
            RM::Reg(reg) => Ok(self.read_reg_u32(Reg(reg))),
            _ => self.memory.read_u32(self.effective_address(rm, size)),
        }
    }

    fn read_rm_u64(&self, rm: RM, size: u64) -> (r: Result<u64, Interrupt>)
        requires
            self.wf(),
            rm.wf(),
        ensures
            r == spec_rm_read64(self@, rm, size),
    {
        match rm {
            RM::Reg(reg) => Ok(self.read_reg_u64(Reg(reg))),
            _ => self.memory.read_u64(self.effective_address(rm, size)),
        }
    }

    fn write_rm_u8(&mut self, rm: RM, value: u8, size: u64) -> (r: Result<(), Interrupt>)
        requires
            old(self).wf(),
            rm.wf(),
        ensures
            final(self).wf(),
            ({
                let (v1, e) = spec_rm_write8(old(self)@, rm, value, size);
                &&& final(self)@ == v1
                &&& r == (match e {
                    Some(i) => Err::<(), Interrupt>(i),
                    None => Ok(()),
                })
            }),
    {
        match rm {
            RM::Reg(reg) => {
                self.write_reg_u8(Reg(reg), value);
                Ok(())
            },
            _ => {
                let address = self.effective_address(rm, size);
                self.memory.write_u8(address, value)
            },
        }
    }

    fn write_rm_u16(&mut self, rm: RM, value: u16, size: u64) -> (r: Result<(), Interrupt>)
        requires
            old(self).wf(),
            rm.wf(),
        ensures
            final(self).wf(),
            ({
                let (v1, e) = spec_rm_write16(old(self)@, rm, value, size);
                &&& final(self)@ == v1
                &&& r == (match e {
                    Some(i) => Err::<(), Interrupt>(i),
                    None => Ok(()),
                })
            }),
    {
        match rm {
            RM::Reg(reg) => {
                self.write_reg_u16(Reg(reg), value);
                Ok(())
            },
            _ => {
                let address = self.effective_address(rm, size);
                self.memory.write_u16(address, value)
            },
        }
    }

    fn write_rm_u32(&mut self, rm: RM, value: u32, size: u64) -> (r: Result<(), Interrupt>)
        requires
            old(self).wf(),
            rm.wf(),
        ensures
            final(self).wf(),
            ({
                let (v1, e) = spec_rm_write32(old(self)@, rm, value, size);
                &&& final(self)@ == v1
                &&& r == (match e {
                    Some(i) => Err::<(), Interrupt>(i),
                    None => Ok(()),
                })
            }),
    {
        match rm {
            RM::Reg(reg) => {
                self.write_reg_u32(Reg(reg), value);
                Ok(())
            },
            _ => {
                let address = self.effective_address(rm, size);
                self.memory.write_u32(address, value)
            },
        }
    }

    fn write_rm_u64(&mut self, rm: RM, value: u64, size: u64) -> (r: Result<(), Interrupt>)
        requires
            old(self).wf(),
            rm.wf(),
        ensures
            final(self).wf(),
            ({
                let (v1, e) = spec_rm_write64(old(self)@, rm, value, size);
                &&& final(self)@ == v1
                &&& r == (match e {
                    Some(i) => Err::<(), Interrupt>(i),
                    None => Ok(()),
                })
            }),
    {
        match rm {
            RM::Reg(reg) => {
                self.write_reg_u64(Reg(reg), value);
                Ok(())
            },
            _ => {
                let address = self.effective_address(rm, size);
                self.memory.write_u64(address, value)
            },
        }
    }
}

/// The interrupt vector each interrupt enters through.
pub open spec fn interrupt_vector(i: Interrupt) -> u64 {
    match i {
        Interrupt::Undefined => 0x06,
        Interrupt::DoubleFault => 0x08,
        Interrupt::GeneralProtection => 0x0D,
        Interrupt::PageFault { .. } => 0x0E,
        Interrupt::IRQ(n) => n as u64,
    }
}

/// The error code pushed on entry: the page-fault code, zero otherwise.
pub open spec fn interrupt_error(i: Interrupt) -> u64 {
    match i {
        Interrupt::PageFault { error_code, .. } => error_code as u64,
        _ => 0,
    }
}

/// A page fault latches its faulting address into `CR2` before entry.
pub open spec fn latch_cr2(v: ProcView, i: Interrupt) -> ProcView {
    match i {
        Interrupt::PageFault { error_code: _, cr2 } => ProcView { cr2, ..v },
        _ => v,
    }
}

/// The first `n` bytes at `va`, read in ascending order through the
/// virtual-memory unit; the first faulting byte wins.
pub open spec fn mmu_read_bytes(m: MmuView, va: u64, n: nat) -> Result<Seq<u8>, Interrupt>
    decreases n,
{
    if n == 0 {
        Ok(Seq::empty())
    } else {
        match mmu_read_bytes(m, va, (n - 1) as nat) {
            Err(e) => Err(e),
            Ok(s) => match mmu_read8(m, wadd(va, (n - 1) as u64)) {
                Err(e) => Err(e),
                Ok(b) => Ok(s.push(b)),
            },
        }
    }
}

proof fn lemma_read_bytes_err(m: MmuView, va: u64, k: nat, n: nat)
    requires
        k < n,
        mmu_read_bytes(m, va, k) is Ok,
        mmu_read8(m, wadd(va, k as u64)) is Err,
    ensures
        mmu_read_bytes(m, va, n) == Err::<Seq<u8>, Interrupt>(
            mmu_read8(m, wadd(va, k as u64))->Err_0,
        ),
    decreases n,
{
    if k < n - 1 {
        lemma_read_bytes_err(m, va, k, (n - 1) as nat);
    }
}

/// One attempt at interrupt entry: the descriptor fetch, the presence and
/// privilege checks, and the four frame pushes. The boolean says whether
/// entry completed; on failure the view keeps whatever partial writes had
/// already landed, and the caller escalates to double fault.
pub open spec fn spec_interrupt_attempt(v0: ProcView, intr: Interrupt) -> (ProcView, bool) {
    let v = latch_cr2(v0, intr);
    let vector = interrupt_vector(intr);
    let error = interrupt_error(intr);
    let entry_ptr = wadd(v.idt, (16 * vector) as u64);
    match mmu_read_bytes(mmu_of(v), entry_ptr, 16) {
        Err(_) => (v, false),
        Ok(bytes) => {
            let entry = InteruptDescriptorEntry::spec_parse(bytes);
            if !entry.present || entry.rpl < v.cpl {
                (v, false)
            } else {
                let stack_pointer = v.regs[4];
                let new_sp = if v.cpl <= 0 {
                    stack_pointer
                } else {
                    v.interupt_stack_pointer
                };
                let (m1, e1) = mmu_write64(mmu_of(v), wsub(new_sp, 8), stack_pointer);
                if e1 is Some {
                    (with_mmu(v, m1), false)
                } else {
                    let (m2, e2) = mmu_write64(
                        m1,
                        wsub(new_sp, 16),
                        (((v.cpl as i64) as u64) << 32) | v.rflags,
                    );
                    if e2 is Some {
                        (with_mmu(v, m2), false)
                    } else {
                        let (m3, e3) = mmu_write64(m2, wsub(new_sp, 24), v.rip);
                        if e3 is Some {
                            (with_mmu(v, m3), false)
                        } else {
                            let (m4, e4) = mmu_write64(m3, wsub(new_sp, 32), error);
                            if e4 is Some {
                                (with_mmu(v, m4), false)
                            } else {
                                (
                                    ProcView {
                                        rip: entry.service_routine,
                                        regs: v.regs.update(4, wsub(new_sp, 32)),
                                        cpl: 0,
                                        ..with_mmu(v, m4)
                                    },
                                    true,
                                )
                            }
                        }
                    }
                }
            }
        },
    }
}

/// Full interrupt delivery: one attempt, escalating once to double fault
/// if it fails. A second failure — or a failing double-fault entry — is a
/// triple fault, and the machine is dead (the boolean is false).
pub open spec fn spec_interrupt(v: ProcView, intr: Interrupt) -> (ProcView, bool) {
    let (v1, ok) = spec_interrupt_attempt(v, intr);
    if ok {
        (v1, true)
    } else if intr is DoubleFault {
        (v1, false)
    } else {
        spec_interrupt_attempt(v1, Interrupt::DoubleFault)
    }
}

/// How a step that hands `e` to the interrupt engine relates the views:
/// either entry succeeded and execution continues at the handler, or the
/// machine triple-faulted.
pub open spec fn step_interrupted(
    v: ProcView,
    e: Interrupt,
    v1: ProcView,
    outcome: StepOutcome,
) -> bool {
    let (vr, ok) = spec_interrupt(v, e);
    v1 == vr && outcome == if ok {
        StepOutcome::Continue
    } else {
        StepOutcome::Fatal(FatalError::TripleFault)
    }
}

/// What `step_instruction` reports to its caller.
#[derive(Clone, Copy, Debug, PartialEq, Eq, Structural)]
pub enum StepOutcome {
    /// The step completed (an instruction executed, or an interrupt was
    /// delivered); call again for the next instruction.
    Continue,
    /// A configuration-register write executed: a logged effect with no
    /// state change; the caller reports it.
    ControlRegisterWrite { register: u8, value: u64 },
    /// The machine hit a fatal condition and cannot go on.
    Fatal(FatalError),
}

/// Conditions that end the simulation.
#[derive(Clone, Copy, Debug, PartialEq, Eq, Structural)]
pub enum FatalError {
    /// A fault was taken while entering the double-fault handler.
    TripleFault,
    /// A 16-bit port transfer was requested; devices are byte-wide.
    Unsupported16BitDevice,
    /// A 32-bit port read was requested; only 32-bit port writes exist.
    Unsupported32BitDevice,
}

/// The value `x` sign-extended from its low 8 bits.
pub open spec fn sext8(x: u64) -> u64 {
    (((x as u8) as i8) as i64) as u64
}

/// The value `x` sign-extended from its low 32 bits.
pub open spec fn sext32(x: u64) -> u64 {
    (((x as u32) as i32) as i64) as u64
}

/// The state after a port read delivered byte `b` into the low lane of
/// register 0.
pub open spec fn port_in_result(v: ProcView, size: u64, b: u8) -> ProcView {
    advanced(ProcView { regs: reg_write8(v.regs, 0, b), ..v }, size)
}

/// The execution of one decoded, deterministic instruction (everything but
/// port I/O and the unsupported port widths): the next view, or the view
/// reached when a memory access faulted together with the fault.
pub open spec fn spec_execute(v: ProcView, instr: Instruction, size: u64) -> (
    ProcView,
    Option<Interrupt>,
) {
    match instr {
        Instruction::IncRM8 { operand0 } => match spec_rm_read8(v, operand0, size) {
            Err(e) => (v, Some(e)),
            Ok(x) => {
                let (v2, e) = spec_rm_write8(v, operand0, crate::word::w8add(x, 1), size);
                match e {
                    Some(i) => (v2, Some(i)),
                    None => (advanced(v2, size), None),
                }
            },
        },
        Instruction::IncRM16 { operand0 } => match spec_rm_read16(v, operand0, size) {
            Err(e) => (v, Some(e)),
            Ok(x) => {
                let (v2, e) = spec_rm_write16(v, operand0, crate::word::w16add(x, 1), size);
                match e {
                    Some(i) => (v2, Some(i)),
                    None => (advanced(v2, size), None),
                }
            },
        },
        Instruction::IncRM32 { operand0 } => match spec_rm_read32(v, operand0, size) {
            Err(e) => (v, Some(e)),
            Ok(x) => {
                let (v2, e) = spec_rm_write32(v, operand0, crate::word::w32add(x, 1), size);
                match e {
                    Some(i) => (v2, Some(i)),
                    None => (advanced(v2, size), None),
                }
            },
        },
        Instruction::IncRM64 { operand0 } => match spec_rm_read64(v, operand0, size) {
            Err(e) => (v, Some(e)),
            Ok(x) => {
                let (v2, e) = spec_rm_write64(v, operand0, wadd(x, 1), size);
                match e {
                    Some(i) => (v2, Some(i)),
                    None => (advanced(v2, size), None),
                }
            },
        },
        Instruction::Iret {} => {
            let rsp = v.regs[4];
            match mmu_read64(mmu_of(v), wadd(rsp, 8)) {
                Err(e) => (v, Some(e)),
                Ok(new_rip) => match mmu_read64(mmu_of(v), wadd(rsp, 16)) {
                    Err(e) => (v, Some(e)),
                    Ok(rflags) => match mmu_read64(mmu_of(v), wadd(rsp, 24)) {
                        Err(e) => (v, Some(e)),
                        Ok(new_rsp) => (
                            ProcView {
                                rip: new_rip,
                                rflags,
                                regs: v.regs.update(4, new_rsp),
                                cpl: (((rflags as i64) >> 32) as i8),
                                ..v
                            },
                            None,
                        ),
                    },
                },
            }
        },
        Instruction::JmpRel8 { operand0 } => (
            ProcView { rip: wadd(wadd(v.rip, sext8(operand0.0)), size), ..v },
            None,
        ),
        Instruction::JmpRel32 { operand0 } => (
            ProcView { rip: wadd(wadd(v.rip, sext32(operand0.0)), size), ..v },
            None,
        ),
        Instruction::MovReg8Imm { operand0, operand1 } => (
            advanced(
                ProcView { regs: reg_write8(v.regs, operand0.0, operand1.0 as u8), ..v },
                size,
            ),
            None,
        ),
        Instruction::MovReg16Imm { operand0, operand1 } => (
            advanced(
                ProcView { regs: reg_write16(v.regs, operand0.0, operand1.0 as u16), ..v },
                size,
            ),
            None,
        ),
        Instruction::MovReg32Imm { operand0, operand1 } => (
            advanced(
                ProcView { regs: reg_write32(v.regs, operand0.0, operand1.0 as u32), ..v },
                size,
            ),
            None,
        ),
        Instruction::MovReg64Imm { operand0, operand1 } => (
            advanced(ProcView { regs: reg_write64(v.regs, operand0.0, operand1.0), ..v }, size),
            None,
        ),
        Instruction::MovReg8RM { operand0, operand1 } => match spec_rm_read8(v, operand1, size) {
            Err(e) => (v, Some(e)),
            Ok(x) => (
                advanced(ProcView { regs: reg_write8(v.regs, operand0.0, x), ..v }, size),
                None,
            ),
        },
        Instruction::MovReg16RM { operand0, operand1 } => match spec_rm_read16(v, operand1, size) {
            Err(e) => (v, Some(e)),
            Ok(x) => (
                advanced(ProcView { regs: reg_write16(v.regs, operand0.0, x), ..v }, size),
                None,
            ),
        },
        Instruction::MovReg32RM { operand0, operand1 } => match spec_rm_read32(v, operand1, size) {
            Err(e) => (v, Some(e)),
            Ok(x) => (
                advanced(ProcView { regs: reg_write32(v.regs, operand0.0, x), ..v }, size),
                None,
            ),
        },
        Instruction::MovReg64RM { operand0, operand1 } => match spec_rm_read64(v, operand1, size) {
            Err(e) => (v, Some(e)),
            Ok(x) => (
                advanced(ProcView { regs: reg_write64(v.regs, operand0.0, x), ..v }, size),
                None,
            ),
        },
        Instruction::MovRM8Reg { operand0, operand1 } => {
            let (v2, e) = spec_rm_write8(v, operand0, v.regs[operand1.0 as int] as u8, size);
            match e {
                Some(i) => (v2, Some(i)),
                None => (advanced(v2, size), None),
            }
        },
        Instruction::MovRM16Reg { operand0, operand1 } => {
            let (v2, e) = spec_rm_write16(v, operand0, v.regs[operand1.0 as int] as u16, size);
            match e {
                Some(i) => (v2, Some(i)),
                None => (advanced(v2, size), None),
            }
        },
        Instruction::MovRM32Reg { operand0, operand1 } => {
            let (v2, e) = spec_rm_write32(v, operand0, v.regs[operand1.0 as int] as u32, size);
            match e {
                Some(i) => (v2, Some(i)),
                None => (advanced(v2, size), None),
            }
        },
        Instruction::MovRM64Reg { operand0, operand1 } => {
            let (v2, e) = spec_rm_write64(v, operand0, v.regs[operand1.0 as int], size);
            match e {
                Some(i) => (v2, Some(i)),
                None => (advanced(v2, size), None),
            }
        },
        Instruction::Swi4 { operand0 } => if v.cpl > 0 {
            // Loading the page-table root is privileged.
            (v, Some(Interrupt::GeneralProtection))
        } else {
            match spec_rm_read64(v, operand0, size) {
                Err(e) => (v, Some(e)),
                Ok(x) => (advanced(ProcView { root: x, ..v }, size), None),
            }
        },
        _ => (v, None),
    }
}

/// The full step relation: what one call of `step_instruction` does to the
/// machine, for a given pending interrupt request. Port input is the one
/// nondeterministic ingredient, quantified over the byte the device yields.
pub open spec fn spec_step(v0: ProcView, irq: u8, v1: ProcView, outcome: StepOutcome) -> bool {
    if irq != 0 {
        step_interrupted(v0, Interrupt::IRQ(irq), v1, outcome)
    } else {
        match spec_decode(mmu_of(v0), v0.rip) {
            Err(e) => step_interrupted(v0, e, v1, outcome),
            Ok((instr, size)) => match instr {
                Instruction::In8 { .. } | Instruction::In8D {} => {
                    if v0.cpl > 0 {
                        step_interrupted(v0, Interrupt::GeneralProtection, v1, outcome)
                    } else {
                        outcome == StepOutcome::Continue && (exists|b: u8|
                            v1 == #[trigger] port_in_result(v0, size, b))
                    }
                },
                Instruction::In16 { .. } | Instruction::In16D {} | Instruction::Out16 { .. } => {
                    if v0.cpl > 0 {
                        step_interrupted(v0, Interrupt::GeneralProtection, v1, outcome)
                    } else {
                        v1 == v0 && outcome == StepOutcome::Fatal(FatalError::Unsupported16BitDevice)
                    }
                },
                Instruction::In32 { .. } | Instruction::In32D {} => {
                    if v0.cpl > 0 {
                        step_interrupted(v0, Interrupt::GeneralProtection, v1, outcome)
                    } else {
                        v1 == v0 && outcome == StepOutcome::Fatal(FatalError::Unsupported32BitDevice)
                    }
                },
                Instruction::Out8 { .. } | Instruction::Out32 { .. } => {
                    if v0.cpl > 0 {
                        step_interrupted(v0, Interrupt::GeneralProtection, v1, outcome)
                    } else {
                        v1 == advanced(v0, size) && outcome == StepOutcome::Continue
                    }
                },
                Instruction::Wrcr { operand0, operand1 } => {
                    if v0.cpl > 0 {
                        // Configuration-register writes are privileged.
                        step_interrupted(v0, Interrupt::GeneralProtection, v1, outcome)
                    } else {
                        match spec_rm_read64(v0, operand1, size) {
                            Err(e) => step_interrupted(v0, e, v1, outcome),
                            Ok(x) => v1 == advanced(v0, size) && outcome
                                == (StepOutcome::ControlRegisterWrite {
                                register: operand0.0 as u8,
                                value: x,
                            }),
                        }
                    }
                },
                _ => {
                    let (v2, e) = spec_execute(v0, instr, size);
                    match e {
                        None => v1 == v2 && outcome == StepOutcome::Continue,
                        Some(i) => step_interrupted(v2, i, v1, outcome),
                    }
                },
            },
        }
    }
}

impl<D: Device> ProcessorState<D> {
    /// One attempt at interrupt entry, per the entry procedure: latch
    /// `CR2`, fetch the descriptor, check presence and privilege, pick the
    /// stack, push the frame, transfer control. False means the attempt
    /// itself faulted or the descriptor refused entry.
    fn interrupt_attempt(&mut self, interrupt: Interrupt) -> (r: bool)
        requires
            old(self).wf(),
        ensures
            final(self).wf(),
            ({
                let (v1, ok) = spec_interrupt_attempt(old(self)@, interrupt);
                final(self)@ == v1 && r == ok
            }),
    {
        match interrupt {
            Interrupt::PageFault { error_code: _, cr2 } => {
                self.registers.cr2 = cr2;
            },
            _ => {},
        }
        let (vector, error): (u64, u64) = match interrupt {
            Interrupt::Undefined => (0x06, 0x00),
            Interrupt::DoubleFault => (0x08, 0x00),
            Interrupt::GeneralProtection => (0x0D, 0x00),
            Interrupt::PageFault { error_code, cr2: _ } => (0x0E, error_code as u64),
            Interrupt::IRQ(irq) => (irq as u64, 0x00),
        };
        let interrupt_entry_ptr = self.idt.wrapping_add(16 * vector);
        let ghost latched = latch_cr2(old(self)@, interrupt);
        let mut data: Vec<u8> = Vec::new();
        let mut k: usize = 0;
        while k < 16
            invariant
                self.wf(),
                self@ == latched,
                latched == latch_cr2(old(self)@, interrupt),
                interrupt_entry_ptr == wadd(latched.idt, (16 * interrupt_vector(interrupt)) as u64),
                k <= 16,
                data@.len() == k,
                mmu_read_bytes(mmu_of(latched), interrupt_entry_ptr, k as nat) == Ok::<
                    Seq<u8>,
                    Interrupt,
                >(data@),
            decreases 16 - k,
        {
            match self.memory.read_u8(interrupt_entry_ptr.wrapping_add(k as u64)) {
                Ok(b) => {
                    data.push(b);
                },
                Err(_) => {
                    proof {
                        lemma_read_bytes_err(
                            mmu_of(latched),
                            interrupt_entry_ptr,
                            k as nat,
                            16,
                        );
                    }
                    return false;
                },
            }
            k += 1;
        }
        let entry = InteruptDescriptorEntry::parse(data.as_slice());
        if !entry.present || entry.rpl < self.cpl {
            return false;
        }
        let stack_pointer = self.registers.primary_registers[4];
        let new_stack_pointer = if self.cpl <= 0 {
            stack_pointer
        } else {
            self.interupt_stack_pointer
        };
        match self.memory.write_u64(new_stack_pointer.wrapping_sub(8), stack_pointer) {
            Ok(()) => (),
            Err(_) => {
                return false;
            },
        }
        match self.memory.write_u64(
            new_stack_pointer.wrapping_sub(16),
            (((self.cpl as i64) as u64) << 32) | self.rflags,
        ) {
            Ok(()) => (),
            Err(_) => {
                return false;
            },
        }
        match self.memory.write_u64(new_stack_pointer.wrapping_sub(24), self.instruction_pointer) {
            Ok(()) => (),
            Err(_) => {
                return false;
            },
        }
        match self.memory.write_u64(new_stack_pointer.wrapping_sub(32), error) {
            Ok(()) => (),
            Err(_) => {
                return false;
            },
        }
        self.instruction_pointer = entry.service_routine;
        self.registers.primary_registers[4] = new_stack_pointer.wrapping_sub(32);
        self.cpl = 0;
        true
    }

    /// Delivers an interrupt: one entry attempt, escalated once to double
    /// fault on failure. False is a triple fault.
    fn interrupt(&mut self, interrupt: Interrupt) -> (r: bool)
        requires
            old(self).wf(),
        ensures
            final(self).wf(),
            ({
                let (v1, ok) = spec_interrupt(old(self)@, interrupt);
                final(self)@ == v1 && r == ok
            }),
    {
        if self.interrupt_attempt(interrupt) {
            return true;
        }
        match interrupt {
            Interrupt::DoubleFault => false,
            _ => self.interrupt_attempt(Interrupt::DoubleFault),
        }
    }

    /// Hands a fault to the interrupt engine and reports the outcome.
    fn enter_interrupt(&mut self, interrupt: Interrupt) -> (outcome: StepOutcome)
        requires
            old(self).wf(),
        ensures
            final(self).wf(),
            step_interrupted(old(self)@, interrupt, final(self)@, outcome),
    {
        if self.interrupt(interrupt) {
            StepOutcome::Continue
        } else {
            StepOutcome::Fatal(FatalError::TripleFault)
        }
    }

    /// Advances the instruction pointer over the executed instruction.
    fn advance_rip(&mut self, size: u64)
        requires
            old(self).wf(),
        ensures
            final(self).wf(),
            final(self)@ == advanced(old(self)@, size),
    {
        self.instruction_pointer = self.instruction_pointer.wrapping_add(size);
    }
}

impl<D: Device> ProcessorState<D> {
    /// Executes one increment instruction, per `spec_execute`.
    #[verifier::rlimit(100)]
    #[verifier::spinoff_prover]
    fn step_inc(&mut self, instruction: Instruction, size: u64) -> (outcome: StepOutcome)
        requires
            old(self).wf(),
            instruction.wf(),
            instruction is IncRM8 || instruction is IncRM16 || instruction is IncRM32
                || instruction is IncRM64,
        ensures
            final(self).wf(),
            ({
                let (v2, e) = spec_execute(old(self)@, instruction, size);
                match e {
                    None => final(self)@ == v2 && outcome == StepOutcome::Continue,
                    Some(i) => step_interrupted(v2, i, final(self)@, outcome),
                }
            }),
    {
        match instruction {
            Instruction::IncRM8 { operand0 } => {
                let value = match self.read_rm_u8(operand0, size) {
                    Ok(x) => x.wrapping_add(1),
                    Err(e) => {
                        return self.enter_interrupt(e);
                    },
                };
                match self.write_rm_u8(operand0, value, size) {
                    Ok(()) => (),
                    Err(e) => {
                        return self.enter_interrupt(e);
                    },
                }
                self.advance_rip(size);
                StepOutcome::Continue
            },
            Instruction::IncRM16 { operand0 } => {
                let value = match self.read_rm_u16(operand0, size) {
                    Ok(x) => x.wrapping_add(1),
                    Err(e) => {
                        return self.enter_interrupt(e);
                    },
                };
                match self.write_rm_u16(operand0, value, size) {
                    Ok(()) => (),
                    Err(e) => {
                        return self.enter_interrupt(e);
                    },
                }
                self.advance_rip(size);
                StepOutcome::Continue
            },
            Instruction::IncRM32 { operand0 } => {
                let value = match self.read_rm_u32(operand0, size) {
                    Ok(x) => x.wrapping_add(1),
                    Err(e) => {
                        return self.enter_interrupt(e);
                    },
                };
                match self.write_rm_u32(operand0, value, size) {
                    Ok(()) => (),
                    Err(e) => {
                        return self.enter_interrupt(e);
                    },
                }
                self.advance_rip(size);
                StepOutcome::Continue
            },
            Instruction::IncRM64 { operand0 } => {
                let value = match self.read_rm_u64(operand0, size) {
                    Ok(x) => x.wrapping_add(1),
                    Err(e) => {
                        return self.enter_interrupt(e);
                    },
                };
                match self.write_rm_u64(operand0, value, size) {
                    Ok(()) => (),
                    Err(e) => {
                        return self.enter_interrupt(e);
                    },
                }
                self.advance_rip(size);
                StepOutcome::Continue
            },
            _ => StepOutcome::Continue,
        }
    }

    /// Executes `Iret`, a jump, or the page-root load, per `spec_execute`.
    #[verifier::rlimit(100)]
    #[verifier::spinoff_prover]
    fn step_control(&mut self, instruction: Instruction, size: u64) -> (outcome: StepOutcome)
        requires
            old(self).wf(),
            instruction.wf(),
            instruction is Iret || instruction is JmpRel8 || instruction is JmpRel32,
        ensures
            final(self).wf(),
            ({
                let (v2, e) = spec_execute(old(self)@, instruction, size);
                match e {
                    None => final(self)@ == v2 && outcome == StepOutcome::Continue,
                    Some(i) => step_interrupted(v2, i, final(self)@, outcome),
                }
            }),
    {
        match instruction {
            Instruction::Iret {} => {
                let rsp = self.read_reg_u64(Reg(4));
                let new_rip = match self.memory.read_u64(rsp.wrapping_add(8)) {
                    Ok(x) => x,
                    Err(e) => {
                        return self.enter_interrupt(e);
                    },
                };
                let rflags = match self.memory.read_u64(rsp.wrapping_add(16)) {
                    Ok(x) => x,
                    Err(e) => {
                        return self.enter_interrupt(e);
                    },
                };
                let new_rsp = match self.memory.read_u64(rsp.wrapping_add(24)) {
                    Ok(x) => x,
                    Err(e) => {
                        return self.enter_interrupt(e);
                    },
                };
                self.instruction_pointer = new_rip;
                self.rflags = rflags;
                self.write_reg_u64(Reg(4), new_rsp);
                self.cpl = ((rflags as i64) >> 32) as i8;
                StepOutcome::Continue
            },
            Instruction::JmpRel8 { operand0 } => {
                self.instruction_pointer = self.instruction_pointer.wrapping_add(
                    (((operand0.0 as u8) as i8) as i64) as u64,
                ).wrapping_add(size);
                StepOutcome::Continue
            },
            Instruction::JmpRel32 { operand0 } => {
                self.instruction_pointer = self.instruction_pointer.wrapping_add(
                    (((operand0.0 as u32) as i32) as i64) as u64,
                ).wrapping_add(size);
                StepOutcome::Continue
            },
            _ => StepOutcome::Continue,
        }
    }

    /// Executes the privileged page-root load, per `spec_execute`.
    #[verifier::rlimit(100)]
    #[verifier::spinoff_prover]
    fn step_swi4(&mut self, instruction: Instruction, size: u64) -> (outcome: StepOutcome)
        requires
            old(self).wf(),
            instruction.wf(),
            instruction is Swi4,
        ensures
            final(self).wf(),
            ({
                let (v2, e) = spec_execute(old(self)@, instruction, size);
                match e {
                    None => final(self)@ == v2 && outcome == StepOutcome::Continue,
                    Some(i) => step_interrupted(v2, i, final(self)@, outcome),
                }
            }),
    {
        match instruction {
            Instruction::Swi4 { operand0 } => {
                if self.cpl > 0 {
                    return self.enter_interrupt(Interrupt::GeneralProtection);
                }
                let value = match self.read_rm_u64(operand0, size) {
                    Ok(x) => x,
                    Err(e) => {
                        return self.enter_interrupt(e);
                    },
                };
                self.memory.swi4(value);
                self.advance_rip(size);
                StepOutcome::Continue
            },
            _ => StepOutcome::Continue,
        }
    }

    /// Executes one move with an immediate source, per `spec_execute`.
    #[verifier::rlimit(100)]
    #[verifier::spinoff_prover]
    fn step_mov_imm(&mut self, instruction: Instruction, size: u64) -> (outcome: StepOutcome)
        requires
            old(self).wf(),
            instruction.wf(),
            instruction is MovReg8Imm || instruction is MovReg16Imm
                || instruction is MovReg32Imm || instruction is MovReg64Imm,
        ensures
            final(self).wf(),
            ({
                let (v2, e) = spec_execute(old(self)@, instruction, size);
                match e {
                    None => final(self)@ == v2 && outcome == StepOutcome::Continue,
                    Some(i) => step_interrupted(v2, i, final(self)@, outcome),
                }
            }),
    {
        match instruction {
            Instruction::MovReg8Imm { operand0, operand1 } => {
                self.write_reg_u8(operand0, operand1.0 as u8);
                self.advance_rip(size);
                StepOutcome::Continue
            },
            Instruction::MovReg16Imm { operand0, operand1 } => {
                self.write_reg_u16(operand0, operand1.0 as u16);
                self.advance_rip(size);
                StepOutcome::Continue
            },
            Instruction::MovReg32Imm { operand0, operand1 } => {
                self.write_reg_u32(operand0, operand1.0 as u32);
                self.advance_rip(size);
                StepOutcome::Continue
            },
            Instruction::MovReg64Imm { operand0, operand1 } => {
                self.write_reg_u64(operand0, operand1.0);
                self.advance_rip(size);
                StepOutcome::Continue
            },
            _ => StepOutcome::Continue,
        }
    }

    /// Executes one register-load move (`MovRegXRM`), per `spec_execute`.
    #[verifier::rlimit(100)]
    #[verifier::spinoff_prover]
    fn step_mov_load(&mut self, instruction: Instruction, size: u64) -> (outcome: StepOutcome)
        requires
            old(self).wf(),
            instruction.wf(),
            instruction is MovReg8RM || instruction is MovReg16RM
                || instruction is MovReg32RM || instruction is MovReg64RM,
        ensures
            final(self).wf(),
            ({
                let (v2, e) = spec_execute(old(self)@, instruction, size);
                match e {
                    None => final(self)@ == v2 && outcome == StepOutcome::Continue,
                    Some(i) => step_interrupted(v2, i, final(self)@, outcome),
                }
            }),
    {
        match instruction {
            Instruction::MovReg8RM { operand0, operand1 } => {
                let value = match self.read_rm_u8(operand1, size) {
                    Ok(x) => x,
                    Err(e) => {
                        return self.enter_interrupt(e);
                    },
                };
                self.write_reg_u8(operand0, value);
                self.advance_rip(size);
                StepOutcome::Continue
            },
            Instruction::MovReg16RM { operand0, operand1 } => {
                let value = match self.read_rm_u16(operand1, size) {
                    Ok(x) => x,
                    Err(e) => {
                        return self.enter_interrupt(e);
                    },
                };
                self.write_reg_u16(operand0, value);
                self.advance_rip(size);
                StepOutcome::Continue
            },
            Instruction::MovReg32RM { operand0, operand1 } => {
                let value = match self.read_rm_u32(operand1, size) {
                    Ok(x) => x,
                    Err(e) => {
                        return self.enter_interrupt(e);
                    },
                };
                self.write_reg_u32(operand0, value);
                self.advance_rip(size);
                StepOutcome::Continue
            },
            Instruction::MovReg64RM { operand0, operand1 } => {
                let value = match self.read_rm_u64(operand1, size) {
                    Ok(x) => x,
                    Err(e) => {
                        return self.enter_interrupt(e);
                    },
                };
                self.write_reg_u64(operand0, value);
                self.advance_rip(size);
                StepOutcome::Continue
            },
            _ => StepOutcome::Continue,
        }
    }

    /// Executes one register-store move (`MovRMXReg`), per `spec_execute`.
    #[verifier::rlimit(100)]
    #[verifier::spinoff_prover]
    fn step_mov_store(&mut self, instruction: Instruction, size: u64) -> (outcome: StepOutcome)
        requires
            old(self).wf(),
            instruction.wf(),
            instruction is MovRM8Reg || instruction is MovRM16Reg
                || instruction is MovRM32Reg || instruction is MovRM64Reg,
        ensures
            final(self).wf(),
            ({
                let (v2, e) = spec_execute(old(self)@, instruction, size);
                match e {
                    None => final(self)@ == v2 && outcome == StepOutcome::Continue,
                    Some(i) => step_interrupted(v2, i, final(self)@, outcome),
                }
            }),
    {
        match instruction {
            Instruction::MovRM8Reg { operand0, operand1 } => {
                let value = self.read_reg_u8(operand1);
                match self.write_rm_u8(operand0, value, size) {
                    Ok(()) => (),
                    Err(e) => {
                        return self.enter_interrupt(e);
                    },
                }
                self.advance_rip(size);
                StepOutcome::Continue
            },
            Instruction::MovRM16Reg { operand0, operand1 } => {
                let value = self.read_reg_u16(operand1);
                match self.write_rm_u16(operand0, value, size) {
                    Ok(()) => (),
                    Err(e) => {
                        return self.enter_interrupt(e);
                    },
                }
                self.advance_rip(size);
                StepOutcome::Continue
            },
            Instruction::MovRM32Reg { operand0, operand1 } => {
                let value = self.read_reg_u32(operand1);
                match self.write_rm_u32(operand0, value, size) {
                    Ok(()) => (),
                    Err(e) => {
                        return self.enter_interrupt(e);
                    },
                }
                self.advance_rip(size);
                StepOutcome::Continue
            },
            Instruction::MovRM64Reg { operand0, operand1 } => {
                let value = self.read_reg_u64(operand1);
                match self.write_rm_u64(operand0, value, size) {
                    Ok(()) => (),
                    Err(e) => {
                        return self.enter_interrupt(e);
                    },
                }
                self.advance_rip(size);
                StepOutcome::Continue
            },
            _ => StepOutcome::Continue,
        }
    }

    /// Executes one step of the machine: deliver a pending interrupt
    /// request if one is given, otherwise decode the instruction at `RIP`,
    /// execute it, and advance; any fault on the way is handed to the
    /// interrupt engine. The outcome reports a configuration-register write
    /// for the caller to log, or a fatal condition that ends the
    /// simulation. `spec_step` is the whole of what one step does.
    #[verifier::rlimit(100)]
    #[verifier::spinoff_prover]
    pub fn step_instruction(&mut self, pending_irq: u8) -> (outcome: StepOutcome)
        requires
            old(self).wf(),
        ensures
            final(self).wf(),
            spec_step(old(self)@, pending_irq, final(self)@, outcome),
    {
        if pending_irq != 0 {
            return self.enter_interrupt(Interrupt::IRQ(pending_irq));
        }
        let (instruction, size) = match decode(&self.memory, self.instruction_pointer) {
            Ok(t) => t,
            Err(e) => {
                return self.enter_interrupt(e);
            },
        };
        match instruction {
            Instruction::In8 { operand0 } => {
                if self.cpl > 0 {
                    return self.enter_interrupt(Interrupt::GeneralProtection);
                }
                let value = self.devices.in_u8(operand0.0 as u16);
                self.write_reg_u8(Reg(0), value);
                self.advance_rip(size);
                proof {
                    assert(self@ == port_in_result(old(self)@, size, value));
                }
                StepOutcome::Continue
            },
            Instruction::In8D {} => {
                if self.cpl > 0 {
                    return self.enter_interrupt(Interrupt::GeneralProtection);
                }
                let port = self.read_reg_u16(Reg(2));
                let value = self.devices.in_u8(port);
                self.write_reg_u8(Reg(0), value);
                self.advance_rip(size);
                proof {
                    assert(self@ == port_in_result(old(self)@, size, value));
                }
                StepOutcome::Continue
            },
            Instruction::In16 { operand0: _ } | Instruction::In16D {} | Instruction::Out16 {
                operand0: _,
            } => {
                if self.cpl > 0 {
                    return self.enter_interrupt(Interrupt::GeneralProtection);
                }
                StepOutcome::Fatal(FatalError::Unsupported16BitDevice)
            },
            Instruction::In32 { operand0: _ } | Instruction::In32D {} => {
                if self.cpl > 0 {
                    return self.enter_interrupt(Interrupt::GeneralProtection);
                }
                StepOutcome::Fatal(FatalError::Unsupported32BitDevice)
            },
            Instruction::Out8 { operand0 } => {
                if self.cpl > 0 {
                    return self.enter_interrupt(Interrupt::GeneralProtection);
                }
                let value = self.read_reg_u8(Reg(0));
                self.devices.out_u8(operand0.0 as u16, value);
                self.advance_rip(size);
                StepOutcome::Continue
            },
            Instruction::Out32 { operand0 } => {
                if self.cpl > 0 {
                    return self.enter_interrupt(Interrupt::GeneralProtection);
                }
                let value = self.read_reg_u32(Reg(0));
                self.devices.out_u32(operand0.0 as u16, value);
                self.advance_rip(size);
                StepOutcome::Continue
            },
            Instruction::Wrcr { operand0, operand1 } => {
                if self.cpl > 0 {
                    return self.enter_interrupt(Interrupt::GeneralProtection);
                }
                let value = match self.read_rm_u64(operand1, size) {
                    Ok(x) => x,
                    Err(e) => {
                        return self.enter_interrupt(e);
                    },
                };
                self.advance_rip(size);
                StepOutcome::ControlRegisterWrite { register: operand0.0 as u8, value }
            },
            Instruction::IncRM8 { .. } | Instruction::IncRM16 { .. } | Instruction::IncRM32 {
                ..
            } | Instruction::IncRM64 { .. } => self.step_inc(instruction, size),
            Instruction::Iret {} | Instruction::JmpRel8 { .. } | Instruction::JmpRel32 { .. } => {
                self.step_control(instruction, size)
            },
            Instruction::Swi4 { .. } => self.step_swi4(instruction, size),
            Instruction::MovReg8Imm { .. } | Instruction::MovReg16Imm { .. }
                | Instruction::MovReg32Imm { .. } | Instruction::MovReg64Imm { .. } => self
                .step_mov_imm(instruction, size),
            Instruction::MovReg8RM { .. } | Instruction::MovReg16RM { .. }
                | Instruction::MovReg32RM { .. } | Instruction::MovReg64RM { .. } => self
                .step_mov_load(instruction, size),
            Instruction::MovRM8Reg { .. } | Instruction::MovRM16Reg { .. }
                | Instruction::MovRM32Reg { .. } | Instruction::MovRM64Reg { .. } => self
                .step_mov_store(instruction, size),
        }
    }
}

} // verus!
