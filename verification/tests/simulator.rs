use std::cell::RefCell;
use std::rc::Rc;

use simulator::device::{Device, PortDevices};
use simulator::instruction::{Immediate, Instruction, Reg, RM};
use simulator::interupt::Interrupt;
use simulator::memory::{
    ConventionalMemory, MemoryManagementUnit, MemoryModule, PhysicalMemoryManagementUnit,
    ReadOnlyMemory,
};
use simulator::decode::decode;
use simulator::state::{ProcessorState, StepOutcome};

struct TestDevice;

impl Device for TestDevice {
    fn out_u8(&mut self, _port: u16, _byte: u8) {}

    fn in_u8(&mut self, _port: u16) -> u8 {
        0x5A
    }
}

/// A machine with identity-style paging: virtual pages 0..8 map to physical
/// pages starting at 0x4000, and the guest code sits at virtual address 0.
fn machine(code: &[u8]) -> ProcessorState<TestDevice> {
    let mut pmu = PhysicalMemoryManagementUnit::new();
    assert!(pmu.add(
        0,
        1 << 20,
        MemoryModule::Conventional(ConventionalMemory::create(1 << 20))
    ));
    pmu.write_u64(0x0000, 0x1001);
    pmu.write_u64(0x1000, 0x2001);
    pmu.write_u64(0x2000, 0x3001);
    for i in 0..8u64 {
        pmu.write_u64(0x3000 + 8 * i, (0x4000 + i * 0x1000) | 1);
    }
    for (k, b) in code.iter().enumerate() {
        pmu.write_u8(0x4000 + k as u64, *b);
    }
    let memory = MemoryManagementUnit::new(pmu);
    let devices = PortDevices::new();
    ProcessorState::new(memory, devices)
}

#[test]
fn decode_mov() {
    // mov r15, 0
    let state = machine(&[0x49, 0xBF, 0, 0, 0, 0, 0, 0, 0, 0]);
    let (instruction, size) = decode(state.memory(), 0).unwrap();
    assert_eq!(size, 10);
    assert_eq!(
        instruction,
        Instruction::MovReg64Imm { operand0: Reg(15), operand1: Immediate(0) }
    );
    // mov rdx, 9993
    let state = machine(&[0x48, 0xBA, 0x09, 0x27, 0, 0, 0, 0, 0, 0]);
    let (instruction, size) = decode(state.memory(), 0).unwrap();
    assert_eq!(size, 10);
    assert_eq!(
        instruction,
        Instruction::MovReg64Imm { operand0: Reg(2), operand1: Immediate(9993) }
    );
}

#[test]
fn instruction_mov() {
    let mut state = machine(&[0x48, 0xBA, 0x09, 0x27, 0, 0, 0, 0, 0, 0]);
    assert_eq!(state.step_instruction(0), StepOutcome::Continue);
    assert_eq!(state.registers.primary_registers[2], 9993);
    assert_eq!(state.rip(), 10);
}

#[test]
fn inc_r8d_wraps_and_zero_extends() {
    // inc r8d
    let mut state = machine(&[0x41, 0xFF, 0xC0]);
    let (instruction, size) = decode(state.memory(), 0).unwrap();
    assert_eq!(size, 3);
    assert_eq!(instruction, Instruction::IncRM32 { operand0: RM::Reg(8) });
    state.registers.primary_registers[8] = 0xFFFF_FFFF;
    assert_eq!(state.step_instruction(0), StepOutcome::Continue);
    assert_eq!(state.registers.primary_registers[8], 0);
}

#[test]
fn jmp_short_tight_loop() {
    // jmp short -2
    let mut state = machine(&[0xEB, 0xFE]);
    let (instruction, size) = decode(state.memory(), 0).unwrap();
    assert_eq!(size, 2);
    assert_eq!(instruction, Instruction::JmpRel8 { operand0: Immediate(0xFE) });
    assert_eq!(state.step_instruction(0), StepOutcome::Continue);
    assert_eq!(state.rip(), 0);
}

#[test]
fn mov_rip_relative_store() {
    // mov [rip+0x10], rax
    let mut state = machine(&[0x48, 0x89, 0x05, 0x10, 0, 0, 0]);
    let (instruction, size) = decode(state.memory(), 0).unwrap();
    assert_eq!(size, 7);
    match instruction {
        Instruction::MovRM64Reg { operand0, operand1 } => {
            assert_eq!(
                operand0,
                RM::RipRel { displacement: 0x10, address_override: false }
            );
            assert_eq!(operand1, Reg(0));
        }
        other => panic!("unexpected decode: {:?}", other),
    }
    state.registers.primary_registers[0] = 0xDEAD_BEEF_CAFE_BABE;
    assert_eq!(state.step_instruction(0), StepOutcome::Continue);
    assert_eq!(state.rip(), 7);
    // RIP names the next instruction, so the store lands at the address
    // past the 7 consumed bytes plus the displacement.
    assert_eq!(state.memory().read_u64(7 + 0x10).unwrap(), 0xDEAD_BEEF_CAFE_BABE);
}

#[test]
fn narrow_writes_preserve_lanes() {
    // mov al, 0xAA
    let mut state = machine(&[0xB0, 0xAA]);
    state.registers.primary_registers[0] = 0x1122_3344_5566_7788;
    assert_eq!(state.step_instruction(0), StepOutcome::Continue);
    assert_eq!(state.registers.primary_registers[0], 0x1122_3344_5566_77AA);
    // mov eax, 0x12345678 zero-extends
    let mut state = machine(&[0xB8, 0x78, 0x56, 0x34, 0x12]);
    state.registers.primary_registers[0] = 0xFFFF_FFFF_FFFF_FFFF;
    assert_eq!(state.step_instruction(0), StepOutcome::Continue);
    assert_eq!(state.registers.primary_registers[0], 0x1234_5678);
    // mov cx, 0xBBCC preserves the upper 48 bits
    let mut state = machine(&[0x66, 0xB9, 0xCC, 0xBB]);
    state.registers.primary_registers[1] = 0x1122_3344_5566_7788;
    assert_eq!(state.step_instruction(0), StepOutcome::Continue);
    assert_eq!(state.registers.primary_registers[1], 0x1122_3344_5566_BBCC);
}

#[test]
fn prefix_repetition_decodes_the_same() {
    let once = machine(&[0x66, 0xB9, 0xCC, 0xBB]);
    let thrice = machine(&[0x66, 0x66, 0x66, 0xB9, 0xCC, 0xBB]);
    let (i1, s1) = decode(once.memory(), 0).unwrap();
    let (i2, s2) = decode(thrice.memory(), 0).unwrap();
    assert_eq!(i1, i2);
    assert_eq!(s1, 4);
    assert_eq!(s2, 6);
}

#[test]
fn mmu_round_trip() {
    let mut pmu = PhysicalMemoryManagementUnit::new();
    assert!(pmu.add(
        0,
        1 << 20,
        MemoryModule::Conventional(ConventionalMemory::create(1 << 20))
    ));
    pmu.write_u64(0x0000, 0x1001);
    pmu.write_u64(0x1000, 0x2001);
    pmu.write_u64(0x2000, 0x3001);
    for i in 0..8u64 {
        pmu.write_u64(0x3000 + 8 * i, (0x4000 + i * 0x1000) | 1);
    }
    let mut mmu = MemoryManagementUnit::new(pmu);
    mmu.write_u64(0x2345, 0xA1B2_C3D4_E5F6_0718).unwrap();
    assert_eq!(mmu.read_u64(0x2345).unwrap(), 0xA1B2_C3D4_E5F6_0718);
}

#[test]
fn non_canonical_access_is_general_protection() {
    let state = machine(&[]);
    let va = 0x0000_8000_0000_0000u64;
    assert_eq!(state.memory().read_u8(va), Err(Interrupt::GeneralProtection));
    assert_eq!(state.memory().read_u64(va), Err(Interrupt::GeneralProtection));
}

#[test]
fn page_fault_reports_cr2() {
    let state = machine(&[]);
    // Virtual page 9 has a non-present leaf entry.
    assert_eq!(
        state.memory().read_u8(0x9123),
        Err(Interrupt::PageFault { error_code: 0, cr2: 0x9123 })
    );
    // An unmapped high address faults at the root level with the same CR2.
    assert_eq!(
        state.memory().read_u8(0x7F00_0000_0000),
        Err(Interrupt::PageFault { error_code: 0, cr2: 0x7F00_0000_0000 })
    );
}

#[test]
fn unmapped_physical_reads_ff_and_rom_ignores_writes() {
    let mut pmu = PhysicalMemoryManagementUnit::new();
    let rom = ReadOnlyMemory::create(&[1, 2, 3], 16);
    assert!(pmu.add(0x100, 16, MemoryModule::ReadOnly(rom)));
    pmu.write_u8(0x100, 0xAA);
    // ROM kept its contents; unmapped addresses read 0xFF.
    let lo = pmu.read_u64(0x100);
    assert_eq!(lo & 0xFF_FFFF, 0x030201);
    assert_eq!(pmu.read_u64(0x0), 0xFFFF_FFFF_FFFF_FFFF);
    // Overlapping ranges are refused.
    assert!(!pmu.add(0x108, 16, MemoryModule::Conventional(ConventionalMemory::create(16))));
}

#[test]
fn undefined_opcode_without_idt_triple_faults() {
    // Opcode 0x90 is not in the table; with an IDT whose entries are not
    // present, entry escalates to double then triple fault.
    let mut state = machine(&[0x90]);
    assert_eq!(
        state.step_instruction(0),
        StepOutcome::Fatal(simulator::state::FatalError::TripleFault)
    );
}

#[test]
fn interrupt_entry_frames_the_old_state() {
    let mut pmu = PhysicalMemoryManagementUnit::new();
    assert!(pmu.add(
        0,
        1 << 20,
        MemoryModule::Conventional(ConventionalMemory::create(1 << 20))
    ));
    pmu.write_u64(0x0000, 0x1001);
    pmu.write_u64(0x1000, 0x2001);
    pmu.write_u64(0x2000, 0x3001);
    for i in 0..8u64 {
        pmu.write_u64(0x3000 + 8 * i, (0x4000 + i * 0x1000) | 1);
    }
    // Guest code at va 0: mov al, [0x9000] — virtual page 9 is non-present,
    // so execution page-faults with CR2 = 0x9000.
    for (k, b) in [0x8Au8, 0x04, 0x25, 0x00, 0x90, 0x00, 0x00].iter().enumerate() {
        pmu.write_u8(0x4000 + k as u64, *b);
    }
    // IDT at va 0x1800 (pa 0x5800): vector 0x0E present, rpl 0, service
    // routine at va 0x500.
    pmu.write_u8(0x5800 + 0xE0, 1);
    pmu.write_u64(0x5800 + 0xE0 + 8, 0x500);
    let memory = MemoryManagementUnit::new(pmu);
    let mut state: ProcessorState<TestDevice> = ProcessorState::new(memory, PortDevices::new());
    state.idt = 0x1800;
    state.registers.primary_registers[4] = 0x3800;
    assert_eq!(state.step_instruction(0), StepOutcome::Continue);
    assert_eq!(state.rip(), 0x500);
    assert_eq!(state.privilege_level(), 0);
    assert_eq!(state.cr2(), 0x9000);
    assert_eq!(state.registers.primary_registers[4], 0x3800 - 32);
    let m = state.memory();
    assert_eq!(m.read_u64(0x3800 - 8).unwrap(), 0x3800); // old rsp
    assert_eq!(m.read_u64(0x3800 - 16).unwrap(), 0); // (cpl << 32) | rflags
    assert_eq!(m.read_u64(0x3800 - 24).unwrap(), 0); // old rip
    assert_eq!(m.read_u64(0x3800 - 32).unwrap(), 0); // error code
}

#[test]
fn iret_restores_the_frame() {
    let mut pmu = PhysicalMemoryManagementUnit::new();
    assert!(pmu.add(
        0,
        1 << 20,
        MemoryModule::Conventional(ConventionalMemory::create(1 << 20))
    ));
    pmu.write_u64(0x0000, 0x1001);
    pmu.write_u64(0x1000, 0x2001);
    pmu.write_u64(0x2000, 0x3001);
    for i in 0..8u64 {
        pmu.write_u64(0x3000 + 8 * i, (0x4000 + i * 0x1000) | 1);
    }
    // iret at va 0, and a 32-byte interrupt frame at va 0x37E0 recording
    // rip 0x1234, (cpl 3 << 32) | rflags 0x46, and rsp 0x2000.
    pmu.write_u8(0x4000, 0xCF);
    pmu.write_u64(0x4000 + 0x37E0, 0); // error code
    pmu.write_u64(0x4000 + 0x37E8, 0x1234);
    pmu.write_u64(0x4000 + 0x37F0, (3u64 << 32) | 0x46);
    pmu.write_u64(0x4000 + 0x37F8, 0x2000);
    let memory = MemoryManagementUnit::new(pmu);
    let mut state: ProcessorState<TestDevice> = ProcessorState::new(memory, PortDevices::new());
    state.registers.primary_registers[4] = 0x37E0;
    assert_eq!(state.step_instruction(0), StepOutcome::Continue);
    assert_eq!(state.rip(), 0x1234);
    assert_eq!(state.flags_register(), (3u64 << 32) | 0x46);
    assert_eq!(state.registers.primary_registers[4], 0x2000);
    assert_eq!(state.privilege_level(), 3);
}

struct Recorder(Rc<RefCell<Vec<(u16, u8)>>>);

impl Device for Recorder {
    fn out_u8(&mut self, port: u16, byte: u8) {
        self.0.borrow_mut().push((port, byte));
    }

    fn in_u8(&mut self, _port: u16) -> u8 {
        0x11
    }
}

#[test]
fn port_out32_splits_and_unassigned_ports_read_ff() {
    let log: Rc<RefCell<Vec<(u16, u8)>>> = Rc::new(RefCell::new(Vec::new()));
    let mut bus: PortDevices<Recorder> = PortDevices::new();
    bus.add(&[0x10, 0x11, 0x12], Recorder(log.clone()));
    assert_eq!(bus.in_u8(0x10), 0x11);
    assert_eq!(bus.in_u8(0x99), 0xFF);
    // The 32-bit write splits little-endian over ports 0x10..0x14; only the
    // three assigned ports reach the device, as its local ports 0, 1, 2.
    bus.out_u32(0x10, 0xDDCC_BBAA);
    assert_eq!(*log.borrow(), vec![(0, 0xAA), (1, 0xBB), (2, 0xCC)]);
    // A write to an unassigned port is a silent no-op.
    bus.out_u8(0x7000, 0x42);
    assert_eq!(log.borrow().len(), 3);
}

#[test]
fn in_from_unassigned_port_reads_ff_into_al() {
    // in al, 0x40 — the machine has no devices, so the port yields 0xFF,
    // which lands in the low lane of register 0 with the rest preserved.
    let mut state = machine(&[0xE4, 0x40]);
    state.registers.primary_registers[0] = 0x1122_3344_5566_7788;
    assert_eq!(state.step_instruction(0), StepOutcome::Continue);
    assert_eq!(state.registers.primary_registers[0], 0x1122_3344_5566_77FF);
    assert_eq!(state.rip(), 2);
}

#[test]
fn wrcr_surfaces_the_logged_write() {
    // wrcr 0x05, rax — a logged effect with no state change beyond RIP.
    let mut state = machine(&[0x3F, 0xC0, 0x05]);
    state.registers.primary_registers[0] = 0xABCD;
    assert_eq!(
        state.step_instruction(0),
        StepOutcome::ControlRegisterWrite { register: 5, value: 0xABCD }
    );
    assert_eq!(state.rip(), 3);
}

#[test]
fn control_register_ops_fault_above_cpl0() {
    // An IRET at va 0 drops to privilege level 3 and lands on a swi4 rax
    // at va 2: the page-root load is privileged, so it raises general
    // protection, and with an empty IDT the machine triple-faults.
    let mut pmu = PhysicalMemoryManagementUnit::new();
    assert!(pmu.add(
        0,
        1 << 20,
        MemoryModule::Conventional(ConventionalMemory::create(1 << 20))
    ));
    pmu.write_u64(0x0000, 0x1001);
    pmu.write_u64(0x1000, 0x2001);
    pmu.write_u64(0x2000, 0x3001);
    for i in 0..8u64 {
        pmu.write_u64(0x3000 + 8 * i, (0x4000 + i * 0x1000) | 1);
    }
    for (k, b) in [0xCFu8, 0x00, 0x3F, 0xC8].iter().enumerate() {
        pmu.write_u8(0x4000 + k as u64, *b);
    }
    pmu.write_u64(0x4000 + 0x37E8, 2); // frame: rip' = 2
    pmu.write_u64(0x4000 + 0x37F0, 3u64 << 32); // frame: cpl' = 3
    pmu.write_u64(0x4000 + 0x37F8, 0x3000_0); // frame: rsp'
    let memory = MemoryManagementUnit::new(pmu);
    let mut state: ProcessorState<TestDevice> = ProcessorState::new(memory, PortDevices::new());
    state.registers.primary_registers[4] = 0x37E0;
    assert_eq!(state.step_instruction(0), StepOutcome::Continue);
    assert_eq!(state.privilege_level(), 3);
    assert_eq!(state.rip(), 2);
    assert_eq!(
        state.step_instruction(0),
        StepOutcome::Fatal(simulator::state::FatalError::TripleFault)
    );
}
