use rust_os::cpu::Cpu;
use rust_os::instr::{Instruction, InstructionBlock, InstructionType};
use rust_os::pcb::{Pcb, Status};

#[test]
fn cpu_registers_are_bounds_checked() {
    let mut cpu = Cpu::new();
    assert_eq!(cpu.instr_ptr, 0);
    assert_eq!(cpu.registers, [0; 6]);
    assert_eq!(cpu.set_reg(5, 0x1234), Ok(()));
    assert_eq!(cpu.get_reg(5), Ok(0x1234));
    assert_eq!(cpu.set_reg(6, 1), Err(()));
    assert_eq!(cpu.get_reg(6), Err(()));
    assert_eq!(cpu.registers, [0, 0, 0, 0, 0, 0x1234]);
    let init = Cpu::init();
    assert_eq!(init.registers, [0; 6]);
}

#[test]
fn instruction_operands() {
    let ins = Instruction::from_bytes([0x21, 0x01, 0x02, 0x03]);
    assert_eq!(ins.get_type(), Some(InstructionType::Add));
    assert_eq!(ins.get_reg_1(), 1);
    assert_eq!(ins.get_reg_2(), 2);
    assert_eq!(ins.get_reg_3(), 3);
    assert_eq!(ins.get_literal_1(), 0x0102);
    assert_eq!(ins.get_literal_2(), 0x0203);
    let w = Instruction::from_word(0x1201_002A);
    assert_eq!(w.bytes, [0x12, 0x01, 0x00, 0x2A]);
    assert_eq!(w.get_type(), Some(InstructionType::LoadConstant));
}

#[test]
fn every_opcode_decodes() {
    let table = [
        (0x11u8, InstructionType::Load),
        (0x12, InstructionType::LoadConstant),
        (0x13, InstructionType::Store),
        (0x21, InstructionType::Add),
        (0x22, InstructionType::Subtract),
        (0x23, InstructionType::Multiply),
        (0x24, InstructionType::Divide),
        (0x25, InstructionType::Equal),
        (0x31, InstructionType::Goto),
        (0x32, InstructionType::GotoIf),
        (0x41, InstructionType::CharPrint),
        (0x42, InstructionType::CharRead),
        (0xFF, InstructionType::Exit),
    ];
    for (b, t) in table {
        assert_eq!(Instruction::from_bytes([b, 0, 0, 0]).get_type(), Some(t));
    }
    for b in [0x00u8, 0x10, 0x14, 0x26, 0x33, 0x43, 0xFE] {
        assert_eq!(Instruction::from_bytes([b, 0, 0, 0]).get_type(), None);
    }
}

#[test]
fn instruction_block_checks_size() {
    assert!(InstructionBlock::new(&[]).is_err());
    assert!(InstructionBlock::new(&[0x12, 0x01, 0x00]).is_err());
    assert!(InstructionBlock::new(&[0u8; 1028]).is_err());
    assert!(InstructionBlock::new(&[0xFFu8; 1024]).is_ok());
}

#[test]
fn instruction_block_addressing() {
    let blk = InstructionBlock::new(&[0x12, 0x01, 0x00, 0x2A, 0xFF, 0x00, 0x00, 0x00]).unwrap();
    assert_eq!(blk.get_instruction_at(0).unwrap().bytes, [0x12, 0x01, 0x00, 0x2A]);
    assert_eq!(blk.get_instruction_at(4).unwrap().bytes, [0xFF, 0, 0, 0]);
    assert!(blk.get_instruction_at(2).is_err());
    assert!(blk.get_instruction_at(8).is_err());
    assert!(blk.get_instruction_at(0x100).is_err());
}

#[test]
fn pcb_context_save_and_load() {
    let blk = InstructionBlock::new(&[0xFF, 0, 0, 0]).unwrap();
    let mut pcb = Pcb::new(3, "prog".to_string(), blk);
    assert_eq!(pcb.get_id(), 3);
    assert_eq!(pcb.get_status(), Status::New);
    assert_eq!(pcb.get_instr_ptr(), 0);
    assert_eq!(pcb.get_stack(), &[0u8; 64][..]);
    let mut cpu = Cpu::new();
    cpu.instr_ptr = 0x10;
    cpu.registers = [1, 2, 3, 4, 5, 6];
    pcb.save_cpu_ctx(&cpu);
    let mut other = Cpu::new();
    pcb.load_cpu_ctx(&mut other);
    assert_eq!(other.instr_ptr, 0x10);
    assert_eq!(other.registers, [1, 2, 3, 4, 5, 6]);
    pcb.set_status(Status::Blocked);
    pcb.set_instr_ptr(8);
    pcb.set_id(4);
    assert_eq!(pcb.get_status(), Status::Blocked);
    assert_eq!(pcb.get_instr_ptr(), 8);
    assert_eq!(pcb.get_id(), 4);
    pcb.get_stack_mut()[5] = 9;
    assert_eq!(pcb.stack.bytes[5], 9);
    assert!(pcb.get_instr_blk().get_instruction_at(0).is_ok());
}
