use rip8::decode::{Addr, ArgLd, ArgSe, ArgSne, Byte, Chip8Instruction, Vx, Vy};
use rip8::host::{HelperTable, Register, x86Instruction};
use rip8::layout::{get_field_offset, Chip8Field, I_OFFSET, PC_OFFSET, STACK_OFFSET};

fn table() -> HelperTable {
    HelperTable { cls: 0x1000, drw: 0x2000, skp: 0x3000, sknp: 0x4000, ld_k: 0x5000, ld_f: 0x6000, ld_b: 0x7000 }
}

#[test]
fn typed_operands_pick_the_form() {
    assert_eq!(<Chip8Instruction as ArgSe<Byte>>::se(Vx(1), Byte(7)), Chip8Instruction::SE1(1, 7));
    assert_eq!(<Chip8Instruction as ArgSe<Vy>>::se(Vx(1), Vy(2)), Chip8Instruction::SE2(1, 2));
    assert_eq!(<Chip8Instruction as ArgSne<Byte>>::sne(Vx(3), Byte(4)), Chip8Instruction::SNE1(3, 4));
    assert_eq!(<Chip8Instruction as ArgSne<Vy>>::sne(Vx(3), Vy(4)), Chip8Instruction::SNE2(3, 4));
    assert_eq!(<Chip8Instruction as ArgLd<Byte>>::ld(Vx(5), Byte(6)), Chip8Instruction::LD1(5, 6));
    assert_eq!(<Chip8Instruction as ArgLd<Vy>>::ld(Vx(5), Vy(6)), Chip8Instruction::LD2(5, 6));
    assert_eq!(Chip8Instruction::jp(Addr(0x345)), Chip8Instruction::JP1(0x345));
    assert_eq!(Chip8Instruction::call(Addr(0x345)), Chip8Instruction::CALL(0x345));
}

#[test]
fn field_offsets_follow_the_layout() {
    assert_eq!(get_field_offset(Chip8Field::Reg(0)), 4096);
    assert_eq!(get_field_offset(Chip8Field::Reg(15)), 4096 + 15 * 8);
    assert_eq!(get_field_offset(Chip8Field::I), I_OFFSET);
    assert_eq!(get_field_offset(Chip8Field::PC), PC_OFFSET);
    assert_eq!(get_field_offset(Chip8Field::Stack), STACK_OFFSET);
    assert_eq!(get_field_offset(Chip8Field::SP), 4256);
    assert_eq!(get_field_offset(Chip8Field::Delay), 4232);
    assert_eq!(get_field_offset(Chip8Field::Sound), 4240);
}

#[test]
fn from_chip8_jump() {
    let ops = x86Instruction::from_chip8(&Chip8Instruction::JP1(0x2a0), &table());
    assert_eq!(
        ops,
        vec![
            x86Instruction::MovImm { dst: Register::R8, imm: 0x2a0 },
            x86Instruction::Store { disp: PC_OFFSET, src: Register::R8 },
        ]
    );
}

#[test]
fn from_chip8_appends_pc_step() {
    let ops = x86Instruction::from_chip8(&Chip8Instruction::LD1(2, 9), &table());
    assert_eq!(ops.len(), 6);
    assert_eq!(ops[5], x86Instruction::Store { disp: PC_OFFSET, src: Register::R8 });
}

#[test]
fn encode_single_instructions() {
    assert_eq!(x86Instruction::Ret.encode(), Some(vec![0xc3]));
    assert_eq!(x86Instruction::Push { src: Register::Rbx }.encode(), Some(vec![0x53]));
    assert_eq!(x86Instruction::Pop { dst: Register::Rbx }.encode(), Some(vec![0x5b]));
    assert_eq!(x86Instruction::Mov { dst: Register::Rbx, src: Register::Rdi }.encode().map(|b| b.len()), Some(3));
    assert_eq!(x86Instruction::AndImm { dst: Register::R8, imm: 0x8000_0000 }.encode(), None);
}
