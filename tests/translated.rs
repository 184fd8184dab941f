use rip8::decode::Chip8Instruction;
use rip8::host::HelperTable;
use rip8::layout::{START_ADDRESS, VF};
use rip8::sim::execute_translated;
use rip8::state::Chip8State;

fn table() -> HelperTable {
    HelperTable { cls: 0x1000, drw: 0x2000, skp: 0x3000, sknp: 0x4000, ld_k: 0x5000, ld_f: 0x6000, ld_b: 0x7000 }
}

fn fresh() -> Chip8State {
    Chip8State::new(&vec![]).unwrap()
}

fn exec(state: &mut Chip8State, ins: Chip8Instruction) {
    assert!(execute_translated(state, ins, &table(), &vec![0x5a5a]));
}

#[test]
fn add_register_carries_into_vf() {
    let mut s = fresh();
    s.regs[0] = 0x02;
    s.regs[1] = 0xff;
    exec(&mut s, Chip8Instruction::ADD2(0, 1));
    assert_eq!(s.regs[0], 0x01);
    assert_eq!(s.regs[VF as usize], 1);
    assert_eq!(s.pc, START_ADDRESS + 2);
}

#[test]
fn add_byte_wraps_and_leaves_vf() {
    let mut s = fresh();
    s.regs[0] = 0x02;
    s.regs[0xf] = 7;
    exec(&mut s, Chip8Instruction::ADD1(0, 0xff));
    assert_eq!(s.regs[0], 0x01);
    assert_eq!(s.regs[0xf], 7);
}

#[test]
fn sub_with_borrow() {
    let mut s = fresh();
    s.regs[0] = 0x05;
    s.regs[1] = 0x07;
    exec(&mut s, Chip8Instruction::SUB(0, 1));
    assert_eq!(s.regs[0], 0xfe);
    assert_eq!(s.regs[0xf], 0);
}

#[test]
fn subn_without_borrow() {
    let mut s = fresh();
    s.regs[0] = 0x05;
    s.regs[1] = 0x07;
    exec(&mut s, Chip8Instruction::SUBN(0, 1));
    assert_eq!(s.regs[0], 0x02);
    assert_eq!(s.regs[0xf], 1);
}

#[test]
fn shr_shifts_out_low_bit() {
    let mut s = fresh();
    s.regs[0] = 0x03;
    exec(&mut s, Chip8Instruction::SHR(0));
    assert_eq!(s.regs[0], 0x01);
    assert_eq!(s.regs[0xf], 1);
}

#[test]
fn shl_shifts_out_high_bit() {
    let mut s = fresh();
    s.regs[2] = 0x81;
    exec(&mut s, Chip8Instruction::SHL(2));
    assert_eq!(s.regs[2], 0x02);
    assert_eq!(s.regs[0xf], 1);
}

#[test]
fn load_then_read() {
    let mut s = fresh();
    exec(&mut s, Chip8Instruction::LD1(7, 0x9c));
    assert_eq!(s.regs[7], 0x9c);
}

#[test]
fn add_then_sub_restores_register() {
    let mut s = fresh();
    s.regs[3] = 0xf0;
    s.regs[4] = 0x20;
    exec(&mut s, Chip8Instruction::ADD1(3, 0x20));
    assert_eq!(s.regs[3], 0x10);
    assert_eq!(s.regs[0xf], 0);
    exec(&mut s, Chip8Instruction::SUB(3, 4));
    assert_eq!(s.regs[3], 0xf0);
    assert_eq!(s.regs[0xf], 0);
}

#[test]
fn bitwise_ops() {
    let mut s = fresh();
    s.regs[0] = 0b1100;
    s.regs[1] = 0b1010;
    exec(&mut s, Chip8Instruction::OR(0, 1));
    assert_eq!(s.regs[0], 0b1110);
    exec(&mut s, Chip8Instruction::AND(0, 1));
    assert_eq!(s.regs[0], 0b1010);
    exec(&mut s, Chip8Instruction::XOR(0, 1));
    assert_eq!(s.regs[0], 0);
}

#[test]
fn call_then_ret() {
    let mut s = fresh();
    assert_eq!((s.pc, s.sp), (0x200, 0));
    exec(&mut s, Chip8Instruction::CALL(0x300));
    assert_eq!((s.pc, s.sp), (0x300, 1));
    assert_eq!(s.stack[0], 0x202);
    exec(&mut s, Chip8Instruction::RET);
    assert_eq!((s.pc, s.sp), (0x202, 0));
}

#[test]
fn draw_and_redraw() {
    let mut s = fresh();
    s.i = 0x300;
    s.mem[0x300] = 0xf0;
    exec(&mut s, Chip8Instruction::DRW(0, 1, 1));
    for x in 0..8 {
        assert_eq!(s.fb[x], x < 4, "pixel {}", x);
    }
    assert_eq!(s.regs[0xf], 0);
    exec(&mut s, Chip8Instruction::DRW(0, 1, 1));
    assert!(s.fb.iter().all(|p| !p));
    assert_eq!(s.regs[0xf], 1);
}

#[test]
fn draw_wraps_origin_and_clips_edge() {
    let mut s = fresh();
    s.i = 0x300;
    s.mem[0x300] = 0xff;
    s.regs[0] = 64 + 60;
    s.regs[1] = 32 + 31;
    exec(&mut s, Chip8Instruction::DRW(0, 1, 2));
    let row = 31 * 64;
    for x in 0..64 {
        assert_eq!(s.fb[row + x], x >= 60, "pixel {}", x);
    }
    assert_eq!(s.fb.iter().filter(|p| **p).count(), 4);
}

#[test]
fn skips_on_equal() {
    let mut s = fresh();
    s.regs[2] = 9;
    exec(&mut s, Chip8Instruction::SE1(2, 9));
    assert_eq!(s.pc, 0x204);
    exec(&mut s, Chip8Instruction::SNE1(2, 9));
    assert_eq!(s.pc, 0x206);
    s.regs[3] = 9;
    exec(&mut s, Chip8Instruction::SE2(2, 3));
    assert_eq!(s.pc, 0x20a);
    exec(&mut s, Chip8Instruction::SNE2(2, 3));
    assert_eq!(s.pc, 0x20c);
}

#[test]
fn jumps() {
    let mut s = fresh();
    exec(&mut s, Chip8Instruction::JP1(0x345));
    assert_eq!(s.pc, 0x345);
    s.regs[0] = 0x10;
    exec(&mut s, Chip8Instruction::JP2(0x300));
    assert_eq!(s.pc, 0x310);
    exec(&mut s, Chip8Instruction::SYS(0x123));
    assert_eq!(s.pc, 0x312);
}

#[test]
fn index_and_timers() {
    let mut s = fresh();
    exec(&mut s, Chip8Instruction::LD3(0xffe));
    assert_eq!(s.i, 0xffe);
    s.regs[5] = 3;
    exec(&mut s, Chip8Instruction::ADD3(5));
    assert_eq!(s.i, 1);
    exec(&mut s, Chip8Instruction::LD6(5));
    exec(&mut s, Chip8Instruction::LD7(5));
    assert_eq!((s.delay, s.sound), (3, 3));
    exec(&mut s, Chip8Instruction::LD4(6));
    assert_eq!(s.regs[6], 3);
    exec(&mut s, Chip8Instruction::LD2(7, 6));
    assert_eq!(s.regs[7], 3);
}

#[test]
fn random_masks_entropy() {
    let mut s = fresh();
    assert!(execute_translated(&mut s, Chip8Instruction::RND(4, 0x0f), &table(), &vec![0xabcd]));
    assert_eq!(s.regs[4], 0x0d);
}

#[test]
fn bcd_and_font() {
    let mut s = fresh();
    s.regs[1] = 234;
    s.i = 0x400;
    exec(&mut s, Chip8Instruction::LD9(1));
    assert_eq!(&s.mem[0x400..0x403], &[2, 3, 4]);
    s.regs[2] = 0xa;
    exec(&mut s, Chip8Instruction::LD8(2));
    assert_eq!(s.i, 50);
}

#[test]
fn store_and_load_registers() {
    let mut s = fresh();
    for k in 0..16 {
        s.regs[k] = (k as u64) * 3;
    }
    s.i = 0xffe;
    exec(&mut s, Chip8Instruction::LD10(3));
    assert_eq!(s.mem[0xffe], 0);
    assert_eq!(s.mem[0xfff], 3);
    assert_eq!(s.mem[0], 6);
    assert_eq!(s.mem[1], 9);
    assert_eq!(s.i, 0xffe);
    let mut t = fresh();
    t.i = 0xffe;
    t.mem = s.mem.clone();
    exec(&mut t, Chip8Instruction::LD11(3));
    assert_eq!(&t.regs[0..5], &[0, 3, 6, 9, 0]);
}

#[test]
fn key_instructions() {
    let mut s = fresh();
    s.regs[0] = 0x1e;
    exec(&mut s, Chip8Instruction::SKP(0));
    assert_eq!(s.pc, 0x202);
    s.keys[0xe] = true;
    exec(&mut s, Chip8Instruction::SKP(0));
    assert_eq!(s.pc, 0x206);
    exec(&mut s, Chip8Instruction::SKNP(0));
    assert_eq!(s.pc, 0x208);
    exec(&mut s, Chip8Instruction::LD5(3));
    assert_eq!((s.regs[3], s.pc), (0xe, 0x20a));
    s.keys[0xe] = false;
    exec(&mut s, Chip8Instruction::LD5(3));
    assert_eq!(s.pc, 0x20a);
}

#[test]
fn clear_screen() {
    let mut s = fresh();
    s.fb[5] = true;
    exec(&mut s, Chip8Instruction::CLS);
    assert!(s.fb.iter().all(|p| !p));
    assert_eq!(s.pc, 0x202);
}
