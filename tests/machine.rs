use rip8::chip8::{key_value, Chip8};
use rip8::decode::Chip8Instruction;
use rip8::host::HelperTable;
use rip8::jit::Cache;
use rip8::layout::{MAX_ROM_SIZE, PC_OFFSET, REGS_OFFSET, START_ADDRESS};
use rip8::state::{Chip8Error, Chip8State};

fn table() -> HelperTable {
    HelperTable { cls: 0x1000, drw: 0x2000, skp: 0x3000, sknp: 0x4000, ld_k: 0x5000, ld_f: 0x6000, ld_b: 0x7000 }
}

#[test]
fn rom_too_large() {
    assert_eq!(Chip8::new(&vec![0; MAX_ROM_SIZE + 1]).err(), Some(Chip8Error::RomTooLarge));
    assert!(Chip8::new(&vec![0; MAX_ROM_SIZE]).is_ok());
}

#[test]
fn initial_image() {
    let s = Chip8State::new(&vec![0x12, 0x34]).unwrap();
    assert_eq!(&s.mem[0..5], &[0xf0, 0x90, 0x90, 0x90, 0xf0]);
    assert_eq!(&s.mem[75..80], &[0xf0, 0x80, 0xf0, 0x80, 0x80]);
    assert_eq!(&s.mem[0x200..0x202], &[0x12, 0x34]);
    assert_eq!(s.mem[0x202], 0);
    assert_eq!((s.pc, s.sp, s.i), (START_ADDRESS, 0, 0));
    assert!(s.should_run);
}

#[test]
fn field_offsets() {
    assert_eq!(REGS_OFFSET, 4096);
    assert_eq!(PC_OFFSET, 4096 + 16 * 8 + 3 * 8);
}

#[test]
fn cache_compiles_once() {
    let s = Chip8State::new(&vec![0x60, 0x05, 0x12, 0x00]).unwrap();
    let mut cache = Cache::new();
    assert!(cache.lookup(0x200).is_none());
    let first = cache.get_or_compile(&s, &table()).unwrap();
    assert_eq!(first.start_addr, 0x200);
    assert_eq!(first.instructions, vec![Chip8Instruction::LD1(0, 5), Chip8Instruction::JP1(0x200)]);
    let bytes = first.code.to_vec();
    assert_eq!(bytes[0], 0x53);
    assert_eq!(*bytes.last().unwrap(), 0xc3);
    let again = cache.get_or_compile(&s, &table()).unwrap();
    assert_eq!(again.code.to_vec(), bytes);
    assert_eq!(cache.lookup(0x200).unwrap().start_addr, 0x200);
}

#[test]
fn cache_reports_decode_error() {
    let s = Chip8State::new(&vec![0x60, 0x05, 0xff, 0xff]).unwrap();
    let mut cache = Cache::new();
    let r = cache.get_or_compile(&s, &table()).err();
    assert_eq!(r, Some(Chip8Error::DecodeError { pc: 0x202, word: 0xffff }));
    assert!(cache.lookup(0x200).is_none());
}

#[test]
fn next_block_checks_entry() {
    let mut c = Chip8::new(&vec![0x00, 0xee]).unwrap();
    assert_eq!(c.next_block(&table()).err(), Some(Chip8Error::StackUnderflow));
    c.state.pc = 0x201;
    assert_eq!(c.next_block(&table()).err(), Some(Chip8Error::BadProgramCounter { pc: 0x201 }));
    c.state.pc = 0x1000;
    assert_eq!(c.next_block(&table()).err(), Some(Chip8Error::BadProgramCounter { pc: 0x1000 }));
}

#[test]
fn next_block_refuses_full_stack() {
    let mut c = Chip8::new(&vec![0x22, 0x00]).unwrap();
    c.state.sp = 16;
    assert_eq!(c.next_block(&table()).err(), Some(Chip8Error::StackOverflow));
    c.state.sp = 15;
    let b = c.next_block(&table()).unwrap();
    assert_eq!(b.instructions, vec![Chip8Instruction::CALL(0x200)]);
}

#[test]
fn timers_count_down_to_zero() {
    let mut c = Chip8::new(&vec![]).unwrap();
    c.state.delay = 2;
    c.state.sound = 0;
    c.tick_timers();
    assert_eq!((c.state.delay, c.state.sound), (1, 0));
    c.tick_timers();
    c.tick_timers();
    assert_eq!((c.state.delay, c.state.sound), (0, 0));
}

#[test]
fn keypad() {
    assert_eq!(key_value('1'), Some(0x1));
    assert_eq!(key_value('4'), Some(0xc));
    assert_eq!(key_value('q'), Some(0x4));
    assert_eq!(key_value('R'), Some(0xd));
    assert_eq!(key_value('x'), Some(0x0));
    assert_eq!(key_value('V'), Some(0xf));
    assert_eq!(key_value('P'), None);
    let mut c = Chip8::new(&vec![]).unwrap();
    c.set_key(0xa, true);
    assert!(c.state.keys[0xa]);
    c.set_key(0xa, false);
    assert!(!c.state.keys[0xa]);
}

#[test]
fn test_offset_mem() {
    assert_eq!(rip8::layout::get_field_offset(rip8::layout::Chip8Field::PC), 4248);
}
