use rip8::decode::{get_next_opcode, parse_until_next_branch, Chip8Instruction, DecodeError};

#[test]
fn test_get_next_opcode() {
    let binary: Vec<u8> = vec![0xaa, 0xbb, 0xcc, 0xdd];
    let mut index = 0;
    let value = get_next_opcode(&binary, &mut index);
    let expected = 0xaabb;

    assert_eq!(expected, value, "{:#x}", value);
    assert_eq!(index, 2);
}

#[test]
fn test_parse_until_next_branch() {
    let binary: Vec<u8> = vec![];
    let mut addr = 0;
    let block = parse_until_next_branch(&binary, &mut addr).unwrap();
    assert_eq!(block, vec![Chip8Instruction::SYS(0)]);
    assert_eq!(addr, 2);
}

#[test]
fn next_opcode_at_last_byte_pads_with_zero() {
    let binary: Vec<u8> = vec![0x12, 0x34, 0x56];
    let mut index = 2;
    assert_eq!(get_next_opcode(&binary, &mut index), 0x5600);
    assert_eq!(index, 3);
    assert_eq!(get_next_opcode(&binary, &mut index), 0);
    assert_eq!(index, 3);
}

#[test]
fn decodes_every_family() {
    let cases: Vec<(u16, Chip8Instruction)> = vec![
        (0x00e0, Chip8Instruction::CLS),
        (0x00ee, Chip8Instruction::RET),
        (0x0123, Chip8Instruction::SYS(0x123)),
        (0x1abc, Chip8Instruction::JP1(0xabc)),
        (0x2300, Chip8Instruction::CALL(0x300)),
        (0x3a42, Chip8Instruction::SE1(0xa, 0x42)),
        (0x4b17, Chip8Instruction::SNE1(0xb, 0x17)),
        (0x5120, Chip8Instruction::SE2(1, 2)),
        (0x6cff, Chip8Instruction::LD1(0xc, 0xff)),
        (0x7d01, Chip8Instruction::ADD1(0xd, 0x01)),
        (0x8120, Chip8Instruction::LD2(1, 2)),
        (0x8121, Chip8Instruction::OR(1, 2)),
        (0x8122, Chip8Instruction::AND(1, 2)),
        (0x8123, Chip8Instruction::XOR(1, 2)),
        (0x8124, Chip8Instruction::ADD2(1, 2)),
        (0x8125, Chip8Instruction::SUB(1, 2)),
        (0x8126, Chip8Instruction::SHR(1)),
        (0x8127, Chip8Instruction::SUBN(1, 2)),
        (0x812e, Chip8Instruction::SHL(1)),
        (0x9340, Chip8Instruction::SNE2(3, 4)),
        (0xa123, Chip8Instruction::LD3(0x123)),
        (0xb456, Chip8Instruction::JP2(0x456)),
        (0xc70f, Chip8Instruction::RND(7, 0x0f)),
        (0xd125, Chip8Instruction::DRW(1, 2, 5)),
        (0xe39e, Chip8Instruction::SKP(3)),
        (0xe4a1, Chip8Instruction::SKNP(4)),
        (0xf507, Chip8Instruction::LD4(5)),
        (0xf60a, Chip8Instruction::LD5(6)),
        (0xf715, Chip8Instruction::LD6(7)),
        (0xf818, Chip8Instruction::LD7(8)),
        (0xf91e, Chip8Instruction::ADD3(9)),
        (0xfa29, Chip8Instruction::LD8(0xa)),
        (0xfb33, Chip8Instruction::LD9(0xb)),
        (0xfc55, Chip8Instruction::LD10(0xc)),
        (0xfd65, Chip8Instruction::LD11(0xd)),
    ];
    for (opcode, expected) in cases {
        assert_eq!(Chip8Instruction::from_opcode(opcode), Some(expected), "{:#x}", opcode);
    }
}

#[test]
fn unknown_patterns_do_not_decode() {
    for opcode in [0x5121u16, 0x8128, 0x812f, 0x9341, 0xe300, 0xf300, 0xffff] {
        assert_eq!(Chip8Instruction::from_opcode(opcode), None, "{:#x}", opcode);
    }
}

#[test]
fn terminators() {
    assert!(Chip8Instruction::RET.is_branch());
    assert!(Chip8Instruction::JP1(0x200).is_branch());
    assert!(Chip8Instruction::CALL(0x200).is_branch());
    assert!(Chip8Instruction::SE1(0, 0).is_branch());
    assert!(Chip8Instruction::SKNP(0).is_branch());
    assert!(Chip8Instruction::LD5(0).is_branch());
    assert!(!Chip8Instruction::LD1(0, 0).is_branch());
    assert!(!Chip8Instruction::DRW(0, 0, 1).is_branch());
    assert!(!Chip8Instruction::CLS.is_branch());
}

#[test]
fn unit_runs_to_first_terminator() {
    let binary: Vec<u8> = vec![0x60, 0x05, 0x70, 0x01, 0x12, 0x00, 0x60, 0x07];
    let mut addr = 0;
    let block = parse_until_next_branch(&binary, &mut addr).unwrap();
    assert_eq!(
        block,
        vec![
            Chip8Instruction::LD1(0, 5),
            Chip8Instruction::ADD1(0, 1),
            Chip8Instruction::JP1(0x200)
        ]
    );
    assert_eq!(addr, 6);
}

#[test]
fn unit_with_bad_word_fails() {
    let binary: Vec<u8> = vec![0x60, 0x05, 0xff, 0xff];
    let mut addr = 0;
    let r = parse_until_next_branch(&binary, &mut addr);
    assert_eq!(r, Err(DecodeError { pc: 2, word: 0xffff }));
}
