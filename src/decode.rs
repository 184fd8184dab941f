//! Decoding of CHIP-8 opcodes and discovery of translation units.
use vstd::prelude::*;

verus! {

pub type Opcode = u16;

/// One decoded CHIP-8 instruction. Register operands are `0..16`, byte
/// operands are `kk`, address operands are the 12-bit `nnn`.
#[derive(Debug, Clone, Copy, PartialEq, Eq, Structural, Hash)]
pub enum Chip8Instruction {
    /// 00E0: clear the screen.
    CLS,
    /// 00EE: return from a subroutine.
    RET,
    /// 0nnn: machine-code call, ignored.
    SYS(u16),
    /// 1nnn: jump.
    JP1(u16),
    /// 2nnn: call.
    CALL(u16),
    /// 3xkk: skip if `u8 == kk`.
    SE1(u8, u8),
    /// 4xkk: skip if `u8 != kk`.
    SNE1(u8, u8),
    /// 5xy0: skip if `u8 == u8`.
    SE2(u8, u8),
    /// 6xkk: `u8 = kk`.
    LD1(u8, u8),
    /// 7xkk: `u8 += kk`, VF untouched.
    ADD1(u8, u8),
    /// 8xy0: `u8 = u8`.
    LD2(u8, u8),
    /// 8xy1
    OR(u8, u8),
    /// 8xy2
    AND(u8, u8),
    /// 8xy3
    XOR(u8, u8),
    /// 8xy4: add with carry into VF.
    ADD2(u8, u8),
    /// 8xy5: subtract, VF = no borrow.
    SUB(u8, u8),
    /// 8xy6: shift right, VF = bit shifted out.
    SHR(u8),
    /// 8xy7: `u8 = u8 - u8`, VF = no borrow.
    SUBN(u8, u8),
    /// 8xyE: shift left, VF = bit shifted out.
    SHL(u8),
    /// 9xy0: skip if `u8 != u8`.
    SNE2(u8, u8),
    /// Annn: `I = nnn`.
    LD3(u16),
    /// Bnnn: jump to `V0 + nnn`.
    JP2(u16),
    /// Cxkk: `u8 = random & kk`.
    RND(u8, u8),
    /// Dxyn: draw an `n`-row sprite.
    DRW(u8, u8, u8),
    /// Ex9E: skip if key `u8` is pressed.
    SKP(u8),
    /// ExA1: skip if key `u8` is not pressed.
    SKNP(u8),
    /// Fx07: `u8 = DT`.
    LD4(u8),
    /// Fx0A: wait for a key, `u8 = key`.
    LD5(u8),
    /// Fx15: `DT = u8`.
    LD6(u8),
    /// Fx18: `ST = u8`.
    LD7(u8),
    /// Fx1E: `I += u8`.
    ADD3(u8),
    /// Fx29: `I = u8 * 5`, the font sprite of digit `u8`.
    LD8(u8),
    /// Fx33: BCD of `u8` at `mem[I..I+3]`.
    LD9(u8),
    /// Fx55: store `V0..=u8` at `mem[I..]`.
    LD10(u8),
    /// Fx65: load `V0..=u8` from `mem[I..]`.
    LD11(u8),
}

/// An opcode that is no CHIP-8 instruction, with the address it was read at.
#[derive(Debug, Clone, Copy, PartialEq, Eq, Structural)]
pub struct DecodeError {
    pub pc: u64,
    pub word: u16,
}

pub open spec fn x_of(op: u16) -> u8 {
    ((op >> 8u16) & 0xfu16) as u8
}

pub open spec fn y_of(op: u16) -> u8 {
    ((op >> 4u16) & 0xfu16) as u8
}

pub open spec fn n_of(op: u16) -> u8 {
    (op & 0xfu16) as u8
}

pub open spec fn kk_of(op: u16) -> u8 {
    (op & 0xffu16) as u8
}

pub open spec fn nnn_of(op: u16) -> u16 {
    op & 0xfffu16
}

/// The CHIP-8 instruction set, by opcode.
pub open spec fn decode_spec(op: u16) -> Option<Chip8Instruction> {
    let (x, y, n, kk, nnn) = (x_of(op), y_of(op), n_of(op), kk_of(op), nnn_of(op));
    let top = op >> 12u16;
    if top == 0 {
        if op == 0x00e0 {
            Some(Chip8Instruction::CLS)
        } else if op == 0x00ee {
            Some(Chip8Instruction::RET)
        } else {
            Some(Chip8Instruction::SYS(nnn))
        }
    } else if top == 1 {
        Some(Chip8Instruction::JP1(nnn))
    } else if top == 2 {
        Some(Chip8Instruction::CALL(nnn))
    } else if top == 3 {
        Some(Chip8Instruction::SE1(x, kk))
    } else if top == 4 {
        Some(Chip8Instruction::SNE1(x, kk))
    } else if top == 5 {
        if n == 0 { Some(Chip8Instruction::SE2(x, y)) } else { None }
    } else if top == 6 {
        Some(Chip8Instruction::LD1(x, kk))
    } else if top == 7 {
        Some(Chip8Instruction::ADD1(x, kk))
    } else if top == 8 {
        if n == 0 {
            Some(Chip8Instruction::LD2(x, y))
        } else if n == 1 {
            Some(Chip8Instruction::OR(x, y))
        } else if n == 2 {
            Some(Chip8Instruction::AND(x, y))
        } else if n == 3 {
            Some(Chip8Instruction::XOR(x, y))
        } else if n == 4 {
            Some(Chip8Instruction::ADD2(x, y))
        } else if n == 5 {
            Some(Chip8Instruction::SUB(x, y))
        } else if n == 6 {
            Some(Chip8Instruction::SHR(x))
        } else if n == 7 {
            Some(Chip8Instruction::SUBN(x, y))
        } else if n == 0xe {
            Some(Chip8Instruction::SHL(x))
        } else {
            None
        }
    } else if top == 9 {
        if n == 0 { Some(Chip8Instruction::SNE2(x, y)) } else { None }
    } else if top == 0xa {
        Some(Chip8Instruction::LD3(nnn))
    } else if top == 0xb {
        Some(Chip8Instruction::JP2(nnn))
    } else if top == 0xc {
        Some(Chip8Instruction::RND(x, kk))
    } else if top == 0xd {
        Some(Chip8Instruction::DRW(x, y, n))
    } else if top == 0xe {
        if kk == 0x9e {
            Some(Chip8Instruction::SKP(x))
        } else if kk == 0xa1 {
            Some(Chip8Instruction::SKNP(x))
        } else {
            None
        }
    } else {
        if kk == 0x07 {
            Some(Chip8Instruction::LD4(x))
        } else if kk == 0x0a {
            Some(Chip8Instruction::LD5(x))
        } else if kk == 0x15 {
            Some(Chip8Instruction::LD6(x))
        } else if kk == 0x18 {
            Some(Chip8Instruction::LD7(x))
        } else if kk == 0x1e {
            Some(Chip8Instruction::ADD3(x))
        } else if kk == 0x29 {
            Some(Chip8Instruction::LD8(x))
        } else if kk == 0x33 {
            Some(Chip8Instruction::LD9(x))
        } else if kk == 0x55 {
            Some(Chip8Instruction::LD10(x))
        } else if kk == 0x65 {
            Some(Chip8Instruction::LD11(x))
        } else {
            None
        }
    }
}

/// Instructions that close a translation unit: those whose next PC is not
/// known at translation time, and `LD Vx, K`, which parks the PC on itself
/// until a key is down.
pub open spec fn is_terminator(ins: Chip8Instruction) -> bool {
    match ins {
        Chip8Instruction::RET | Chip8Instruction::SYS(_) | Chip8Instruction::JP1(_)
        | Chip8Instruction::CALL(_) | Chip8Instruction::JP2(_) | Chip8Instruction::SE1(_, _)
        | Chip8Instruction::SNE1(_, _) | Chip8Instruction::SE2(_, _) | Chip8Instruction::SNE2(
            _,
            _,
        ) | Chip8Instruction::SKP(_) | Chip8Instruction::SKNP(_) | Chip8Instruction::LD5(_) => true,
        _ => false,
    }
}

/// Every operand lies in its field's range.
pub open spec fn operands_in_range(ins: Chip8Instruction) -> bool {
    match ins {
        Chip8Instruction::CLS | Chip8Instruction::RET => true,
        Chip8Instruction::SYS(a) | Chip8Instruction::JP1(a) | Chip8Instruction::CALL(a)
        | Chip8Instruction::LD3(a) | Chip8Instruction::JP2(a) => a < 0x1000,
        Chip8Instruction::SE1(x, _) | Chip8Instruction::SNE1(x, _) | Chip8Instruction::LD1(x, _)
        | Chip8Instruction::ADD1(x, _) | Chip8Instruction::RND(x, _) => x < 16,
        Chip8Instruction::SE2(x, y) | Chip8Instruction::LD2(x, y) | Chip8Instruction::OR(x, y)
        | Chip8Instruction::AND(x, y) | Chip8Instruction::XOR(x, y) | Chip8Instruction::ADD2(x, y)
        | Chip8Instruction::SUB(x, y) | Chip8Instruction::SUBN(x, y) | Chip8Instruction::SNE2(
            x,
            y,
        ) => x < 16 && y < 16,
        Chip8Instruction::DRW(x, y, n) => x < 16 && y < 16 && n < 16,
        Chip8Instruction::SHR(x) | Chip8Instruction::SHL(x) | Chip8Instruction::SKP(x)
        | Chip8Instruction::SKNP(x) | Chip8Instruction::LD4(x) | Chip8Instruction::LD5(x)
        | Chip8Instruction::LD6(x) | Chip8Instruction::LD7(x) | Chip8Instruction::ADD3(x)
        | Chip8Instruction::LD8(x) | Chip8Instruction::LD9(x) | Chip8Instruction::LD10(x)
        | Chip8Instruction::LD11(x) => x < 16,
    }
}

pub proof fn lemma_decoded_operands_in_range(op: u16)
    ensures
        decode_spec(op) is Some ==> operands_in_range(decode_spec(op)->0),
{
    assert((op >> 8u16) & 0xfu16 < 16) by (bit_vector);
    assert((op >> 4u16) & 0xfu16 < 16) by (bit_vector);
    assert(op & 0xfu16 < 16) by (bit_vector);
    assert(op & 0xfffu16 < 0x1000) by (bit_vector);
}

pub fn get_nnn_or_addr(opcode: Opcode) -> (r: u16)
    ensures
        r == nnn_of(opcode),
        r < 0x1000,
{
    assert(opcode & 0xfffu16 < 0x1000) by (bit_vector);
    opcode & 0xfff
}

pub fn get_n_or_nibble(opcode: Opcode) -> (r: u8)
    ensures
        r == n_of(opcode),
        r < 16,
{
    assert(opcode & 0xfu16 < 16) by (bit_vector);
    (opcode & 0xf) as u8
}

pub fn get_x(opcode: Opcode) -> (r: u8)
    ensures
        r == x_of(opcode),
        r < 16,
{
    assert((opcode >> 8u16) & 0xfu16 < 16) by (bit_vector);
    ((opcode >> 8) & 0xf) as u8
}

pub fn get_y(opcode: Opcode) -> (r: u8)
    ensures
        r == y_of(opcode),
        r < 16,
{
    assert((opcode >> 4u16) & 0xfu16 < 16) by (bit_vector);
    ((opcode >> 4) & 0xf) as u8
}

pub fn get_kk_or_byte(opcode: Opcode) -> (r: u8)
    ensures
        r == kk_of(opcode),
{
    (opcode & 0xff) as u8
}

/// Opcodes whose top nibble is 0.
pub fn handle_0(opcode: Opcode) -> (r: Option<Chip8Instruction>)
    requires
        opcode >> 12u16 == 0,
    ensures
        r == decode_spec(opcode),
{
    if opcode == 0x00e0 {
        Some(Chip8Instruction::CLS)
    } else if opcode == 0x00ee {
        Some(Chip8Instruction::RET)
    } else {
        Some(Chip8Instruction::SYS(get_nnn_or_addr(opcode)))
    }
}

/// Register-register arithmetic, top nibble 8.
pub fn handle_8(opcode: Opcode) -> (r: Option<Chip8Instruction>)
    requires
        opcode >> 12u16 == 8,
    ensures
        r == decode_spec(opcode),
{
    let x = get_x(opcode);
    let y = get_y(opcode);
    match get_n_or_nibble(opcode) {
        0x0 => Some(Chip8Instruction::LD2(x, y)),
        0x1 => Some(Chip8Instruction::OR(x, y)),
        0x2 => Some(Chip8Instruction::AND(x, y)),
        0x3 => Some(Chip8Instruction::XOR(x, y)),
        0x4 => Some(Chip8Instruction::ADD2(x, y)),
        0x5 => Some(Chip8Instruction::SUB(x, y)),
        0x6 => Some(Chip8Instruction::SHR(x)),
        0x7 => Some(Chip8Instruction::SUBN(x, y)),
        0xe => Some(Chip8Instruction::SHL(x)),
        _ => None,
    }
}

/// Key skips, top nibble E.
pub fn handle_e(opcode: Opcode) -> (r: Option<Chip8Instruction>)
    requires
        opcode >> 12u16 == 0xe,
    ensures
        r == decode_spec(opcode),
{
    match get_kk_or_byte(opcode) {
        0x9e => Some(Chip8Instruction::SKP(get_x(opcode))),
        0xa1 => Some(Chip8Instruction::SKNP(get_x(opcode))),
        _ => None,
    }
}

/// Timer, key, index and memory transfers, top nibble F.
pub fn handle_f(opcode: Opcode) -> (r: Option<Chip8Instruction>)
    requires
        opcode >> 12u16 == 0xf,
    ensures
        r == decode_spec(opcode),
{
    let x = get_x(opcode);
    match get_kk_or_byte(opcode) {
        0x07 => Some(Chip8Instruction::LD4(x)),
        0x0a => Some(Chip8Instruction::LD5(x)),
        0x15 => Some(Chip8Instruction::LD6(x)),
        0x18 => Some(Chip8Instruction::LD7(x)),
        0x1e => Some(Chip8Instruction::ADD3(x)),
        0x29 => Some(Chip8Instruction::LD8(x)),
        0x33 => Some(Chip8Instruction::LD9(x)),
        0x55 => Some(Chip8Instruction::LD10(x)),
        0x65 => Some(Chip8Instruction::LD11(x)),
        _ => None,
    }
}

impl Chip8Instruction {
    /// Decodes one opcode; `None` where no instruction has that bit pattern.
    pub fn from_opcode(opcode: Opcode) -> (r: Option<Chip8Instruction>)
        ensures
            r == decode_spec(opcode),
    {
        let x = get_x(opcode);
        let y = get_y(opcode);
        let kk = get_kk_or_byte(opcode);
        let nnn = get_nnn_or_addr(opcode);
        let first_hex = opcode >> 12;
        assert(opcode >> 12u16 < 16) by (bit_vector);
        match first_hex {
            0x0 => handle_0(opcode),
            0x1 => Some(Self::JP1(nnn)),
            0x2 => Some(Self::CALL(nnn)),
            0x3 => Some(Self::SE1(x, kk)),
            0x4 => Some(Self::SNE1(x, kk)),
            0x5 => if get_n_or_nibble(opcode) == 0 {
                Some(Self::SE2(x, y))
            } else {
                None
            },
            0x6 => Some(Self::LD1(x, kk)),
            0x7 => Some(Self::ADD1(x, kk)),
            0x8 => handle_8(opcode),
            0x9 => if get_n_or_nibble(opcode) == 0 {
                Some(Self::SNE2(x, y))
            } else {
                None
            },
            0xa => Some(Self::LD3(nnn)),
            0xb => Some(Self::JP2(nnn)),
            0xc => Some(Self::RND(x, kk)),
            0xd => Some(Self::DRW(x, y, get_n_or_nibble(opcode))),
            0xe => handle_e(opcode),
            _ => handle_f(opcode),
        }
    }

    /// Whether this instruction closes a translation unit.
    pub fn is_branch(&self) -> (r: bool)
        ensures
            r == is_terminator(*self),
    {
        match self {
            Self::RET | Self::SYS(_) | Self::JP1(_) | Self::CALL(_) | Self::JP2(_) => true,
            Self::SE1(_, _) | Self::SNE1(_, _) | Self::SE2(_, _) | Self::SNE2(_, _) => true,
            Self::SKP(_) | Self::SKNP(_) | Self::LD5(_) => true,
            _ => false,
        }
    }
}

/// The big-endian word at `addr`; bytes past the end read as zero.
pub open spec fn opcode_at(bin: Seq<u8>, addr: int) -> u16 {
    let hi: int = if 0 <= addr < bin.len() { bin[addr] as int } else { 0 };
    let lo: int = if 0 <= addr + 1 < bin.len() { bin[addr + 1] as int } else { 0 };
    (hi * 256 + lo) as u16
}

/// Reads the opcode at `*addr` and moves `*addr` past the bytes it read.
pub fn get_next_opcode(binary_content: &Vec<u8>, addr: &mut usize) -> (r: Opcode)
    ensures
        r == opcode_at(binary_content@, *old(addr) as int),
        *final(addr) == if *old(addr) >= binary_content.len() {
            *old(addr) as int
        } else if *old(addr) + 1 >= binary_content.len() {
            *old(addr) + 1
        } else {
            *old(addr) + 2
        },
{
    let mut opcode: Opcode = 0;
    if *addr < binary_content.len() {
        opcode = (binary_content[*addr] as u16) * 256;
        *addr = *addr + 1;
        if *addr < binary_content.len() {
            opcode = opcode + binary_content[*addr] as u16;
            *addr = *addr + 1;
        }
    }
    opcode
}

/// The translation unit that starts at `addr`: the instructions up to and
/// including the first terminator, or the first undecodable word. Reading
/// runs on past the end of `bin` as zeros, which decode to a terminator.
pub open spec fn block_from(bin: Seq<u8>, addr: nat) -> Result<Seq<Chip8Instruction>, DecodeError>
    decreases bin.len() + 2 - addr,
{
    let op = opcode_at(bin, addr as int);
    match decode_spec(op) {
        None => Err(DecodeError { pc: addr as u64, word: op }),
        Some(ins) => if is_terminator(ins) || addr >= bin.len() {
            Ok(seq![ins])
        } else {
            match block_from(bin, addr + 2) {
                Ok(rest) => Ok(seq![ins] + rest),
                Err(e) => Err(e),
            }
        },
    }
}

/// Decodes the translation unit at `*addr`, leaving `*addr` after its last
/// instruction.
pub fn parse_until_next_branch(binary_content: &Vec<u8>, addr: &mut usize) -> (r: Result<
    Vec<Chip8Instruction>,
    DecodeError,
>)
    requires
        binary_content.len() + 4 < usize::MAX,
        *old(addr) <= binary_content.len(),
    ensures
        match (r, block_from(binary_content@, *old(addr) as nat)) {
            (Ok(b), Ok(s)) => b@ == s && *final(addr) == *old(addr) + 2 * s.len(),
            (Err(e), Err(f)) => e == f,
            _ => false,
        },
{
    let ghost start = *old(addr);
    let mut block: Vec<Chip8Instruction> = Vec::new();
    loop
        invariant
            binary_content.len() + 4 < usize::MAX,
            start == *old(addr),
            start <= *addr,
            *addr == start + 2 * block@.len(),
            *addr <= binary_content.len() + 2,
            block_from(binary_content@, start as nat) == match block_from(
                binary_content@,
                *addr as nat,
            ) {
                Ok(rest) => Ok(block@ + rest),
                Err(e) => Err(e),
            },
        decreases binary_content.len() + 2 - *addr,
    {
        let pc = *addr;
        let mut cursor = *addr;
        let opcode = get_next_opcode(binary_content, &mut cursor);
        match Chip8Instruction::from_opcode(opcode) {
            None => {
                assert(block_from(binary_content@, pc as nat) == Err::<Seq<Chip8Instruction>, DecodeError>(
                    DecodeError { pc: pc as u64, word: opcode },
                ));
                return Err(DecodeError { pc: pc as u64, word: opcode });
            },
            Some(instruction) => {
                let ghost before = block@;
                block.push(instruction);
                *addr = pc + 2;
                if instruction.is_branch() || pc >= binary_content.len() {
                    assert(block@ =~= before + seq![instruction]);
                    return Ok(block);
                }
                proof {
                    match block_from(binary_content@, *addr as nat) {
                        Ok(rest) => {
                            assert(before + (seq![instruction] + rest) =~= block@ + rest);
                        },
                        Err(e) => {},
                    }
                }
            },
        }
    }
}

/// A decoded unit holds at least one instruction.
pub proof fn lemma_block_nonempty(bin: Seq<u8>, addr: nat)
    ensures
        block_from(bin, addr) matches Ok(s) ==> s.len() > 0,
    decreases bin.len() + 2 - addr,
{
    if let Some(ins) = decode_spec(opcode_at(bin, addr as int)) {
        if !(is_terminator(ins) || addr >= bin.len()) {
            lemma_block_nonempty(bin, addr + 2);
        }
    }
}

/// A first register operand.
#[derive(Debug, Clone, Copy, PartialEq, Eq, Structural, Hash)]
pub struct Vx(pub u8);

/// A second register operand.
#[derive(Debug, Clone, Copy, PartialEq, Eq, Structural, Hash)]
pub struct Vy(pub u8);

/// A byte operand.
#[derive(Debug, Clone, Copy, PartialEq, Eq, Structural, Hash)]
pub struct Byte(pub u8);

/// A 12-bit address operand.
#[derive(Debug, Clone, Copy, PartialEq, Eq, Structural, Hash)]
pub struct Addr(pub u16);

/// `SE Vx, _`: skip if equal, against a byte or a register.
pub trait ArgSe<T> {
    spec fn se_spec(vx: Vx, arg2: T) -> Chip8Instruction;

    fn se(vx: Vx, arg2: T) -> (r: Chip8Instruction)
        ensures
            r == Self::se_spec(vx, arg2),
    ;
}

/// `SNE Vx, _`: skip if not equal, against a byte or a register.
pub trait ArgSne<T> {
    spec fn sne_spec(vx: Vx, arg2: T) -> Chip8Instruction;

    fn sne(vx: Vx, arg2: T) -> (r: Chip8Instruction)
        ensures
            r == Self::sne_spec(vx, arg2),
    ;
}

/// `LD Vx, _`: load a byte or a register into `Vx`.
pub trait ArgLd<T> {
    spec fn ld_spec(vx: Vx, arg2: T) -> Chip8Instruction;

    fn ld(vx: Vx, arg2: T) -> (r: Chip8Instruction)
        ensures
            r == Self::ld_spec(vx, arg2),
    ;
}

impl ArgSe<Byte> for Chip8Instruction {
    open spec fn se_spec(vx: Vx, arg2: Byte) -> Chip8Instruction {
        Chip8Instruction::SE1(vx.0, arg2.0)
    }

    fn se(vx: Vx, arg2: Byte) -> (r: Chip8Instruction) {
        Chip8Instruction::SE1(vx.0, arg2.0)
    }
}

impl ArgSe<Vy> for Chip8Instruction {
    open spec fn se_spec(vx: Vx, arg2: Vy) -> Chip8Instruction {
        Chip8Instruction::SE2(vx.0, arg2.0)
    }

    fn se(vx: Vx, arg2: Vy) -> (r: Chip8Instruction) {
        Chip8Instruction::SE2(vx.0, arg2.0)
    }
}

impl ArgSne<Byte> for Chip8Instruction {
    open spec fn sne_spec(vx: Vx, arg2: Byte) -> Chip8Instruction {
        Chip8Instruction::SNE1(vx.0, arg2.0)
    }

    fn sne(vx: Vx, arg2: Byte) -> (r: Chip8Instruction) {
        Chip8Instruction::SNE1(vx.0, arg2.0)
    }
}

impl ArgSne<Vy> for Chip8Instruction {
    open spec fn sne_spec(vx: Vx, arg2: Vy) -> Chip8Instruction {
        Chip8Instruction::SNE2(vx.0, arg2.0)
    }

    fn sne(vx: Vx, arg2: Vy) -> (r: Chip8Instruction) {
        Chip8Instruction::SNE2(vx.0, arg2.0)
    }
}

impl ArgLd<Byte> for Chip8Instruction {
    open spec fn ld_spec(vx: Vx, arg2: Byte) -> Chip8Instruction {
        Chip8Instruction::LD1(vx.0, arg2.0)
    }

    fn ld(vx: Vx, arg2: Byte) -> (r: Chip8Instruction) {
        Chip8Instruction::LD1(vx.0, arg2.0)
    }
}

impl ArgLd<Vy> for Chip8Instruction {
    open spec fn ld_spec(vx: Vx, arg2: Vy) -> Chip8Instruction {
        Chip8Instruction::LD2(vx.0, arg2.0)
    }

    fn ld(vx: Vx, arg2: Vy) -> (r: Chip8Instruction) {
        Chip8Instruction::LD2(vx.0, arg2.0)
    }
}

impl Chip8Instruction {
    /// `JP addr`.
    pub fn jp(addr: Addr) -> (r: Chip8Instruction)
        ensures
            r == Chip8Instruction::JP1(addr.0),
    {
        Chip8Instruction::JP1(addr.0)
    }

    /// `CALL addr`.
    pub fn call(addr: Addr) -> (r: Chip8Instruction)
        ensures
            r == Chip8Instruction::CALL(addr.0),
    {
        Chip8Instruction::CALL(addr.0)
    }
}

} // verus!
