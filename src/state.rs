//! The guest state record and its mathematical model.
use vstd::prelude::*;
use crate::layout::{
    AMOUNT_KEYS, AMOUNT_REGISTERS, FONT_SIZE, MAX_AMOUNT_STACK, MAX_ROM_SIZE, MEM_SIZE,
    START_ADDRESS, WINDOW_SIZE,
};

verus! {

/// Fatal conditions of the emulator.
#[derive(Debug, Clone, Copy, PartialEq, Eq, Structural)]
pub enum Chip8Error {
    /// The ROM does not fit between `START_ADDRESS` and the end of memory.
    RomTooLarge,
    /// An undecodable word at `pc`.
    DecodeError { pc: u64, word: u16 },
    /// CALL with a full stack.
    StackOverflow,
    /// RET with an empty stack.
    StackUnderflow,
    /// A block would start at an odd address or past the last instruction.
    BadProgramCounter { pc: u64 },
    /// The assembler refused the emitted instructions.
    EncodeFailed,
    /// An executable mapping could not be made.
    OutOfMemory,
}

/// The guest state. Every register, timer and stack slot is held in 64
/// bits, as translated code reads and writes it.
#[derive(Debug)]
pub struct Chip8State {
    pub mem: Vec<u8>,
    pub regs: Vec<u64>,
    pub i: u64,
    pub delay: u64,
    pub sound: u64,
    pub pc: u64,
    pub sp: u64,
    pub stack: Vec<u64>,
    pub fb: Vec<bool>,
    pub keys: Vec<bool>,
    pub should_run: bool,
}

/// The model of a `Chip8State`.
pub struct StateView {
    pub mem: Seq<u8>,
    pub regs: Seq<u64>,
    pub i: u64,
    pub delay: u64,
    pub sound: u64,
    pub pc: u64,
    pub sp: u64,
    pub stack: Seq<u64>,
    pub fb: Seq<bool>,
    pub keys: Seq<bool>,
    pub should_run: bool,
}

impl View for Chip8State {
    type V = StateView;

    open spec fn view(&self) -> StateView {
        StateView {
            mem: self.mem@,
            regs: self.regs@,
            i: self.i,
            delay: self.delay,
            sound: self.sound,
            pc: self.pc,
            sp: self.sp,
            stack: self.stack@,
            fb: self.fb@,
            keys: self.keys@,
            should_run: self.should_run,
        }
    }
}

impl StateView {
    /// Every array has its fixed length.
    pub open spec fn wf(self) -> bool {
        &&& self.mem.len() == MEM_SIZE
        &&& self.regs.len() == AMOUNT_REGISTERS
        &&& self.stack.len() == MAX_AMOUNT_STACK
        &&& self.fb.len() == WINDOW_SIZE
        &&& self.keys.len() == AMOUNT_KEYS
    }

    /// The invariant that every state reached by the guest holds at the
    /// start of a block.
    pub open spec fn valid(self) -> bool {
        &&& self.wf()
        &&& self.pc % 2 == 0
        &&& self.pc < MEM_SIZE
        &&& self.sp <= MAX_AMOUNT_STACK
        &&& forall|k: int| 0 <= k < AMOUNT_REGISTERS ==> #[trigger] self.regs[k] < 256
        &&& self.i < MEM_SIZE
        &&& self.delay < 256
        &&& self.sound < 256
    }

    /// Everything but the program counter's alignment and range: what
    /// every instruction preserves.
    pub open spec fn sane(self) -> bool {
        &&& self.wf()
        &&& self.sp <= MAX_AMOUNT_STACK
        &&& forall|k: int| 0 <= k < AMOUNT_REGISTERS ==> #[trigger] self.regs[k] < 256
        &&& self.i < MEM_SIZE
        &&& self.delay < 256
        &&& self.sound < 256
    }
}

pub open spec fn font_spec() -> Seq<u8> {
    seq![
        0xf0u8, 0x90, 0x90, 0x90, 0xf0, 0x20, 0x60, 0x20, 0x20, 0x70,
        0xf0, 0x10, 0xf0, 0x80, 0xf0, 0xf0, 0x10, 0xf0, 0x10, 0xf0,
        0x90, 0x90, 0xf0, 0x10, 0x10, 0xf0, 0x80, 0xf0, 0x10, 0xf0,
        0xf0, 0x80, 0xf0, 0x90, 0xf0, 0xf0, 0x10, 0x20, 0x40, 0x40,
        0xf0, 0x90, 0xf0, 0x90, 0xf0, 0xf0, 0x90, 0xf0, 0x10, 0xf0,
        0xf0, 0x90, 0xf0, 0x90, 0x90, 0xe0, 0x90, 0xe0, 0x90, 0xe0,
        0xf0, 0x80, 0x80, 0x80, 0xf0, 0xe0, 0x90, 0x90, 0x90, 0xe0,
        0xf0, 0x80, 0xf0, 0x80, 0xf0, 0xf0, 0x80, 0xf0, 0x80, 0x80,
    ]
}

/// The hex-digit sprites, 5 bytes each, for 0 to F.
pub fn font() -> (r: Vec<u8>)
    ensures
        r@ == font_spec(),
{
    let r: Vec<u8> = vec![
        0xf0u8, 0x90, 0x90, 0x90, 0xf0, 0x20, 0x60, 0x20, 0x20, 0x70,
        0xf0, 0x10, 0xf0, 0x80, 0xf0, 0xf0, 0x10, 0xf0, 0x10, 0xf0,
        0x90, 0x90, 0xf0, 0x10, 0x10, 0xf0, 0x80, 0xf0, 0x10, 0xf0,
        0xf0, 0x80, 0xf0, 0x90, 0xf0, 0xf0, 0x10, 0x20, 0x40, 0x40,
        0xf0, 0x90, 0xf0, 0x90, 0xf0, 0xf0, 0x90, 0xf0, 0x10, 0xf0,
        0xf0, 0x90, 0xf0, 0x90, 0x90, 0xe0, 0x90, 0xe0, 0x90, 0xe0,
        0xf0, 0x80, 0x80, 0x80, 0xf0, 0xe0, 0x90, 0x90, 0x90, 0xe0,
        0xf0, 0x80, 0xf0, 0x80, 0xf0, 0xf0, 0x80, 0xf0, 0x80, 0x80,
    ];
    assert(r@ =~= font_spec());
    r
}

pub fn binary_is_valid(binary: &Vec<u8>) -> (r: bool)
    ensures
        r == (binary.len() <= MAX_ROM_SIZE),
{
    binary.len() <= MAX_ROM_SIZE
}

/// The memory image of a ROM: the font at `0..80`, the ROM from
/// `START_ADDRESS` on, zeros elsewhere.
pub open spec fn image_byte(rom: Seq<u8>, a: int) -> u8 {
    if a < FONT_SIZE {
        font_spec()[a]
    } else if START_ADDRESS <= a < START_ADDRESS + rom.len() {
        rom[a - START_ADDRESS]
    } else {
        0
    }
}

/// The state a program starts in.
pub open spec fn initial_state(rom: Seq<u8>) -> StateView {
    StateView {
        mem: Seq::new(MEM_SIZE as nat, |a: int| image_byte(rom, a)),
        regs: Seq::new(AMOUNT_REGISTERS as nat, |k: int| 0u64),
        i: 0,
        delay: 0,
        sound: 0,
        pc: START_ADDRESS,
        sp: 0,
        stack: Seq::new(MAX_AMOUNT_STACK as nat, |k: int| 0u64),
        fb: Seq::new(WINDOW_SIZE as nat, |k: int| false),
        keys: Seq::new(AMOUNT_KEYS as nat, |k: int| false),
        should_run: true,
    }
}

impl Chip8State {
    /// Loads a ROM; fails with `RomTooLarge` where it does not fit above
    /// `START_ADDRESS`.
    pub fn new(binary_content: &Vec<u8>) -> (r: Result<Chip8State, Chip8Error>)
        ensures
            binary_content.len() > MAX_ROM_SIZE ==> r == Err::<Chip8State, Chip8Error>(
                Chip8Error::RomTooLarge,
            ),
            binary_content.len() <= MAX_ROM_SIZE ==> r is Ok && r->Ok_0@ == initial_state(
                binary_content@,
            ),
            r is Ok ==> r->Ok_0@.valid(),
    {
        if !binary_is_valid(binary_content) {
            return Err(Chip8Error::RomTooLarge);
        }
        let font = font();
        let mut mem: Vec<u8> = Vec::new();
        let mut a: usize = 0;
        while a < MEM_SIZE
            invariant
                binary_content.len() <= MAX_ROM_SIZE,
                font@ == font_spec(),
                a <= MEM_SIZE,
                mem@.len() == a,
                forall|b: int| 0 <= b < a ==> mem@[b] == image_byte(binary_content@, b),
            decreases MEM_SIZE - a,
        {
            let byte = if a < FONT_SIZE {
                font[a]
            } else if START_ADDRESS as usize <= a && a < START_ADDRESS as usize
                + binary_content.len() {
                binary_content[a - START_ADDRESS as usize]
            } else {
                0
            };
            mem.push(byte);
            a = a + 1;
        }
        let state = Chip8State {
            mem,
            regs: vec![0u64; AMOUNT_REGISTERS],
            i: 0,
            delay: 0,
            sound: 0,
            pc: START_ADDRESS,
            sp: 0,
            stack: vec![0u64; MAX_AMOUNT_STACK],
            fb: vec![false; WINDOW_SIZE],
            keys: vec![false; AMOUNT_KEYS],
            should_run: true,
        };
        assert(state@.mem =~= initial_state(binary_content@).mem);
        assert(state@.regs =~= initial_state(binary_content@).regs);
        assert(state@.stack =~= initial_state(binary_content@).stack);
        assert(state@.fb =~= initial_state(binary_content@).fb);
        assert(state@.keys =~= initial_state(binary_content@).keys);
        Ok(state)
    }
}

} // verus!
