//! The emulator's decisions between blocks: which block runs next and
//! whether it may run, the 60 Hz timers, and the keypad.
use vstd::prelude::*;
use crate::decode::Chip8Instruction;
use crate::host::HelperTable;
use crate::jit::{compile_result, Cache, CompileBlock, compiled_from};
use crate::layout::{AMOUNT_KEYS, MAX_AMOUNT_STACK, MAX_ROM_SIZE, MEM_SIZE};
use crate::state::{initial_state, Chip8Error, Chip8State};

verus! {

/// The guest state and the translated blocks.
#[derive(Debug)]
pub struct Chip8 {
    pub state: Chip8State,
    pub cache: Cache,
}

/// Why a block cannot start on `s`, if it cannot: the PC must be even and
/// inside memory, and a block that ends in `CALL` needs a free stack slot,
/// one that ends in `RET` a return address.
pub open spec fn entry_error(pc: u64, sp: u64, last: Chip8Instruction) -> Option<Chip8Error> {
    if last is CALL && sp >= MAX_AMOUNT_STACK {
        Some(Chip8Error::StackOverflow)
    } else if last is RET && sp == 0 {
        Some(Chip8Error::StackUnderflow)
    } else {
        None
    }
}

/// Whether the guest PC may start a block.
pub fn pc_is_valid(pc: u64) -> (r: bool)
    ensures
        r == (pc % 2 == 0 && pc < MEM_SIZE),
{
    pc % 2 == 0 && pc < MEM_SIZE as u64
}

/// The stack fault that the block's last instruction would raise on a
/// state with stack pointer `sp`, if any.
pub fn stack_check(sp: u64, last: Chip8Instruction) -> (r: Result<(), Chip8Error>)
    ensures
        r matches Err(e) ==> entry_error(0, sp, last) == Some(e),
        r is Ok ==> entry_error(0, sp, last) is None,
{
    match last {
        Chip8Instruction::CALL(_) => if sp >= MAX_AMOUNT_STACK as u64 {
            Err(Chip8Error::StackOverflow)
        } else {
            Ok(())
        },
        Chip8Instruction::RET => if sp == 0 {
            Err(Chip8Error::StackUnderflow)
        } else {
            Ok(())
        },
        _ => Ok(()),
    }
}

/// The hex key a host key stands for: `1 2 3 4 / Q W E R / A S D F /
/// Z X C V` map to `1 2 3 C / 4 5 6 D / 7 8 9 E / A 0 B F`; letters in
/// either case.
pub open spec fn key_spec(c: char) -> Option<u8> {
    if c == '1' {
        Some(0x1u8)
    } else if c == '2' {
        Some(0x2u8)
    } else if c == '3' {
        Some(0x3u8)
    } else if c == '4' {
        Some(0xcu8)
    } else if c == 'Q' || c == 'q' {
        Some(0x4u8)
    } else if c == 'W' || c == 'w' {
        Some(0x5u8)
    } else if c == 'E' || c == 'e' {
        Some(0x6u8)
    } else if c == 'R' || c == 'r' {
        Some(0xdu8)
    } else if c == 'A' || c == 'a' {
        Some(0x7u8)
    } else if c == 'S' || c == 's' {
        Some(0x8u8)
    } else if c == 'D' || c == 'd' {
        Some(0x9u8)
    } else if c == 'F' || c == 'f' {
        Some(0xeu8)
    } else if c == 'Z' || c == 'z' {
        Some(0xau8)
    } else if c == 'X' || c == 'x' {
        Some(0x0u8)
    } else if c == 'C' || c == 'c' {
        Some(0xbu8)
    } else if c == 'V' || c == 'v' {
        Some(0xfu8)
    } else {
        None
    }
}

/// The hex key for a host key, by the character printed on it.
pub fn key_value(c: char) -> (r: Option<u8>)
    ensures
        r == key_spec(c),
        r matches Some(k) ==> k < 16,
{
    match c {
        '1' => Some(0x1),
        '2' => Some(0x2),
        '3' => Some(0x3),
        '4' => Some(0xc),
        'Q' | 'q' => Some(0x4),
        'W' | 'w' => Some(0x5),
        'E' | 'e' => Some(0x6),
        'R' | 'r' => Some(0xd),
        'A' | 'a' => Some(0x7),
        'S' | 's' => Some(0x8),
        'D' | 'd' => Some(0x9),
        'F' | 'f' => Some(0xe),
        'Z' | 'z' => Some(0xa),
        'X' | 'x' => Some(0x0),
        'C' | 'c' => Some(0xb),
        'V' | 'v' => Some(0xf),
        _ => None,
    }
}

impl Chip8 {
    pub open spec fn wf(self) -> bool {
        &&& self.state@.sane()
        &&& self.cache.wf()
    }

    /// Loads a ROM into a fresh machine; `RomTooLarge` where it does not
    /// fit.
    pub fn new(binary_content: &Vec<u8>) -> (r: Result<Chip8, Chip8Error>)
        ensures
            binary_content.len() > MAX_ROM_SIZE ==> r == Err::<Chip8, Chip8Error>(
                Chip8Error::RomTooLarge,
            ),
            binary_content.len() <= MAX_ROM_SIZE ==> r is Ok,
            r matches Ok(c) ==> c.state@ == initial_state(binary_content@) && c.cache@
                == Map::<u16, CompileBlock>::empty() && c.wf() && c.state@.valid(),
    {
        let state = Chip8State::new(binary_content)?;
        Ok(Chip8 { state, cache: Cache::new() })
    }

    /// The block to run next, translated if it was not yet: fails where the
    /// PC cannot start a block, where the unit there cannot be translated,
    /// and where its last instruction would overflow or underflow the stack.
    pub fn next_block(&mut self, t: &HelperTable) -> (r: Result<&CompileBlock, Chip8Error>)
        requires
            old(self).wf(),
        ensures
            final(self).wf(),
            final(self).state == old(self).state,
            !(old(self).state.pc % 2 == 0 && old(self).state.pc < MEM_SIZE) ==> r
                == Err::<&CompileBlock, Chip8Error>(
                Chip8Error::BadProgramCounter { pc: old(self).state.pc },
            ),
            r matches Ok(b) ==> {
                &&& old(self).state@.valid()
                &&& final(self).cache@.contains_key(old(self).state.pc as u16)
                &&& *b == final(self).cache@[old(self).state.pc as u16]
                &&& b.start_addr == old(self).state.pc
                &&& entry_error(old(self).state.pc, old(self).state.sp, b.instructions@.last())
                    is None
            },
            old(self).state.pc % 2 == 0 && old(self).state.pc < MEM_SIZE && old(
                self,
            ).cache@.contains_key(old(self).state.pc as u16) ==> match entry_error(
                old(self).state.pc,
                old(self).state.sp,
                old(self).cache@[old(self).state.pc as u16].instructions@.last(),
            ) {
                None => r is Ok,
                Some(e) => r == Err::<&CompileBlock, Chip8Error>(e),
            },
            r is Ok && !old(self).cache@.contains_key(old(self).state.pc as u16) ==> compiled_from(
                *r->Ok_0,
                old(self).state.mem@,
                old(self).state.pc as u16,
                *t,
            ),
            (old(self).state.pc % 2 == 0 && old(self).state.pc < MEM_SIZE && !old(
                self,
            ).cache@.contains_key(old(self).state.pc as u16)) ==> (r is Ok || compile_result(
                Err(r->Err_0),
                old(self).state.mem@,
                old(self).state.pc as u16,
                *t,
            ) || entry_error(0, old(self).state.sp, final(self).cache@[old(self).state.pc as u16].instructions@.last())
                == Some(r->Err_0)),
    {
        let pc = self.state.pc;
        if !pc_is_valid(pc) {
            return Err(Chip8Error::BadProgramCounter { pc });
        }
        let sp = self.state.sp;
        let block = self.cache.get_or_compile(&self.state, t)?;
        stack_check(sp, block.instructions[block.instructions.len() - 1])?;
        Ok(block)
    }

    /// One tick of the 60 Hz timers: each non-zero timer counts down.
    pub fn tick_timers(&mut self)
        ensures
            final(self).state@ == (crate::state::StateView {
                delay: if old(self).state.delay > 0 { (old(self).state.delay - 1) as u64 } else { 0 },
                sound: if old(self).state.sound > 0 { (old(self).state.sound - 1) as u64 } else { 0 },
                ..old(self).state@
            }),
            final(self).cache@ == old(self).cache@,
    {
        if self.state.delay > 0 {
            self.state.delay = self.state.delay - 1;
        }
        if self.state.sound > 0 {
            self.state.sound = self.state.sound - 1;
        }
    }

    /// Records that hex key `key` went down or up.
    pub fn set_key(&mut self, key: u8, down: bool)
        requires
            old(self).state@.wf(),
            key < AMOUNT_KEYS,
        ensures
            final(self).state@ == (crate::state::StateView {
                keys: old(self).state@.keys.update(key as int, down),
                ..old(self).state@
            }),
            final(self).cache@ == old(self).cache@,
    {
        self.state.keys.set(key as usize, down);
    }
}

} // verus!
