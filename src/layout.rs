//! The guest-state record as translated code sees it: a fixed table of
//! byte offsets, shared by the translator and by the runtime that lays
//! the record out in host memory.
use vstd::prelude::*;

verus! {

/// Bytes of guest address space.
pub const MEM_SIZE: usize = 4096;

/// Number of general registers V0..VF.
pub const AMOUNT_REGISTERS: usize = 16;

/// Depth of the guest call stack.
pub const MAX_AMOUNT_STACK: usize = 16;

/// Address of the first instruction of a program.
pub const START_ADDRESS: u64 = 0x200;

/// Size of one guest instruction in bytes.
pub const INSTRUCTION_SIZE_BYTES: u64 = 2;

/// Framebuffer width and height in pixels.
pub const WINDOW_WIDTH: usize = 64;

pub const WINDOW_HEIGHT: usize = 32;

pub const WINDOW_SIZE: usize = 2048;

/// Number of hex keys.
pub const AMOUNT_KEYS: usize = 16;

/// Index of the flag register VF.
pub const VF: u8 = 0xf;

/// Largest ROM that fits above `START_ADDRESS`.
pub const MAX_ROM_SIZE: usize = 3584;

/// Offsets of the record's fields, in bytes from its base. `mem` holds
/// bytes; every other field below is a 64-bit little-endian slot.
pub const MEM_OFFSET: u32 = 0;

pub const REGS_OFFSET: u32 = 4096;

pub const I_OFFSET: u32 = 4224;

pub const DELAY_OFFSET: u32 = 4232;

pub const SOUND_OFFSET: u32 = 4240;

pub const PC_OFFSET: u32 = 4248;

pub const SP_OFFSET: u32 = 4256;

pub const STACK_OFFSET: u32 = 4264;

/// `fb`, `keys` and `should_run` hold one byte per entry and are only
/// touched by helpers.
pub const FB_OFFSET: u32 = 4392;

pub const KEYS_OFFSET: u32 = 6440;

pub const SHOULD_RUN_OFFSET: u32 = 6456;

/// The font: sixteen 5-byte sprites for the hex digits 0..F, placed at
/// `mem[0..80]`.
pub const FONT_SIZE: usize = 80;

/// The displacement of register `Vx` in an instruction.
pub open spec fn reg_disp(x: u8) -> u32 {
    (REGS_OFFSET + 8 * x) as u32
}

/// Offset of register `Vx`.
pub fn reg_offset(x: u8) -> (r: u32)
    requires
        x < 16,
    ensures
        r == reg_disp(x),
{
    REGS_OFFSET + 8 * (x as u32)
}

/// A 64-bit field of the record that translated code addresses.
#[derive(Debug, Clone, Copy, PartialEq, Eq, Structural, Hash)]
pub enum Chip8Field {
    I,
    PC,
    SP,
    Stack,
    Reg(u8),
    Delay,
    Sound,
}

pub open spec fn field_offset_spec(field: Chip8Field) -> u32 {
    match field {
        Chip8Field::I => I_OFFSET,
        Chip8Field::PC => PC_OFFSET,
        Chip8Field::SP => SP_OFFSET,
        Chip8Field::Stack => STACK_OFFSET,
        Chip8Field::Reg(x) => reg_disp(x),
        Chip8Field::Delay => DELAY_OFFSET,
        Chip8Field::Sound => SOUND_OFFSET,
    }
}

/// The byte offset of `field` from the record's base.
pub fn get_field_offset(field: Chip8Field) -> (r: u32)
    requires
        field matches Chip8Field::Reg(x) ==> x < 16,
    ensures
        r == field_offset_spec(field),
{
    match field {
        Chip8Field::I => I_OFFSET,
        Chip8Field::PC => PC_OFFSET,
        Chip8Field::SP => SP_OFFSET,
        Chip8Field::Stack => STACK_OFFSET,
        Chip8Field::Reg(x) => reg_offset(x),
        Chip8Field::Delay => DELAY_OFFSET,
        Chip8Field::Sound => SOUND_OFFSET,
    }
}

} // verus!
