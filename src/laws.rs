//! Laws of the guest semantics and of the block cache.
use vstd::prelude::*;
use crate::decode::Chip8Instruction;
use crate::jit::CompileBlock;
use crate::semantics::{covers, step};
use crate::state::StateView;
use crate::layout::WINDOW_SIZE;

verus! {

/// After a miss, `get_or_compile` files the new block under its PC; the
/// map it leaves holds that block there, so a later lookup or
/// `get_or_compile` for the same PC hands back the same block and
/// translates nothing.
pub proof fn lemma_compiled_block_stays(before: Map<u16, CompileBlock>, pc: u16, b: CompileBlock)
    ensures
        before.insert(pc, b).contains_key(pc),
        before.insert(pc, b)[pc] == b,
        forall|k: u16| #[trigger] before.contains_key(k) && k != pc ==> before.insert(pc, b)[k] == before[k],
{
}

/// `LD Vx, kk` leaves `kk` in `Vx`.
pub proof fn lemma_load_then_read(s: StateView, x: u8, kk: u8, rand: u64)
    requires
        s.sane(),
        x < 16,
    ensures
        step(s, Chip8Instruction::LD1(x, kk), rand).regs[x as int] == kk,
{
}

/// `ADD Vx, kk` and then `SUB Vx, Vy` with `Vy` holding `kk` gives back
/// the starting `Vx`. `ADD Vx, kk` leaves `VF` alone; `SUB` sets it to
/// whether it did not borrow.
pub proof fn lemma_add_then_sub(s: StateView, x: u8, y: u8, kk: u8, rand: u64)
    requires
        s.sane(),
        x < 15,
        y < 15,
        x != y,
        s.regs[y as int] == kk,
    ensures
        ({
            let s1 = step(s, Chip8Instruction::ADD1(x, kk), rand);
            let s2 = step(s1, Chip8Instruction::SUB(x, y), rand);
            &&& s1.regs[15] == s.regs[15]
            &&& s2.regs[x as int] == s.regs[x as int]
            &&& s2.regs[15] == if s1.regs[x as int] >= kk { 1u64 } else { 0u64 }
        }),
{
    let vx = s.regs[x as int];
    assert(vx < 256);
    let s1 = step(s, Chip8Instruction::ADD1(x, kk), rand);
    assert(s1.regs[y as int] == kk);
    assert(((((vx + kk) % 256) - kk + 256) % 256) == vx) by (nonlinear_arith)
        requires vx < 256, kk < 256;
}

/// `CALL addr` and then `RET` return to the instruction after the call,
/// with the stack pointer as it was.
pub proof fn lemma_call_then_ret(s: StateView, addr: u16, rand: u64)
    requires
        s.sane(),
        s.sp < 16,
        addr < 0x1000,
    ensures
        ({
            let s1 = step(s, Chip8Instruction::CALL(addr), rand);
            let s2 = step(s1, Chip8Instruction::RET, rand);
            &&& s2.pc == s.pc.wrapping_add(2)
            &&& s2.sp == s.sp
        }),
{
}

/// Drawing the same sprite twice at the same place restores the
/// framebuffer; where the sprite covers a pixel that was off before, the
/// second draw turns a lit pixel off and sets `VF`.
pub proof fn lemma_draw_twice(s: StateView, x: u8, y: u8, n: u8, rand: u64)
    requires
        s.sane(),
        x < 15,
        y < 15,
        n < 16,
    ensures
        ({
            let s1 = step(s, Chip8Instruction::DRW(x, y, n), rand);
            let s2 = step(s1, Chip8Instruction::DRW(x, y, n), rand);
            &&& s2.fb == s.fb
            &&& (exists|p: int|
                0 <= p < WINDOW_SIZE && covers(s, x as int, y as int, n as int, p) && !#[trigger] s.fb[p])
                ==> s2.regs[15] == 1
        }),
{
    let s1 = step(s, Chip8Instruction::DRW(x, y, n), rand);
    let s2 = step(s1, Chip8Instruction::DRW(x, y, n), rand);
    assert forall|p: int| 0 <= p < WINDOW_SIZE implies covers(s1, x as int, y as int, n as int, p)
        == covers(s, x as int, y as int, n as int, p) by {
        assert(s1.regs[x as int] == s.regs[x as int]);
        assert(s1.regs[y as int] == s.regs[y as int]);
    }
    assert(s2.fb =~= s.fb);
    if exists|p: int|
        0 <= p < WINDOW_SIZE && covers(s, x as int, y as int, n as int, p) && !#[trigger] s.fb[p] {
        let p = choose|p: int|
            0 <= p < WINDOW_SIZE && covers(s, x as int, y as int, n as int, p) && !#[trigger] s.fb[p];
        assert(s1.fb[p] && covers(s1, x as int, y as int, n as int, p));
    }
}

} // verus!
