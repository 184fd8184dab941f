//! What each CHIP-8 instruction does to the guest state.
use vstd::prelude::*;
use crate::decode::{Chip8Instruction, is_terminator};
use crate::layout::{MEM_SIZE, WINDOW_SIZE, WINDOW_WIDTH, WINDOW_HEIGHT, AMOUNT_KEYS};
use crate::state::StateView;

verus! {

pub open spec fn set_reg(s: StateView, x: int, v: u64) -> StateView {
    StateView { regs: s.regs.update(x, v), ..s }
}

pub open spec fn set_pc(s: StateView, pc: u64) -> StateView {
    StateView { pc, ..s }
}

/// Bit `k` of `b`, counting from the least significant.
pub open spec fn bit_of(b: u8, k: u8) -> bool {
    (b >> k) & 1u8 == 1u8
}

/// Whether the sprite of `DRW Vx, Vy, n` covers pixel `p`: the sprite's
/// origin is `(Vx mod 64, Vy mod 32)`, row `r` is `mem[I + r]` with its
/// most significant bit leftmost, and pixels past the right or bottom edge
/// are clipped.
pub open spec fn covers(s: StateView, x: int, y: int, n: int, p: int) -> bool {
    let px = p % (WINDOW_WIDTH as int);
    let py = p / (WINDOW_WIDTH as int);
    let dx = px - (s.regs[x] as int) % (WINDOW_WIDTH as int);
    let dy = py - (s.regs[y] as int) % (WINDOW_HEIGHT as int);
    &&& 0 <= dx < 8
    &&& 0 <= dy < n
    &&& bit_of(s.mem[(s.i + dy) % (MEM_SIZE as int)], (7 - dx) as u8)
}

/// Some lit pixel is covered, and so turned off.
pub open spec fn collides(s: StateView, x: int, y: int, n: int) -> bool {
    exists|p: int| 0 <= p < WINDOW_SIZE && #[trigger] s.fb[p] && covers(s, x, y, n, p)
}

pub open spec fn cls_spec(s: StateView) -> StateView {
    StateView { fb: Seq::new(WINDOW_SIZE as nat, |p: int| false), ..s }
}

pub open spec fn drw_spec(s: StateView, x: int, y: int, n: int) -> StateView {
    let fb = Seq::new(WINDOW_SIZE as nat, |p: int| s.fb[p] != covers(s, x, y, n, p));
    let vf: u64 = if collides(s, x, y, n) { 1 } else { 0 };
    StateView { fb, regs: s.regs.update(0xf, vf), ..s }
}

pub open spec fn key_down(s: StateView, x: int) -> bool {
    s.keys[(s.regs[x] as int) % (AMOUNT_KEYS as int)]
}

pub open spec fn skp_spec(s: StateView, x: int) -> StateView {
    if key_down(s, x) { set_pc(s, s.pc.wrapping_add(2)) } else { s }
}

pub open spec fn sknp_spec(s: StateView, x: int) -> StateView {
    if !key_down(s, x) { set_pc(s, s.pc.wrapping_add(2)) } else { s }
}

/// The lowest pressed key at or above `k`, if any.
pub open spec fn first_pressed(keys: Seq<bool>, k: int) -> Option<int>
    decreases keys.len() - k,
{
    if k >= keys.len() || k < 0 {
        None
    } else if keys[k] {
        Some(k)
    } else {
        first_pressed(keys, k + 1)
    }
}

/// `LD Vx, K`: with a key down, `Vx` takes the lowest such key and the
/// PC moves on; with none, nothing changes and the instruction runs again.
pub open spec fn ld_k_spec(s: StateView, x: int) -> StateView {
    match first_pressed(s.keys, 0) {
        Some(k) => set_pc(set_reg(s, x, k as u64), s.pc.wrapping_add(2)),
        None => s,
    }
}

pub open spec fn ld_f_spec(s: StateView, x: int) -> StateView {
    StateView { i: (s.regs[x] * 5) as u64, ..s }
}

pub open spec fn wrap(a: int) -> int {
    a % (MEM_SIZE as int)
}

pub open spec fn ld_b_spec(s: StateView, x: int) -> StateView {
    let v = s.regs[x];
    let mem = s.mem.update(wrap(s.i as int), (v / 100) as u8).update(
        wrap(s.i + 1),
        ((v / 10) % 10) as u8,
    ).update(wrap(s.i + 2), (v % 10) as u8);
    StateView { mem, ..s }
}

/// `LD [I], Vx` stores `V0..Vk` (k < count) at `mem[I..]`.
pub open spec fn store_regs(s: StateView, count: int) -> StateView
    decreases count,
{
    if count <= 0 {
        s
    } else {
        let t = store_regs(s, count - 1);
        StateView { mem: t.mem.update(wrap(s.i + count - 1), s.regs[count - 1] as u8), ..t }
    }
}

/// `LD Vx, [I]` loads `V0..Vk` (k < count) from `mem[I..]`.
pub open spec fn load_regs(s: StateView, count: int) -> StateView
    decreases count,
{
    if count <= 0 {
        s
    } else {
        let t = load_regs(s, count - 1);
        set_reg(t, count - 1, s.mem[wrap(s.i + count - 1)] as u64)
    }
}

/// The effect of one instruction apart from the step to the next
/// instruction. `rand` is the value the entropy source hands to `RND`.
pub open spec fn effect(s: StateView, ins: Chip8Instruction, rand: u64) -> StateView {
    match ins {
        Chip8Instruction::CLS => cls_spec(s),
        Chip8Instruction::RET => StateView {
            sp: (s.sp - 1) as u64,
            pc: s.stack[s.sp - 1],
            ..s
        },
        Chip8Instruction::SYS(_) => set_pc(s, s.pc.wrapping_add(2)),
        Chip8Instruction::JP1(a) => set_pc(s, a as u64),
        Chip8Instruction::CALL(a) => StateView {
            stack: s.stack.update(s.sp as int, s.pc.wrapping_add(2)),
            sp: (s.sp + 1) as u64,
            pc: a as u64,
            ..s
        },
        Chip8Instruction::SE1(x, kk) => set_pc(s, if s.regs[x as int] == kk { s.pc.wrapping_add(4) } else { s.pc.wrapping_add(2) }),
        Chip8Instruction::SNE1(x, kk) => set_pc(s, if s.regs[x as int] != kk { s.pc.wrapping_add(4) } else { s.pc.wrapping_add(2) }),
        Chip8Instruction::SE2(x, y) => set_pc(
            s,
            if s.regs[x as int] == s.regs[y as int] { s.pc.wrapping_add(4) } else { s.pc.wrapping_add(2) },
        ),
        Chip8Instruction::SNE2(x, y) => set_pc(
            s,
            if s.regs[x as int] != s.regs[y as int] { s.pc.wrapping_add(4) } else { s.pc.wrapping_add(2) },
        ),
        Chip8Instruction::LD1(x, kk) => set_reg(s, x as int, kk as u64),
        Chip8Instruction::ADD1(x, kk) => set_reg(s, x as int, ((s.regs[x as int] + kk) % 256) as u64),
        Chip8Instruction::LD2(x, y) => set_reg(s, x as int, s.regs[y as int]),
        Chip8Instruction::OR(x, y) => set_reg(s, x as int, s.regs[x as int] | s.regs[y as int]),
        Chip8Instruction::AND(x, y) => set_reg(s, x as int, s.regs[x as int] & s.regs[y as int]),
        Chip8Instruction::XOR(x, y) => set_reg(s, x as int, s.regs[x as int] ^ s.regs[y as int]),
        Chip8Instruction::ADD2(x, y) => {
            let sum = s.regs[x as int] + s.regs[y as int];
            set_reg(set_reg(s, 0xf, if sum > 255 { 1 } else { 0 }), x as int, (sum % 256) as u64)
        },
        Chip8Instruction::SUB(x, y) => {
            let (vx, vy) = (s.regs[x as int], s.regs[y as int]);
            set_reg(set_reg(s, 0xf, if vx >= vy { 1 } else { 0 }), x as int, ((vx - vy + 256) % 256) as u64)
        },
        Chip8Instruction::SUBN(x, y) => {
            let (vx, vy) = (s.regs[x as int], s.regs[y as int]);
            set_reg(set_reg(s, 0xf, if vy >= vx { 1 } else { 0 }), x as int, ((vy - vx + 256) % 256) as u64)
        },
        Chip8Instruction::SHR(x) => {
            let vx = s.regs[x as int];
            set_reg(set_reg(s, 0xf, vx % 2), x as int, vx / 2)
        },
        Chip8Instruction::SHL(x) => {
            let vx = s.regs[x as int];
            set_reg(set_reg(s, 0xf, (vx / 128) % 2), x as int, ((vx * 2) % 256) as u64)
        },
        Chip8Instruction::LD3(a) => StateView { i: a as u64, ..s },
        Chip8Instruction::JP2(a) => set_pc(s, s.regs[0].wrapping_add(a as u64)),
        Chip8Instruction::RND(x, kk) => set_reg(s, x as int, rand & (kk as u64)),
        Chip8Instruction::DRW(x, y, n) => drw_spec(s, x as int, y as int, n as int),
        Chip8Instruction::SKP(x) => set_pc(skp_spec(s, x as int), skp_spec(s, x as int).pc.wrapping_add(2)),
        Chip8Instruction::SKNP(x) => set_pc(sknp_spec(s, x as int), sknp_spec(s, x as int).pc.wrapping_add(2)),
        Chip8Instruction::LD4(x) => set_reg(s, x as int, s.delay),
        Chip8Instruction::LD5(x) => ld_k_spec(s, x as int),
        Chip8Instruction::LD6(x) => StateView { delay: s.regs[x as int], ..s },
        Chip8Instruction::LD7(x) => StateView { sound: s.regs[x as int], ..s },
        Chip8Instruction::ADD3(x) => StateView { i: wrap(s.i + s.regs[x as int]) as u64, ..s },
        Chip8Instruction::LD8(x) => ld_f_spec(s, x as int),
        Chip8Instruction::LD9(x) => ld_b_spec(s, x as int),
        Chip8Instruction::LD10(x) => store_regs(s, x + 1),
        Chip8Instruction::LD11(x) => load_regs(s, x + 1),
    }
}

/// One instruction: its effect, then, for an instruction that does not
/// close a block, the step of the PC to the next instruction.
pub open spec fn step(s: StateView, ins: Chip8Instruction, rand: u64) -> StateView {
    let t = effect(s, ins, rand);
    if is_terminator(ins) { t } else { set_pc(t, t.pc.wrapping_add(2)) }
}

/// The instructions that can fail at run time, and when.
pub open spec fn may_run(s: StateView, ins: Chip8Instruction) -> bool {
    match ins {
        Chip8Instruction::CALL(_) => s.sp < 16,
        Chip8Instruction::RET => s.sp > 0,
        _ => true,
    }
}

} // verus!
