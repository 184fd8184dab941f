//! An executable form of the host-instruction semantics: runs a block's
//! host code on a guest state, with each helper call going to the helper
//! itself. It lets translated code be run where machine code cannot.
use vstd::prelude::*;
use crate::helpers::{cls, drw, ld_b, ld_f, ld_k, sknp, skp};
use crate::host::{exec_op, run, run_upto, slot_read, slot_write, Register, HelperTable, x86Instruction, Machine};
use crate::layout::{
    AMOUNT_KEYS, AMOUNT_REGISTERS, DELAY_OFFSET, I_OFFSET, MAX_AMOUNT_STACK, MEM_SIZE, PC_OFFSET,
    REGS_OFFSET, SOUND_OFFSET, SP_OFFSET, STACK_OFFSET, WINDOW_SIZE,
};
use crate::semantics::set_reg;
use crate::state::{Chip8State, StateView};
use crate::correctness::{draws, rand_of, theorem_instruction};
use crate::decode::{operands_in_range, Chip8Instruction};
use crate::semantics::{may_run, step};
use crate::translate::translate_instruction;

verus! {

pub open spec fn gidx(g: Register) -> int {
    match g {
        Register::Rax => 0,
        Register::Rbx => 1,
        Register::Rcx => 2,
        Register::Rdx => 3,
        Register::Rsi => 4,
        Register::Rdi => 5,
        Register::R8 => 6,
        Register::R9 => 7,
        Register::R10 => 8,
        Register::R11 => 9,
    }
}

fn gpr_index(g: Register) -> (r: usize)
    ensures
        r == gidx(g),
        r < 10,
{
    match g {
        Register::Rax => 0,
        Register::Rbx => 1,
        Register::Rcx => 2,
        Register::Rdx => 3,
        Register::Rsi => 4,
        Register::Rdi => 5,
        Register::R8 => 6,
        Register::R9 => 7,
        Register::R10 => 8,
        Register::R11 => 9,
    }
}

/// The register file that `regs` holds, by register number.
pub open spec fn abs_regs(regs: Seq<Option<u64>>) -> Map<Register, u64> {
    Map::new(|g: Register| regs[gidx(g)] is Some, |g: Register| regs[gidx(g)]->Some_0)
}

pub open spec fn abs_machine(
    regs: Seq<Option<u64>>,
    zf: Option<bool>,
    st: StateView,
    entropy: Seq<u64>,
    drawn: int,
) -> Machine {
    Machine {
        regs: abs_regs(regs),
        zf,
        st,
        entropy: entropy.subrange(drawn, entropy.len() as int),
        ok: true,
    }
}

proof fn lemma_put(regs: Seq<Option<u64>>, g: Register, v: u64)
    requires
        regs.len() == 10,
    ensures
        abs_regs(regs.update(gidx(g), Some(v))) == abs_regs(regs).insert(g, v),
{
    assert(abs_regs(regs.update(gidx(g), Some(v))) =~= abs_regs(regs).insert(g, v));
}

/// Whether `s` is sane.
pub fn is_sane(s: &Chip8State) -> (r: bool)
    ensures
        r == s@.sane(),
{
    if s.mem.len() != MEM_SIZE || s.regs.len() != AMOUNT_REGISTERS || s.stack.len()
        != MAX_AMOUNT_STACK || s.fb.len() != WINDOW_SIZE || s.keys.len() != AMOUNT_KEYS {
        return false;
    }
    if s.sp > MAX_AMOUNT_STACK as u64 || s.i >= MEM_SIZE as u64 || s.delay >= 256 || s.sound >= 256 {
        return false;
    }
    let mut k: usize = 0;
    while k < AMOUNT_REGISTERS
        invariant
            k <= AMOUNT_REGISTERS,
            s.regs.len() == AMOUNT_REGISTERS,
            forall|j: int| 0 <= j < k ==> #[trigger] s.regs@[j] < 256,
        decreases AMOUNT_REGISTERS - k,
    {
        if s.regs[k] >= 256 {
            return false;
        }
        k = k + 1;
    }
    true
}

/// The slot at `disp`, as `slot_read` names it.
fn read_slot(s: &Chip8State, disp: u64) -> (r: Option<u64>)
    requires
        s@.wf(),
    ensures
        r == slot_read(s@, disp as int),
{
    reveal(slot_read);
    let (regs, stack) = (REGS_OFFSET as u64, STACK_OFFSET as u64);
    if regs <= disp && disp < regs + 128 && (disp - regs) % 8 == 0 {
        Some(s.regs[((disp - regs) / 8) as usize])
    } else if disp == I_OFFSET as u64 {
        Some(s.i)
    } else if disp == DELAY_OFFSET as u64 {
        Some(s.delay)
    } else if disp == SOUND_OFFSET as u64 {
        Some(s.sound)
    } else if disp == PC_OFFSET as u64 {
        Some(s.pc)
    } else if disp == SP_OFFSET as u64 {
        Some(s.sp)
    } else if stack <= disp && disp < stack + 128 && (disp - stack) % 8 == 0 {
        Some(s.stack[((disp - stack) / 8) as usize])
    } else {
        None
    }
}

/// Sets the slot at `disp` as `slot_write` names it; `false` where `disp`
/// names none.
fn write_slot(s: &mut Chip8State, disp: u64, v: u64) -> (r: bool)
    requires
        old(s)@.wf(),
    ensures
        r == slot_write(old(s)@, disp as int, v) is Some,
        r ==> final(s)@ == slot_write(old(s)@, disp as int, v)->Some_0,
        !r ==> final(s)@ == old(s)@,
        final(s)@.wf(),
{
    reveal(slot_write);
    let (regs, stack) = (REGS_OFFSET as u64, STACK_OFFSET as u64);
    if regs <= disp && disp < regs + 128 && (disp - regs) % 8 == 0 {
        s.regs.set(((disp - regs) / 8) as usize, v);
        assert(s@.regs =~= set_reg(old(s)@, (disp - regs) / 8, v).regs);
    } else if disp == I_OFFSET as u64 {
        s.i = v;
    } else if disp == DELAY_OFFSET as u64 {
        s.delay = v;
    } else if disp == SOUND_OFFSET as u64 {
        s.sound = v;
    } else if disp == PC_OFFSET as u64 {
        s.pc = v;
    } else if disp == SP_OFFSET as u64 {
        s.sp = v;
    } else if stack <= disp && disp < stack + 128 && (disp - stack) % 8 == 0 {
        s.stack.set(((disp - stack) / 8) as usize, v);
    } else {
        return false;
    }
    true
}

/// The address `disp + 8 * index` where it fits in 64 bits.
fn scaled(disp: u32, index: u64) -> (r: Option<u64>)
    ensures
        r matches Some(a) ==> a == disp + 8 * index,
        r is None ==> disp + 8 * index >= 0x8000_0000,
{
    if index >= 0x1000_0000 {
        None
    } else {
        Some(disp as u64 + 8 * index)
    }
}

proof fn lemma_far_slots(s: StateView, a: int, v: u64)
    requires
        a >= 0x8000_0000,
    ensures
        slot_read(s, a) is None,
        slot_write(s, a, v) is None,
{
    reveal(slot_read);
    reveal(slot_write);
}

/// `g` takes `v`; `false`, with nothing changed, for `rbx`.
fn put(regs: &mut Vec<Option<u64>>, g: Register, v: u64) -> (ok: bool)
    requires
        old(regs).len() == 10,
    ensures
        ok == (g != Register::Rbx),
        ok ==> final(regs)@ == old(regs)@.update(gidx(g), Some(v)),
        !ok ==> final(regs)@ == old(regs)@,
{
    if g == Register::Rbx {
        return false;
    }
    regs.set(gpr_index(g), Some(v));
    true
}

/// Runs the helper at `addr` on `s`, as the host call does; `false` where
/// no helper is there or the helper may not run.
fn call_helper_at(s: &mut Chip8State, t: &HelperTable, addr: u64, a: u64, b: u64, c: u64) -> (ok: bool)
    requires
        old(s)@.wf(),
    ensures
        ok == (t.helper_at(addr) matches Some(h) && HelperTable::accepts(h, old(s)@, a, b, c)),
        ok ==> final(s)@ == HelperTable::apply(t.helper_at(addr)->Some_0, old(s)@, a, b, c),
        final(s)@.wf(),
{
    if !is_sane(s) || a >= 16 {
        return false;
    }
    if addr == t.cls {
        cls(s);
    } else if addr == t.drw {
        if b >= 16 || c >= 16 {
            return false;
        }
        drw(s, a, b, c);
    } else if addr == t.skp {
        skp(s, a);
    } else if addr == t.sknp {
        sknp(s, a);
    } else if addr == t.ld_k {
        ld_k(s, a);
    } else if addr == t.ld_f {
        ld_f(s, a);
    } else if addr == t.ld_b {
        ld_b(s, a);
    } else {
        return false;
    }
    true
}

#[verifier::rlimit(60)]
fn sim_memory(
    op: x86Instruction,
    regs: &mut Vec<Option<u64>>,
    zf: &mut Option<bool>,
    s: &mut Chip8State,
    entropy: &Vec<u64>,
    drawn: &mut usize,
    t: &HelperTable,
) -> (ok: bool)
    requires
        op is Load || op is Store || op is LoadIndexed || op is StoreIndexed || op is LoadByte || op is StoreByte,
        old(regs).len() == 10,
        old(s)@.wf(),
        *old(drawn) <= entropy.len(),
    ensures
        final(regs).len() == 10,
        final(s)@.wf(),
        *final(drawn) <= entropy.len(),
        ({
            let m = exec_op(
                op,
                abs_machine(old(regs)@, *old(zf), old(s)@, entropy@, *old(drawn) as int),
                *t,
            );
            &&& ok == m.ok
            &&& ok ==> abs_machine(final(regs)@, *final(zf), final(s)@, entropy@, *final(drawn) as int) == m
        }),
{
    let ghost r0 = regs@;
    proof {
        assert forall|g: Register| #[trigger] abs_regs(r0).contains_key(g) == (r0[gidx(g)] is Some) by {}
    }
    match op {
        x86Instruction::Load { dst, disp } => match read_slot(s, disp as u64) {
            Some(v) => {
                proof { lemma_put(r0, dst, v); }
                put(regs, dst, v)
            },
            None => false,
        },
        x86Instruction::Store { disp, src } => match regs[gpr_index(src)] {
            Some(v) => write_slot(s, disp as u64, v),
            None => false,
        },
        x86Instruction::LoadIndexed { dst, index, disp } => match regs[gpr_index(index)] {
            Some(i) => match scaled(disp, i) {
                Some(a) => match read_slot(s, a) {
                    Some(v) => {
                        proof { lemma_put(r0, dst, v); }
                        put(regs, dst, v)
                    },
                    None => false,
                },
                None => {
                    proof { lemma_far_slots(s@, disp + 8 * i, 0); }
                    false
                },
            },
            None => false,
        },
        x86Instruction::StoreIndexed { index, disp, src } => match (regs[gpr_index(index)], regs[gpr_index(src)]) {
            (Some(i), Some(v)) => match scaled(disp, i) {
                Some(a) => write_slot(s, a, v),
                None => {
                    proof { lemma_far_slots(s@, disp + 8 * i, v); }
                    false
                },
            },
            _ => false,
        },
        x86Instruction::LoadByte { dst, index } => match regs[gpr_index(index)] {
            Some(i) => if i < MEM_SIZE as u64 {
                let v = s.mem[i as usize] as u64;
                proof { lemma_put(r0, dst, v); }
                put(regs, dst, v)
            } else {
                false
            },
            None => false,
        },
        x86Instruction::StoreByte { index, src } => match (regs[gpr_index(index)], regs[gpr_index(src)]) {
            (Some(i), Some(v)) => if i < MEM_SIZE as u64 {
                s.mem.set(i as usize, (v % 256) as u8);
                true
            } else {
                false
            },
            _ => false,
        },
        _ => false,
    }
}

#[verifier::rlimit(60)]
fn sim_alu(
    op: x86Instruction,
    regs: &mut Vec<Option<u64>>,
    zf: &mut Option<bool>,
    s: &mut Chip8State,
    entropy: &Vec<u64>,
    drawn: &mut usize,
    t: &HelperTable,
) -> (ok: bool)
    requires
        op is MovImm || op is Mov || op is Add || op is Sub || op is And || op is Or || op is Xor || op is AndImm || op is ShrImm || op is ShlImm || op is Cmp || op is CmovE || op is CmovNe,
        old(regs).len() == 10,
        old(s)@.wf(),
        *old(drawn) <= entropy.len(),
    ensures
        final(regs).len() == 10,
        final(s)@.wf(),
        *final(drawn) <= entropy.len(),
        ({
            let m = exec_op(
                op,
                abs_machine(old(regs)@, *old(zf), old(s)@, entropy@, *old(drawn) as int),
                *t,
            );
            &&& ok == m.ok
            &&& ok ==> abs_machine(final(regs)@, *final(zf), final(s)@, entropy@, *final(drawn) as int) == m
        }),
{
    let ghost r0 = regs@;
    proof {
        assert forall|g: Register| #[trigger] abs_regs(r0).contains_key(g) == (r0[gidx(g)] is Some) by {}
    }
    match op {
        x86Instruction::MovImm { dst, imm } => {
            proof { lemma_put(r0, dst, imm); }
            put(regs, dst, imm)
        },
        x86Instruction::Mov { dst, src } => match regs[gpr_index(src)] {
            Some(v) => {
                proof { lemma_put(r0, dst, v); }
                put(regs, dst, v)
            },
            None => false,
        },
        x86Instruction::Add { dst, src } | x86Instruction::Sub { dst, src } | x86Instruction::And { dst, src }
        | x86Instruction::Or { dst, src } | x86Instruction::Xor { dst, src } => match (regs[gpr_index(dst)], regs[gpr_index(src)]) {
            (Some(a), Some(b)) => {
                let v = match op {
                    x86Instruction::Add { .. } => a.wrapping_add(b),
                    x86Instruction::Sub { .. } => a.wrapping_sub(b),
                    x86Instruction::And { .. } => a & b,
                    x86Instruction::Or { .. } => a | b,
                    _ => a ^ b,
                };
                proof { lemma_put(r0, dst, v); }
                *zf = Some(v == 0);
                put(regs, dst, v)
            },
            _ => false,
        },
        x86Instruction::AndImm { dst, imm } => match regs[gpr_index(dst)] {
            Some(a) => if imm < 0x8000_0000 {
                let v = a & (imm as u64);
                proof { lemma_put(r0, dst, v); }
                *zf = Some(v == 0);
                put(regs, dst, v)
            } else {
                false
            },
            None => false,
        },
        x86Instruction::ShrImm { dst, count } | x86Instruction::ShlImm { dst, count } => match regs[gpr_index(dst)] {
            Some(a) => if 0 < count && count < 64 {
                let v = match op {
                    x86Instruction::ShrImm { .. } => a >> (count as u64),
                    _ => a << (count as u64),
                };
                proof { lemma_put(r0, dst, v); }
                *zf = Some(v == 0);
                put(regs, dst, v)
            } else {
                false
            },
            None => false,
        },
        x86Instruction::Cmp { a, b } => match (regs[gpr_index(a)], regs[gpr_index(b)]) {
            (Some(x), Some(y)) => {
                *zf = Some(x == y);
                true
            },
            _ => false,
        },
        x86Instruction::CmovE { dst, src } | x86Instruction::CmovNe { dst, src } => match (regs[gpr_index(dst)], regs[gpr_index(src)]) {
            (Some(_), Some(v)) => {
                let flag = match *zf {
                    Some(z) => z,
                    None => return false,
                };
                let moves = match op {
                    x86Instruction::CmovE { .. } => flag,
                    _ => !flag,
                };
                if moves {
                    proof { lemma_put(r0, dst, v); }
                    put(regs, dst, v)
                } else {
                    true
                }
            },
            _ => false,
        },
        _ => false,
    }
}

#[verifier::rlimit(60)]
fn sim_other(
    op: x86Instruction,
    regs: &mut Vec<Option<u64>>,
    zf: &mut Option<bool>,
    s: &mut Chip8State,
    entropy: &Vec<u64>,
    drawn: &mut usize,
    t: &HelperTable,
) -> (ok: bool)
    requires
        op is Rdrand || op is CallReg || op is Push || op is Pop || op is Ret,
        old(regs).len() == 10,
        old(s)@.wf(),
        *old(drawn) <= entropy.len(),
    ensures
        final(regs).len() == 10,
        final(s)@.wf(),
        *final(drawn) <= entropy.len(),
        ({
            let m = exec_op(
                op,
                abs_machine(old(regs)@, *old(zf), old(s)@, entropy@, *old(drawn) as int),
                *t,
            );
            &&& ok == m.ok
            &&& ok ==> abs_machine(final(regs)@, *final(zf), final(s)@, entropy@, *final(drawn) as int) == m
        }),
{
    let ghost r0 = regs@;
    proof {
        assert forall|g: Register| #[trigger] abs_regs(r0).contains_key(g) == (r0[gidx(g)] is Some) by {}
    }
    match op {
        x86Instruction::Rdrand { dst } => if *drawn < entropy.len() {
            let v = entropy[*drawn];
            proof {
                lemma_put(r0, dst, v);
                let e = entropy@;
                assert(e.subrange(*old(drawn) + 1, e.len() as int) =~= e.subrange(*old(drawn) as int, e.len() as int).drop_first());
            }
            if !put(regs, dst, v) {
                return false;
            }
            *drawn = *drawn + 1;
            true
        } else {
            false
        },
        x86Instruction::CallReg { target } => {
            let known = (
                regs[gpr_index(target)],
                regs[1],
                regs[5],
                regs[4],
                regs[3],
                regs[2],
            );
            match known {
                (Some(addr), Some(base), Some(arg0), Some(a), Some(b), Some(c)) => {
                    if arg0 != base {
                        return false;
                    }
                    if !call_helper_at(s, t, addr, a, b, c) {
                        return false;
                    }
                    *regs = vec![None, Some(base), None, None, None, None, None, None, None, None];
                    *zf = None;
                    proof {
                        assert(abs_regs(regs@) =~= Map::<Register, u64>::empty().insert(Register::Rbx, base));
                    }
                    true
                },
                _ => false,
            }
        },
        x86Instruction::Push { .. } | x86Instruction::Pop { .. } | x86Instruction::Ret => false,
        _ => false,
    }
}

/// One host instruction on the simulated machine; `false` where the
/// instruction faults.
fn sim_step(
    op: x86Instruction,
    regs: &mut Vec<Option<u64>>,
    zf: &mut Option<bool>,
    s: &mut Chip8State,
    entropy: &Vec<u64>,
    drawn: &mut usize,
    t: &HelperTable,
) -> (ok: bool)
    requires
        old(regs).len() == 10,
        old(s)@.wf(),
        *old(drawn) <= entropy.len(),
    ensures
        final(regs).len() == 10,
        final(s)@.wf(),
        *final(drawn) <= entropy.len(),
        ({
            let m = exec_op(
                op,
                abs_machine(old(regs)@, *old(zf), old(s)@, entropy@, *old(drawn) as int),
                *t,
            );
            &&& ok == m.ok
            &&& ok ==> abs_machine(final(regs)@, *final(zf), final(s)@, entropy@, *final(drawn) as int) == m
        }),
{
    let ghost r0 = regs@;
    proof {
        assert forall|g: Register| #[trigger] abs_regs(r0).contains_key(g) == (r0[gidx(g)] is Some) by {}
    }
    match op {
        x86Instruction::Load { .. } | x86Instruction::Store { .. } | x86Instruction::LoadIndexed { .. }
        | x86Instruction::StoreIndexed { .. } | x86Instruction::LoadByte { .. } | x86Instruction::StoreByte { .. } => sim_memory(
            op,
            regs,
            zf,
            s,
            entropy,
            drawn,
            t,
        ),
        x86Instruction::Rdrand { .. } | x86Instruction::CallReg { .. } | x86Instruction::Push { .. } | x86Instruction::Pop { .. }
        | x86Instruction::Ret => sim_other(op, regs, zf, s, entropy, drawn, t),
        _ => sim_alu(op, regs, zf, s, entropy, drawn, t),
    }
}

proof fn lemma_fault_sticks(ops: Seq<x86Instruction>, k: nat, n: nat, m: Machine, t: HelperTable)
    requires
        k <= n,
        !run_upto(ops, k, m, t).ok,
    ensures
        !run_upto(ops, n, m, t).ok,
    decreases n,
{
    if n > k {
        lemma_fault_sticks(ops, k, (n - 1) as nat, m, t);
    }
}

/// The machine a block starts on: `rbx` holds the record's base, the
/// record is `st`, and the entropy source will hand out `entropy`.
pub open spec fn start_machine(st: StateView, entropy: Seq<u64>) -> Machine {
    Machine {
        regs: Map::empty().insert(Register::Rbx, 0u64),
        zf: None,
        st,
        entropy,
        ok: true,
    }
}

/// Runs host code on `state`, drawing `RDRAND` values from `entropy` in
/// order. Returns whether the code ran without a fault; when it did,
/// `state` is the record the code leaves.
pub fn run_host(ops: &Vec<x86Instruction>, state: &mut Chip8State, entropy: &Vec<u64>, t: &HelperTable) -> (r: bool)
    requires
        old(state)@.wf(),
    ensures
        r == run(ops@, start_machine(old(state)@, entropy@), *t).ok,
        r ==> final(state)@ == run(ops@, start_machine(old(state)@, entropy@), *t).st,
{
    let mut regs: Vec<Option<u64>> = vec![None, Some(0), None, None, None, None, None, None, None, None];
    let mut zf: Option<bool> = None;
    let mut drawn: usize = 0;
    let ghost m0 = start_machine(old(state)@, entropy@);
    proof {
        assert(abs_regs(regs@) =~= m0.regs);
        assert(entropy@.subrange(0, entropy@.len() as int) =~= entropy@);
    }
    let mut k: usize = 0;
    while k < ops.len()
        invariant
            k <= ops.len(),
            regs.len() == 10,
            state@.wf(),
            drawn <= entropy.len(),
            m0 == start_machine(old(state)@, entropy@),
            abs_machine(regs@, zf, state@, entropy@, drawn as int) == run_upto(ops@, k as nat, m0, *t),
        decreases ops.len() - k,
    {
        if !sim_step(ops[k], &mut regs, &mut zf, state, entropy, &mut drawn, t) {
            proof {
                lemma_fault_sticks(ops@, (k + 1) as nat, ops.len() as nat, m0, *t);
            }
            return false;
        }
        k = k + 1;
    }
    true
}

/// Translates `ins` and runs its host code on `state`: the guest state
/// then is exactly the one the instruction leads to, `RND` taking the first
/// value of `entropy`.
pub fn execute_translated(
    state: &mut Chip8State,
    ins: Chip8Instruction,
    t: &HelperTable,
    entropy: &Vec<u64>,
) -> (r: bool)
    requires
        old(state)@.sane(),
        operands_in_range(ins),
        may_run(old(state)@, ins),
        t.distinct(),
        draws(ins) <= entropy.len(),
    ensures
        r,
        final(state)@ == step(old(state)@, ins, rand_of(start_machine(old(state)@, entropy@))),
        final(state)@.sane(),
{
    let ops = translate_instruction(ins, t);
    proof {
        let m = start_machine(old(state)@, entropy@);
        assert(m.regs.contains_key(Register::Rbx));
        theorem_instruction(ins, m, *t);
    }
    run_host(&ops, state, entropy, t)
}

} // verus!
