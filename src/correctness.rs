//! The translator is correct: the host instructions emitted for an
//! instruction do to the record what the instruction does to the guest.
use vstd::prelude::*;
use crate::decode::{Chip8Instruction, is_terminator, operands_in_range};
use crate::host::{known, lemma_slots, run, run_upto, Register, HelperTable, Helper, x86Instruction, Machine, lemma_run_concat};
use crate::semantics::{effect, may_run, set_pc, set_reg, step};
use crate::state::StateView;
use crate::translate::{block_ops, body_ops, call_helper, index_at, load_seq, ops_for, pc_add, skip_if, store_seq, subtract};
use crate::semantics::{collides, first_pressed, load_regs, store_regs, wrap};
use crate::layout::{reg_disp, I_OFFSET, MEM_SIZE};

verus! {

/// A machine at the start of an instruction's host code: no fault, `rbx`
/// holds the record's base, and the record is sane.
pub open spec fn ready(m: Machine) -> bool {
    &&& m.ok
    &&& known(m, Register::Rbx)
    &&& m.st.sane()
}

/// `m2` is `m` after the host code of an instruction that changed the
/// record to `st` and drew `draws` values from the entropy source.
pub open spec fn arrives(m: Machine, m2: Machine, st: StateView, draws: nat) -> bool {
    &&& m2.ok
    &&& known(m2, Register::Rbx)
    &&& m2.regs[Register::Rbx] == m.regs[Register::Rbx]
    &&& m2.st == st
    &&& m2.entropy == m.entropy.subrange(draws as int, m.entropy.len() as int)
}

pub proof fn lemma_pc_add(k: u64, m: Machine, t: HelperTable)
    requires
        m.ok,
        known(m, Register::Rbx),
        m.st.wf(),
    ensures
        arrives(m, run(pc_add(k), m, t), set_pc(m.st, m.st.pc.wrapping_add(k)), 0),
{
    reveal_with_fuel(run_upto, 5);
    lemma_slots();
    assert(m.entropy.subrange(0, m.entropy.len() as int) =~= m.entropy);
}

pub proof fn lemma_call_helper(h: Helper, a: u64, b: u64, c: u64, m: Machine, t: HelperTable)
    requires
        m.ok,
        known(m, Register::Rbx),
        t.distinct(),
        HelperTable::accepts(h, m.st, a, b, c),
    ensures
        arrives(m, run(call_helper(t.address_of(h), a, b, c), m, t), HelperTable::apply(h, m.st, a, b, c), 0),
{
    reveal_with_fuel(run_upto, 7);
    assert(m.entropy.subrange(0, m.entropy.len() as int) =~= m.entropy);
    assert(t.helper_at(t.address_of(h)) == Some(h));
}

#[verifier::rlimit(60)]
pub proof fn lemma_add2(x: u8, y: u8, m: Machine, t: HelperTable)
    requires
        ready(m),
        x < 16,
        y < 16,
    ensures
        arrives(m, run(body_ops(Chip8Instruction::ADD2(x, y), t), m, t), effect(m.st, Chip8Instruction::ADD2(x, y), 0), 0),
{
    reveal_with_fuel(run_upto, 9);
    lemma_slots();
    let (vx, vy) = (m.st.regs[x as int], m.st.regs[y as int]);
    assert(vx < 256 && vy < 256);
    let sum = (vx + vy) as u64;
    assert(vx.wrapping_add(vy) == sum);
    assert(sum >> 8u64 == if sum > 255 { 1u64 } else { 0u64 }) by (bit_vector)
        requires sum < 512u64;
    assert(sum & 0xffu64 == sum % 256) by (bit_vector);
    assert(m.entropy.subrange(0, m.entropy.len() as int) =~= m.entropy);
    let st1 = set_reg(m.st, 0xf, if sum > 255 { 1 } else { 0 });
    assert(st1.regs =~= m.st.regs.update(0xf, if sum > 255 { 1u64 } else { 0u64 }));
}


proof fn lemma_same_entropy(m: Machine)
    ensures
        m.entropy.subrange(0, m.entropy.len() as int) == m.entropy,
{
    assert(m.entropy.subrange(0, m.entropy.len() as int) =~= m.entropy);
}

#[verifier::rlimit(60)]
proof fn lemma_skip(x: u8, rhs: u64, ne: bool, m: Machine, t: HelperTable)
    requires
        m.ok,
        known(m, Register::Rbx),
        known(m, Register::Rax),
        m.regs[Register::Rax] == rhs,
        m.st.sane(),
        x < 16,
    ensures
        arrives(
            m,
            run(skip_if(x, ne), m, t),
            set_pc(
                m.st,
                if (m.st.regs[x as int] != rhs) == ne {
                    m.st.pc.wrapping_add(4)
                } else {
                    m.st.pc.wrapping_add(2)
                },
            ),
            0,
        ),
{
    reveal_with_fuel(run_upto, 10);
    lemma_slots();
    lemma_same_entropy(m);
    let pc = m.st.pc;
    assert(pc.wrapping_add(2).wrapping_add(2) == pc.wrapping_add(4));
}

proof fn lemma_skips(ins: Chip8Instruction, m: Machine, t: HelperTable)
    requires
        ready(m),
        operands_in_range(ins),
        ins matches Chip8Instruction::SE1(_, _) || ins matches Chip8Instruction::SNE1(_, _)
            || ins matches Chip8Instruction::SE2(_, _) || ins matches Chip8Instruction::SNE2(_, _),
    ensures
        arrives(m, run(body_ops(ins, t), m, t), effect(m.st, ins, 0), 0),
{
    lemma_slots();
    let first = body_ops(ins, t).subrange(0, 1);
    reveal_with_fuel(run_upto, 2);
    match ins {
        Chip8Instruction::SE1(x, kk) => {
            let m1 = run(seq![x86Instruction::MovImm { dst: Register::Rax, imm: kk as u64 }], m, t);
            lemma_run_concat(seq![x86Instruction::MovImm { dst: Register::Rax, imm: kk as u64 }], skip_if(x, false), m, t);
            lemma_skip(x, kk as u64, false, m1, t);
        },
        Chip8Instruction::SNE1(x, kk) => {
            let m1 = run(seq![x86Instruction::MovImm { dst: Register::Rax, imm: kk as u64 }], m, t);
            lemma_run_concat(seq![x86Instruction::MovImm { dst: Register::Rax, imm: kk as u64 }], skip_if(x, true), m, t);
            lemma_skip(x, kk as u64, true, m1, t);
        },
        Chip8Instruction::SE2(x, y) => {
            let m1 = run(seq![x86Instruction::Load { dst: Register::Rax, disp: reg_disp(y) }], m, t);
            lemma_run_concat(seq![x86Instruction::Load { dst: Register::Rax, disp: reg_disp(y) }], skip_if(x, false), m, t);
            lemma_skip(x, m.st.regs[y as int], false, m1, t);
        },
        Chip8Instruction::SNE2(x, y) => {
            let m1 = run(seq![x86Instruction::Load { dst: Register::Rax, disp: reg_disp(y) }], m, t);
            lemma_run_concat(seq![x86Instruction::Load { dst: Register::Rax, disp: reg_disp(y) }], skip_if(x, true), m, t);
            lemma_skip(x, m.st.regs[y as int], true, m1, t);
        },
        _ => {},
    }
}

#[verifier::rlimit(60)]
proof fn lemma_stack(ins: Chip8Instruction, m: Machine, t: HelperTable)
    requires
        ready(m),
        operands_in_range(ins),
        may_run(m.st, ins),
        ins matches Chip8Instruction::RET || ins matches Chip8Instruction::CALL(_),
    ensures
        arrives(m, run(body_ops(ins, t), m, t), effect(m.st, ins, 0), 0),
{
    reveal_with_fuel(run_upto, 11);
    lemma_slots();
    lemma_same_entropy(m);
    let sp = m.st.sp;
    match ins {
        Chip8Instruction::RET => {
            assert(sp.wrapping_sub(1) == sp - 1);
        },
        _ => {
            assert(sp.wrapping_add(1) == sp + 1);
        },
    }
}

proof fn lemma_add1(x: u8, kk: u8, m: Machine, t: HelperTable)
    requires
        ready(m),
        x < 16,
    ensures
        arrives(m, run(body_ops(Chip8Instruction::ADD1(x, kk), t), m, t), effect(m.st, Chip8Instruction::ADD1(x, kk), 0), 0),
{
    reveal_with_fuel(run_upto, 6);
    lemma_slots();
    lemma_same_entropy(m);
    let vx = m.st.regs[x as int];
    assert(vx < 256);
    let sum = (vx + kk) as u64;
    assert(vx.wrapping_add(kk as u64) == sum);
    assert(sum & 0xffu64 == sum % 256) by (bit_vector);
}

proof fn lemma_shr(x: u8, m: Machine, t: HelperTable)
    requires
        ready(m),
        x < 16,
    ensures
        arrives(m, run(body_ops(Chip8Instruction::SHR(x), t), m, t), effect(m.st, Chip8Instruction::SHR(x), 0), 0),
{
    reveal_with_fuel(run_upto, 7);
    lemma_slots();
    lemma_same_entropy(m);
    let vx = m.st.regs[x as int];
    assert(vx & 1u64 == vx % 2) by (bit_vector);
    assert(vx >> 1u64 == vx / 2) by (bit_vector);
}

#[verifier::rlimit(60)]
proof fn lemma_shl(x: u8, m: Machine, t: HelperTable)
    requires
        ready(m),
        x < 16,
    ensures
        arrives(m, run(body_ops(Chip8Instruction::SHL(x), t), m, t), effect(m.st, Chip8Instruction::SHL(x), 0), 0),
{
    reveal_with_fuel(run_upto, 9);
    lemma_slots();
    lemma_same_entropy(m);
    let vx = m.st.regs[x as int];
    assert(vx < 256);
    assert((vx >> 7u64) & 1u64 == (vx / 128) % 2) by (bit_vector);
    assert((vx << 1u64) & 0xffu64 == (vx * 2) % 256) by (bit_vector)
        requires vx < 256u64;
}

proof fn lemma_add3(x: u8, m: Machine, t: HelperTable)
    requires
        ready(m),
        x < 16,
    ensures
        arrives(m, run(body_ops(Chip8Instruction::ADD3(x), t), m, t), effect(m.st, Chip8Instruction::ADD3(x), 0), 0),
{
    reveal_with_fuel(run_upto, 6);
    lemma_slots();
    lemma_same_entropy(m);
    let (i, vx) = (m.st.i, m.st.regs[x as int]);
    assert(i < 4096 && vx < 256);
    assert(i.wrapping_add(vx) == i + vx);
    let sum = (i + vx) as u64;
    assert(sum & 0xfffu64 == sum % 4096) by (bit_vector);
}

#[verifier::rlimit(60)]
proof fn lemma_subtract(x: u8, a: u8, b: u8, m: Machine, t: HelperTable)
    requires
        ready(m),
        x < 16,
        a < 16,
        b < 16,
    ensures
        ({
            let (va, vb) = (m.st.regs[a as int], m.st.regs[b as int]);
            arrives(
                m,
                run(subtract(x, a, b), m, t),
                set_reg(set_reg(m.st, 0xf, if va >= vb { 1 } else { 0 }), x as int, ((va - vb + 256) % 256) as u64),
                0,
            )
        }),
{
    reveal_with_fuel(run_upto, 11);
    lemma_slots();
    lemma_same_entropy(m);
    let (va, vb) = (m.st.regs[a as int], m.st.regs[b as int]);
    assert(va < 256 && vb < 256);
    assert(va.wrapping_add(256) == va + 256);
    let d = (va + 256 - vb) as u64;
    assert((va + 256) as u64 - vb == d);
    assert(((va + 256) as u64).wrapping_sub(vb) == d);
    assert(d >> 8u64 == if d >= 256 { 1u64 } else { 0u64 }) by (bit_vector)
        requires d < 512u64;
    assert(d & 0xffu64 == d % 256) by (bit_vector);
}

proof fn lemma_sys(a: u16, m: Machine, t: HelperTable)
    requires
        ready(m),
    ensures
        arrives(m, run(body_ops(Chip8Instruction::SYS(a), t), m, t), effect(m.st, Chip8Instruction::SYS(a), 0), 0),
{
    reveal_with_fuel(run_upto, 5);
    lemma_slots();
    lemma_same_entropy(m);
}

proof fn lemma_jp1(a: u16, m: Machine, t: HelperTable)
    requires
        ready(m),
    ensures
        arrives(m, run(body_ops(Chip8Instruction::JP1(a), t), m, t), effect(m.st, Chip8Instruction::JP1(a), 0), 0),
{
    reveal_with_fuel(run_upto, 3);
    lemma_slots();
    lemma_same_entropy(m);
}

proof fn lemma_ld1(x: u8, kk: u8, m: Machine, t: HelperTable)
    requires
        ready(m),
        x < 16,
    ensures
        arrives(m, run(body_ops(Chip8Instruction::LD1(x, kk), t), m, t), effect(m.st, Chip8Instruction::LD1(x, kk), 0), 0),
{
    reveal_with_fuel(run_upto, 3);
    lemma_slots();
    lemma_same_entropy(m);
}

proof fn lemma_ld2(x: u8, y: u8, m: Machine, t: HelperTable)
    requires
        ready(m),
        x < 16,
        y < 16,
    ensures
        arrives(m, run(body_ops(Chip8Instruction::LD2(x, y), t), m, t), effect(m.st, Chip8Instruction::LD2(x, y), 0), 0),
{
    reveal_with_fuel(run_upto, 3);
    lemma_slots();
    lemma_same_entropy(m);
}

proof fn lemma_or(x: u8, y: u8, m: Machine, t: HelperTable)
    requires
        ready(m),
        x < 16,
        y < 16,
    ensures
        arrives(m, run(body_ops(Chip8Instruction::OR(x, y), t), m, t), effect(m.st, Chip8Instruction::OR(x, y), 0), 0),
{
    reveal_with_fuel(run_upto, 5);
    lemma_slots();
    lemma_same_entropy(m);
}

proof fn lemma_and(x: u8, y: u8, m: Machine, t: HelperTable)
    requires
        ready(m),
        x < 16,
        y < 16,
    ensures
        arrives(m, run(body_ops(Chip8Instruction::AND(x, y), t), m, t), effect(m.st, Chip8Instruction::AND(x, y), 0), 0),
{
    reveal_with_fuel(run_upto, 5);
    lemma_slots();
    lemma_same_entropy(m);
}

proof fn lemma_xor(x: u8, y: u8, m: Machine, t: HelperTable)
    requires
        ready(m),
        x < 16,
        y < 16,
    ensures
        arrives(m, run(body_ops(Chip8Instruction::XOR(x, y), t), m, t), effect(m.st, Chip8Instruction::XOR(x, y), 0), 0),
{
    reveal_with_fuel(run_upto, 5);
    lemma_slots();
    lemma_same_entropy(m);
}

proof fn lemma_ld3(a: u16, m: Machine, t: HelperTable)
    requires
        ready(m),
    ensures
        arrives(m, run(body_ops(Chip8Instruction::LD3(a), t), m, t), effect(m.st, Chip8Instruction::LD3(a), 0), 0),
{
    reveal_with_fuel(run_upto, 3);
    lemma_slots();
    lemma_same_entropy(m);
}

proof fn lemma_jp2(a: u16, m: Machine, t: HelperTable)
    requires
        ready(m),
    ensures
        arrives(m, run(body_ops(Chip8Instruction::JP2(a), t), m, t), effect(m.st, Chip8Instruction::JP2(a), 0), 0),
{
    reveal_with_fuel(run_upto, 5);
    lemma_slots();
    lemma_same_entropy(m);
}

proof fn lemma_rnd(x: u8, kk: u8, m: Machine, t: HelperTable)
    requires
        ready(m),
        x < 16,
        m.entropy.len() > 0,
    ensures
        arrives(m, run(body_ops(Chip8Instruction::RND(x, kk), t), m, t), effect(m.st, Chip8Instruction::RND(x, kk), m.entropy[0]), 1),
{
    reveal_with_fuel(run_upto, 5);
    lemma_slots();
    lemma_same_entropy(m);
    assert(m.entropy.drop_first() =~= m.entropy.subrange(1, m.entropy.len() as int));
}

proof fn lemma_ld4(x: u8, m: Machine, t: HelperTable)
    requires
        ready(m),
        x < 16,
    ensures
        arrives(m, run(body_ops(Chip8Instruction::LD4(x), t), m, t), effect(m.st, Chip8Instruction::LD4(x), 0), 0),
{
    reveal_with_fuel(run_upto, 3);
    lemma_slots();
    lemma_same_entropy(m);
}

proof fn lemma_ld6(x: u8, m: Machine, t: HelperTable)
    requires
        ready(m),
        x < 16,
    ensures
        arrives(m, run(body_ops(Chip8Instruction::LD6(x), t), m, t), effect(m.st, Chip8Instruction::LD6(x), 0), 0),
{
    reveal_with_fuel(run_upto, 3);
    lemma_slots();
    lemma_same_entropy(m);
}

proof fn lemma_ld7(x: u8, m: Machine, t: HelperTable)
    requires
        ready(m),
        x < 16,
    ensures
        arrives(m, run(body_ops(Chip8Instruction::LD7(x), t), m, t), effect(m.st, Chip8Instruction::LD7(x), 0), 0),
{
    reveal_with_fuel(run_upto, 3);
    lemma_slots();
    lemma_same_entropy(m);
}

proof fn lemma_helper_calls(ins: Chip8Instruction, m: Machine, t: HelperTable)
    requires
        ready(m),
        operands_in_range(ins),
        t.distinct(),
        ins matches Chip8Instruction::CLS || ins matches Chip8Instruction::DRW(_, _, _)
            || ins matches Chip8Instruction::SKP(_) || ins matches Chip8Instruction::SKNP(_)
            || ins matches Chip8Instruction::LD5(_) || ins matches Chip8Instruction::LD8(_)
            || ins matches Chip8Instruction::LD9(_),
    ensures
        arrives(m, run(body_ops(ins, t), m, t), effect(m.st, ins, 0), 0),
{
    match ins {
        Chip8Instruction::CLS => {
            lemma_call_helper(Helper::Cls, 0, 0, 0, m, t);
            assert(body_ops(ins, t) == call_helper(t.address_of(Helper::Cls), 0, 0, 0));
            assert(effect(m.st, ins, 0) == HelperTable::apply(Helper::Cls, m.st, 0, 0, 0));
            assert(arrives(m, run(body_ops(ins, t), m, t), effect(m.st, ins, 0), 0));
        },
        Chip8Instruction::DRW(x, y, n) => {
            lemma_call_helper(Helper::Drw, x as u64, y as u64, n as u64, m, t);
            assert(arrives(m, run(body_ops(ins, t), m, t), effect(m.st, ins, 0), 0));
        },
        Chip8Instruction::LD5(x) => {
            lemma_call_helper(Helper::LdK, x as u64, 0, 0, m, t);
            assert(arrives(m, run(body_ops(ins, t), m, t), effect(m.st, ins, 0), 0));
        },
        Chip8Instruction::LD8(x) => {
            lemma_call_helper(Helper::LdF, x as u64, 0, 0, m, t);
            assert(arrives(m, run(body_ops(ins, t), m, t), effect(m.st, ins, 0), 0));
        },
        Chip8Instruction::LD9(x) => {
            lemma_call_helper(Helper::LdB, x as u64, 0, 0, m, t);
            assert(arrives(m, run(body_ops(ins, t), m, t), effect(m.st, ins, 0), 0));
        },
        Chip8Instruction::SKP(x) => {
            lemma_call_helper(Helper::Skp, x as u64, 0, 0, m, t);
            let m1 = run(call_helper(t.skp, x as u64, 0, 0), m, t);
            lemma_run_concat(call_helper(t.skp, x as u64, 0, 0), pc_add(2), m, t);
            lemma_pc_add(2, m1, t);
            lemma_same_entropy(m);
            assert(arrives(m, run(body_ops(ins, t), m, t), effect(m.st, ins, 0), 0));
        },
        Chip8Instruction::SKNP(x) => {
            lemma_call_helper(Helper::Sknp, x as u64, 0, 0, m, t);
            let m1 = run(call_helper(t.sknp, x as u64, 0, 0), m, t);
            lemma_run_concat(call_helper(t.sknp, x as u64, 0, 0), pc_add(2), m, t);
            lemma_pc_add(2, m1, t);
            lemma_same_entropy(m);
            assert(arrives(m, run(body_ops(ins, t), m, t), effect(m.st, ins, 0), 0));
        },
        _ => {},
    }
}

proof fn lemma_store_regs_frame(s: StateView, c: int)
    requires
        s.mem.len() == MEM_SIZE,
    ensures
        store_regs(s, c) == (StateView { mem: store_regs(s, c).mem, ..s }),
        store_regs(s, c).mem.len() == s.mem.len(),
    decreases c,
{
    if c > 0 {
        lemma_store_regs_frame(s, c - 1);
    }
}

proof fn lemma_load_regs_frame(s: StateView, c: int)
    requires
        s.sane(),
        c <= 16,
    ensures
        load_regs(s, c) == (StateView { regs: load_regs(s, c).regs, ..s }),
        load_regs(s, c).regs.len() == s.regs.len(),
        forall|k: int| 0 <= k < 16 ==> #[trigger] load_regs(s, c).regs[k] < 256,
    decreases c,
{
    if c > 0 {
        lemma_load_regs_frame(s, c - 1);
    }
}

/// The address `(I + k) mod 4096` lands in `r9`, `r8` keeps `I`.
proof fn lemma_index_at(k: u64, m: Machine, t: HelperTable)
    requires
        m.ok,
        known(m, Register::Rbx),
        known(m, Register::R8),
        m.regs[Register::R8] == m.st.i,
        m.st.i < MEM_SIZE,
        k < 16,
    ensures
        ({
            let m2 = run(index_at(k), m, t);
            &&& arrives(m, m2, m.st, 0)
            &&& known(m2, Register::R8) && m2.regs[Register::R8] == m.st.i
            &&& known(m2, Register::R9) && m2.regs[Register::R9] == wrap(m.st.i + k)
        }),
{
    reveal_with_fuel(run_upto, 5);
    lemma_same_entropy(m);
    let i = m.st.i;
    assert(i.wrapping_add(k) == i + k);
    let sum = (i + k) as u64;
    assert(sum & 0xfffu64 == sum % 4096) by (bit_vector);
}

#[verifier::rlimit(60)]
proof fn lemma_store_seq(c: nat, m: Machine, t: HelperTable)
    requires
        ready(m),
        known(m, Register::R8),
        m.regs[Register::R8] == m.st.i,
        c <= 16,
    ensures
        ({
            let m2 = run(store_seq(c), m, t);
            &&& arrives(m, m2, store_regs(m.st, c as int), 0)
            &&& known(m2, Register::R8) && m2.regs[Register::R8] == m.st.i
        }),
    decreases c,
{
    lemma_slots();
    lemma_same_entropy(m);
    reveal_with_fuel(run_upto, 1);
    if c > 0 {
        let k = (c - 1) as nat;
        lemma_store_seq(k, m, t);
        lemma_store_regs_frame(m.st, k as int);
        let tail = seq![
            x86Instruction::Load { dst: Register::R11, disp: reg_disp(k as u8) },
            x86Instruction::StoreByte { index: Register::R9, src: Register::R11 },
        ];
        let mk = run(store_seq(k), m, t);
        lemma_run_concat(store_seq(k) + index_at(k as u64), tail, m, t);
        lemma_run_concat(store_seq(k), index_at(k as u64), m, t);
        lemma_index_at(k as u64, mk, t);
        let mi = run(index_at(k as u64), mk, t);
        lemma_same_entropy(mk);
        reveal_with_fuel(run_upto, 3);
        let v = m.st.regs[k as int];
        assert(v < 256);
        assert((v % 256) as u8 == v as u8);
        let mt = run(tail, mi, t);
        assert(mt.st.mem =~= store_regs(m.st, c as int).mem);
    }
}

proof fn lemma_load_tail(k: u8, m: Machine, t: HelperTable)
    requires
        m.ok,
        known(m, Register::Rbx),
        known(m, Register::R8),
        known(m, Register::R9),
        m.regs[Register::R9] < MEM_SIZE,
        m.st.mem.len() == MEM_SIZE,
        k < 16,
    ensures
        ({
            let m2 = run(
                seq![
                    x86Instruction::LoadByte { dst: Register::R11, index: Register::R9 },
                    x86Instruction::Store { disp: reg_disp(k), src: Register::R11 },
                ],
                m,
                t,
            );
            &&& arrives(m, m2, set_reg(m.st, k as int, m.st.mem[m.regs[Register::R9] as int] as u64), 0)
            &&& known(m2, Register::R8) && m2.regs[Register::R8] == m.regs[Register::R8]
        }),
{
    reveal_with_fuel(run_upto, 3);
    lemma_slots();
    lemma_same_entropy(m);
}

#[verifier::rlimit(60)]
proof fn lemma_load_seq(c: nat, m: Machine, t: HelperTable)
    requires
        ready(m),
        known(m, Register::R8),
        m.regs[Register::R8] == m.st.i,
        c <= 16,
    ensures
        ({
            let m2 = run(load_seq(c), m, t);
            &&& arrives(m, m2, load_regs(m.st, c as int), 0)
            &&& known(m2, Register::R8) && m2.regs[Register::R8] == m.st.i
        }),
    decreases c,
{
    lemma_slots();
    lemma_same_entropy(m);
    reveal_with_fuel(run_upto, 1);
    if c > 0 {
        let k = (c - 1) as nat;
        lemma_load_seq(k, m, t);
        lemma_load_regs_frame(m.st, k as int);
        let tail = seq![
            x86Instruction::LoadByte { dst: Register::R11, index: Register::R9 },
            x86Instruction::Store { disp: reg_disp(k as u8), src: Register::R11 },
        ];
        let mk = run(load_seq(k), m, t);
        lemma_run_concat(load_seq(k) + index_at(k as u64), tail, m, t);
        lemma_run_concat(load_seq(k), index_at(k as u64), m, t);
        lemma_index_at(k as u64, mk, t);
        let mi = run(index_at(k as u64), mk, t);
        lemma_same_entropy(mk);
        lemma_load_tail(k as u8, mi, t);
        assert(load_seq(c) == load_seq(k) + index_at(k as u64) + tail);
    }
}

proof fn lemma_transfers(ins: Chip8Instruction, m: Machine, t: HelperTable)
    requires
        ready(m),
        operands_in_range(ins),
        ins matches Chip8Instruction::LD10(_) || ins matches Chip8Instruction::LD11(_),
    ensures
        arrives(m, run(body_ops(ins, t), m, t), effect(m.st, ins, 0), 0),
{
    lemma_slots();
    lemma_same_entropy(m);
    let first = seq![x86Instruction::Load { dst: Register::R8, disp: I_OFFSET }];
    reveal_with_fuel(run_upto, 2);
    let m1 = run(first, m, t);
    lemma_same_entropy(m1);
    match ins {
        Chip8Instruction::LD10(x) => {
            lemma_run_concat(first, store_seq(x as nat + 1), m, t);
            lemma_store_seq(x as nat + 1, m1, t);
        },
        Chip8Instruction::LD11(x) => {
            lemma_run_concat(first, load_seq(x as nat + 1), m, t);
            lemma_load_seq(x as nat + 1, m1, t);
        },
        _ => {},
    }
}

proof fn lemma_reg_write_sane(s: StateView, x: int, v: u64)
    requires
        s.sane(),
        0 <= x < 16,
        v < 256,
    ensures
        set_reg(s, x, v).sane(),
{
}

proof fn lemma_bitwise_bytes(a: u64, b: u64, kk: u64)
    requires
        a < 256,
        b < 256,
        kk < 256,
    ensures
        a | b < 256,
        a & b < 256,
        a ^ b < 256,
        a & kk < 256,
        kk & a < 256,
{
    assert(a | b < 256) by (bit_vector)
        requires a < 256u64 && b < 256u64;
    assert(a & b < 256) by (bit_vector)
        requires a < 256u64;
    assert(a ^ b < 256) by (bit_vector)
        requires a < 256u64 && b < 256u64;
    assert(a & kk < 256) by (bit_vector)
        requires kk < 256u64;
    assert(kk & a < 256) by (bit_vector)
        requires kk < 256u64;
}

proof fn lemma_first_pressed_range(keys: Seq<bool>, k: int)
    requires
        0 <= k,
    ensures
        first_pressed(keys, k) matches Some(j) ==> k <= j < keys.len(),
    decreases keys.len() - k,
{
    if k < keys.len() && !keys[k] {
        lemma_first_pressed_range(keys, k + 1);
    }
}

/// Every instruction that may run keeps the state sane: the stack pointer
/// within `0..=16`, every register within `0..=255`, `I` inside memory.
pub proof fn lemma_effect_sane(s: StateView, ins: Chip8Instruction, rand: u64)
    requires
        s.sane(),
        operands_in_range(ins),
        may_run(s, ins),
    ensures
        effect(s, ins, rand).sane(),
        step(s, ins, rand).sane(),
{
    match ins {
        Chip8Instruction::LD1(x, kk) => lemma_reg_write_sane(s, x as int, kk as u64),
        Chip8Instruction::ADD1(x, kk) => lemma_reg_write_sane(
            s,
            x as int,
            ((s.regs[x as int] + kk) % 256) as u64,
        ),
        Chip8Instruction::LD2(x, y) => lemma_reg_write_sane(s, x as int, s.regs[y as int]),
        Chip8Instruction::OR(x, y) => {
            lemma_bitwise_bytes(s.regs[x as int], s.regs[y as int], 0);
            lemma_reg_write_sane(s, x as int, s.regs[x as int] | s.regs[y as int]);
        },
        Chip8Instruction::AND(x, y) => {
            lemma_bitwise_bytes(s.regs[x as int], s.regs[y as int], 0);
            lemma_reg_write_sane(s, x as int, s.regs[x as int] & s.regs[y as int]);
        },
        Chip8Instruction::XOR(x, y) => {
            lemma_bitwise_bytes(s.regs[x as int], s.regs[y as int], 0);
            lemma_reg_write_sane(s, x as int, s.regs[x as int] ^ s.regs[y as int]);
        },
        Chip8Instruction::ADD2(x, y) => {
            let sum = s.regs[x as int] + s.regs[y as int];
            let f: u64 = if sum > 255 { 1 } else { 0 };
            lemma_reg_write_sane(s, 15, f);
            lemma_reg_write_sane(set_reg(s, 15, f), x as int, (sum % 256) as u64);
        },
        Chip8Instruction::SUB(x, y) => {
            let (vx, vy) = (s.regs[x as int], s.regs[y as int]);
            let f: u64 = if vx >= vy { 1 } else { 0 };
            lemma_reg_write_sane(s, 15, f);
            lemma_reg_write_sane(set_reg(s, 15, f), x as int, ((vx - vy + 256) % 256) as u64);
        },
        Chip8Instruction::SUBN(x, y) => {
            let (vx, vy) = (s.regs[x as int], s.regs[y as int]);
            let f: u64 = if vy >= vx { 1 } else { 0 };
            lemma_reg_write_sane(s, 15, f);
            lemma_reg_write_sane(set_reg(s, 15, f), x as int, ((vy - vx + 256) % 256) as u64);
        },
        Chip8Instruction::SHR(x) => {
            let vx = s.regs[x as int];
            lemma_reg_write_sane(s, 15, vx % 2);
            lemma_reg_write_sane(set_reg(s, 15, vx % 2), x as int, vx / 2);
        },
        Chip8Instruction::SHL(x) => {
            let vx = s.regs[x as int];
            lemma_reg_write_sane(s, 15, (vx / 128) % 2);
            lemma_reg_write_sane(set_reg(s, 15, (vx / 128) % 2), x as int, ((vx * 2) % 256) as u64);
        },
        Chip8Instruction::RND(x, kk) => {
            let k64 = kk as u64;
            assert(k64 < 256);
            assert(rand & k64 < 256) by (bit_vector)
                requires k64 < 256u64;
            lemma_reg_write_sane(s, x as int, rand & k64);
        },
        Chip8Instruction::LD4(x) => lemma_reg_write_sane(s, x as int, s.delay),
        Chip8Instruction::LD5(x) => {
            lemma_first_pressed_range(s.keys, 0);
            match first_pressed(s.keys, 0) {
                Some(k) => lemma_reg_write_sane(s, x as int, k as u64),
                None => {},
            }
        },
        Chip8Instruction::DRW(x, y, n) => {
            let vf: u64 = if collides(s, x as int, y as int, n as int) { 1 } else { 0 };
            lemma_reg_write_sane(s, 15, vf);
        },
        Chip8Instruction::LD10(x) => {
            lemma_store_regs_frame(s, x + 1);
        },
        Chip8Instruction::LD11(x) => {
            lemma_load_regs_frame(s, x + 1);
        },
        _ => {},
    }
}

pub open spec fn rand_of(m: Machine) -> u64 {
    if m.entropy.len() > 0 { m.entropy[0] } else { 0 }
}

/// How many values the host code of `ins` draws from the entropy source.
pub open spec fn draws(ins: Chip8Instruction) -> nat {
    match ins {
        Chip8Instruction::RND(_, _) => 1,
        _ => 0,
    }
}

proof fn lemma_body(ins: Chip8Instruction, m: Machine, t: HelperTable)
    requires
        ready(m),
        operands_in_range(ins),
        may_run(m.st, ins),
        t.distinct(),
        draws(ins) <= m.entropy.len(),
    ensures
        arrives(m, run(body_ops(ins, t), m, t), effect(m.st, ins, rand_of(m)), draws(ins)),
{
    match ins {
        Chip8Instruction::CLS | Chip8Instruction::DRW(_, _, _) | Chip8Instruction::SKP(_)
        | Chip8Instruction::SKNP(_) | Chip8Instruction::LD5(_) | Chip8Instruction::LD8(_)
        | Chip8Instruction::LD9(_) => lemma_helper_calls(ins, m, t),
        Chip8Instruction::RET | Chip8Instruction::CALL(_) => lemma_stack(ins, m, t),
        Chip8Instruction::SE1(_, _) | Chip8Instruction::SNE1(_, _) | Chip8Instruction::SE2(_, _)
        | Chip8Instruction::SNE2(_, _) => lemma_skips(ins, m, t),
        Chip8Instruction::LD10(_) | Chip8Instruction::LD11(_) => lemma_transfers(ins, m, t),
        Chip8Instruction::SYS(a) => lemma_sys(a, m, t),
        Chip8Instruction::JP1(a) => lemma_jp1(a, m, t),
        Chip8Instruction::LD1(x, kk) => lemma_ld1(x, kk, m, t),
        Chip8Instruction::ADD1(x, kk) => lemma_add1(x, kk, m, t),
        Chip8Instruction::LD2(x, y) => lemma_ld2(x, y, m, t),
        Chip8Instruction::OR(x, y) => lemma_or(x, y, m, t),
        Chip8Instruction::AND(x, y) => lemma_and(x, y, m, t),
        Chip8Instruction::XOR(x, y) => lemma_xor(x, y, m, t),
        Chip8Instruction::ADD2(x, y) => lemma_add2(x, y, m, t),
        Chip8Instruction::SUB(x, y) => lemma_subtract(x, x, y, m, t),
        Chip8Instruction::SUBN(x, y) => lemma_subtract(x, y, x, m, t),
        Chip8Instruction::SHR(x) => lemma_shr(x, m, t),
        Chip8Instruction::SHL(x) => lemma_shl(x, m, t),
        Chip8Instruction::LD3(a) => lemma_ld3(a, m, t),
        Chip8Instruction::JP2(a) => lemma_jp2(a, m, t),
        Chip8Instruction::RND(x, kk) => lemma_rnd(x, kk, m, t),
        Chip8Instruction::LD4(x) => lemma_ld4(x, m, t),
        Chip8Instruction::LD6(x) => lemma_ld6(x, m, t),
        Chip8Instruction::LD7(x) => lemma_ld7(x, m, t),
        Chip8Instruction::ADD3(x) => lemma_add3(x, m, t),
    }
}

/// The translator is correct for every instruction: from a machine whose
/// `rbx` holds the record's base, the host code emitted for `ins` ends
/// without a fault, with `rbx` kept, and with the record changed exactly
/// as `ins` changes the guest state, `RND` taking the value the entropy
/// source handed out.
pub proof fn theorem_instruction(ins: Chip8Instruction, m: Machine, t: HelperTable)
    requires
        ready(m),
        operands_in_range(ins),
        may_run(m.st, ins),
        t.distinct(),
        draws(ins) <= m.entropy.len(),
    ensures
        arrives(m, run(ops_for(ins, t), m, t), step(m.st, ins, rand_of(m)), draws(ins)),
        step(m.st, ins, rand_of(m)).sane(),
{
    lemma_body(ins, m, t);
    lemma_effect_sane(m.st, ins, rand_of(m));
    if !is_terminator(ins) {
        let m1 = run(body_ops(ins, t), m, t);
        lemma_run_concat(body_ops(ins, t), pc_add(2), m, t);
        lemma_pc_add(2, m1, t);
        assert(m1.entropy.subrange(0, m1.entropy.len() as int) =~= m1.entropy);
    }
}

/// The guest running `instrs` in turn from `s`, `RND` drawing from
/// `entropy` in order; the state reached and the values left.
pub open spec fn guest_run(instrs: Seq<Chip8Instruction>, s: StateView, entropy: Seq<u64>) -> (
    StateView,
    Seq<u64>,
)
    decreases instrs.len(),
{
    if instrs.len() == 0 {
        (s, entropy)
    } else {
        let (t, e) = guest_run(instrs.drop_last(), s, entropy);
        let ins = instrs.last();
        let r = if e.len() > 0 { e[0] } else { 0 };
        (step(t, ins, r), e.subrange(draws(ins) as int, e.len() as int))
    }
}

/// Every instruction of `instrs` may run where the guest reaches it, with
/// its operands in range and a value to draw where it draws one.
pub open spec fn guest_can_run(instrs: Seq<Chip8Instruction>, s: StateView, entropy: Seq<u64>) -> bool
    decreases instrs.len(),
{
    if instrs.len() == 0 {
        true
    } else {
        let (t, e) = guest_run(instrs.drop_last(), s, entropy);
        let ins = instrs.last();
        &&& guest_can_run(instrs.drop_last(), s, entropy)
        &&& operands_in_range(ins)
        &&& may_run(t, ins)
        &&& draws(ins) <= e.len()
    }
}

/// `m2` is `m` after host code that did what the guest does running
/// `instrs` in turn: no fault, `rbx` kept, the record as the guest leaves
/// its state, the entropy values the guest did not draw left over.
pub open spec fn runs_as_guest(m: Machine, m2: Machine, instrs: Seq<Chip8Instruction>) -> bool {
    let (st, e) = guest_run(instrs, m.st, m.entropy);
    &&& m2.ok
    &&& known(m2, Register::Rbx) && m2.regs[Register::Rbx] == m.regs[Register::Rbx]
    &&& m2.st == st
    &&& m2.st.sane()
    &&& m2.entropy == e
}

/// The translator is correct for whole blocks: the host code of a unit,
/// run from a machine whose `rbx` holds the record's base, ends without a
/// fault and leaves the record as the guest leaves its state after running
/// the unit's instructions in turn.
pub proof fn theorem_block(instrs: Seq<Chip8Instruction>, m: Machine, t: HelperTable)
    requires
        ready(m),
        t.distinct(),
        guest_can_run(instrs, m.st, m.entropy),
    ensures
        runs_as_guest(m, run(block_ops(instrs, t), m, t), instrs),
    decreases instrs.len(),
{
    if instrs.len() == 0 {
        reveal_with_fuel(run_upto, 1);
    } else {
        let prefix = instrs.drop_last();
        theorem_block(prefix, m, t);
        let m1 = run(block_ops(prefix, t), m, t);
        let ins = instrs.last();
        lemma_run_concat(block_ops(prefix, t), ops_for(ins, t), m, t);
        theorem_instruction(ins, m1, t);
    }
}

/// The PC is even, and so is every return address on the stack.
pub open spec fn pc_aligned(s: StateView) -> bool {
    &&& s.pc % 2 == 0
    &&& forall|k: int| 0 <= k < s.sp ==> #[trigger] s.stack[k] % 2 == 0
}

/// The jump `ins` makes from `s`, if any, lands on an even address.
pub open spec fn even_target(s: StateView, ins: Chip8Instruction) -> bool {
    match ins {
        Chip8Instruction::JP1(a) | Chip8Instruction::CALL(a) => a % 2 == 0,
        Chip8Instruction::JP2(a) => s.regs[0].wrapping_add(a as u64) % 2 == 0,
        _ => true,
    }
}

proof fn lemma_even_step(pc: u64, k: u64)
    requires
        pc % 2 == 0,
        k % 2 == 0,
        k <= 4,
    ensures
        pc.wrapping_add(k) % 2 == 0,
{
}

/// An instruction whose jump lands on an even address keeps the PC and
/// the return addresses even.
pub proof fn lemma_step_keeps_pc_even(s: StateView, ins: Chip8Instruction, rand: u64)
    requires
        s.sane(),
        operands_in_range(ins),
        may_run(s, ins),
        pc_aligned(s),
        even_target(s, ins),
    ensures
        pc_aligned(step(s, ins, rand)),
{
    lemma_even_step(s.pc, 2);
    lemma_even_step(s.pc, 4);
    lemma_even_step(s.pc.wrapping_add(2), 2);
    let t = effect(s, ins, rand);
    match ins {
        Chip8Instruction::LD10(x) => lemma_store_regs_frame(s, x + 1),
        Chip8Instruction::LD11(x) => lemma_load_regs_frame(s, x + 1),
        Chip8Instruction::CALL(a) => {
            assert forall|k: int| 0 <= k < t.sp implies #[trigger] t.stack[k] % 2 == 0 by {
                if k < s.sp {
                    assert(t.stack[k] == s.stack[k]);
                }
            }
        },
        _ => {},
    }
    if !is_terminator(ins) {
        lemma_even_step(t.pc, 2);
    }
}

/// Every instruction of `instrs` that jumps lands on an even address,
/// where the guest reaches it.
pub open spec fn guest_jumps_even(instrs: Seq<Chip8Instruction>, s: StateView, entropy: Seq<u64>) -> bool
    decreases instrs.len(),
{
    if instrs.len() == 0 {
        true
    } else {
        &&& guest_jumps_even(instrs.drop_last(), s, entropy)
        &&& even_target(guest_run(instrs.drop_last(), s, entropy).0, instrs.last())
    }
}

/// A block run from an even PC, whose jumps land on even addresses, ends on
/// an even PC with the stack pointer within `0..=16` and every register
/// within `0..=255`.
pub proof fn lemma_block_keeps_state(instrs: Seq<Chip8Instruction>, s: StateView, entropy: Seq<u64>)
    requires
        s.sane(),
        pc_aligned(s),
        guest_can_run(instrs, s, entropy),
        guest_jumps_even(instrs, s, entropy),
    ensures
        guest_run(instrs, s, entropy).0.sane(),
        pc_aligned(guest_run(instrs, s, entropy).0),
    decreases instrs.len(),
{
    if instrs.len() > 0 {
        lemma_block_keeps_state(instrs.drop_last(), s, entropy);
        let (t, e) = guest_run(instrs.drop_last(), s, entropy);
        let r = if e.len() > 0 { e[0] } else { 0 };
        lemma_effect_sane(t, instrs.last(), r);
        lemma_step_keeps_pc_even(t, instrs.last(), r);
    }
}

} // verus!
