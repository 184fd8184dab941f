//! The host instructions that translated blocks are made of, and their
//! meaning as operations on the guest-state record.
//!
//! Every memory operand is relative to `rbx`, which holds the record's
//! base for the whole block. The model tracks which general registers hold
//! known values, the zero flag, the record, and the values the entropy
//! instruction will hand out; an operation outside what the model allows
//! (reading an unknown register, touching a byte outside the record's
//! fields, writing `rbx`) faults.
use vstd::prelude::*;
use crate::layout::{
    reg_disp, DELAY_OFFSET, I_OFFSET, MEM_SIZE, PC_OFFSET, REGS_OFFSET, SOUND_OFFSET, SP_OFFSET, STACK_OFFSET,
};
use crate::semantics::{
    cls_spec, drw_spec, ld_b_spec, ld_f_spec, ld_k_spec, set_reg, sknp_spec, skp_spec,
};
use crate::state::StateView;

verus! {

/// The 64-bit general registers that translated code uses.
#[derive(Debug, Clone, Copy, PartialEq, Eq, Structural, Hash)]
pub enum Register {
    Rax,
    Rbx,
    Rcx,
    Rdx,
    Rsi,
    Rdi,
    R8,
    R9,
    R10,
    R11,
}

/// One host instruction.
#[allow(non_camel_case_types)]
#[derive(Debug, Clone, Copy, PartialEq, Eq, Structural, Hash)]
pub enum x86Instruction {
    /// `mov dst, qword [rbx + disp]`
    Load { dst: Register, disp: u32 },
    /// `mov qword [rbx + disp], src`
    Store { disp: u32, src: Register },
    /// `mov dst, qword [rbx + index*8 + disp]`
    LoadIndexed { dst: Register, index: Register, disp: u32 },
    /// `mov qword [rbx + index*8 + disp], src`
    StoreIndexed { index: Register, disp: u32, src: Register },
    /// `movzx dst, byte [rbx + index]`
    LoadByte { dst: Register, index: Register },
    /// `mov byte [rbx + index], src` (the low byte of `src`)
    StoreByte { index: Register, src: Register },
    /// `mov dst, imm`
    MovImm { dst: Register, imm: u64 },
    /// `mov dst, src`
    Mov { dst: Register, src: Register },
    /// `add dst, src`
    Add { dst: Register, src: Register },
    /// `sub dst, src`
    Sub { dst: Register, src: Register },
    /// `and dst, src`
    And { dst: Register, src: Register },
    /// `or dst, src`
    Or { dst: Register, src: Register },
    /// `xor dst, src`
    Xor { dst: Register, src: Register },
    /// `and dst, imm` with a non-negative 32-bit immediate
    AndImm { dst: Register, imm: u32 },
    /// `shr dst, count`
    ShrImm { dst: Register, count: u32 },
    /// `shl dst, count`
    ShlImm { dst: Register, count: u32 },
    /// `cmp a, b`
    Cmp { a: Register, b: Register },
    /// `cmove dst, src`
    CmovE { dst: Register, src: Register },
    /// `cmovne dst, src`
    CmovNe { dst: Register, src: Register },
    /// `rdrand dst`
    Rdrand { dst: Register },
    /// `call target`
    CallReg { target: Register },
    /// `push src`, `pop dst`, `ret`: the block's frame only.
    Push { src: Register },
    Pop { dst: Register },
    Ret,
}

/// The host addresses of the runtime helpers.
#[derive(Debug, Clone, Copy, PartialEq, Eq, Structural)]
pub struct HelperTable {
    pub cls: u64,
    pub drw: u64,
    pub skp: u64,
    pub sknp: u64,
    pub ld_k: u64,
    pub ld_f: u64,
    pub ld_b: u64,
}

#[derive(Debug, Clone, Copy, PartialEq, Eq, Structural)]
pub enum Helper {
    Cls,
    Drw,
    Skp,
    Sknp,
    LdK,
    LdF,
    LdB,
}

impl HelperTable {
    /// No two helpers share an address.
    pub open spec fn distinct(self) -> bool {
        &&& self.cls != self.drw && self.cls != self.skp && self.cls != self.sknp
        &&& self.cls != self.ld_k && self.cls != self.ld_f && self.cls != self.ld_b
        &&& self.drw != self.skp && self.drw != self.sknp && self.drw != self.ld_k
        &&& self.drw != self.ld_f && self.drw != self.ld_b
        &&& self.skp != self.sknp && self.skp != self.ld_k && self.skp != self.ld_f
        &&& self.skp != self.ld_b
        &&& self.sknp != self.ld_k && self.sknp != self.ld_f && self.sknp != self.ld_b
        &&& self.ld_k != self.ld_f && self.ld_k != self.ld_b
        &&& self.ld_f != self.ld_b
    }

    pub open spec fn helper_at(self, addr: u64) -> Option<Helper> {
        if addr == self.cls {
            Some(Helper::Cls)
        } else if addr == self.drw {
            Some(Helper::Drw)
        } else if addr == self.skp {
            Some(Helper::Skp)
        } else if addr == self.sknp {
            Some(Helper::Sknp)
        } else if addr == self.ld_k {
            Some(Helper::LdK)
        } else if addr == self.ld_f {
            Some(Helper::LdF)
        } else if addr == self.ld_b {
            Some(Helper::LdB)
        } else {
            None
        }
    }

    pub open spec fn address_of(self, h: Helper) -> u64 {
        match h {
            Helper::Cls => self.cls,
            Helper::Drw => self.drw,
            Helper::Skp => self.skp,
            Helper::Sknp => self.sknp,
            Helper::LdK => self.ld_k,
            Helper::LdF => self.ld_f,
            Helper::LdB => self.ld_b,
        }
    }

    /// Whether helper `h` may run on `s` with arguments `a` (register
    /// numbers and a row count, in `rsi`, `rdx`, `rcx`).
    pub open spec fn accepts(h: Helper, s: StateView, a: u64, b: u64, c: u64) -> bool {
        &&& s.sane()
        &&& a < 16
        &&& (h == Helper::Drw ==> b < 16 && c < 16)
    }

    pub open spec fn apply(h: Helper, s: StateView, a: u64, b: u64, c: u64) -> StateView {
        match h {
            Helper::Cls => cls_spec(s),
            Helper::Drw => drw_spec(s, a as int, b as int, c as int),
            Helper::Skp => skp_spec(s, a as int),
            Helper::Sknp => sknp_spec(s, a as int),
            Helper::LdK => ld_k_spec(s, a as int),
            Helper::LdF => ld_f_spec(s, a as int),
            Helper::LdB => ld_b_spec(s, a as int),
        }
    }
}

/// The state of the host while a block runs. The zero flag is `None`
/// where it is unknown: at the start of a block and after a call.
pub struct Machine {
    pub regs: Map<Register, u64>,
    pub zf: Option<bool>,
    pub st: StateView,
    pub entropy: Seq<u64>,
    pub ok: bool,
}

pub open spec fn fault(m: Machine) -> Machine {
    Machine { ok: false, ..m }
}

/// The 64-bit slot at `disp`, if `disp` names one.
#[verifier::opaque]
pub open spec fn slot_read(s: StateView, disp: int) -> Option<u64> {
    if REGS_OFFSET <= disp < REGS_OFFSET + 128 && (disp - REGS_OFFSET) % 8 == 0 {
        Some(s.regs[(disp - REGS_OFFSET) / 8])
    } else if disp == I_OFFSET {
        Some(s.i)
    } else if disp == DELAY_OFFSET {
        Some(s.delay)
    } else if disp == SOUND_OFFSET {
        Some(s.sound)
    } else if disp == PC_OFFSET {
        Some(s.pc)
    } else if disp == SP_OFFSET {
        Some(s.sp)
    } else if STACK_OFFSET <= disp < STACK_OFFSET + 128 && (disp - STACK_OFFSET) % 8 == 0 {
        Some(s.stack[(disp - STACK_OFFSET) / 8])
    } else {
        None
    }
}

/// The record with the slot at `disp` set to `v`, if `disp` names one.
#[verifier::opaque]
pub open spec fn slot_write(s: StateView, disp: int, v: u64) -> Option<StateView> {
    if REGS_OFFSET <= disp < REGS_OFFSET + 128 && (disp - REGS_OFFSET) % 8 == 0 {
        Some(set_reg(s, (disp - REGS_OFFSET) / 8, v))
    } else if disp == I_OFFSET {
        Some(StateView { i: v, ..s })
    } else if disp == DELAY_OFFSET {
        Some(StateView { delay: v, ..s })
    } else if disp == SOUND_OFFSET {
        Some(StateView { sound: v, ..s })
    } else if disp == PC_OFFSET {
        Some(StateView { pc: v, ..s })
    } else if disp == SP_OFFSET {
        Some(StateView { sp: v, ..s })
    } else if STACK_OFFSET <= disp < STACK_OFFSET + 128 && (disp - STACK_OFFSET) % 8 == 0 {
        Some(StateView { stack: s.stack.update((disp - STACK_OFFSET) / 8, v), ..s })
    } else {
        None
    }
}

/// Which field each offset names.
pub proof fn lemma_slots()
    ensures
        forall|s: StateView, x: u8|
            x < 16 ==> #[trigger] slot_read(s, reg_disp(x) as int) == Some(s.regs[x as int]),
        forall|s: StateView, x: u8, v: u64|
            x < 16 ==> #[trigger] slot_write(s, reg_disp(x) as int, v) == Some(
                set_reg(s, x as int, v),
            ),
        forall|s: StateView, k: int|
            0 <= k < 16 ==> #[trigger] slot_read(s, STACK_OFFSET + 8 * k) == Some(s.stack[k]),
        forall|s: StateView, k: int, v: u64|
            0 <= k < 16 ==> #[trigger] slot_write(s, STACK_OFFSET + 8 * k, v) == Some(
                StateView { stack: s.stack.update(k, v), ..s },
            ),
        forall|s: StateView| #[trigger] slot_read(s, I_OFFSET as int) == Some(s.i),
        forall|s: StateView, v: u64|
            #[trigger] slot_write(s, I_OFFSET as int, v) == Some(StateView { i: v, ..s }),
        forall|s: StateView| #[trigger] slot_read(s, DELAY_OFFSET as int) == Some(s.delay),
        forall|s: StateView, v: u64|
            #[trigger] slot_write(s, DELAY_OFFSET as int, v) == Some(StateView { delay: v, ..s }),
        forall|s: StateView| #[trigger] slot_read(s, SOUND_OFFSET as int) == Some(s.sound),
        forall|s: StateView, v: u64|
            #[trigger] slot_write(s, SOUND_OFFSET as int, v) == Some(StateView { sound: v, ..s }),
        forall|s: StateView| #[trigger] slot_read(s, PC_OFFSET as int) == Some(s.pc),
        forall|s: StateView, v: u64|
            #[trigger] slot_write(s, PC_OFFSET as int, v) == Some(StateView { pc: v, ..s }),
        forall|s: StateView| #[trigger] slot_read(s, SP_OFFSET as int) == Some(s.sp),
        forall|s: StateView, v: u64|
            #[trigger] slot_write(s, SP_OFFSET as int, v) == Some(StateView { sp: v, ..s }),
{
    reveal(slot_read);
    reveal(slot_write);
    assert forall|s: StateView, x: u8| x < 16 implies #[trigger] slot_read(s, reg_disp(x) as int)
        == Some(s.regs[x as int]) by {
        assert((reg_disp(x) - REGS_OFFSET) / 8 == x);
    }
    assert forall|s: StateView, x: u8, v: u64| x < 16 implies #[trigger] slot_write(
        s,
        reg_disp(x) as int,
        v,
    ) == Some(set_reg(s, x as int, v)) by {
        assert((reg_disp(x) - REGS_OFFSET) / 8 == x);
    }
    assert forall|s: StateView, k: int| 0 <= k < 16 implies #[trigger] slot_read(
        s,
        STACK_OFFSET + 8 * k,
    ) == Some(s.stack[k]) by {
        assert((STACK_OFFSET + 8 * k - STACK_OFFSET) / 8 == k);
    }
    assert forall|s: StateView, k: int, v: u64| 0 <= k < 16 implies #[trigger] slot_write(
        s,
        STACK_OFFSET + 8 * k,
        v,
    ) == Some(StateView { stack: s.stack.update(k, v), ..s }) by {
        assert((STACK_OFFSET + 8 * k - STACK_OFFSET) / 8 == k);
    }
}

pub open spec fn known(m: Machine, r: Register) -> bool {
    m.regs.contains_key(r)
}

/// `dst` takes `v`; writing `rbx` faults.
pub open spec fn put(m: Machine, dst: Register, v: u64) -> Machine {
    if dst == Register::Rbx {
        fault(m)
    } else {
        Machine { regs: m.regs.insert(dst, v), ..m }
    }
}

/// `dst` takes `v` and the zero flag tells whether `v` is zero.
pub open spec fn put_flags(m: Machine, dst: Register, v: u64) -> Machine {
    let n = put(m, dst, v);
    Machine { zf: Some(v == 0), ..n }
}

pub open spec fn binary(m: Machine, dst: Register, src: Register, v: u64) -> Machine {
    if known(m, dst) && known(m, src) { put_flags(m, dst, v) } else { fault(m) }
}

pub open spec fn exec_op(op: x86Instruction, m: Machine, t: HelperTable) -> Machine {
    if !m.ok {
        m
    } else {
        match op {
            x86Instruction::Load { dst, disp } => match slot_read(m.st, disp as int) {
                Some(v) => put(m, dst, v),
                None => fault(m),
            },
            x86Instruction::Store { disp, src } => if known(m, src) {
                match slot_write(m.st, disp as int, m.regs[src]) {
                    Some(st) => Machine { st, ..m },
                    None => fault(m),
                }
            } else {
                fault(m)
            },
            x86Instruction::LoadIndexed { dst, index, disp } => if known(m, index) {
                match slot_read(m.st, disp + 8 * m.regs[index]) {
                    Some(v) => put(m, dst, v),
                    None => fault(m),
                }
            } else {
                fault(m)
            },
            x86Instruction::StoreIndexed { index, disp, src } => if known(m, index) && known(m, src) {
                match slot_write(m.st, disp + 8 * m.regs[index], m.regs[src]) {
                    Some(st) => Machine { st, ..m },
                    None => fault(m),
                }
            } else {
                fault(m)
            },
            x86Instruction::LoadByte { dst, index } => if known(m, index) && m.regs[index] < MEM_SIZE {
                put(m, dst, m.st.mem[m.regs[index] as int] as u64)
            } else {
                fault(m)
            },
            x86Instruction::StoreByte { index, src } => if known(m, index) && known(m, src)
                && m.regs[index] < MEM_SIZE {
                Machine {
                    st: StateView {
                        mem: m.st.mem.update(m.regs[index] as int, (m.regs[src] % 256) as u8),
                        ..m.st
                    },
                    ..m
                }
            } else {
                fault(m)
            },
            x86Instruction::MovImm { dst, imm } => put(m, dst, imm),
            x86Instruction::Mov { dst, src } => if known(m, src) {
                put(m, dst, m.regs[src])
            } else {
                fault(m)
            },
            x86Instruction::Add { dst, src } => binary(m, dst, src, m.regs[dst].wrapping_add(m.regs[src])),
            x86Instruction::Sub { dst, src } => binary(m, dst, src, m.regs[dst].wrapping_sub(m.regs[src])),
            x86Instruction::And { dst, src } => binary(m, dst, src, m.regs[dst] & m.regs[src]),
            x86Instruction::Or { dst, src } => binary(m, dst, src, m.regs[dst] | m.regs[src]),
            x86Instruction::Xor { dst, src } => binary(m, dst, src, m.regs[dst] ^ m.regs[src]),
            x86Instruction::AndImm { dst, imm } => if known(m, dst) && imm < 0x8000_0000 {
                put_flags(m, dst, m.regs[dst] & (imm as u64))
            } else {
                fault(m)
            },
            x86Instruction::ShrImm { dst, count } => if known(m, dst) && 0 < count < 64 {
                put_flags(m, dst, m.regs[dst] >> (count as u64))
            } else {
                fault(m)
            },
            x86Instruction::ShlImm { dst, count } => if known(m, dst) && 0 < count < 64 {
                put_flags(m, dst, m.regs[dst] << (count as u64))
            } else {
                fault(m)
            },
            x86Instruction::Cmp { a, b } => if known(m, a) && known(m, b) {
                Machine { zf: Some(m.regs[a] == m.regs[b]), ..m }
            } else {
                fault(m)
            },
            x86Instruction::CmovE { dst, src } => if known(m, dst) && known(m, src) && m.zf is Some {
                if m.zf->Some_0 { put(m, dst, m.regs[src]) } else { m }
            } else {
                fault(m)
            },
            x86Instruction::CmovNe { dst, src } => if known(m, dst) && known(m, src) && m.zf is Some {
                if !m.zf->Some_0 { put(m, dst, m.regs[src]) } else { m }
            } else {
                fault(m)
            },
            x86Instruction::Rdrand { dst } => if m.entropy.len() > 0 {
                let n = put(m, dst, m.entropy[0]);
                Machine { entropy: m.entropy.drop_first(), ..n }
            } else {
                fault(m)
            },
            x86Instruction::CallReg { target } => {
                let args_known = known(m, target) && known(m, Register::Rbx) && known(m, Register::Rdi)
                    && known(m, Register::Rsi) && known(m, Register::Rdx) && known(m, Register::Rcx);
                if args_known && m.regs[Register::Rdi] == m.regs[Register::Rbx] {
                    let (a, b, c) = (m.regs[Register::Rsi], m.regs[Register::Rdx], m.regs[Register::Rcx]);
                    match t.helper_at(m.regs[target]) {
                        Some(h) => if HelperTable::accepts(h, m.st, a, b, c) {
                            Machine {
                                regs: Map::empty().insert(Register::Rbx, m.regs[Register::Rbx]),
                                zf: None,
                                st: HelperTable::apply(h, m.st, a, b, c),
                                ..m
                            }
                        } else {
                            fault(m)
                        },
                        None => fault(m),
                    }
                } else {
                    fault(m)
                }
            },
            x86Instruction::Push { .. } | x86Instruction::Pop { .. } | x86Instruction::Ret => fault(m),
        }
    }
}

/// The first `n` operations of `ops`, run from `m`.
pub open spec fn run_upto(ops: Seq<x86Instruction>, n: nat, m: Machine, t: HelperTable) -> Machine
    decreases n,
{
    if n == 0 {
        m
    } else {
        exec_op(ops[n - 1], run_upto(ops, (n - 1) as nat, m, t), t)
    }
}

pub open spec fn run(ops: Seq<x86Instruction>, m: Machine, t: HelperTable) -> Machine {
    run_upto(ops, ops.len(), m, t)
}

proof fn lemma_run_upto_prefix(a: Seq<x86Instruction>, b: Seq<x86Instruction>, n: nat, m: Machine, t: HelperTable)
    requires
        n <= a.len(),
    ensures
        run_upto(a + b, n, m, t) == run_upto(a, n, m, t),
    decreases n,
{
    if n > 0 {
        lemma_run_upto_prefix(a, b, (n - 1) as nat, m, t);
        assert((a + b)[n - 1] == a[n - 1]);
    }
}

proof fn lemma_run_upto_suffix(a: Seq<x86Instruction>, b: Seq<x86Instruction>, k: nat, m: Machine, t: HelperTable)
    requires
        k <= b.len(),
    ensures
        run_upto(a + b, a.len() + k, m, t) == run_upto(b, k, run(a, m, t), t),
    decreases k,
{
    if k == 0 {
        lemma_run_upto_prefix(a, b, a.len(), m, t);
    } else {
        lemma_run_upto_suffix(a, b, (k - 1) as nat, m, t);
        assert((a + b)[a.len() + k - 1] == b[k - 1]);
        assert((a.len() + k - 1) as nat == a.len() + (k - 1) as nat);
    }
}

/// Running two sequences one after the other is running their
/// concatenation.
pub proof fn lemma_run_concat(a: Seq<x86Instruction>, b: Seq<x86Instruction>, m: Machine, t: HelperTable)
    ensures
        run(a + b, m, t) == run(b, run(a, m, t), t),
{
    lemma_run_upto_suffix(a, b, b.len(), m, t);
}

} // verus!
