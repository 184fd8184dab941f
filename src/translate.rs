//! The translator: the host instructions emitted for each CHIP-8
//! instruction and for a whole translation unit.
use vstd::prelude::*;
use crate::decode::{
    block_from, decode_spec, lemma_decoded_operands_in_range, opcode_at, Chip8Instruction,
    is_terminator, operands_in_range,
};
use crate::emitter::encodable;
use crate::correctness::{
    arrives, draws, guest_can_run, rand_of, ready, runs_as_guest, theorem_block, theorem_instruction,
};
use crate::semantics::{may_run, step};
use crate::host::{run, HelperTable, Machine, Register, x86Instruction};
use crate::layout::{
    get_field_offset, reg_disp, Chip8Field, DELAY_OFFSET, I_OFFSET, PC_OFFSET, SOUND_OFFSET, SP_OFFSET,
    STACK_OFFSET,
};

verus! {

/// `pc += k`
pub open spec fn pc_add(k: u64) -> Seq<x86Instruction> {
    seq![
        x86Instruction::Load { dst: Register::R8, disp: PC_OFFSET },
        x86Instruction::MovImm { dst: Register::R9, imm: k },
        x86Instruction::Add { dst: Register::R8, src: Register::R9 },
        x86Instruction::Store { disp: PC_OFFSET, src: Register::R8 },
    ]
}

/// A call of the helper at `addr` with the record's base and three
/// arguments.
pub open spec fn call_helper(addr: u64, a: u64, b: u64, c: u64) -> Seq<x86Instruction> {
    seq![
        x86Instruction::Mov { dst: Register::Rdi, src: Register::Rbx },
        x86Instruction::MovImm { dst: Register::Rsi, imm: a },
        x86Instruction::MovImm { dst: Register::Rdx, imm: b },
        x86Instruction::MovImm { dst: Register::Rcx, imm: c },
        x86Instruction::MovImm { dst: Register::Rax, imm: addr },
        x86Instruction::CallReg { target: Register::Rax },
    ]
}

/// `pc += (Vx == rhs) ? 4 : 2` where `rhs` is already in `rax`; `ne`
/// inverts the test.
pub open spec fn skip_if(x: u8, ne: bool) -> Seq<x86Instruction> {
    seq![
        x86Instruction::Load { dst: Register::R8, disp: PC_OFFSET },
        x86Instruction::MovImm { dst: Register::R9, imm: 2 },
        x86Instruction::Add { dst: Register::R8, src: Register::R9 },
        x86Instruction::Mov { dst: Register::R10, src: Register::R8 },
        x86Instruction::Add { dst: Register::R10, src: Register::R9 },
        x86Instruction::Load { dst: Register::R11, disp: reg_disp(x) },
        x86Instruction::Cmp { a: Register::R11, b: Register::Rax },
        if ne {
            x86Instruction::CmovNe { dst: Register::R8, src: Register::R10 }
        } else {
            x86Instruction::CmovE { dst: Register::R8, src: Register::R10 }
        },
        x86Instruction::Store { disp: PC_OFFSET, src: Register::R8 },
    ]
}

/// `Vx = Vx op Vy` for a bitwise `op`.
pub open spec fn bitwise(x: u8, y: u8, op: x86Instruction) -> Seq<x86Instruction> {
    seq![
        x86Instruction::Load { dst: Register::R8, disp: reg_disp(x) },
        x86Instruction::Load { dst: Register::R9, disp: reg_disp(y) },
        op,
        x86Instruction::Store { disp: reg_disp(x), src: Register::R8 },
    ]
}

/// `VF = (a + 256 - b) >> 8; Vx = (a + 256 - b) & 0xff`: subtraction with
/// the no-borrow flag.
pub open spec fn subtract(x: u8, a: u8, b: u8) -> Seq<x86Instruction> {
    seq![
        x86Instruction::Load { dst: Register::R8, disp: reg_disp(a) },
        x86Instruction::MovImm { dst: Register::R9, imm: 256 },
        x86Instruction::Add { dst: Register::R8, src: Register::R9 },
        x86Instruction::Load { dst: Register::R10, disp: reg_disp(b) },
        x86Instruction::Sub { dst: Register::R8, src: Register::R10 },
        x86Instruction::Mov { dst: Register::R11, src: Register::R8 },
        x86Instruction::ShrImm { dst: Register::R11, count: 8 },
        x86Instruction::Store { disp: reg_disp(0xf), src: Register::R11 },
        x86Instruction::AndImm { dst: Register::R8, imm: 0xff },
        x86Instruction::Store { disp: reg_disp(x), src: Register::R8 },
    ]
}

/// The address `(I + k) mod 4096` in `r9`, from `I` in `r8`.
pub open spec fn index_at(k: u64) -> Seq<x86Instruction> {
    seq![
        x86Instruction::Mov { dst: Register::R9, src: Register::R8 },
        x86Instruction::MovImm { dst: Register::R10, imm: k },
        x86Instruction::Add { dst: Register::R9, src: Register::R10 },
        x86Instruction::AndImm { dst: Register::R9, imm: 0xfff },
    ]
}

/// `mem[I + k] = Vk` for `k < count`, with `I` in `r8`.
pub open spec fn store_seq(count: nat) -> Seq<x86Instruction>
    decreases count,
{
    if count == 0 {
        seq![]
    } else {
        let k = (count - 1) as nat;
        store_seq(k) + index_at(k as u64) + seq![
            x86Instruction::Load { dst: Register::R11, disp: reg_disp(k as u8) },
            x86Instruction::StoreByte { index: Register::R9, src: Register::R11 },
        ]
    }
}

/// `Vk = mem[I + k]` for `k < count`, with `I` in `r8`.
pub open spec fn load_seq(count: nat) -> Seq<x86Instruction>
    decreases count,
{
    if count == 0 {
        seq![]
    } else {
        let k = (count - 1) as nat;
        load_seq(k) + index_at(k as u64) + seq![
            x86Instruction::LoadByte { dst: Register::R11, index: Register::R9 },
            x86Instruction::Store { disp: reg_disp(k as u8), src: Register::R11 },
        ]
    }
}

/// The host instructions for one CHIP-8 instruction's effect.
pub open spec fn body_ops(ins: Chip8Instruction, t: HelperTable) -> Seq<x86Instruction> {
    match ins {
        Chip8Instruction::CLS => call_helper(t.cls, 0, 0, 0),
        Chip8Instruction::RET => seq![
            x86Instruction::Load { dst: Register::R8, disp: SP_OFFSET },
            x86Instruction::MovImm { dst: Register::R9, imm: 1 },
            x86Instruction::Sub { dst: Register::R8, src: Register::R9 },
            x86Instruction::Store { disp: SP_OFFSET, src: Register::R8 },
            x86Instruction::LoadIndexed { dst: Register::R10, index: Register::R8, disp: STACK_OFFSET },
            x86Instruction::Store { disp: PC_OFFSET, src: Register::R10 },
        ],
        Chip8Instruction::SYS(_) => pc_add(2),
        Chip8Instruction::JP1(a) => seq![
            x86Instruction::MovImm { dst: Register::R8, imm: a as u64 },
            x86Instruction::Store { disp: PC_OFFSET, src: Register::R8 },
        ],
        Chip8Instruction::CALL(a) => seq![
            x86Instruction::Load { dst: Register::R8, disp: SP_OFFSET },
            x86Instruction::Load { dst: Register::R9, disp: PC_OFFSET },
            x86Instruction::MovImm { dst: Register::R10, imm: 2 },
            x86Instruction::Add { dst: Register::R9, src: Register::R10 },
            x86Instruction::StoreIndexed { index: Register::R8, disp: STACK_OFFSET, src: Register::R9 },
            x86Instruction::MovImm { dst: Register::R10, imm: 1 },
            x86Instruction::Add { dst: Register::R8, src: Register::R10 },
            x86Instruction::Store { disp: SP_OFFSET, src: Register::R8 },
            x86Instruction::MovImm { dst: Register::R11, imm: a as u64 },
            x86Instruction::Store { disp: PC_OFFSET, src: Register::R11 },
        ],
        Chip8Instruction::SE1(x, kk) => seq![x86Instruction::MovImm { dst: Register::Rax, imm: kk as u64 }]
            + skip_if(x, false),
        Chip8Instruction::SNE1(x, kk) => seq![x86Instruction::MovImm { dst: Register::Rax, imm: kk as u64 }]
            + skip_if(x, true),
        Chip8Instruction::SE2(x, y) => seq![x86Instruction::Load { dst: Register::Rax, disp: reg_disp(y) }]
            + skip_if(x, false),
        Chip8Instruction::SNE2(x, y) => seq![x86Instruction::Load { dst: Register::Rax, disp: reg_disp(y) }]
            + skip_if(x, true),
        Chip8Instruction::LD1(x, kk) => seq![
            x86Instruction::MovImm { dst: Register::R8, imm: kk as u64 },
            x86Instruction::Store { disp: reg_disp(x), src: Register::R8 },
        ],
        Chip8Instruction::ADD1(x, kk) => seq![
            x86Instruction::Load { dst: Register::R8, disp: reg_disp(x) },
            x86Instruction::MovImm { dst: Register::R9, imm: kk as u64 },
            x86Instruction::Add { dst: Register::R8, src: Register::R9 },
            x86Instruction::AndImm { dst: Register::R8, imm: 0xff },
            x86Instruction::Store { disp: reg_disp(x), src: Register::R8 },
        ],
        Chip8Instruction::LD2(x, y) => seq![
            x86Instruction::Load { dst: Register::R8, disp: reg_disp(y) },
            x86Instruction::Store { disp: reg_disp(x), src: Register::R8 },
        ],
        Chip8Instruction::OR(x, y) => bitwise(x, y, x86Instruction::Or { dst: Register::R8, src: Register::R9 }),
        Chip8Instruction::AND(x, y) => bitwise(x, y, x86Instruction::And { dst: Register::R8, src: Register::R9 }),
        Chip8Instruction::XOR(x, y) => bitwise(x, y, x86Instruction::Xor { dst: Register::R8, src: Register::R9 }),
        Chip8Instruction::ADD2(x, y) => seq![
            x86Instruction::Load { dst: Register::R8, disp: reg_disp(x) },
            x86Instruction::Load { dst: Register::R9, disp: reg_disp(y) },
            x86Instruction::Add { dst: Register::R8, src: Register::R9 },
            x86Instruction::Mov { dst: Register::R10, src: Register::R8 },
            x86Instruction::ShrImm { dst: Register::R10, count: 8 },
            x86Instruction::Store { disp: reg_disp(0xf), src: Register::R10 },
            x86Instruction::AndImm { dst: Register::R8, imm: 0xff },
            x86Instruction::Store { disp: reg_disp(x), src: Register::R8 },
        ],
        Chip8Instruction::SUB(x, y) => subtract(x, x, y),
        Chip8Instruction::SUBN(x, y) => subtract(x, y, x),
        Chip8Instruction::SHR(x) => seq![
            x86Instruction::Load { dst: Register::R8, disp: reg_disp(x) },
            x86Instruction::Mov { dst: Register::R9, src: Register::R8 },
            x86Instruction::AndImm { dst: Register::R9, imm: 1 },
            x86Instruction::Store { disp: reg_disp(0xf), src: Register::R9 },
            x86Instruction::ShrImm { dst: Register::R8, count: 1 },
            x86Instruction::Store { disp: reg_disp(x), src: Register::R8 },
        ],
        Chip8Instruction::SHL(x) => seq![
            x86Instruction::Load { dst: Register::R8, disp: reg_disp(x) },
            x86Instruction::Mov { dst: Register::R9, src: Register::R8 },
            x86Instruction::ShrImm { dst: Register::R9, count: 7 },
            x86Instruction::AndImm { dst: Register::R9, imm: 1 },
            x86Instruction::Store { disp: reg_disp(0xf), src: Register::R9 },
            x86Instruction::ShlImm { dst: Register::R8, count: 1 },
            x86Instruction::AndImm { dst: Register::R8, imm: 0xff },
            x86Instruction::Store { disp: reg_disp(x), src: Register::R8 },
        ],
        Chip8Instruction::LD3(a) => seq![
            x86Instruction::MovImm { dst: Register::R8, imm: a as u64 },
            x86Instruction::Store { disp: I_OFFSET, src: Register::R8 },
        ],
        Chip8Instruction::JP2(a) => seq![
            x86Instruction::Load { dst: Register::R8, disp: reg_disp(0) },
            x86Instruction::MovImm { dst: Register::R9, imm: a as u64 },
            x86Instruction::Add { dst: Register::R8, src: Register::R9 },
            x86Instruction::Store { disp: PC_OFFSET, src: Register::R8 },
        ],
        Chip8Instruction::RND(x, kk) => seq![
            x86Instruction::Rdrand { dst: Register::R8 },
            x86Instruction::MovImm { dst: Register::R9, imm: kk as u64 },
            x86Instruction::And { dst: Register::R8, src: Register::R9 },
            x86Instruction::Store { disp: reg_disp(x), src: Register::R8 },
        ],
        Chip8Instruction::DRW(x, y, n) => call_helper(t.drw, x as u64, y as u64, n as u64),
        Chip8Instruction::SKP(x) => call_helper(t.skp, x as u64, 0, 0) + pc_add(2),
        Chip8Instruction::SKNP(x) => call_helper(t.sknp, x as u64, 0, 0) + pc_add(2),
        Chip8Instruction::LD4(x) => seq![
            x86Instruction::Load { dst: Register::R8, disp: DELAY_OFFSET },
            x86Instruction::Store { disp: reg_disp(x), src: Register::R8 },
        ],
        Chip8Instruction::LD5(x) => call_helper(t.ld_k, x as u64, 0, 0),
        Chip8Instruction::LD6(x) => seq![
            x86Instruction::Load { dst: Register::R8, disp: reg_disp(x) },
            x86Instruction::Store { disp: DELAY_OFFSET, src: Register::R8 },
        ],
        Chip8Instruction::LD7(x) => seq![
            x86Instruction::Load { dst: Register::R8, disp: reg_disp(x) },
            x86Instruction::Store { disp: SOUND_OFFSET, src: Register::R8 },
        ],
        Chip8Instruction::ADD3(x) => seq![
            x86Instruction::Load { dst: Register::R8, disp: I_OFFSET },
            x86Instruction::Load { dst: Register::R9, disp: reg_disp(x) },
            x86Instruction::Add { dst: Register::R8, src: Register::R9 },
            x86Instruction::AndImm { dst: Register::R8, imm: 0xfff },
            x86Instruction::Store { disp: I_OFFSET, src: Register::R8 },
        ],
        Chip8Instruction::LD8(x) => call_helper(t.ld_f, x as u64, 0, 0),
        Chip8Instruction::LD9(x) => call_helper(t.ld_b, x as u64, 0, 0),
        Chip8Instruction::LD10(x) => seq![x86Instruction::Load { dst: Register::R8, disp: I_OFFSET }]
            + store_seq(x as nat + 1),
        Chip8Instruction::LD11(x) => seq![x86Instruction::Load { dst: Register::R8, disp: I_OFFSET }]
            + load_seq(x as nat + 1),
    }
}

/// One instruction: its effect, then the step to the next instruction
/// unless it closes the block.
pub open spec fn ops_for(ins: Chip8Instruction, t: HelperTable) -> Seq<x86Instruction> {
    if is_terminator(ins) {
        body_ops(ins, t)
    } else {
        body_ops(ins, t) + pc_add(2)
    }
}

impl x86Instruction {
    /// The host instructions for one CHIP-8 instruction, calling helpers
    /// at the addresses in `t`.
    pub fn from_chip8(chip8_instruction: &Chip8Instruction, t: &HelperTable) -> (r: Vec<
        x86Instruction,
    >)
        requires
            operands_in_range(*chip8_instruction),
        ensures
            r@ == ops_for(*chip8_instruction, *t),
        forall|m: Machine|
            ready(m) && may_run(m.st, *chip8_instruction) && t.distinct() && draws(*chip8_instruction) <= m.entropy.len()
                ==> arrives(m, #[trigger] run(r@, m, *t), step(m.st, *chip8_instruction, rand_of(m)), draws(*chip8_instruction)),
    {
        translate_instruction(*chip8_instruction, t)
    }
}

/// The host instructions of a whole translation unit.
pub open spec fn block_ops(instrs: Seq<Chip8Instruction>, t: HelperTable) -> Seq<x86Instruction>
    decreases instrs.len(),
{
    if instrs.len() == 0 {
        seq![]
    } else {
        block_ops(instrs.drop_last(), t) + ops_for(instrs.last(), t)
    }
}

fn reg(x: u8) -> (r: u32)
    requires
        x < 16,
    ensures
        r == reg_disp(x),
{
    get_field_offset(Chip8Field::Reg(x))
}

fn pc_add_ops(k: u64) -> (r: Vec<x86Instruction>)
    ensures
        r@ == pc_add(k),
{
    let r = vec![
        x86Instruction::Load { dst: Register::R8, disp: PC_OFFSET },
        x86Instruction::MovImm { dst: Register::R9, imm: k },
        x86Instruction::Add { dst: Register::R8, src: Register::R9 },
        x86Instruction::Store { disp: PC_OFFSET, src: Register::R8 },
    ];
    assert(r@ =~= pc_add(k));
    r
}

fn call_helper_ops(addr: u64, a: u64, b: u64, c: u64) -> (r: Vec<x86Instruction>)
    ensures
        r@ == call_helper(addr, a, b, c),
{
    let r = vec![
        x86Instruction::Mov { dst: Register::Rdi, src: Register::Rbx },
        x86Instruction::MovImm { dst: Register::Rsi, imm: a },
        x86Instruction::MovImm { dst: Register::Rdx, imm: b },
        x86Instruction::MovImm { dst: Register::Rcx, imm: c },
        x86Instruction::MovImm { dst: Register::Rax, imm: addr },
        x86Instruction::CallReg { target: Register::Rax },
    ];
    assert(r@ =~= call_helper(addr, a, b, c));
    r
}

fn skip_if_ops(first: x86Instruction, x: u8, ne: bool) -> (r: Vec<x86Instruction>)
    requires
        x < 16,
    ensures
        r@ == seq![first] + skip_if(x, ne),
{
    let cmov = if ne {
        x86Instruction::CmovNe { dst: Register::R8, src: Register::R10 }
    } else {
        x86Instruction::CmovE { dst: Register::R8, src: Register::R10 }
    };
    let r = vec![
        first,
        x86Instruction::Load { dst: Register::R8, disp: PC_OFFSET },
        x86Instruction::MovImm { dst: Register::R9, imm: 2 },
        x86Instruction::Add { dst: Register::R8, src: Register::R9 },
        x86Instruction::Mov { dst: Register::R10, src: Register::R8 },
        x86Instruction::Add { dst: Register::R10, src: Register::R9 },
        x86Instruction::Load { dst: Register::R11, disp: reg(x) },
        x86Instruction::Cmp { a: Register::R11, b: Register::Rax },
        cmov,
        x86Instruction::Store { disp: PC_OFFSET, src: Register::R8 },
    ];
    assert(r@ =~= seq![first] + skip_if(x, ne));
    r
}

fn bitwise_ops(x: u8, y: u8, op: x86Instruction) -> (r: Vec<x86Instruction>)
    requires
        x < 16,
        y < 16,
    ensures
        r@ == bitwise(x, y, op),
{
    let r = vec![
        x86Instruction::Load { dst: Register::R8, disp: reg(x) },
        x86Instruction::Load { dst: Register::R9, disp: reg(y) },
        op,
        x86Instruction::Store { disp: reg(x), src: Register::R8 },
    ];
    assert(r@ =~= bitwise(x, y, op));
    r
}

fn subtract_ops(x: u8, a: u8, b: u8) -> (r: Vec<x86Instruction>)
    requires
        x < 16,
        a < 16,
        b < 16,
    ensures
        r@ == subtract(x, a, b),
{
    let r = vec![
        x86Instruction::Load { dst: Register::R8, disp: reg(a) },
        x86Instruction::MovImm { dst: Register::R9, imm: 256 },
        x86Instruction::Add { dst: Register::R8, src: Register::R9 },
        x86Instruction::Load { dst: Register::R10, disp: reg(b) },
        x86Instruction::Sub { dst: Register::R8, src: Register::R10 },
        x86Instruction::Mov { dst: Register::R11, src: Register::R8 },
        x86Instruction::ShrImm { dst: Register::R11, count: 8 },
        x86Instruction::Store { disp: reg(0xf), src: Register::R11 },
        x86Instruction::AndImm { dst: Register::R8, imm: 0xff },
        x86Instruction::Store { disp: reg(x), src: Register::R8 },
    ];
    assert(r@ =~= subtract(x, a, b));
    r
}

/// `LD [I], Vx` (`store`) or `LD Vx, [I]`, unrolled over `V0..=Vx`.
fn transfer_ops(x: u8, store: bool) -> (r: Vec<x86Instruction>)
    requires
        x < 16,
    ensures
        r@ == seq![x86Instruction::Load { dst: Register::R8, disp: I_OFFSET }] + if store {
            store_seq(x as nat + 1)
        } else {
            load_seq(x as nat + 1)
        },
{
    let mut r: Vec<x86Instruction> = vec![x86Instruction::Load { dst: Register::R8, disp: I_OFFSET }];
    let mut k: u8 = 0;
    while k <= x
        invariant
            x < 16,
            k <= x + 1,
            r@ == seq![x86Instruction::Load { dst: Register::R8, disp: I_OFFSET }] + if store {
                store_seq(k as nat)
            } else {
                load_seq(k as nat)
            },
        decreases x + 1 - k,
    {
        let ghost before = r@;
        r.push(x86Instruction::Mov { dst: Register::R9, src: Register::R8 });
        r.push(x86Instruction::MovImm { dst: Register::R10, imm: k as u64 });
        r.push(x86Instruction::Add { dst: Register::R9, src: Register::R10 });
        r.push(x86Instruction::AndImm { dst: Register::R9, imm: 0xfff });
        if store {
            r.push(x86Instruction::Load { dst: Register::R11, disp: reg(k) });
            r.push(x86Instruction::StoreByte { index: Register::R9, src: Register::R11 });
            assert(r@ =~= seq![x86Instruction::Load { dst: Register::R8, disp: I_OFFSET }] + store_seq(
                (k + 1) as nat,
            ));
        } else {
            r.push(x86Instruction::LoadByte { dst: Register::R11, index: Register::R9 });
            r.push(x86Instruction::Store { disp: reg(k), src: Register::R11 });
            assert(r@ =~= seq![x86Instruction::Load { dst: Register::R8, disp: I_OFFSET }] + load_seq(
                (k + 1) as nat,
            ));
        }
        k = k + 1;
    }
    r
}

/// The host instructions for one instruction's effect.
fn body_ops_exec(ins: Chip8Instruction, t: &HelperTable) -> (r: Vec<x86Instruction>)
    requires
        operands_in_range(ins),
    ensures
        r@ == body_ops(ins, *t),
{
    let r = match ins {
        Chip8Instruction::CLS => call_helper_ops(t.cls, 0, 0, 0),
        Chip8Instruction::RET => vec![
            x86Instruction::Load { dst: Register::R8, disp: SP_OFFSET },
            x86Instruction::MovImm { dst: Register::R9, imm: 1 },
            x86Instruction::Sub { dst: Register::R8, src: Register::R9 },
            x86Instruction::Store { disp: SP_OFFSET, src: Register::R8 },
            x86Instruction::LoadIndexed { dst: Register::R10, index: Register::R8, disp: STACK_OFFSET },
            x86Instruction::Store { disp: PC_OFFSET, src: Register::R10 },
        ],
        Chip8Instruction::SYS(_) => pc_add_ops(2),
        Chip8Instruction::JP1(a) => vec![
            x86Instruction::MovImm { dst: Register::R8, imm: a as u64 },
            x86Instruction::Store { disp: PC_OFFSET, src: Register::R8 },
        ],
        Chip8Instruction::CALL(a) => vec![
            x86Instruction::Load { dst: Register::R8, disp: SP_OFFSET },
            x86Instruction::Load { dst: Register::R9, disp: PC_OFFSET },
            x86Instruction::MovImm { dst: Register::R10, imm: 2 },
            x86Instruction::Add { dst: Register::R9, src: Register::R10 },
            x86Instruction::StoreIndexed { index: Register::R8, disp: STACK_OFFSET, src: Register::R9 },
            x86Instruction::MovImm { dst: Register::R10, imm: 1 },
            x86Instruction::Add { dst: Register::R8, src: Register::R10 },
            x86Instruction::Store { disp: SP_OFFSET, src: Register::R8 },
            x86Instruction::MovImm { dst: Register::R11, imm: a as u64 },
            x86Instruction::Store { disp: PC_OFFSET, src: Register::R11 },
        ],
        Chip8Instruction::SE1(x, kk) => skip_if_ops(x86Instruction::MovImm { dst: Register::Rax, imm: kk as u64 }, x, false),
        Chip8Instruction::SNE1(x, kk) => skip_if_ops(x86Instruction::MovImm { dst: Register::Rax, imm: kk as u64 }, x, true),
        Chip8Instruction::SE2(x, y) => skip_if_ops(x86Instruction::Load { dst: Register::Rax, disp: reg(y) }, x, false),
        Chip8Instruction::SNE2(x, y) => skip_if_ops(x86Instruction::Load { dst: Register::Rax, disp: reg(y) }, x, true),
        Chip8Instruction::LD1(x, kk) => vec![
            x86Instruction::MovImm { dst: Register::R8, imm: kk as u64 },
            x86Instruction::Store { disp: reg(x), src: Register::R8 },
        ],
        Chip8Instruction::ADD1(x, kk) => vec![
            x86Instruction::Load { dst: Register::R8, disp: reg(x) },
            x86Instruction::MovImm { dst: Register::R9, imm: kk as u64 },
            x86Instruction::Add { dst: Register::R8, src: Register::R9 },
            x86Instruction::AndImm { dst: Register::R8, imm: 0xff },
            x86Instruction::Store { disp: reg(x), src: Register::R8 },
        ],
        Chip8Instruction::LD2(x, y) => vec![
            x86Instruction::Load { dst: Register::R8, disp: reg(y) },
            x86Instruction::Store { disp: reg(x), src: Register::R8 },
        ],
        Chip8Instruction::OR(x, y) => bitwise_ops(x, y, x86Instruction::Or { dst: Register::R8, src: Register::R9 }),
        Chip8Instruction::AND(x, y) => bitwise_ops(x, y, x86Instruction::And { dst: Register::R8, src: Register::R9 }),
        Chip8Instruction::XOR(x, y) => bitwise_ops(x, y, x86Instruction::Xor { dst: Register::R8, src: Register::R9 }),
        Chip8Instruction::ADD2(x, y) => vec![
            x86Instruction::Load { dst: Register::R8, disp: reg(x) },
            x86Instruction::Load { dst: Register::R9, disp: reg(y) },
            x86Instruction::Add { dst: Register::R8, src: Register::R9 },
            x86Instruction::Mov { dst: Register::R10, src: Register::R8 },
            x86Instruction::ShrImm { dst: Register::R10, count: 8 },
            x86Instruction::Store { disp: reg(0xf), src: Register::R10 },
            x86Instruction::AndImm { dst: Register::R8, imm: 0xff },
            x86Instruction::Store { disp: reg(x), src: Register::R8 },
        ],
        Chip8Instruction::SUB(x, y) => subtract_ops(x, x, y),
        Chip8Instruction::SUBN(x, y) => subtract_ops(x, y, x),
        Chip8Instruction::SHR(x) => vec![
            x86Instruction::Load { dst: Register::R8, disp: reg(x) },
            x86Instruction::Mov { dst: Register::R9, src: Register::R8 },
            x86Instruction::AndImm { dst: Register::R9, imm: 1 },
            x86Instruction::Store { disp: reg(0xf), src: Register::R9 },
            x86Instruction::ShrImm { dst: Register::R8, count: 1 },
            x86Instruction::Store { disp: reg(x), src: Register::R8 },
        ],
        Chip8Instruction::SHL(x) => vec![
            x86Instruction::Load { dst: Register::R8, disp: reg(x) },
            x86Instruction::Mov { dst: Register::R9, src: Register::R8 },
            x86Instruction::ShrImm { dst: Register::R9, count: 7 },
            x86Instruction::AndImm { dst: Register::R9, imm: 1 },
            x86Instruction::Store { disp: reg(0xf), src: Register::R9 },
            x86Instruction::ShlImm { dst: Register::R8, count: 1 },
            x86Instruction::AndImm { dst: Register::R8, imm: 0xff },
            x86Instruction::Store { disp: reg(x), src: Register::R8 },
        ],
        Chip8Instruction::LD3(a) => vec![
            x86Instruction::MovImm { dst: Register::R8, imm: a as u64 },
            x86Instruction::Store { disp: I_OFFSET, src: Register::R8 },
        ],
        Chip8Instruction::JP2(a) => vec![
            x86Instruction::Load { dst: Register::R8, disp: reg(0) },
            x86Instruction::MovImm { dst: Register::R9, imm: a as u64 },
            x86Instruction::Add { dst: Register::R8, src: Register::R9 },
            x86Instruction::Store { disp: PC_OFFSET, src: Register::R8 },
        ],
        Chip8Instruction::RND(x, kk) => vec![
            x86Instruction::Rdrand { dst: Register::R8 },
            x86Instruction::MovImm { dst: Register::R9, imm: kk as u64 },
            x86Instruction::And { dst: Register::R8, src: Register::R9 },
            x86Instruction::Store { disp: reg(x), src: Register::R8 },
        ],
        Chip8Instruction::DRW(x, y, n) => call_helper_ops(t.drw, x as u64, y as u64, n as u64),
        Chip8Instruction::SKP(x) => {
            let mut r = call_helper_ops(t.skp, x as u64, 0, 0);
            let mut tail = pc_add_ops(2);
            r.append(&mut tail);
            r
        },
        Chip8Instruction::SKNP(x) => {
            let mut r = call_helper_ops(t.sknp, x as u64, 0, 0);
            let mut tail = pc_add_ops(2);
            r.append(&mut tail);
            r
        },
        Chip8Instruction::LD4(x) => vec![
            x86Instruction::Load { dst: Register::R8, disp: DELAY_OFFSET },
            x86Instruction::Store { disp: reg(x), src: Register::R8 },
        ],
        Chip8Instruction::LD5(x) => call_helper_ops(t.ld_k, x as u64, 0, 0),
        Chip8Instruction::LD6(x) => vec![
            x86Instruction::Load { dst: Register::R8, disp: reg(x) },
            x86Instruction::Store { disp: DELAY_OFFSET, src: Register::R8 },
        ],
        Chip8Instruction::LD7(x) => vec![
            x86Instruction::Load { dst: Register::R8, disp: reg(x) },
            x86Instruction::Store { disp: SOUND_OFFSET, src: Register::R8 },
        ],
        Chip8Instruction::ADD3(x) => vec![
            x86Instruction::Load { dst: Register::R8, disp: I_OFFSET },
            x86Instruction::Load { dst: Register::R9, disp: reg(x) },
            x86Instruction::Add { dst: Register::R8, src: Register::R9 },
            x86Instruction::AndImm { dst: Register::R8, imm: 0xfff },
            x86Instruction::Store { disp: I_OFFSET, src: Register::R8 },
        ],
        Chip8Instruction::LD8(x) => call_helper_ops(t.ld_f, x as u64, 0, 0),
        Chip8Instruction::LD9(x) => call_helper_ops(t.ld_b, x as u64, 0, 0),
        Chip8Instruction::LD10(x) => transfer_ops(x, true),
        Chip8Instruction::LD11(x) => transfer_ops(x, false),
    };
    assert(r@ =~= body_ops(ins, *t));
    r
}

/// The host instructions for one CHIP-8 instruction.
/// Its host code does to the record what `ins` does to the guest: from
/// any machine whose `rbx` holds the record's base, on which `ins` may
/// run, it ends without a fault in the state `step` gives.
pub fn translate_instruction(ins: Chip8Instruction, t: &HelperTable) -> (r: Vec<x86Instruction>)
    requires
        operands_in_range(ins),
    ensures
        r@ == ops_for(ins, *t),
        forall|m: Machine|
            ready(m) && may_run(m.st, ins) && t.distinct() && draws(ins) <= m.entropy.len()
                ==> arrives(m, #[trigger] run(r@, m, *t), step(m.st, ins, rand_of(m)), draws(ins)),
{
    let mut r = body_ops_exec(ins, t);
    if !ins.is_branch() {
        let mut tail = pc_add_ops(2);
        r.append(&mut tail);
    }
    proof {
        assert forall|m: Machine|
            ready(m) && may_run(m.st, ins) && t.distinct() && draws(ins) <= m.entropy.len()
            implies arrives(m, #[trigger] run(r@, m, *t), step(m.st, ins, rand_of(m)), draws(ins)) by {
            theorem_instruction(ins, m, *t);
        }
    }
    r
}

/// The host instructions of a translation unit: each instruction's in turn.
/// Its host code does to the record what the guest does running
/// `instrs` in turn, from any machine whose `rbx` holds the record's base
/// and on which each instruction may run where the guest reaches it.
pub fn translate_block(instrs: &Vec<Chip8Instruction>, t: &HelperTable) -> (r: Vec<x86Instruction>)
    requires
        forall|k: int| 0 <= k < instrs.len() ==> operands_in_range(#[trigger] instrs@[k]),
    ensures
        r@ == block_ops(instrs@, *t),
        forall|m: Machine|
            ready(m) && t.distinct() && guest_can_run(instrs@, m.st, m.entropy) ==> runs_as_guest(
                m,
                #[trigger] run(r@, m, *t),
                instrs@,
            ),
{
    let mut r: Vec<x86Instruction> = Vec::new();
    let mut k: usize = 0;
    while k < instrs.len()
        invariant
            k <= instrs.len(),
            forall|j: int| 0 <= j < instrs.len() ==> operands_in_range(#[trigger] instrs@[j]),
            r@ == block_ops(instrs@.subrange(0, k as int), *t),
        decreases instrs.len() - k,
    {
        let mut ops = translate_instruction(instrs[k], t);
        r.append(&mut ops);
        assert(instrs@.subrange(0, k + 1).drop_last() =~= instrs@.subrange(0, k as int));
        k = k + 1;
    }
    assert(instrs@.subrange(0, instrs.len() as int) =~= instrs@);
    proof {
        assert forall|m: Machine|
            ready(m) && t.distinct() && guest_can_run(instrs@, m.st, m.entropy) implies runs_as_guest(
            m,
            #[trigger] run(r@, m, *t),
            instrs@,
        ) by {
            theorem_block(instrs@, m, *t);
        }
    }
    r
}

/// Every operand of every instruction in a decoded unit is in range.
pub proof fn lemma_block_operands(bin: Seq<u8>, addr: nat)
    ensures
        block_from(bin, addr) matches Ok(s) ==> forall|k: int|
            0 <= k < s.len() ==> operands_in_range(#[trigger] s[k]),
    decreases bin.len() + 2 - addr,
{
    lemma_decoded_operands_in_range(opcode_at(bin, addr as int));
    if let Some(ins) = decode_spec(opcode_at(bin, addr as int)) {
        if !(is_terminator(ins) || addr >= bin.len()) {
            lemma_block_operands(bin, addr + 2);
            if let Ok(rest) = block_from(bin, addr + 2) {
                let s = seq![ins] + rest;
                assert forall|k: int| 0 <= k < s.len() implies operands_in_range(#[trigger] s[k]) by {
                    if k > 0 {
                        assert(s[k] == rest[k - 1]);
                    }
                }
            }
        }
    }
}

proof fn lemma_encodable_concat(a: Seq<x86Instruction>, b: Seq<x86Instruction>)
    requires
        encodable(a),
        encodable(b),
    ensures
        encodable(a + b),
{
    assert forall|k: int| 0 <= k < (a + b).len() implies (#[trigger] (a + b)[k] matches x86Instruction::AndImm { imm, .. } ==> imm < 0x8000_0000) by {
        if k >= a.len() {
            assert((a + b)[k] == b[k - a.len()]);
        }
    }
}

proof fn lemma_transfer_encodable(count: nat, store: bool)
    ensures
        encodable(if store { store_seq(count) } else { load_seq(count) }),
    decreases count,
{
    if count > 0 {
        let k = (count - 1) as nat;
        lemma_transfer_encodable(k, store);
        let prev = if store { store_seq(k) } else { load_seq(k) };
        lemma_encodable_concat(prev, index_at(k as u64));
        let tail = if store {
            seq![
                x86Instruction::Load { dst: Register::R11, disp: reg_disp(k as u8) },
                x86Instruction::StoreByte { index: Register::R9, src: Register::R11 },
            ]
        } else {
            seq![
                x86Instruction::LoadByte { dst: Register::R11, index: Register::R9 },
                x86Instruction::Store { disp: reg_disp(k as u8), src: Register::R11 },
            ]
        };
        lemma_encodable_concat(prev + index_at(k as u64), tail);
    }
}

/// The immediates of every unit's host code fit their encodings.
pub proof fn lemma_block_encodable(instrs: Seq<Chip8Instruction>, t: HelperTable)
    ensures
        encodable(block_ops(instrs, t)),
    decreases instrs.len(),
{
    if instrs.len() > 0 {
        lemma_block_encodable(instrs.drop_last(), t);
        let ins = instrs.last();
        let body = body_ops(ins, t);
        match ins {
            Chip8Instruction::SE1(x, kk) | Chip8Instruction::SNE1(x, kk) => {
                lemma_encodable_concat(seq![x86Instruction::MovImm { dst: Register::Rax, imm: kk as u64 }], skip_if(x, ins is SNE1));
            },
            Chip8Instruction::SE2(x, y) | Chip8Instruction::SNE2(x, y) => {
                lemma_encodable_concat(seq![x86Instruction::Load { dst: Register::Rax, disp: reg_disp(y) }], skip_if(x, ins is SNE2));
            },
            Chip8Instruction::SKP(x) => lemma_encodable_concat(call_helper(t.skp, x as u64, 0, 0), pc_add(2)),
            Chip8Instruction::SKNP(x) => lemma_encodable_concat(call_helper(t.sknp, x as u64, 0, 0), pc_add(2)),
            Chip8Instruction::LD10(x) => {
                lemma_transfer_encodable(x as nat + 1, true);
                lemma_encodable_concat(seq![x86Instruction::Load { dst: Register::R8, disp: I_OFFSET }], store_seq(x as nat + 1));
            },
            Chip8Instruction::LD11(x) => {
                lemma_transfer_encodable(x as nat + 1, false);
                lemma_encodable_concat(seq![x86Instruction::Load { dst: Register::R8, disp: I_OFFSET }], load_seq(x as nat + 1));
            },
            _ => {},
        }
        assert(encodable(body));
        if !is_terminator(ins) {
            lemma_encodable_concat(body, pc_add(2));
        }
        lemma_encodable_concat(block_ops(instrs.drop_last(), t), ops_for(ins, t));
    }
}

} // verus!
