//! Lowering of host instructions to machine code through iced-x86's code
//! assembler.
use vstd::prelude::*;
use iced_x86::code_asm::{
    byte_ptr, qword_ptr, r10, r10b, r11, r11b, r8, r8b, r9, r9b, rax, rbx, rcx, rdi, rdx, rsi,
    al, bl, cl, dil, dl, sil, CodeAssembler,
};
use iced_x86::IcedError;
use crate::host::{Register, x86Instruction};

verus! {

#[verifier::external_type_specification]
#[verifier::external_body]
pub struct ExCodeAssembler(CodeAssembler);

#[verifier::external_type_specification]
#[verifier::external_body]
pub struct ExIcedError(IcedError);

/// The instructions an assembler holds, in the order they were added.
pub uninterp spec fn listing(a: CodeAssembler) -> Seq<x86Instruction>;

/// The bytes iced-x86's block encoder makes of `instrs` placed at `ip`.
pub uninterp spec fn machine_code(instrs: Seq<x86Instruction>, ip: u64) -> Seq<u8>;

/// Whether iced-x86's block encoder accepts `instrs` placed at `ip`.
pub uninterp spec fn assembles(instrs: Seq<x86Instruction>, ip: u64) -> bool;

/// The assembler has no prefix and no label waiting for an instruction:
/// what `assemble` and the next added instruction need.
pub uninterp spec fn settled(a: CodeAssembler) -> bool;

/// Relies on `CodeAssembler::new`: for bitness 64 it succeeds, with no
/// instructions, prefixes or labels.
#[verifier::external_body]
fn new_assembler() -> (r: Result<CodeAssembler, IcedError>)
    ensures
        r is Ok,
        r matches Ok(a) ==> listing(a) == Seq::<x86Instruction>::empty(),
        r matches Ok(a) ==> settled(a),
{
    CodeAssembler::new(64)
}

/// Relies on `CodeAssembler::assemble`: with no prefix or label pending it
/// hands the instructions added so far to the block encoder, placed at `ip`.
#[verifier::external_body]
fn assemble(a: &mut CodeAssembler, ip: u64) -> (r: Result<Vec<u8>, IcedError>)
    requires
        settled(*old(a)),
    ensures
        r is Ok == assembles(listing(*old(a)), ip),
        r matches Ok(bytes) ==> bytes@ == machine_code(listing(*old(a)), ip),
{
    a.assemble(ip)
}

/// The effect on the listing of one instruction-adding call of the
/// assembler: on success `op` is appended, on failure nothing is.
pub open spec fn appended(
    old_a: CodeAssembler,
    new_a: CodeAssembler,
    r: Result<(), IcedError>,
    op: x86Instruction,
) -> bool {
    &&& r is Ok ==> listing(new_a) == listing(old_a).push(op)
    &&& r is Err ==> listing(new_a) == listing(old_a)
}

/// Each of the wrappers below relies on one instruction-adding method of
/// `CodeAssembler`: it builds the instruction (`Instruction::with1` or
/// `with2`, which fail only on an immediate out of range) and then
/// `add_instr` pushes it, which fails only with a label pending and leaves
/// no prefix or label behind.
///
/// Relies on `mov r64, m64` (`CodeAsmMov<AsmRegister64, AsmMemoryOperand>`).
#[verifier::external_body]
fn asm_load(a: &mut CodeAssembler, dst: Register, disp: u32) -> (r: Result<(), IcedError>)
    requires
        settled(*old(a)),
    ensures
        r is Ok,
        settled(*final(a)),
        appended(*old(a), *final(a), r, x86Instruction::Load { dst, disp }),
{
    let g = [rax, rbx, rcx, rdx, rsi, rdi, r8, r9, r10, r11];
    a.mov(g[dst as usize], qword_ptr(rbx + disp as i32))
}

/// Relies on `mov m64, r64` (`CodeAsmMov<AsmMemoryOperand, AsmRegister64>`).
#[verifier::external_body]
fn asm_store(a: &mut CodeAssembler, disp: u32, src: Register) -> (r: Result<(), IcedError>)
    requires
        settled(*old(a)),
    ensures
        r is Ok,
        settled(*final(a)),
        appended(*old(a), *final(a), r, x86Instruction::Store { disp, src }),
{
    let g = [rax, rbx, rcx, rdx, rsi, rdi, r8, r9, r10, r11];
    a.mov(qword_ptr(rbx + disp as i32), g[src as usize])
}

/// Relies on `mov r64, m64` with a scaled index.
#[verifier::external_body]
fn asm_load_indexed(a: &mut CodeAssembler, dst: Register, index: Register, disp: u32) -> (r: Result<
    (),
    IcedError,
>)
    requires
        settled(*old(a)),
    ensures
        r is Ok,
        settled(*final(a)),
        appended(*old(a), *final(a), r, x86Instruction::LoadIndexed { dst, index, disp }),
{
    let g = [rax, rbx, rcx, rdx, rsi, rdi, r8, r9, r10, r11];
    a.mov(g[dst as usize], qword_ptr(rbx + g[index as usize] * 8 + disp as i32))
}

/// Relies on `mov m64, r64` with a scaled index.
#[verifier::external_body]
fn asm_store_indexed(a: &mut CodeAssembler, index: Register, disp: u32, src: Register) -> (r: Result<
    (),
    IcedError,
>)
    requires
        settled(*old(a)),
    ensures
        r is Ok,
        settled(*final(a)),
        appended(*old(a), *final(a), r, x86Instruction::StoreIndexed { index, disp, src }),
{
    let g = [rax, rbx, rcx, rdx, rsi, rdi, r8, r9, r10, r11];
    a.mov(qword_ptr(rbx + g[index as usize] * 8 + disp as i32), g[src as usize])
}

/// Relies on `movzx r64, m8` (`CodeAsmMovzx<AsmRegister64, AsmMemoryOperand>`).
#[verifier::external_body]
fn asm_load_byte(a: &mut CodeAssembler, dst: Register, index: Register) -> (r: Result<(), IcedError>)
    requires
        settled(*old(a)),
    ensures
        r is Ok,
        settled(*final(a)),
        appended(*old(a), *final(a), r, x86Instruction::LoadByte { dst, index }),
{
    let g = [rax, rbx, rcx, rdx, rsi, rdi, r8, r9, r10, r11];
    a.movzx(g[dst as usize], byte_ptr(rbx + g[index as usize]))
}

/// Relies on `mov m8, r8` (`CodeAsmMov<AsmMemoryOperand, AsmRegister8>`),
/// with the low byte of `src`.
#[verifier::external_body]
fn asm_store_byte(a: &mut CodeAssembler, index: Register, src: Register) -> (r: Result<(), IcedError>)
    requires
        settled(*old(a)),
    ensures
        r is Ok,
        settled(*final(a)),
        appended(*old(a), *final(a), r, x86Instruction::StoreByte { index, src }),
{
    let g = [rax, rbx, rcx, rdx, rsi, rdi, r8, r9, r10, r11];
    let b = [al, bl, cl, dl, sil, dil, r8b, r9b, r10b, r11b];
    a.mov(byte_ptr(rbx + g[index as usize]), b[src as usize])
}

/// Relies on `mov r64, imm64` (`CodeAsmMov<AsmRegister64, u64>`).
#[verifier::external_body]
fn asm_mov_imm(a: &mut CodeAssembler, dst: Register, imm: u64) -> (r: Result<(), IcedError>)
    requires
        settled(*old(a)),
    ensures
        r is Ok,
        settled(*final(a)),
        appended(*old(a), *final(a), r, x86Instruction::MovImm { dst, imm }),
{
    let g = [rax, rbx, rcx, rdx, rsi, rdi, r8, r9, r10, r11];
    a.mov(g[dst as usize], imm)
}

/// Relies on `mov r64, r64` (`CodeAsmMov<AsmRegister64, AsmRegister64>`).
#[verifier::external_body]
fn asm_mov(a: &mut CodeAssembler, dst: Register, src: Register) -> (r: Result<(), IcedError>)
    requires
        settled(*old(a)),
    ensures
        r is Ok,
        settled(*final(a)),
        appended(*old(a), *final(a), r, x86Instruction::Mov { dst, src }),
{
    let g = [rax, rbx, rcx, rdx, rsi, rdi, r8, r9, r10, r11];
    a.mov(g[dst as usize], g[src as usize])
}

/// Relies on `add r64, r64` (`CodeAsmAdd<AsmRegister64, AsmRegister64>`).
#[verifier::external_body]
fn asm_add(a: &mut CodeAssembler, dst: Register, src: Register) -> (r: Result<(), IcedError>)
    requires
        settled(*old(a)),
    ensures
        r is Ok,
        settled(*final(a)),
        appended(*old(a), *final(a), r, x86Instruction::Add { dst, src }),
{
    let g = [rax, rbx, rcx, rdx, rsi, rdi, r8, r9, r10, r11];
    a.add(g[dst as usize], g[src as usize])
}

/// Relies on `sub r64, r64` (`CodeAsmSub<AsmRegister64, AsmRegister64>`).
#[verifier::external_body]
fn asm_sub(a: &mut CodeAssembler, dst: Register, src: Register) -> (r: Result<(), IcedError>)
    requires
        settled(*old(a)),
    ensures
        r is Ok,
        settled(*final(a)),
        appended(*old(a), *final(a), r, x86Instruction::Sub { dst, src }),
{
    let g = [rax, rbx, rcx, rdx, rsi, rdi, r8, r9, r10, r11];
    a.sub(g[dst as usize], g[src as usize])
}

/// Relies on `and r64, r64` (`CodeAsmAnd<AsmRegister64, AsmRegister64>`).
#[verifier::external_body]
fn asm_and(a: &mut CodeAssembler, dst: Register, src: Register) -> (r: Result<(), IcedError>)
    requires
        settled(*old(a)),
    ensures
        r is Ok,
        settled(*final(a)),
        appended(*old(a), *final(a), r, x86Instruction::And { dst, src }),
{
    let g = [rax, rbx, rcx, rdx, rsi, rdi, r8, r9, r10, r11];
    a.and(g[dst as usize], g[src as usize])
}

/// Relies on `or r64, r64` (`CodeAsmOr<AsmRegister64, AsmRegister64>`).
#[verifier::external_body]
fn asm_or(a: &mut CodeAssembler, dst: Register, src: Register) -> (r: Result<(), IcedError>)
    requires
        settled(*old(a)),
    ensures
        r is Ok,
        settled(*final(a)),
        appended(*old(a), *final(a), r, x86Instruction::Or { dst, src }),
{
    let g = [rax, rbx, rcx, rdx, rsi, rdi, r8, r9, r10, r11];
    a.or(g[dst as usize], g[src as usize])
}

/// Relies on `xor r64, r64` (`CodeAsmXor<AsmRegister64, AsmRegister64>`).
#[verifier::external_body]
fn asm_xor(a: &mut CodeAssembler, dst: Register, src: Register) -> (r: Result<(), IcedError>)
    requires
        settled(*old(a)),
    ensures
        r is Ok,
        settled(*final(a)),
        appended(*old(a), *final(a), r, x86Instruction::Xor { dst, src }),
{
    let g = [rax, rbx, rcx, rdx, rsi, rdi, r8, r9, r10, r11];
    a.xor(g[dst as usize], g[src as usize])
}

/// Relies on `and r64, imm32` (`CodeAsmAnd<AsmRegister64, i32>`).
#[verifier::external_body]
fn asm_and_imm(a: &mut CodeAssembler, dst: Register, imm: u32) -> (r: Result<(), IcedError>)
    requires
        settled(*old(a)),
        imm < 0x8000_0000,
    ensures
        r is Ok,
        settled(*final(a)),
        appended(*old(a), *final(a), r, x86Instruction::AndImm { dst, imm }),
{
    let g = [rax, rbx, rcx, rdx, rsi, rdi, r8, r9, r10, r11];
    a.and(g[dst as usize], imm as i32)
}

/// Relies on `shr r64, imm8` (`CodeAsmShr<AsmRegister64, u32>`).
#[verifier::external_body]
fn asm_shr(a: &mut CodeAssembler, dst: Register, count: u32) -> (r: Result<(), IcedError>)
    requires
        settled(*old(a)),
    ensures
        count < 256 ==> r is Ok,
        settled(*final(a)),
        appended(*old(a), *final(a), r, x86Instruction::ShrImm { dst, count }),
{
    let g = [rax, rbx, rcx, rdx, rsi, rdi, r8, r9, r10, r11];
    a.shr(g[dst as usize], count)
}

/// Relies on `shl r64, imm8` (`CodeAsmShl<AsmRegister64, u32>`).
#[verifier::external_body]
fn asm_shl(a: &mut CodeAssembler, dst: Register, count: u32) -> (r: Result<(), IcedError>)
    requires
        settled(*old(a)),
    ensures
        count < 256 ==> r is Ok,
        settled(*final(a)),
        appended(*old(a), *final(a), r, x86Instruction::ShlImm { dst, count }),
{
    let g = [rax, rbx, rcx, rdx, rsi, rdi, r8, r9, r10, r11];
    a.shl(g[dst as usize], count)
}

/// Relies on `cmp r64, r64` (`CodeAsmCmp<AsmRegister64, AsmRegister64>`).
#[verifier::external_body]
fn asm_cmp(a: &mut CodeAssembler, x: Register, y: Register) -> (r: Result<(), IcedError>)
    requires
        settled(*old(a)),
    ensures
        r is Ok,
        settled(*final(a)),
        appended(*old(a), *final(a), r, x86Instruction::Cmp { a: x, b: y }),
{
    let g = [rax, rbx, rcx, rdx, rsi, rdi, r8, r9, r10, r11];
    a.cmp(g[x as usize], g[y as usize])
}

/// Relies on `cmove r64, r64` (`CodeAsmCmove<AsmRegister64, AsmRegister64>`).
#[verifier::external_body]
fn asm_cmove(a: &mut CodeAssembler, dst: Register, src: Register) -> (r: Result<(), IcedError>)
    requires
        settled(*old(a)),
    ensures
        r is Ok,
        settled(*final(a)),
        appended(*old(a), *final(a), r, x86Instruction::CmovE { dst, src }),
{
    let g = [rax, rbx, rcx, rdx, rsi, rdi, r8, r9, r10, r11];
    a.cmove(g[dst as usize], g[src as usize])
}

/// Relies on `cmovne r64, r64` (`CodeAsmCmovne<AsmRegister64, AsmRegister64>`).
#[verifier::external_body]
fn asm_cmovne(a: &mut CodeAssembler, dst: Register, src: Register) -> (r: Result<(), IcedError>)
    requires
        settled(*old(a)),
    ensures
        r is Ok,
        settled(*final(a)),
        appended(*old(a), *final(a), r, x86Instruction::CmovNe { dst, src }),
{
    let g = [rax, rbx, rcx, rdx, rsi, rdi, r8, r9, r10, r11];
    a.cmovne(g[dst as usize], g[src as usize])
}

/// Relies on `rdrand r64` (`CodeAsmRdrand<AsmRegister64>`).
#[verifier::external_body]
fn asm_rdrand(a: &mut CodeAssembler, dst: Register) -> (r: Result<(), IcedError>)
    requires
        settled(*old(a)),
    ensures
        r is Ok,
        settled(*final(a)),
        appended(*old(a), *final(a), r, x86Instruction::Rdrand { dst }),
{
    let g = [rax, rbx, rcx, rdx, rsi, rdi, r8, r9, r10, r11];
    a.rdrand(g[dst as usize])
}

/// Relies on `call r64` (`CodeAsmCall<AsmRegister64>`).
#[verifier::external_body]
fn asm_call(a: &mut CodeAssembler, target: Register) -> (r: Result<(), IcedError>)
    requires
        settled(*old(a)),
    ensures
        r is Ok,
        settled(*final(a)),
        appended(*old(a), *final(a), r, x86Instruction::CallReg { target }),
{
    let g = [rax, rbx, rcx, rdx, rsi, rdi, r8, r9, r10, r11];
    a.call(g[target as usize])
}

/// Relies on `push r64` (`CodeAsmPush<AsmRegister64>`).
#[verifier::external_body]
fn asm_push(a: &mut CodeAssembler, src: Register) -> (r: Result<(), IcedError>)
    requires
        settled(*old(a)),
    ensures
        r is Ok,
        settled(*final(a)),
        appended(*old(a), *final(a), r, x86Instruction::Push { src }),
{
    let g = [rax, rbx, rcx, rdx, rsi, rdi, r8, r9, r10, r11];
    a.push(g[src as usize])
}

/// Relies on `pop r64` (`CodeAsmPop<AsmRegister64>`).
#[verifier::external_body]
fn asm_pop(a: &mut CodeAssembler, dst: Register) -> (r: Result<(), IcedError>)
    requires
        settled(*old(a)),
    ensures
        r is Ok,
        settled(*final(a)),
        appended(*old(a), *final(a), r, x86Instruction::Pop { dst }),
{
    let g = [rax, rbx, rcx, rdx, rsi, rdi, r8, r9, r10, r11];
    a.pop(g[dst as usize])
}

/// Relies on `ret` (`CodeAsmRet`).
#[verifier::external_body]
fn asm_ret(a: &mut CodeAssembler) -> (r: Result<(), IcedError>)
    requires
        settled(*old(a)),
    ensures
        r is Ok,
        settled(*final(a)),
        appended(*old(a), *final(a), r, x86Instruction::Ret),
{
    a.ret()
}

fn emit_move(a: &mut CodeAssembler, op: x86Instruction) -> (r: Result<(), IcedError>)
    requires
        settled(*old(a)),
        op matches x86Instruction::AndImm { imm, .. } ==> imm < 0x8000_0000,
        op is Load || op is Store || op is LoadIndexed || op is StoreIndexed || op is LoadByte || op is StoreByte || op is MovImm || op is Mov,
    ensures
        appended(*old(a), *final(a), r, op),
        settled(*final(a)),
        fits(op) ==> r is Ok,
{
    match op {
        x86Instruction::Load { dst, disp } => asm_load(a, dst, disp),
        x86Instruction::Store { disp, src } => asm_store(a, disp, src),
        x86Instruction::LoadIndexed { dst, index, disp } => asm_load_indexed(a, dst, index, disp),
        x86Instruction::StoreIndexed { index, disp, src } => asm_store_indexed(a, index, disp, src),
        x86Instruction::LoadByte { dst, index } => asm_load_byte(a, dst, index),
        x86Instruction::StoreByte { index, src } => asm_store_byte(a, index, src),
        x86Instruction::MovImm { dst, imm } => asm_mov_imm(a, dst, imm),
        x86Instruction::Mov { dst, src } => asm_mov(a, dst, src),
        _ => asm_ret(a),
    }
}

fn emit_other(a: &mut CodeAssembler, op: x86Instruction) -> (r: Result<(), IcedError>)
    requires
        settled(*old(a)),
        op matches x86Instruction::AndImm { imm, .. } ==> imm < 0x8000_0000,
        !(op is Load || op is Store || op is LoadIndexed || op is StoreIndexed || op is LoadByte || op is StoreByte || op is MovImm || op is Mov),
    ensures
        appended(*old(a), *final(a), r, op),
        settled(*final(a)),
        fits(op) ==> r is Ok,
{
    match op {
        x86Instruction::Add { dst, src } => asm_add(a, dst, src),
        x86Instruction::Sub { dst, src } => asm_sub(a, dst, src),
        x86Instruction::And { dst, src } => asm_and(a, dst, src),
        x86Instruction::Or { dst, src } => asm_or(a, dst, src),
        x86Instruction::Xor { dst, src } => asm_xor(a, dst, src),
        x86Instruction::AndImm { dst, imm } => asm_and_imm(a, dst, imm),
        x86Instruction::ShrImm { dst, count } => asm_shr(a, dst, count),
        x86Instruction::ShlImm { dst, count } => asm_shl(a, dst, count),
        x86Instruction::Cmp { a: x, b: y } => asm_cmp(a, x, y),
        x86Instruction::CmovE { dst, src } => asm_cmove(a, dst, src),
        x86Instruction::CmovNe { dst, src } => asm_cmovne(a, dst, src),
        x86Instruction::Rdrand { dst } => asm_rdrand(a, dst),
        x86Instruction::CallReg { target } => asm_call(a, target),
        x86Instruction::Push { src } => asm_push(a, src),
        x86Instruction::Pop { dst } => asm_pop(a, dst),
        _ => asm_ret(a),
    }
}

/// Adds one host instruction to the assembler.
pub fn emit(a: &mut CodeAssembler, op: x86Instruction) -> (r: Result<(), IcedError>)
    requires
        settled(*old(a)),
        op matches x86Instruction::AndImm { imm, .. } ==> imm < 0x8000_0000,
    ensures
        appended(*old(a), *final(a), r, op),
        settled(*final(a)),
        fits(op) ==> r is Ok,
{
    match op {
        x86Instruction::Load { .. } | x86Instruction::Store { .. } | x86Instruction::LoadIndexed { .. }
        | x86Instruction::StoreIndexed { .. } | x86Instruction::LoadByte { .. }
        | x86Instruction::StoreByte { .. } | x86Instruction::MovImm { .. } | x86Instruction::Mov { .. } => emit_move(a, op),
        _ => emit_other(a, op),
    }
}

/// A block's host code in its frame: `rbx` is saved and takes the record's
/// base from the first argument register, which also leaves the stack
/// 16-byte aligned for helper calls; the epilogue restores `rbx` and
/// returns.
pub open spec fn framed(body: Seq<x86Instruction>) -> Seq<x86Instruction> {
    seq![x86Instruction::Push { src: Register::Rbx }, x86Instruction::Mov { dst: Register::Rbx, src: Register::Rdi }] + body
        + seq![x86Instruction::Pop { dst: Register::Rbx }, x86Instruction::Ret]
}

/// The instruction's immediate fits its encoding.
pub open spec fn fits(op: x86Instruction) -> bool {
    match op {
        x86Instruction::AndImm { imm, .. } => imm < 0x8000_0000,
        x86Instruction::ShrImm { count, .. } | x86Instruction::ShlImm { count, .. } => count < 256,
        _ => true,
    }
}

/// Whether `op`'s immediate fits its encoding.
pub fn op_fits(op: x86Instruction) -> (r: bool)
    ensures
        r == fits(op),
{
    match op {
        x86Instruction::AndImm { imm, .. } => imm < 0x8000_0000,
        x86Instruction::ShrImm { count, .. } | x86Instruction::ShlImm { count, .. } => count < 256,
        _ => true,
    }
}

/// Every immediate fits its encoding.
pub open spec fn encodable(ops: Seq<x86Instruction>) -> bool {
    forall|k: int| 0 <= k < ops.len() ==> fits(#[trigger] ops[k])
}

/// Assembles a block's host code, framed, into machine code placed at `ip`.
pub fn assemble_block(body: &Vec<x86Instruction>, ip: u64) -> (r: Option<Vec<u8>>)
    requires
        encodable(body@),
    ensures
        r is Some == assembles(framed(body@), ip),
        r matches Some(bytes) ==> bytes@ == machine_code(framed(body@), ip),
{
    let mut a = match new_assembler() {
        Ok(a) => a,
        Err(_) => return None,
    };
    if emit(&mut a, x86Instruction::Push { src: Register::Rbx }).is_err() {
        return None;
    }
    if emit(&mut a, x86Instruction::Mov { dst: Register::Rbx, src: Register::Rdi }).is_err() {
        return None;
    }
    let mut k: usize = 0;
    while k < body.len()
        invariant
            k <= body.len(),
            encodable(body@),
            settled(a),
            listing(a) == seq![x86Instruction::Push { src: Register::Rbx }, x86Instruction::Mov { dst: Register::Rbx, src: Register::Rdi }]
                + body@.subrange(0, k as int),
        decreases body.len() - k,
    {
        assert(fits(body@[k as int]));
        if emit(&mut a, body[k]).is_err() {
            return None;
        }
        proof {
            assert(body@.subrange(0, k + 1) =~= body@.subrange(0, k as int).push(body@[k as int]));
        }
        k = k + 1;
    }
    if emit(&mut a, x86Instruction::Pop { dst: Register::Rbx }).is_err() {
        return None;
    }
    if emit(&mut a, x86Instruction::Ret).is_err() {
        return None;
    }
    assert(body@.subrange(0, body.len() as int) =~= body@);
    assert(listing(a) =~= framed(body@));
    match assemble(&mut a, ip) {
        Ok(bytes) => Some(bytes),
        Err(_) => None,
    }
}

impl x86Instruction {
    /// The machine code of this one instruction, placed at address 0;
    /// `None` where its immediate does not fit or the encoder refuses it.
    pub fn encode(&self) -> (r: Option<Vec<u8>>)
        ensures
            r is Some == (fits(*self) && assembles(seq![*self], 0)),
            r matches Some(bytes) ==> bytes@ == machine_code(seq![*self], 0),
    {
        if !op_fits(*self) {
            return None;
        }
        let mut a = match new_assembler() {
            Ok(a) => a,
            Err(_) => return None,
        };
        if emit(&mut a, *self).is_err() {
            return None;
        }
        assert(listing(a) =~= seq![*self]);
        match assemble(&mut a, 0) {
            Ok(bytes) => Some(bytes),
            Err(_) => None,
        }
    }
}

} // verus!
