//! Translated blocks in executable memory, and the cache that holds them.
use vstd::prelude::*;
use fnv::{FnvHashMap, FnvHasher};
use memmap2::{Mmap, MmapMut};
use std::hash::BuildHasherDefault;
use crate::decode::{
    block_from, lemma_block_nonempty, parse_until_next_branch, Chip8Instruction, DecodeError,
};
use crate::emitter::{assemble_block, assembles, framed, machine_code};
use crate::host::{HelperTable, x86Instruction};
use crate::layout::MEM_SIZE;
use crate::state::{Chip8Error, Chip8State};
use crate::translate::{block_ops, lemma_block_encodable, lemma_block_operands, translate_block};

verus! {

#[verifier::external_type_specification]
#[verifier::external_body]
pub struct ExMmapMut(MmapMut);

#[verifier::external_type_specification]
#[verifier::external_body]
pub struct ExMmap(Mmap);

#[verifier::external_type_specification]
#[verifier::external_body]
pub struct ExFnvHasher(FnvHasher);

#[verifier::external_type_specification]
#[verifier::external_body]
#[verifier::reject_recursive_types(H)]
pub struct ExBuildHasherDefault<H>(BuildHasherDefault<H>);

/// The bytes of a writable mapping.
pub uninterp spec fn writable_bytes(m: MmapMut) -> Seq<u8>;

/// The bytes of a read-only, executable mapping.
pub uninterp spec fn code_bytes(m: Mmap) -> Seq<u8>;

/// Relies on `MmapMut::map_anon`: a writable anonymous mapping of `len`
/// bytes, or `None` where the system call fails.
#[verifier::external_body]
fn map_anon(len: usize) -> (r: Option<MmapMut>)
    ensures
        r matches Some(m) ==> writable_bytes(m).len() == len,
{
    MmapMut::map_anon(len).ok()
}

/// Relies on `MmapMut`'s `DerefMut` to its bytes and on
/// `<[u8]>::copy_from_slice`, which panics unless the lengths agree.
#[verifier::external_body]
fn fill_mapping(m: &mut MmapMut, bytes: &Vec<u8>)
    requires
        writable_bytes(*old(m)).len() == bytes.len(),
    ensures
        writable_bytes(*final(m)) == bytes@,
{
    m.copy_from_slice(bytes)
}

/// Relies on `MmapMut::make_exec`: the same mapping, now readable and
/// executable and no longer writable.
#[verifier::external_body]
fn make_exec(m: MmapMut) -> (r: Option<Mmap>)
    ensures
        r matches Some(x) ==> code_bytes(x) == writable_bytes(m),
{
    m.make_exec().ok()
}

/// A translated block: its origin, the instructions it covers, their host
/// code, and that code assembled into an executable mapping.
#[derive(Debug)]
pub struct CompileBlock {
    pub start_addr: u16,
    pub instructions: Vec<Chip8Instruction>,
    pub ops: Vec<x86Instruction>,
    pub code: Mmap,
}

/// The block compiled from `mem` at `pc`: the unit that starts there, its
/// host code, and the mapping holding that code, framed and assembled.
pub open spec fn compiled_from(b: CompileBlock, mem: Seq<u8>, pc: u16, t: HelperTable) -> bool {
    &&& b.start_addr == pc
    &&& block_from(mem, pc as nat) == Ok::<Seq<Chip8Instruction>, DecodeError>(b.instructions@)
    &&& b.ops@ == block_ops(b.instructions@, t)
    &&& code_bytes(b.code) == machine_code(framed(b.ops@), 0)
}

/// What `compile` returns for the unit at `pc`: a decode error exactly
/// where the unit holds an undecodable word; otherwise the block, unless
/// the encoder refuses its code or the system gives no mapping.
pub open spec fn compile_result(
    r: Result<CompileBlock, Chip8Error>,
    mem: Seq<u8>,
    pc: u16,
    t: HelperTable,
) -> bool {
    match block_from(mem, pc as nat) {
        Err(e) => r == Err::<CompileBlock, Chip8Error>(
            Chip8Error::DecodeError { pc: e.pc, word: e.word },
        ),
        Ok(instrs) => match r {
            Ok(b) => compiled_from(b, mem, pc, t),
            Err(e) => e == Chip8Error::OutOfMemory || (e == Chip8Error::EncodeFailed && !assembles(
                framed(block_ops(instrs, t)),
                0,
            )),
        },
    }
}

/// Translates the unit at `pc` into an executable block: decode, translate,
/// assemble, copy into a writable mapping, then make it executable.
pub fn compile(mem: &Vec<u8>, pc: u16, t: &HelperTable) -> (r: Result<CompileBlock, Chip8Error>)
    requires
        mem.len() == MEM_SIZE,
        pc < MEM_SIZE,
    ensures
        compile_result(r, mem@, pc, *t),
{
    let mut cursor = pc as usize;
    let instructions = match parse_until_next_branch(mem, &mut cursor) {
        Ok(instructions) => instructions,
        Err(e) => return Err(Chip8Error::DecodeError { pc: e.pc, word: e.word }),
    };
    proof {
        lemma_block_operands(mem@, pc as nat);
        lemma_block_encodable(instructions@, *t);
    }
    let ops = translate_block(&instructions, t);
    let bytes = match assemble_block(&ops, 0) {
        Some(bytes) => bytes,
        None => return Err(Chip8Error::EncodeFailed),
    };
    let mut writable = match map_anon(bytes.len()) {
        Some(m) => m,
        None => return Err(Chip8Error::OutOfMemory),
    };
    fill_mapping(&mut writable, &bytes);
    let code = match make_exec(writable) {
        Some(code) => code,
        None => return Err(Chip8Error::OutOfMemory),
    };
    Ok(CompileBlock { start_addr: pc, instructions, ops, code })
}

/// Translated blocks by guest PC, hashed with FNV.
pub type BlockMap = FnvHashMap<u16, CompileBlock>;

pub open spec fn no_blocks() -> Map<u16, CompileBlock> {
    Map::empty()
}

/// Relies on `HashMap::default` with FNV's hasher: an empty map.
#[verifier::external_body]
fn blocks_new() -> (r: BlockMap)
    ensures
        r@ == no_blocks(),
{
    FnvHashMap::default()
}

/// Relies on `HashMap::get`; FNV's hasher is deterministic, so the map
/// behaves as a map.
#[verifier::external_body]
fn blocks_get(m: &BlockMap, k: u16) -> (r: Option<&CompileBlock>)
    ensures
        r matches Some(v) ==> m@.contains_key(k) && m@[k] == *v,
        r is None ==> !m@.contains_key(k),
{
    m.get(&k)
}

/// Relies on `HashMap::insert` with FNV's deterministic hasher.
#[verifier::external_body]
fn blocks_insert(m: &mut BlockMap, k: u16, v: CompileBlock)
    ensures
        final(m)@ == old(m)@.insert(k, v),
{
    m.insert(k, v);
}

/// The translated blocks, keyed by the guest PC they start at.
#[derive(Debug)]
pub struct Cache {
    blocks: BlockMap,
}

impl View for Cache {
    type V = Map<u16, CompileBlock>;

    closed spec fn view(&self) -> Map<u16, CompileBlock> {
        self.blocks@
    }
}

impl Cache {
    /// Every block is filed under the PC it starts at.
    pub open spec fn wf(self) -> bool {
        forall|pc: u16|
            #[trigger] self@.contains_key(pc) ==> self@[pc].start_addr == pc
                && self@[pc].instructions@.len() > 0
    }

    pub fn new() -> (r: Cache)
        ensures
            r@ == no_blocks(),
            r.wf(),
    {
        Cache { blocks: blocks_new() }
    }

    /// The block filed under `pc`, if one is.
    pub fn lookup(&self, pc: u16) -> (r: Option<&CompileBlock>)
        ensures
            r matches Some(b) ==> self@.contains_key(pc) && *b == self@[pc],
            r is None ==> !self@.contains_key(pc),
    {
        blocks_get(&self.blocks, pc)
    }

    /// The block for the state's PC: the cached one, or a new translation
    /// of guest memory at that PC, which is then cached. Each PC is
    /// translated at most once.
    pub fn get_or_compile(&mut self, state: &Chip8State, t: &HelperTable) -> (r: Result<
        &CompileBlock,
        Chip8Error,
    >)
        requires
            old(self).wf(),
            state@.wf(),
            state.pc < MEM_SIZE,
        ensures
            final(self).wf(),
            old(self)@.contains_key(state.pc as u16) ==> final(self)@ == old(self)@ && r
                == Ok::<&CompileBlock, Chip8Error>(&old(self)@[state.pc as u16]),
            !old(self)@.contains_key(state.pc as u16) ==> match r {
                Ok(b) => final(self)@ == old(self)@.insert(state.pc as u16, *b) && compiled_from(
                    *b,
                    state.mem@,
                    state.pc as u16,
                    *t,
                ),
                Err(e) => final(self)@ == old(self)@ && compile_result(
                    Err(e),
                    state.mem@,
                    state.pc as u16,
                    *t,
                ),
            },
    {
        let pc = state.pc as u16;
        if blocks_get(&self.blocks, pc).is_none() {
            let block = compile(&state.mem, pc, t)?;
            proof {
                lemma_block_nonempty(state.mem@, pc as nat);
            }
            blocks_insert(&mut self.blocks, pc, block);
        }
        match blocks_get(&self.blocks, pc) {
            Some(b) => Ok(b),
            None => Err(Chip8Error::OutOfMemory),
        }
    }
}

} // verus!
