//! Runtime helpers that translated code calls for effects it does not
//! inline. Each takes the state and the operands the instruction names.
use vstd::prelude::*;
use crate::layout::{AMOUNT_KEYS, MEM_SIZE, WINDOW_HEIGHT, WINDOW_SIZE, WINDOW_WIDTH, VF};
use crate::semantics::{
    bit_of, cls_spec, covers, drw_spec, first_pressed, ld_b_spec, ld_f_spec, ld_k_spec, sknp_spec,
    skp_spec, wrap,
};
use crate::state::{Chip8State, StateView};

verus! {

/// `CLS`: turns every pixel off.
pub fn cls(state: &mut Chip8State)
    requires
        old(state)@.wf(),
    ensures
        final(state)@ == cls_spec(old(state)@),
{
    let mut p: usize = 0;
    while p < WINDOW_SIZE
        invariant
            p <= WINDOW_SIZE,
            state.fb@.len() == WINDOW_SIZE,
            forall|q: int| 0 <= q < p ==> !#[trigger] state.fb@[q],
            state@ == (StateView { fb: state@.fb, ..old(state)@ }),
        decreases WINDOW_SIZE - p,
    {
        state.fb.set(p, false);
        p = p + 1;
    }
    assert(state@.fb =~= cls_spec(old(state)@).fb);
}

/// Whether the sprite with origin `(x0, y0)`, `n` rows high and read from
/// `mem[i..]`, covers pixel `p`.
fn pixel_covered(mem: &Vec<u8>, i: u64, x0: u64, y0: u64, n: u64, p: usize) -> (r: bool)
    requires
        mem.len() == MEM_SIZE,
        i < MEM_SIZE,
        n < 16,
        p < WINDOW_SIZE,
    ensures
        r == ({
            let dx = (p as int) % (WINDOW_WIDTH as int) - x0;
            let dy = (p as int) / (WINDOW_WIDTH as int) - y0;
            0 <= dx < 8 && 0 <= dy < n && bit_of(mem@[wrap(i + dy)], (7 - dx) as u8)
        }),
{
    let px = (p % WINDOW_WIDTH) as u64;
    let py = (p / WINDOW_WIDTH) as u64;
    if px < x0 || px - x0 >= 8 || py < y0 || py - y0 >= n {
        return false;
    }
    let dx = px - x0;
    let dy = py - y0;
    let byte = mem[((i + dy) % (MEM_SIZE as u64)) as usize];
    let k = (7 - dx) as u8;
    (byte >> k) & 1 == 1
}

/// `DRW Vx, Vy, n`: XORs the `n`-row sprite at `mem[I..]` onto the
/// framebuffer at `(Vx mod 64, Vy mod 32)`, clipping at the right and
/// bottom edges; `VF` is 1 exactly when a lit pixel was turned off.
pub fn drw(state: &mut Chip8State, vx: u64, vy: u64, nibble: u64)
    requires
        old(state)@.sane(),
        vx < 16,
        vy < 16,
        nibble < 16,
    ensures
        final(state)@ == drw_spec(old(state)@, vx as int, vy as int, nibble as int),
{
    let ghost s0 = state@;
    let x0 = state.regs[vx as usize] % (WINDOW_WIDTH as u64);
    let y0 = state.regs[vy as usize] % (WINDOW_HEIGHT as u64);
    let mut collided = false;
    let mut p: usize = 0;
    while p < WINDOW_SIZE
        invariant
            s0 == old(state)@,
            s0.sane(),
            vx < 16,
            vy < 16,
            nibble < 16,
            x0 == (s0.regs[vx as int] as int) % (WINDOW_WIDTH as int),
            y0 == (s0.regs[vy as int] as int) % (WINDOW_HEIGHT as int),
            p <= WINDOW_SIZE,
            state@ == (StateView { fb: state@.fb, ..s0 }),
            state.fb@.len() == WINDOW_SIZE,
            forall|q: int|
                0 <= q < WINDOW_SIZE ==> #[trigger] state.fb@[q] == if q < p {
                    s0.fb[q] != covers(s0, vx as int, vy as int, nibble as int, q)
                } else {
                    s0.fb[q]
                },
            collided <==> exists|q: int|
                0 <= q < p && #[trigger] s0.fb[q] && covers(
                    s0,
                    vx as int,
                    vy as int,
                    nibble as int,
                    q,
                ),
        decreases WINDOW_SIZE - p,
    {
        let hit = pixel_covered(&state.mem, state.i, x0, y0, nibble, p);
        assert(hit == covers(s0, vx as int, vy as int, nibble as int, p as int));
        if hit {
            let lit = state.fb[p];
            if lit {
                collided = true;
            }
            state.fb.set(p, !lit);
        }
        assert(collided <==> exists|q: int|
            0 <= q < p + 1 && #[trigger] s0.fb[q] && covers(s0, vx as int, vy as int, nibble as int, q))
            by {
            if collided && !(hit && s0.fb[p as int]) {
                let q = choose|q: int|
                    0 <= q < p && #[trigger] s0.fb[q] && covers(s0, vx as int, vy as int, nibble as int, q);
                assert(0 <= q < p + 1);
            }
        }
        p = p + 1;
    }
    let flag: u64 = if collided { 1 } else { 0 };
    state.regs.set(VF as usize, flag);
    assert(state@.fb =~= drw_spec(s0, vx as int, vy as int, nibble as int).fb);
    assert(state@.regs =~= drw_spec(s0, vx as int, vy as int, nibble as int).regs);
}

/// `SKP Vx`: moves the PC on by one instruction if key `Vx mod 16` is down.
pub fn skp(state: &mut Chip8State, vx: u64)
    requires
        old(state)@.sane(),
        vx < 16,
    ensures
        final(state)@ == skp_spec(old(state)@, vx as int),
{
    let key = (state.regs[vx as usize] % (AMOUNT_KEYS as u64)) as usize;
    if state.keys[key] {
        state.pc = state.pc.wrapping_add(2);
    }
}

/// `SKNP Vx`: moves the PC on by one instruction if key `Vx mod 16` is up.
pub fn sknp(state: &mut Chip8State, vx: u64)
    requires
        old(state)@.sane(),
        vx < 16,
    ensures
        final(state)@ == sknp_spec(old(state)@, vx as int),
{
    let key = (state.regs[vx as usize] % (AMOUNT_KEYS as u64)) as usize;
    if !state.keys[key] {
        state.pc = state.pc.wrapping_add(2);
    }
}

proof fn lemma_first_pressed_skip(keys: Seq<bool>, k: int)
    requires
        0 <= k <= keys.len(),
        forall|j: int| 0 <= j < k ==> !#[trigger] keys[j],
    ensures
        first_pressed(keys, 0) == first_pressed(keys, k),
    decreases k,
{
    if k > 0 {
        lemma_first_pressed_skip(keys, k - 1);
    }
}

/// `LD Vx, K`: with a key down, stores the lowest such key in `Vx` and
/// moves the PC on; with none, leaves the state as it is.
pub fn ld_k(state: &mut Chip8State, vx: u64)
    requires
        old(state)@.sane(),
        vx < 16,
    ensures
        final(state)@ == ld_k_spec(old(state)@, vx as int),
{
    let mut k: usize = 0;
    while k < AMOUNT_KEYS
        invariant
            k <= AMOUNT_KEYS,
            vx < 16,
            state@ == old(state)@,
            old(state)@.sane(),
            forall|j: int| 0 <= j < k ==> !#[trigger] state.keys@[j],
        decreases AMOUNT_KEYS - k,
    {
        if state.keys[k] {
            proof {
                lemma_first_pressed_skip(state.keys@, k as int);
            }
            state.regs.set(vx as usize, k as u64);
            state.pc = state.pc.wrapping_add(2);
            assert(state@.regs =~= ld_k_spec(old(state)@, vx as int).regs);
            return;
        }
        k = k + 1;
    }
    proof {
        lemma_first_pressed_skip(state.keys@, AMOUNT_KEYS as int);
    }
}

/// `LD F, Vx`: points `I` at the font sprite of digit `Vx`.
pub fn ld_f(state: &mut Chip8State, vx: u64)
    requires
        old(state)@.sane(),
        vx < 16,
    ensures
        final(state)@ == ld_f_spec(old(state)@, vx as int),
{
    state.i = state.regs[vx as usize] * 5;
}

/// `LD B, Vx`: the hundreds, tens and ones digits of `Vx` at `mem[I]`,
/// `mem[I+1]` and `mem[I+2]`.
pub fn ld_b(state: &mut Chip8State, vx: u64)
    requires
        old(state)@.sane(),
        vx < 16,
    ensures
        final(state)@ == ld_b_spec(old(state)@, vx as int),
{
    let v = state.regs[vx as usize];
    let i = state.i;
    let size = MEM_SIZE as u64;
    state.mem.set((i % size) as usize, (v / 100) as u8);
    state.mem.set(((i + 1) % size) as usize, ((v / 10) % 10) as u8);
    state.mem.set(((i + 2) % size) as usize, (v % 10) as u8);
    assert(state@.mem =~= ld_b_spec(old(state)@, vx as int).mem);
}

} // verus!
