//! The laws of the machine: properties that relate several operations,
//! stated over the same spec functions the operations' own contracts use.

use vstd::prelude::*;

use crate::errors::ChipError;
use crate::instruction_decoder::{
    spec_chip_step, spec_fetch, spec_load_regs, spec_misc, spec_op_category, spec_op_nn,
    spec_op_nnn, spec_op_x, spec_pc_plus_2, spec_store_regs, spec_sys, ChipState,
};
use crate::timers::{spec_audio_signal, spec_ticked};
use crate::video::{spec_blank_frame, spec_draw, spec_row_mask};

verus! {

/// For an instruction of the `6xnn`, `7xnn` or `Annn` family, a
/// dispatcher step is deterministic — the keypad plays no part in it —
/// has no side effect beyond the variable registers and the index
/// register, advances the program counter by one instruction, and always
/// succeeds.
pub proof fn lemma_pure_register_step(s: ChipState, k1: Option<u8>, k2: Option<u8>)
    requires
        spec_op_category(spec_fetch(s)) == 0x6 || spec_op_category(spec_fetch(s)) == 0x7
            || spec_op_category(spec_fetch(s)) == 0xA,
    ensures
        spec_chip_step(s, k1) == spec_chip_step(s, k2),
        spec_chip_step(s, k1).1 == Ok::<(), ChipError>(()),
        spec_chip_step(s, k1).0.pc == spec_pc_plus_2(s.pc),
        spec_chip_step(s, k1).0.mem == s.mem,
        spec_chip_step(s, k1).0.stack == s.stack,
        spec_chip_step(s, k1).0.fb == s.fb,
        spec_chip_step(s, k1).0.delay == s.delay,
        spec_chip_step(s, k1).0.sound == s.sound,
        spec_chip_step(s, k1).0.rng == s.rng,
{
}

/// Clearing the screen is idempotent: a second `00E0` leaves the machine
/// exactly where the first one left it, with every pixel off.
pub proof fn lemma_clear_idempotent(s: ChipState, w: u16)
    requires
        spec_op_nnn(w) == 0x0E0,
    ensures
        spec_sys(s, w).0.fb == spec_blank_frame(),
        spec_sys(spec_sys(s, w).0, w) == spec_sys(s, w),
{
}

/// The bytes that a bulk register store writes: addresses `base` up to
/// `base + count` hold `V0..`, everything else is untouched. No address
/// wraps while `base + count` stays within memory.
pub proof fn lemma_store_regs_bytes(mem: Seq<u8>, regs: Seq<u8>, base: u16, count: nat)
    requires
        mem.len() == 4096,
        base + count <= 4096,
    ensures
        spec_store_regs(mem, regs, base, count).len() == 4096,
        forall|a: int|
            0 <= a < 4096 ==> spec_store_regs(mem, regs, base, count)[a] == (
            if base <= a < base + count {
                regs[a - base]
            } else {
                mem[a]
            }),
    decreases count,
{
    if count > 0 {
        lemma_store_regs_bytes(mem, regs, base, (count - 1) as nat);
    }
}

/// The registers that a bulk register load produces: `V0..V(count-1)`
/// come from memory, the rest keep their values.
pub proof fn lemma_load_regs_shape(regs: Seq<u8>, mem: Seq<u8>, base: u16, count: nat)
    requires
        regs.len() == 16,
        count <= 16,
    ensures
        spec_load_regs(regs, mem, base, count).len() == 16,
        forall|j: int|
            0 <= j < 16 ==> spec_load_regs(regs, mem, base, count)[j] == (
            if j < count {
                mem[(base + j) % 4096]
            } else {
                regs[j]
            }),
    decreases count,
{
    if count > 0 {
        lemma_load_regs_shape(regs, mem, base, (count - 1) as nat);
    }
}

/// Round trip of the bulk copies: storing `V0..Vx` at the index register
/// with `Fx55` and loading them back with `Fx65` restores every
/// register, for any `x` and any index that keeps the range inside
/// memory.
pub proof fn lemma_store_load_roundtrip(s: ChipState, w1: u16, w2: u16, key: Option<u8>)
    requires
        s.wf(),
        spec_op_nn(w1) == 0x55,
        spec_op_nn(w2) == 0x65,
        spec_op_x(w1) == spec_op_x(w2),
        s.index + spec_op_x(w1) < 4096,
    ensures
        spec_misc(spec_misc(s, w1, key).0, w2, key).0.regs == s.regs,
        spec_misc(spec_misc(s, w1, key).0, w2, key).0 == (ChipState {
            mem: spec_misc(s, w1, key).0.mem,
            ..s
        }),
{
    let x = spec_op_x(w1);
    let count = (x + 1) as nat;
    let stored = spec_store_regs(s.mem, s.regs, s.index, count);
    lemma_store_regs_bytes(s.mem, s.regs, s.index, count);
    lemma_load_regs_shape(s.regs, stored, s.index, count);
    assert forall|j: int| 0 <= j < 16 implies spec_load_regs(s.regs, stored, s.index, count)[j]
        == s.regs[j] by {
        if j < count {
            assert((s.index + j) % 4096 == s.index + j);
            assert(stored[s.index + j] == s.regs[j]);
        }
    }
    assert(spec_load_regs(s.regs, stored, s.index, count) =~= s.regs);
}

/// Whether framebuffer row `j` is a target of an `n`-row sprite drawn at
/// vertical position `y`.
pub open spec fn spec_row_targeted(y: u8, n: int, j: int) -> bool {
    exists|i: int| 0 <= i < n && j == #[trigger] ((y + i) % 32)
}

/// Sprites of up to 32 rows land each row in a distinct framebuffer row.
proof fn lemma_distinct_rows(y: u8, i: int, j: int)
    requires
        0 <= i < j < 32,
    ensures
        (y + i) % 32 != (y + j) % 32,
{
    let a = y + i;
    let b = y + j;
    vstd::arithmetic::div_mod::lemma_fundamental_div_mod(a, 32);
    vstd::arithmetic::div_mod::lemma_fundamental_div_mod(b, 32);
    if a % 32 == b % 32 {
        assert(b - a == 32 * (b / 32) - 32 * (a / 32));
        assert(32 * (b / 32) - 32 * (a / 32) == 32 * (b / 32 - a / 32)) by (nonlinear_arith);
        let k = b / 32 - a / 32;
        assert(b - a == 32 * k);
        assert(0 < 32 * k < 32);
        assert(false) by (nonlinear_arith)
            requires
                0 < 32 * k < 32,
        ;
    }
}

/// What one draw does, row by row, to a sprite of at most 32 rows: each
/// sprite row XORs its mask into its own distinct framebuffer row, every
/// other row is untouched, and the collision flag says whether any mask
/// met a set pixel.
pub proof fn lemma_draw_shape(fb: Seq<u64>, x: u8, y: u8, rows: Seq<u8>)
    requires
        fb.len() == 32,
        rows.len() <= 32,
    ensures
        spec_draw(fb, x, y, rows).0.len() == 32,
        forall|i: int|
            0 <= i < rows.len() ==> #[trigger] spec_draw(fb, x, y, rows).0[(y + i) % 32] == (fb[(y
                + i) % 32] ^ spec_row_mask(rows[i], x)),
        forall|j: int|
            0 <= j < 32 && !spec_row_targeted(y, rows.len() as int, j)
                ==> #[trigger] spec_draw(fb, x, y, rows).0[j] == fb[j],
        spec_draw(fb, x, y, rows).1 == (exists|i: int|
            0 <= i < rows.len() && (fb[(y + i) % 32] & #[trigger] spec_row_mask(rows[i], x))
                != 0u64),
    decreases rows.len(),
{
    if rows.len() > 0 {
        let prior_rows = rows.drop_last();
        let n1 = rows.len() - 1;
        lemma_draw_shape(fb, x, y, prior_rows);
        let p = spec_draw(fb, x, y, prior_rows);
        let d = spec_draw(fb, x, y, rows);
        let jl = (y + n1) % 32;
        let m = spec_row_mask(rows.last(), x);
        assert(!spec_row_targeted(y, n1, jl)) by {
            if spec_row_targeted(y, n1, jl) {
                let i = choose|i: int| 0 <= i < n1 && jl == #[trigger] ((y + i) % 32);
                lemma_distinct_rows(y, i, n1);
            }
        }
        assert(p.0[jl] == fb[jl]);
        assert(d.0 == p.0.update(jl, p.0[jl] ^ m));
        assert forall|i: int| 0 <= i < rows.len() implies #[trigger] d.0[(y + i) % 32] == (fb[(y
            + i) % 32] ^ spec_row_mask(rows[i], x)) by {
            if i < n1 {
                lemma_distinct_rows(y, i, n1);
                assert(prior_rows[i] == rows[i]);
                assert(p.0[(y + i) % 32] == fb[(y + i) % 32] ^ spec_row_mask(prior_rows[i], x));
            } else {
                assert(rows[n1] == rows.last());
            }
        }
        assert forall|j: int|
            0 <= j < 32 && !spec_row_targeted(y, rows.len() as int, j) implies #[trigger] d.0[j]
            == fb[j] by {
            assert(!spec_row_targeted(y, n1, j)) by {
                if spec_row_targeted(y, n1, j) {
                    let i = choose|i: int| 0 <= i < n1 && j == #[trigger] ((y + i) % 32);
                    assert(0 <= i < rows.len() && j == (y + i) % 32);
                }
            }
            assert(j != jl);
        }
        assert(d.1 == (p.1 || (fb[jl] & m) != 0u64));
        if d.1 {
            if p.1 {
                let i = choose|i: int|
                    0 <= i < prior_rows.len() && (fb[(y + i) % 32] & #[trigger] spec_row_mask(
                        prior_rows[i],
                        x,
                    )) != 0u64;
                assert(prior_rows[i] == rows[i]);
                assert((fb[(y + i) % 32] & spec_row_mask(rows[i], x)) != 0u64);
            } else {
                assert(rows[n1] == rows.last());
                assert((fb[(y + n1) % 32] & spec_row_mask(rows[n1], x)) != 0u64);
            }
        }
        if exists|i: int|
            0 <= i < rows.len() && (fb[(y + i) % 32] & #[trigger] spec_row_mask(rows[i], x))
                != 0u64 {
            let i = choose|i: int|
                0 <= i < rows.len() && (fb[(y + i) % 32] & #[trigger] spec_row_mask(rows[i], x))
                    != 0u64;
            if i < n1 {
                assert(prior_rows[i] == rows[i]);
                assert((fb[(y + i) % 32] & spec_row_mask(prior_rows[i], x)) != 0u64);
                assert(p.1);
            } else {
                assert(rows[n1] == rows.last());
            }
            assert(d.1);
        }
    }
}

/// Drawing the same sprite twice at the same position restores the
/// framebuffer exactly, whatever was on it before.
pub proof fn lemma_draw_twice_restores(fb: Seq<u64>, x: u8, y: u8, rows: Seq<u8>)
    requires
        fb.len() == 32,
        rows.len() <= 32,
    ensures
        spec_draw(spec_draw(fb, x, y, rows).0, x, y, rows).0 == fb,
{
    let d1 = spec_draw(fb, x, y, rows).0;
    lemma_draw_shape(fb, x, y, rows);
    lemma_draw_shape(d1, x, y, rows);
    let d2 = spec_draw(d1, x, y, rows).0;
    assert forall|j: int| 0 <= j < 32 implies d2[j] == fb[j] by {
        if spec_row_targeted(y, rows.len() as int, j) {
            let i = choose|i: int| 0 <= i < rows.len() && j == #[trigger] ((y + i) % 32);
            let m = spec_row_mask(rows[i], x);
            let a = fb[j];
            assert(d1[j] == a ^ m);
            assert(d2[j] == d1[j] ^ m);
            assert((a ^ m) ^ m == a) by (bit_vector);
        }
    }
    assert(d2 =~= fb);
}

/// The second of two identical draws reports a collision exactly when
/// the first draw turned some pixel on. In particular, a sprite with a
/// visible pixel drawn on rows that were clear always collides with its
/// own first copy.
pub proof fn lemma_draw_twice_collision(fb: Seq<u64>, x: u8, y: u8, rows: Seq<u8>)
    requires
        fb.len() == 32,
        rows.len() <= 32,
    ensures
        spec_draw(spec_draw(fb, x, y, rows).0, x, y, rows).1 == (exists|i: int|
            0 <= i < rows.len() && ((#[trigger] spec_row_mask(rows[i], x)) & !fb[(y + i) % 32])
                != 0u64),
{
    let d1 = spec_draw(fb, x, y, rows).0;
    lemma_draw_shape(fb, x, y, rows);
    lemma_draw_shape(d1, x, y, rows);
    let second = spec_draw(d1, x, y, rows).1;
    if second {
        let i = choose|i: int|
            0 <= i < rows.len() && (d1[(y + i) % 32] & #[trigger] spec_row_mask(rows[i], x))
                != 0u64;
        let m = spec_row_mask(rows[i], x);
        let a = fb[(y + i) % 32];
        assert(d1[(y + i) % 32] == a ^ m);
        assert(((a ^ m) & m) == (m & !a)) by (bit_vector);
        assert((m & !a) != 0u64);
    }
    if exists|i: int|
        0 <= i < rows.len() && ((#[trigger] spec_row_mask(rows[i], x)) & !fb[(y + i) % 32])
            != 0u64 {
        let i = choose|i: int|
            0 <= i < rows.len() && ((#[trigger] spec_row_mask(rows[i], x)) & !fb[(y + i) % 32])
                != 0u64;
        let m = spec_row_mask(rows[i], x);
        let a = fb[(y + i) % 32];
        assert(d1[(y + i) % 32] == a ^ m);
        assert(((a ^ m) & m) == (m & !a)) by (bit_vector);
        assert((d1[(y + i) % 32] & spec_row_mask(rows[i], x)) != 0u64);
    }
}

/// A sound timer value after `k` ticks.
pub open spec fn spec_ticked_n(value: u8, k: nat) -> u8
    decreases k,
{
    if k == 0 {
        value
    } else {
        spec_ticked(spec_ticked_n(value, (k - 1) as nat))
    }
}

/// A timer set to `value` and ticked `k` times counts down to
/// `value - k`, parking at zero; the audio signal is asserted after
/// exactly the first `value - 1` ticks and de-asserted from the tick
/// that reaches zero onward.
pub proof fn lemma_sound_timer_countdown(value: u8, k: nat)
    ensures
        spec_ticked_n(value, k) == if k >= value {
            0u8
        } else {
            (value - k) as u8
        },
        k >= 1 ==> spec_audio_signal(spec_ticked_n(value, k)) == (k < value),
    decreases k,
{
    if k > 0 {
        lemma_sound_timer_countdown(value, (k - 1) as nat);
    }
}

} // verus!
