//! General properties of the instruction semantics, stated over the model in
//! `machine` and proved once for all states: wraparound arithmetic of the
//! add instructions, carry and borrow flags, screen clearing, the key-wait
//! stall, and the sprite-drawing cancellation law.

use vstd::prelude::*;

use crate::decode::{spec_decode, Instr};
use crate::machine::{
    any_key, blank_gfx, cell_index, fetch_word, highest_key, lemma_highest_key, m_wf, row_bit,
    spec_cycle, spec_draw, spec_draw_row, spec_exec, Machine,
};

verus! {

/// Law: 6XNN followed by 7X(255) leaves VX at (NN + 255) mod 256, and the
/// 7-series add has no flag side effect: VF is untouched whenever VX is not
/// VF itself.
pub proof fn lemma_set_then_add_wraps(m: Machine, x: u8, nn: u8, rnd: u8)
    requires
        m_wf(m),
        x < 16,
    ensures
        ({
            let m1 = spec_exec(m, Instr::SetImm(x, nn), rnd);
            let m2 = spec_exec(m1, Instr::AddImm(x, 255), rnd);
            &&& m2.v[x as int] == (nn + 255) % 256
            &&& x != 0xF ==> m2.v[0xF] == m.v[0xF]
        }),
{
}

/// Law: 8XY4 on VX = 0xFF, VY = 0x01 wraps VX to 0x00 and sets the carry
/// flag VF to 1. VX may not be VF itself: the flag is written before the
/// operands are re-read, so a VF target would see the flag as its operand.
pub proof fn lemma_add_reg_carry(m: Machine, x: u8, y: u8, rnd: u8)
    requires
        m_wf(m),
        x < 16,
        y < 16,
        x != 0xF,
        m.v[x as int] == 0xFF,
        m.v[y as int] == 0x01,
    ensures
        spec_exec(m, Instr::AddReg(x, y), rnd).v[x as int] == 0x00,
        spec_exec(m, Instr::AddReg(x, y), rnd).v[0xF] == 1,
{
}

/// Law: 8XY5 on VX = 0x01, VY = 0x02 borrows: VF is set to 0 and VX wraps to
/// 0xFF. Neither VX nor VY may be VF itself: the flag is written before the
/// operands are re-read, so a VF operand would see the flag.
pub proof fn lemma_sub_reg_borrow(m: Machine, x: u8, y: u8, rnd: u8)
    requires
        m_wf(m),
        x < 16,
        y < 16,
        x != 0xF,
        y != 0xF,
        m.v[x as int] == 0x01,
        m.v[y as int] == 0x02,
    ensures
        spec_exec(m, Instr::SubReg(x, y), rnd).v[x as int] == 0xFF,
        spec_exec(m, Instr::SubReg(x, y), rnd).v[0xF] == 0,
{
}

/// Law: a cycle whose fetched word is 00E0 leaves every framebuffer cell
/// zero and the redraw flag set.
pub proof fn lemma_clear_screen_cycle(m: Machine, rnd: u8)
    requires
        spec_decode(fetch_word(m)) == Instr::ClearScreen,
    ensures
        spec_cycle(m, rnd).gfx == blank_gfx(),
        forall|c: int| 0 <= c < 2048 ==> spec_cycle(m, rnd).gfx[c] == 0u8,
        spec_cycle(m, rnd).draw,
{
}

/// Law: a cycle whose fetched word is FX0A stalls while no key is pressed:
/// the program counter, the registers, memory and the framebuffer are all
/// left as they were (only the timers tick and the redraw flag is reset).
pub proof fn lemma_wait_key_stalls(m: Machine, x: u8, rnd: u8)
    requires
        spec_decode(fetch_word(m)) == Instr::WaitKey(x),
        forall|k: int| 0 <= k < 16 ==> !m.key[k],
    ensures
        spec_cycle(m, rnd).pc == m.pc,
        spec_cycle(m, rnd).v == m.v,
        spec_cycle(m, rnd).mem == m.mem,
        spec_cycle(m, rnd).gfx == m.gfx,
{
    assert(!any_key(m.key));
}

/// Law: a cycle whose fetched word is FX0A, run while some key is pressed,
/// stores the highest pressed key index in VX and advances the program
/// counter by 2.
pub proof fn lemma_wait_key_press(m: Machine, x: u8, rnd: u8)
    requires
        m_wf(m),
        x < 16,
        spec_decode(fetch_word(m)) == Instr::WaitKey(x),
        any_key(m.key),
    ensures
        spec_cycle(m, rnd).pc == (m.pc + 2) as u16,
        spec_cycle(m, rnd).v[x as int] == highest_key(m.key, 16) as u8,
        0 <= highest_key(m.key, 16) < 16 && m.key[highest_key(m.key, 16)],
{
    lemma_highest_key(m.key, 16);
}

/// Whether one of the first `cols` pixels of sprite row `row`, drawn at
/// column VX on screen row `y`, is set and lands on cell `c`.
pub open spec fn row_hits(row: u8, vx: u8, y: int, cols: int, c: int) -> bool {
    exists|k: int| 0 <= k < cols && row_bit(row, k) && c == cell_index(vx, y, k)
}

/// Whether one of the first `cols` pixels of sprite row `row` lands on a
/// framebuffer cell whose low bit is already set.
pub open spec fn row_collides(gfx: Seq<u8>, row: u8, vx: u8, y: int, cols: int) -> bool {
    exists|k: int| 0 <= k < cols && row_bit(row, k) && 1u8 & gfx[cell_index(vx, y, k)] == 1
}

/// Whether some set pixel of the `n`-row sprite at memory address `i`, drawn
/// at (vx, vy), lands on cell `c`.
pub open spec fn draw_hits(mem: Seq<u8>, i: u16, vx: u8, vy: u8, n: int, c: int) -> bool {
    exists|r: int, k: int|
        0 <= r < n && 0 <= k < 8 && #[trigger] row_bit(mem[i + r], k) && c == #[trigger] cell_index(
            vx,
            (vy + r) % 32,
            k,
        )
}

/// Whether some set pixel of the sprite lands on a framebuffer cell whose
/// low bit is already set: the condition under which a draw reports a
/// collision.
pub open spec fn draw_collides(gfx: Seq<u8>, mem: Seq<u8>, i: u16, vx: u8, vy: u8, n: int) -> bool {
    exists|r: int, k: int|
        0 <= r < n && 0 <= k < 8 && #[trigger] row_bit(mem[i + r], k) && 1u8 & gfx[#[trigger] cell_index(
            vx,
            (vy + r) % 32,
            k,
        )] == 1
}

/// Whether the `n`-row sprite at memory address `i` has any set pixel at
/// all.
pub open spec fn sprite_visible(mem: Seq<u8>, i: u16, n: int) -> bool {
    exists|r: int, k: int| 0 <= r < n && 0 <= k < 8 && #[trigger] row_bit(mem[i + r], k)
}

/// Offsets less than the modulus apart wrap to distinct values.
proof fn lemma_wrap_distinct(base: int, k1: int, k2: int, md: int)
    requires
        0 <= base,
        0 <= k1 < k2,
        k2 - k1 < md,
        0 < md,
    ensures
        (base + k1) % md != (base + k2) % md,
{
    let a = base + k1;
    let b = base + k2;
    vstd::arithmetic::div_mod::lemma_fundamental_div_mod(a, md);
    vstd::arithmetic::div_mod::lemma_fundamental_div_mod(b, md);
    if (a % md) == (b % md) {
        let qa = a / md;
        let qb = b / md;
        assert(b - a == md * (qb - qa)) by (nonlinear_arith)
            requires
                a == md * qa + (a % md),
                b == md * qb + (b % md),
                (a % md) == (b % md),
        ;
        let t = qb - qa;
        if t <= 0 {
            assert(md * t <= 0) by (nonlinear_arith)
                requires
                    md > 0,
                    t <= 0,
            ;
        } else {
            assert(md * t >= md) by (nonlinear_arith)
                requires
                    md > 0,
                    t >= 1,
            ;
        }
        assert(false);
    }
}

/// A cell index is in the framebuffer and determines the screen row and
/// wrapped column it was built from.
proof fn lemma_cell_index_parts(vx: u8, y: int, k: int)
    requires
        0 <= y < 32,
        0 <= k,
    ensures
        0 <= cell_index(vx, y, k) < 2048,
        cell_index(vx, y, k) / 64 == y,
        cell_index(vx, y, k) % 64 == (vx + k) % 64,
{
    vstd::arithmetic::div_mod::lemma_mod_division_less_than_divisor(vx + k, 64);
    let px = (vx + k) % 64;
    let c = cell_index(vx, y, k);
    assert(c == y * 64 + px);
    vstd::arithmetic::div_mod::lemma_fundamental_div_mod_converse_div(c, 64, y, px);
    vstd::arithmetic::div_mod::lemma_fundamental_div_mod_converse_mod(c, 64, y, px);
}

/// Cell-level characterization of one row's blit: a cell is flipped exactly
/// when a set pixel of the row lands on it, and the collision bit is 1
/// exactly when a set pixel lands on a cell with its low bit set. Both hold
/// because the row's eight pixels land on eight distinct cells.
proof fn lemma_draw_row_chars(gfx: Seq<u8>, row: u8, vx: u8, y: int, cols: int)
    requires
        gfx.len() == 2048,
        0 <= y < 32,
        0 <= cols <= 8,
    ensures
        ({
            let res = spec_draw_row(gfx, row, vx, y, cols);
            &&& res.0.len() == 2048
            &&& forall|c: int|
                0 <= c < 2048 ==> res.0[c] == (if row_hits(row, vx, y, cols, c) {
                    gfx[c] ^ 1u8
                } else {
                    gfx[c]
                })
            &&& res.1 == (if row_collides(gfx, row, vx, y, cols) {
                1u8
            } else {
                0u8
            })
        }),
    decreases cols,
{
    if cols <= 0 {
        assert(forall|c: int| !row_hits(row, vx, y, cols, c));
        assert(!row_collides(gfx, row, vx, y, cols));
    } else {
        lemma_draw_row_chars(gfx, row, vx, y, cols - 1);
        let prev = spec_draw_row(gfx, row, vx, y, cols - 1);
        let res = spec_draw_row(gfx, row, vx, y, cols);
        let k0 = cols - 1;
        if row_bit(row, k0) {
            let idx = cell_index(vx, y, k0);
            lemma_cell_index_parts(vx, y, k0);
            assert(!row_hits(row, vx, y, cols - 1, idx)) by {
                if row_hits(row, vx, y, cols - 1, idx) {
                    let kk = choose|kk: int|
                        0 <= kk < cols - 1 && row_bit(row, kk) && idx == cell_index(vx, y, kk);
                    lemma_cell_index_parts(vx, y, kk);
                    lemma_wrap_distinct(vx as int, kk, k0, 64);
                }
            }
            assert(prev.0[idx] == gfx[idx]);
            assert(res.0 == prev.0.update(idx, prev.0[idx] ^ 1u8));
            // The flipped cell is hit; every other cell keeps its status.
            assert(row_hits(row, vx, y, cols, idx)) by {
                assert(0 <= k0 < cols && row_bit(row, k0) && idx == cell_index(vx, y, k0));
            }
            assert forall|c: int| 0 <= c < 2048 && c != idx implies (row_hits(row, vx, y, cols, c)
                <==> row_hits(row, vx, y, cols - 1, c)) by {
                if row_hits(row, vx, y, cols, c) {
                    let kk = choose|kk: int|
                        0 <= kk < cols && row_bit(row, kk) && c == cell_index(vx, y, kk);
                    assert(kk != k0);
                    assert(row_hits(row, vx, y, cols - 1, c));
                }
            }
            // Collision: the new pixel contributes the low bit of its cell.
            let g = gfx[idx];
            assert(1u8 & g == 0 || 1u8 & g == 1) by (bit_vector);
            assert(0u8 | 0u8 == 0u8 && 0u8 | 1u8 == 1u8 && 1u8 | 0u8 == 1u8 && 1u8 | 1u8 == 1u8)
                by (bit_vector);
            assert(res.1 == prev.1 | (1u8 & g));
            if 1u8 & g == 1 {
                assert(row_collides(gfx, row, vx, y, cols)) by {
                    assert(0 <= k0 < cols && row_bit(row, k0) && 1u8 & gfx[cell_index(vx, y, k0)]
                        == 1);
                }
                assert(res.1 == 1u8);
            } else {
                assert(row_collides(gfx, row, vx, y, cols) <==> row_collides(
                    gfx,
                    row,
                    vx,
                    y,
                    cols - 1,
                )) by {
                    if row_collides(gfx, row, vx, y, cols) {
                        let kk = choose|kk: int|
                            0 <= kk < cols && row_bit(row, kk) && 1u8 & gfx[cell_index(vx, y, kk)]
                                == 1;
                        assert(kk != k0);
                        assert(row_collides(gfx, row, vx, y, cols - 1));
                    }
                }
            }
        } else {
            assert(res == prev);
            assert forall|c: int| 0 <= c < 2048 implies (row_hits(row, vx, y, cols, c)
                <==> row_hits(row, vx, y, cols - 1, c)) by {
                if row_hits(row, vx, y, cols, c) {
                    let kk = choose|kk: int|
                        0 <= kk < cols && row_bit(row, kk) && c == cell_index(vx, y, kk);
                    assert(kk != k0);
                    assert(row_hits(row, vx, y, cols - 1, c));
                }
            }
            assert(row_collides(gfx, row, vx, y, cols) <==> row_collides(
                gfx,
                row,
                vx,
                y,
                cols - 1,
            )) by {
                if row_collides(gfx, row, vx, y, cols) {
                    let kk = choose|kk: int|
                        0 <= kk < cols && row_bit(row, kk) && 1u8 & gfx[cell_index(vx, y, kk)] == 1;
                    assert(kk != k0);
                    assert(row_collides(gfx, row, vx, y, cols - 1));
                }
            }
        }
    }
}

/// Cell-level characterization of a whole sprite draw: a cell is flipped
/// exactly when a set pixel of the sprite lands on it, and the collision
/// flag is 1 exactly when a set pixel lands on a cell with its low bit set.
/// Both hold because all plotted pixels of a sprite of at most 32 rows land
/// on distinct cells.
proof fn lemma_draw_chars(gfx: Seq<u8>, mem: Seq<u8>, i: u16, vx: u8, vy: u8, n: int)
    requires
        gfx.len() == 2048,
        0 <= n <= 32,
    ensures
        ({
            let res = spec_draw(gfx, mem, i, vx, vy, n);
            &&& res.0.len() == 2048
            &&& forall|c: int|
                0 <= c < 2048 ==> res.0[c] == (if draw_hits(mem, i, vx, vy, n, c) {
                    gfx[c] ^ 1u8
                } else {
                    gfx[c]
                })
            &&& res.1 == (if draw_collides(gfx, mem, i, vx, vy, n) {
                1u8
            } else {
                0u8
            })
        }),
    decreases n,
{
    if n <= 0 {
        assert(forall|c: int| !draw_hits(mem, i, vx, vy, n, c));
        assert(!draw_collides(gfx, mem, i, vx, vy, n));
    } else {
        lemma_draw_chars(gfx, mem, i, vx, vy, n - 1);
        let prev = spec_draw(gfx, mem, i, vx, vy, n - 1);
        let res = spec_draw(gfx, mem, i, vx, vy, n);
        let r0 = n - 1;
        vstd::arithmetic::div_mod::lemma_mod_division_less_than_divisor(vy + r0, 32);
        let y0 = (vy + r0) % 32;
        let row = mem[i + r0];
        lemma_draw_row_chars(prev.0, row, vx, y0, 8);
        let rowres = spec_draw_row(prev.0, row, vx, y0, 8);
        assert(res.0 == rowres.0 && res.1 == prev.1 | rowres.1);
        // Earlier rows land on other screen rows.
        assert forall|r: int| 0 <= r < r0 implies #[trigger] ((vy + r) % 32) != y0 by {
            lemma_wrap_distinct(vy as int, r, r0, 32);
        }
        // So the cells of screen row y0 still hold their original bytes.
        assert forall|c: int| 0 <= c < 2048 && c / 64 == y0 implies !draw_hits(
            mem,
            i,
            vx,
            vy,
            n - 1,
            c,
        ) && prev.0[c] == gfx[c] by {
            if draw_hits(mem, i, vx, vy, n - 1, c) {
                let (r, k) = choose|r: int, k: int|
                    0 <= r < n - 1 && 0 <= k < 8 && #[trigger] row_bit(mem[i + r], k) && c == #[trigger] cell_index(
                        vx,
                        (vy + r) % 32,
                        k,
                    );
                vstd::arithmetic::div_mod::lemma_mod_division_less_than_divisor(vy + r, 32);
                lemma_cell_index_parts(vx, (vy + r) % 32, k);
            }
        }
        // Cell clause.
        assert forall|c: int| 0 <= c < 2048 implies res.0[c] == (if draw_hits(
            mem,
            i,
            vx,
            vy,
            n,
            c,
        ) {
            gfx[c] ^ 1u8
        } else {
            gfx[c]
        }) by {
            if c / 64 == y0 {
                assert(row_hits(row, vx, y0, 8, c) <==> draw_hits(mem, i, vx, vy, n, c)) by {
                    if row_hits(row, vx, y0, 8, c) {
                        let k = choose|k: int|
                            0 <= k < 8 && row_bit(row, k) && c == cell_index(vx, y0, k);
                        assert(0 <= r0 < n && 0 <= k < 8 && row_bit(mem[i + r0], k) && c
                            == cell_index(vx, (vy + r0) % 32, k));
                        assert(draw_hits(mem, i, vx, vy, n, c));
                    }
                    if draw_hits(mem, i, vx, vy, n, c) {
                        let (r, k) = choose|r: int, k: int|
                            0 <= r < n && 0 <= k < 8 && #[trigger] row_bit(mem[i + r], k) && c == #[trigger] cell_index(
                                vx,
                                (vy + r) % 32,
                                k,
                            );
                        if r < r0 {
                            vstd::arithmetic::div_mod::lemma_mod_division_less_than_divisor(
                                vy + r,
                                32,
                            );
                            lemma_cell_index_parts(vx, (vy + r) % 32, k);
                            assert(false);
                        }
                        assert(row_hits(row, vx, y0, 8, c));
                    }
                }
            } else {
                assert(!row_hits(row, vx, y0, 8, c)) by {
                    if row_hits(row, vx, y0, 8, c) {
                        let k = choose|k: int|
                            0 <= k < 8 && row_bit(row, k) && c == cell_index(vx, y0, k);
                        lemma_cell_index_parts(vx, y0, k);
                    }
                }
                assert(draw_hits(mem, i, vx, vy, n, c) <==> draw_hits(mem, i, vx, vy, n - 1, c))
                    by {
                    if draw_hits(mem, i, vx, vy, n, c) {
                        let (r, k) = choose|r: int, k: int|
                            0 <= r < n && 0 <= k < 8 && #[trigger] row_bit(mem[i + r], k) && c == #[trigger] cell_index(
                                vx,
                                (vy + r) % 32,
                                k,
                            );
                        if r == r0 {
                            lemma_cell_index_parts(vx, y0, k);
                            assert(false);
                        }
                        assert(draw_hits(mem, i, vx, vy, n - 1, c));
                    }
                    if draw_hits(mem, i, vx, vy, n - 1, c) {
                        let (r, k) = choose|r: int, k: int|
                            0 <= r < n - 1 && 0 <= k < 8 && #[trigger] row_bit(mem[i + r], k) && c
                                == cell_index(vx, (vy + r) % 32, k);
                        assert(0 <= r < n && 0 <= k < 8 && row_bit(mem[i + r], k) && c
                            == cell_index(vx, (vy + r) % 32, k));
                        assert(draw_hits(mem, i, vx, vy, n, c));
                    }
                }
            }
        }
        // Collision clause: the last row collides against the original
        // framebuffer, because its cells were untouched by the earlier rows.
        assert(row_collides(prev.0, row, vx, y0, 8) <==> row_collides(gfx, row, vx, y0, 8)) by {
            if row_collides(prev.0, row, vx, y0, 8) {
                let k = choose|k: int|
                    0 <= k < 8 && row_bit(row, k) && 1u8 & prev.0[cell_index(vx, y0, k)] == 1;
                lemma_cell_index_parts(vx, y0, k);
                assert(1u8 & gfx[cell_index(vx, y0, k)] == 1);
                assert(row_collides(gfx, row, vx, y0, 8));
            }
            if row_collides(gfx, row, vx, y0, 8) {
                let k = choose|k: int|
                    0 <= k < 8 && row_bit(row, k) && 1u8 & gfx[cell_index(vx, y0, k)] == 1;
                lemma_cell_index_parts(vx, y0, k);
                assert(1u8 & prev.0[cell_index(vx, y0, k)] == 1);
                assert(row_collides(prev.0, row, vx, y0, 8));
            }
        }
        assert(draw_collides(gfx, mem, i, vx, vy, n) <==> (draw_collides(gfx, mem, i, vx, vy, n - 1)
            || row_collides(gfx, row, vx, y0, 8))) by {
            if draw_collides(gfx, mem, i, vx, vy, n) {
                let (r, k) = choose|r: int, k: int|
                    0 <= r < n && 0 <= k < 8 && #[trigger] row_bit(mem[i + r], k) && 1u8 & gfx[#[trigger] cell_index(
                        vx,
                        (vy + r) % 32,
                        k,
                    )] == 1;
                if r == r0 {
                    assert(row_collides(gfx, row, vx, y0, 8));
                } else {
                    assert(draw_collides(gfx, mem, i, vx, vy, n - 1));
                }
            }
            if draw_collides(gfx, mem, i, vx, vy, n - 1) {
                let (r, k) = choose|r: int, k: int|
                    0 <= r < n - 1 && 0 <= k < 8 && #[trigger] row_bit(mem[i + r], k) && 1u8 & gfx[#[trigger] cell_index(
                        vx,
                        (vy + r) % 32,
                        k,
                    )] == 1;
                assert(0 <= r < n && 0 <= k < 8 && row_bit(mem[i + r], k) && 1u8 & gfx[cell_index(
                    vx,
                    (vy + r) % 32,
                    k,
                )] == 1);
                assert(draw_collides(gfx, mem, i, vx, vy, n));
            }
            if row_collides(gfx, row, vx, y0, 8) {
                let k = choose|k: int|
                    0 <= k < 8 && row_bit(row, k) && 1u8 & gfx[cell_index(vx, y0, k)] == 1;
                assert(0 <= r0 < n && 0 <= k < 8 && row_bit(mem[i + r0], k) && 1u8 & gfx[cell_index(
                    vx,
                    (vy + r0) % 32,
                    k,
                )] == 1);
                assert(draw_collides(gfx, mem, i, vx, vy, n));
            }
        }
        assert(0u8 | 0u8 == 0u8 && 0u8 | 1u8 == 1u8 && 1u8 | 0u8 == 1u8 && 1u8 | 1u8 == 1u8)
            by (bit_vector);
    }
}

/// Law: drawing the same sprite at the same location twice on a blank
/// framebuffer leaves the framebuffer blank again (XOR with itself cancels),
/// the first draw reports no collision, and the second draw sets the
/// collision flag VF to 1 exactly when the sprite has any set pixel (the
/// first copy's pixels flip back to off).
/// Neither coordinate register may be VF itself: the first draw writes its
/// collision flag there, so the second draw would read other coordinates.
pub proof fn lemma_draw_twice_cancels(m: Machine, x: u8, y: u8, n: u8, rnd: u8)
    requires
        m_wf(m),
        x < 16,
        y < 16,
        x != 0xF,
        y != 0xF,
        n < 16,
        m.gfx == blank_gfx(),
    ensures
        ({
            let m1 = spec_exec(m, Instr::Draw(x, y, n), rnd);
            let m2 = spec_exec(m1, Instr::Draw(x, y, n), rnd);
            &&& m1.v[0xF] == 0u8
            &&& m2.gfx == blank_gfx()
            &&& m2.v[0xF] == (if sprite_visible(m.mem, m.i, n as int) {
                1u8
            } else {
                0u8
            })
        }),
{
    let vx = m.v[x as int];
    let vy = m.v[y as int];
    let m1 = spec_exec(m, Instr::Draw(x, y, n), rnd);
    let m2 = spec_exec(m1, Instr::Draw(x, y, n), rnd);
    lemma_draw_chars(m.gfx, m.mem, m.i, vx, vy, n as int);
    assert(m1.gfx == spec_draw(m.gfx, m.mem, m.i, vx, vy, n as int).0);
    assert(m1.mem == m.mem && m1.i == m.i && m1.v[x as int] == vx && m1.v[y as int] == vy);
    lemma_draw_chars(m1.gfx, m.mem, m.i, vx, vy, n as int);
    assert(m2.gfx == spec_draw(m1.gfx, m.mem, m.i, vx, vy, n as int).0);
    assert(0u8 ^ 1u8 == 1u8 && 1u8 ^ 1u8 == 0u8 && 1u8 & 1u8 == 1u8 && 1u8 & 0u8 == 0u8)
        by (bit_vector);
    // Every cell ends at 0: unhit cells never change, hit cells flip twice.
    assert forall|c: int| 0 <= c < 2048 implies m2.gfx[c] == 0u8 by {
        assert(m.gfx[c] == 0u8);
    }
    assert(m2.gfx =~= blank_gfx());
    // The first draw cannot collide: every cell of a blank screen is 0.
    assert(!draw_collides(m.gfx, m.mem, m.i, vx, vy, n as int)) by {
        if draw_collides(m.gfx, m.mem, m.i, vx, vy, n as int) {
            let (r, k) = choose|r: int, k: int|
                0 <= r < n as int && 0 <= k < 8 && #[trigger] row_bit(m.mem[m.i + r], k) && 1u8
                    & m.gfx[#[trigger] cell_index(vx, (vy + r) % 32, k)] == 1;
            vstd::arithmetic::div_mod::lemma_mod_division_less_than_divisor(vy + r, 32);
            lemma_cell_index_parts(vx, (vy + r) % 32, k);
            assert(m.gfx[cell_index(vx, (vy + r) % 32, k)] == 0u8);
        }
    }
    // The second draw collides exactly on the first draw's own pixels.
    assert(draw_collides(m1.gfx, m.mem, m.i, vx, vy, n as int) <==> sprite_visible(
        m.mem,
        m.i,
        n as int,
    )) by {
        if draw_collides(m1.gfx, m.mem, m.i, vx, vy, n as int) {
            let (r, k) = choose|r: int, k: int|
                0 <= r < n as int && 0 <= k < 8 && #[trigger] row_bit(m.mem[m.i + r], k) && 1u8
                    & m1.gfx[#[trigger] cell_index(vx, (vy + r) % 32, k)] == 1;
            assert(sprite_visible(m.mem, m.i, n as int));
        }
        if sprite_visible(m.mem, m.i, n as int) {
            let (r, k) = choose|r: int, k: int|
                0 <= r < n as int && 0 <= k < 8 && #[trigger] row_bit(m.mem[m.i + r], k);
            vstd::arithmetic::div_mod::lemma_mod_division_less_than_divisor(vy + r, 32);
            lemma_cell_index_parts(vx, (vy + r) % 32, k);
            let c = cell_index(vx, (vy + r) % 32, k);
            assert(draw_hits(m.mem, m.i, vx, vy, n as int, c)) by {
                assert(0 <= r < n as int && 0 <= k < 8 && row_bit(m.mem[m.i + r], k) && c
                    == cell_index(vx, (vy + r) % 32, k));
            }
            assert(m1.gfx[c] == 1u8);
            assert(draw_collides(m1.gfx, m.mem, m.i, vx, vy, n as int)) by {
                assert(0 <= r < n as int && 0 <= k < 8 && row_bit(m.mem[m.i + r], k) && 1u8
                    & m1.gfx[cell_index(vx, (vy + r) % 32, k)] == 1);
            }
        }
    }
}

} // verus!
