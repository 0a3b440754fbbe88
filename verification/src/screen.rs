//! What drawing a sprite means.
//!
//! A sprite is `n` consecutive bytes of memory starting at the index
//! register; each byte is one row of eight pixels, most significant bit
//! leftmost.  Every set sprite bit toggles (XOR) one framebuffer pixel, at a
//! position wrapped modulo the screen's width and height.  The flag register
//! reports a collision: some set sprite bit landed on a pixel that was
//! already lit.

use vstd::arithmetic::div_mod::lemma_fundamental_div_mod;
use vstd::prelude::*;

use crate::SCREEN_HEIGHT;
use crate::SCREEN_WIDTH;

verus! {

/// Index of pixel (x, y) in the row-major framebuffer.
pub open spec fn pix(x: int, y: int) -> int {
    x + SCREEN_WIDTH * y
}

/// Whether bit `c` (counted from the left) of a sprite row byte is set.
pub open spec fn sprite_bit(b: u8, c: int) -> bool {
    (b >> ((7 - c) as u8)) & 1 == 1
}

/// The framebuffer index that sprite cell (row `r`, column `c`) of a sprite
/// with origin (x0, y0) toggles, with both coordinates wrapped.
pub open spec fn target(x0: int, y0: int, r: int, c: int) -> int {
    pix((x0 + c) % (SCREEN_WIDTH as int), (y0 + r) % (SCREEN_HEIGHT as int))
}

/// The sprite cells already handled when the engine stands at row `rd`,
/// column `cd`: all of the rows before `rd`, and the first `cd` columns of
/// row `rd`.
pub open spec fn processed(rr: int, cc: int, rd: int, cd: int) -> bool {
    0 <= rr && 0 <= cc < 8 && (rr < rd || (rr == rd && cc < cd))
}

/// Whether some already-handled sprite cell with a set bit toggles pixel `p`.
/// The sprite's rows are the bytes of `ram` at `i .. i + n`.
pub open spec fn covered_upto(
    ram: Seq<u8>,
    i: int,
    x0: int,
    y0: int,
    rd: int,
    cd: int,
    p: int,
) -> bool {
    exists|rr: int, cc: int|
        processed(rr, cc, rd, cd) && sprite_bit(ram[i + rr], cc) && target(x0, y0, rr, cc) == p
}

/// Whether the full `n`-row sprite toggles pixel `p`.
pub open spec fn covered(ram: Seq<u8>, i: int, x0: int, y0: int, n: int, p: int) -> bool {
    covered_upto(ram, i, x0, y0, n, 0, p)
}

/// Whether some already-handled set sprite bit lands on a pixel lit in
/// `scr0`, the framebuffer as it stood before the draw began.
pub open spec fn hit_upto(
    scr0: Seq<bool>,
    ram: Seq<u8>,
    i: int,
    x0: int,
    y0: int,
    rd: int,
    cd: int,
) -> bool {
    exists|rr: int, cc: int|
        processed(rr, cc, rd, cd) && sprite_bit(ram[i + rr], cc) && scr0[target(x0, y0, rr, cc)]
}

/// The collision flag of a full `n`-row draw: some set sprite bit lands on a
/// pixel that was already lit.
pub open spec fn draw_collision(
    scr0: Seq<bool>,
    ram: Seq<u8>,
    i: int,
    x0: int,
    y0: int,
    n: int,
) -> bool {
    hit_upto(scr0, ram, i, x0, y0, n, 0)
}

/// The framebuffer after a full `n`-row draw: every covered pixel toggled,
/// every other pixel untouched.
pub open spec fn draw_screen(
    scr0: Seq<bool>,
    ram: Seq<u8>,
    i: int,
    x0: int,
    y0: int,
    n: int,
) -> Seq<bool> {
    Seq::new(scr0.len(), |p: int| scr0[p] ^ covered(ram, i, x0, y0, n, p))
}

/// Adding two values below `m` to the same base gives the same remainder
/// modulo `m` only when the values are the same.
proof fn lemma_mod_cancel(k: int, a: int, b: int, m: int)
    requires
        m > 0,
        0 <= a < m,
        0 <= b < m,
        0 <= k,
        (k + a) % m == (k + b) % m,
    ensures
        a == b,
{
    lemma_fundamental_div_mod(k + a, m);
    lemma_fundamental_div_mod(k + b, m);
    let qa = (k + a) / m;
    let qb = (k + b) / m;
    assert(a - b == m * (qa - qb)) by (nonlinear_arith)
        requires
            k + a == m * qa + (k + a) % m,
            k + b == m * qb + (k + b) % m,
            (k + a) % m == (k + b) % m,
    ;
    assert(qa == qb) by (nonlinear_arith)
        requires
            a - b == m * (qa - qb),
            -m < a - b,
            a - b < m,
            m > 0,
    ;
}

/// Every sprite cell toggles a pixel inside the framebuffer.
pub proof fn lemma_target_range(x0: int, y0: int, r: int, c: int)
    requires
        0 <= x0,
        0 <= y0,
        0 <= r,
        0 <= c,
    ensures
        0 <= target(x0, y0, r, c) < SCREEN_WIDTH * SCREEN_HEIGHT,
{
    assert(0 <= (x0 + c) % (SCREEN_WIDTH as int) < SCREEN_WIDTH);
    assert(0 <= (y0 + r) % (SCREEN_HEIGHT as int) < SCREEN_HEIGHT);
}

/// Distinct cells of one sprite toggle distinct pixels, as long as the sprite
/// has at most as many rows as the screen: the eight columns land on eight
/// different wrapped x positions, and rows below the screen height land on
/// different wrapped y positions.
pub proof fn lemma_target_injective(x0: int, y0: int, r1: int, c1: int, r2: int, c2: int)
    requires
        0 <= x0,
        0 <= y0,
        0 <= r1 < SCREEN_HEIGHT,
        0 <= r2 < SCREEN_HEIGHT,
        0 <= c1 < 8,
        0 <= c2 < 8,
        !(r1 == r2 && c1 == c2),
    ensures
        target(x0, y0, r1, c1) != target(x0, y0, r2, c2),
{
    let w = SCREEN_WIDTH as int;
    let h = SCREEN_HEIGHT as int;
    let a1 = (x0 + c1) % w;
    let b1 = (y0 + r1) % h;
    let a2 = (x0 + c2) % w;
    let b2 = (y0 + r2) % h;
    if target(x0, y0, r1, c1) == target(x0, y0, r2, c2) {
        assert(a1 + w * b1 == a2 + w * b2);
        assert(0 <= a1 < w && 0 <= a2 < w && 0 <= b1 < h && 0 <= b2 < h);
        assert(b1 == b2 && a1 == a2);
        lemma_mod_cancel(y0, r1, r2, h);
        lemma_mod_cancel(x0, c1, c2, w);
        assert(false);
    }
}

/// Before the engine stands at a cell, no already-handled cell has toggled
/// that cell's pixel: the pixel still has its pre-draw value.
pub proof fn lemma_fresh_target(ram: Seq<u8>, i: int, x0: int, y0: int, rd: int, cd: int)
    requires
        0 <= x0,
        0 <= y0,
        0 <= rd < SCREEN_HEIGHT,
        0 <= cd < 8,
    ensures
        !covered_upto(ram, i, x0, y0, rd, cd, target(x0, y0, rd, cd)),
{
    let p = target(x0, y0, rd, cd);
    if covered_upto(ram, i, x0, y0, rd, cd, p) {
        let (rr, cc) = choose|rr: int, cc: int|
            processed(rr, cc, rd, cd) && sprite_bit(ram[i + rr], cc) && target(x0, y0, rr, cc)
                == p;
        lemma_target_injective(x0, y0, rr, cc, rd, cd);
        assert(false);
    }
}

/// Nothing is handled at the very start of a draw.
pub proof fn lemma_covered_none_at(ram: Seq<u8>, i: int, x0: int, y0: int, p: int)
    ensures
        !covered_upto(ram, i, x0, y0, 0, 0, p),
{
    if covered_upto(ram, i, x0, y0, 0, 0, p) {
        let (rr, cc) = choose|rr: int, cc: int|
            processed(rr, cc, 0, 0) && sprite_bit(ram[i + rr], cc) && target(x0, y0, rr, cc) == p;
        assert(false);
    }
}

/// Nothing has hit a lit pixel at the very start of a draw.
pub proof fn lemma_hit_none(scr0: Seq<bool>, ram: Seq<u8>, i: int, x0: int, y0: int)
    ensures
        !hit_upto(scr0, ram, i, x0, y0, 0, 0),
{
    if hit_upto(scr0, ram, i, x0, y0, 0, 0) {
        let (rr, cc) = choose|rr: int, cc: int|
            processed(rr, cc, 0, 0) && sprite_bit(ram[i + rr], cc) && scr0[target(x0, y0, rr, cc)];
        assert(false);
    }
}

/// Handling one more column extends the covered pixels by exactly that cell's
/// toggle, if its bit is set.
pub proof fn lemma_covered_step_at(
    ram: Seq<u8>,
    i: int,
    x0: int,
    y0: int,
    rd: int,
    cd: int,
    p: int,
)
    requires
        0 <= rd,
        0 <= cd < 8,
    ensures
        covered_upto(ram, i, x0, y0, rd, cd + 1, p) <==> (covered_upto(ram, i, x0, y0, rd, cd, p)
            || (sprite_bit(ram[i + rd], cd) && target(x0, y0, rd, cd) == p)),
{
    if covered_upto(ram, i, x0, y0, rd, cd + 1, p) {
        let (rr, cc) = choose|rr: int, cc: int|
            processed(rr, cc, rd, cd + 1) && sprite_bit(ram[i + rr], cc) && target(x0, y0, rr, cc)
                == p;
        if rr == rd && cc == cd {
        } else {
            assert(processed(rr, cc, rd, cd));
            assert(covered_upto(ram, i, x0, y0, rd, cd, p));
        }
    }
    if covered_upto(ram, i, x0, y0, rd, cd, p) {
        let (rr, cc) = choose|rr: int, cc: int|
            processed(rr, cc, rd, cd) && sprite_bit(ram[i + rr], cc) && target(x0, y0, rr, cc)
                == p;
        assert(processed(rr, cc, rd, cd + 1));
        assert(covered_upto(ram, i, x0, y0, rd, cd + 1, p));
    }
    if sprite_bit(ram[i + rd], cd) && target(x0, y0, rd, cd) == p {
        assert(processed(rd, cd, rd, cd + 1));
        assert(covered_upto(ram, i, x0, y0, rd, cd + 1, p));
    }
}

/// Handling one more column extends the hits by exactly that cell, if its bit
/// is set and it lands on a lit pre-draw pixel.
pub proof fn lemma_hit_step(scr0: Seq<bool>, ram: Seq<u8>, i: int, x0: int, y0: int, rd: int, cd: int)
    requires
        0 <= rd,
        0 <= cd < 8,
    ensures
        hit_upto(scr0, ram, i, x0, y0, rd, cd + 1) <==> (hit_upto(scr0, ram, i, x0, y0, rd, cd)
            || (sprite_bit(ram[i + rd], cd) && scr0[target(x0, y0, rd, cd)])),
{
    if hit_upto(scr0, ram, i, x0, y0, rd, cd + 1) {
        let (rr, cc) = choose|rr: int, cc: int|
            processed(rr, cc, rd, cd + 1) && sprite_bit(ram[i + rr], cc) && scr0[target(
                x0,
                y0,
                rr,
                cc,
            )];
        if rr == rd && cc == cd {
        } else {
            assert(processed(rr, cc, rd, cd));
            assert(hit_upto(scr0, ram, i, x0, y0, rd, cd));
        }
    }
    if hit_upto(scr0, ram, i, x0, y0, rd, cd) {
        let (rr, cc) = choose|rr: int, cc: int|
            processed(rr, cc, rd, cd) && sprite_bit(ram[i + rr], cc) && scr0[target(
                x0,
                y0,
                rr,
                cc,
            )];
        assert(processed(rr, cc, rd, cd + 1));
        assert(hit_upto(scr0, ram, i, x0, y0, rd, cd + 1));
    }
    if sprite_bit(ram[i + rd], cd) && scr0[target(x0, y0, rd, cd)] {
        assert(processed(rd, cd, rd, cd + 1));
        assert(hit_upto(scr0, ram, i, x0, y0, rd, cd + 1));
    }
}

/// A row handled to its end is the same set of cells as the next row handled
/// to its start.
pub proof fn lemma_covered_row_at(ram: Seq<u8>, i: int, x0: int, y0: int, rd: int, p: int)
    requires
        0 <= rd,
    ensures
        covered_upto(ram, i, x0, y0, rd, 8, p) <==> covered_upto(ram, i, x0, y0, rd + 1, 0, p),
{
    if covered_upto(ram, i, x0, y0, rd, 8, p) {
        let (rr, cc) = choose|rr: int, cc: int|
            processed(rr, cc, rd, 8) && sprite_bit(ram[i + rr], cc) && target(x0, y0, rr, cc) == p;
        assert(processed(rr, cc, rd + 1, 0));
        assert(covered_upto(ram, i, x0, y0, rd + 1, 0, p));
    }
    if covered_upto(ram, i, x0, y0, rd + 1, 0, p) {
        let (rr, cc) = choose|rr: int, cc: int|
            processed(rr, cc, rd + 1, 0) && sprite_bit(ram[i + rr], cc) && target(x0, y0, rr, cc)
                == p;
        assert(processed(rr, cc, rd, 8));
        assert(covered_upto(ram, i, x0, y0, rd, 8, p));
    }
}

/// The hit set at a row's end is the hit set at the next row's start.
pub proof fn lemma_hit_row(scr0: Seq<bool>, ram: Seq<u8>, i: int, x0: int, y0: int, rd: int)
    requires
        0 <= rd,
    ensures
        hit_upto(scr0, ram, i, x0, y0, rd, 8) <==> hit_upto(scr0, ram, i, x0, y0, rd + 1, 0),
{
    if hit_upto(scr0, ram, i, x0, y0, rd, 8) {
        let (rr, cc) = choose|rr: int, cc: int|
            processed(rr, cc, rd, 8) && sprite_bit(ram[i + rr], cc) && scr0[target(
                x0,
                y0,
                rr,
                cc,
            )];
        assert(processed(rr, cc, rd + 1, 0));
        assert(hit_upto(scr0, ram, i, x0, y0, rd + 1, 0));
    }
    if hit_upto(scr0, ram, i, x0, y0, rd + 1, 0) {
        let (rr, cc) = choose|rr: int, cc: int|
            processed(rr, cc, rd + 1, 0) && sprite_bit(ram[i + rr], cc) && scr0[target(
                x0,
                y0,
                rr,
                cc,
            )];
        assert(processed(rr, cc, rd, 8));
        assert(hit_upto(scr0, ram, i, x0, y0, rd, 8));
    }
}

} // verus!
