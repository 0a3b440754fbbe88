//! The arithmetic and drawing laws the instruction set keeps.  Each is a
//! public proof function: its statement is part of the library's interface,
//! and the handlers' contracts are written over the same spec functions, so
//! the laws speak about exactly what the engine does.

use vstd::arithmetic::div_mod::lemma_mod_add_multiples_vanish;
use vstd::prelude::*;

use crate::screen::covered_upto;
use crate::screen::draw_collision;
use crate::screen::draw_screen;
use crate::screen::hit_upto;
use crate::screen::lemma_target_range;
use crate::screen::processed;
use crate::screen::sprite_bit;
use crate::screen::target;
use crate::step::add_carry;
use crate::step::add_val;
use crate::step::lshift_bit;
use crate::step::lshift_val;
use crate::step::rshift_bit;
use crate::step::rshift_val;
use crate::step::sub_noborrow;
use crate::step::sub_val;
use crate::SCREEN_HEIGHT;
use crate::SCREEN_WIDTH;

verus! {

/// Addition with carry: for all 8-bit values, the register result is the sum
/// modulo 256, and the flag is 1 exactly when the unsigned sum reaches 256.
pub proof fn lemma_add_with_carry(a: u8, b: u8)
    ensures
        add_val(a, b) == (a + b) % 256,
        add_carry(a, b) == 1 <==> a + b >= 256,
        add_carry(a, b) == 0 <==> a + b < 256,
{
}

/// Subtraction with the no-borrow flag: for all 8-bit values, the register
/// result is the difference modulo 256, and the flag is 1 exactly when the
/// minuend is at least the subtrahend.  In particular the result is the
/// plain difference whenever no borrow occurred.
pub proof fn lemma_sub_no_borrow(a: u8, b: u8)
    ensures
        sub_val(a, b) == (a - b) % 256,
        sub_noborrow(a, b) == 1 <==> a >= b,
        sub_noborrow(a, b) == 0 <==> a < b,
        a >= b ==> sub_val(a, b) == a - b,
        a < b ==> sub_val(a, b) == a - b + 256,
{
    lemma_mod_add_multiples_vanish(a - b, 256);
}

/// Shifting left and then right restores a value's low seven bits, and the
/// bit captured in the flag at the first step is exactly the missing high
/// bit; in the other order the low bit is captured and the rest restored.
pub proof fn lemma_shift_round_trip(v: u8)
    ensures
        rshift_val(lshift_val(v)) == v % 128,
        v == (v % 128) + 128 * lshift_bit(v),
        lshift_val(rshift_val(v)) == v - rshift_bit(v),
        v == lshift_val(rshift_val(v)) + rshift_bit(v),
{
    if v < 128 {
        assert((2 * v) % 256 == 2 * v);
    } else {
        assert((2 * v) % 256 == 2 * v - 256) by {
            lemma_mod_add_multiples_vanish(2 * v - 256, 256);
        }
    }
    assert(2 * (v / 2) == v - (v % 2));
}

/// Drawing the same sprite at the same position twice in succession returns
/// the framebuffer to exactly its pre-draw state: XOR drawing is its own
/// undo.
pub proof fn lemma_draw_twice_restores(
    scr0: Seq<bool>,
    ram: Seq<u8>,
    i: int,
    x0: int,
    y0: int,
    n: int,
)
    ensures
        draw_screen(draw_screen(scr0, ram, i, x0, y0, n), ram, i, x0, y0, n) == scr0,
{
    let s1 = draw_screen(scr0, ram, i, x0, y0, n);
    let s2 = draw_screen(s1, ram, i, x0, y0, n);
    assert(s2 =~= scr0);
}

/// Against a blank region the first draw of a sprite reports no collision,
/// and — if the sprite has any set bit at all — drawing it again at the same
/// position reports one: the second draw only erases.
pub proof fn lemma_double_draw_flags(
    scr0: Seq<bool>,
    ram: Seq<u8>,
    i: int,
    x0: int,
    y0: int,
    n: int,
)
    requires
        scr0.len() == SCREEN_WIDTH * SCREEN_HEIGHT,
        0 <= x0,
        0 <= y0,
        forall|r: int, c: int|
            0 <= r < n && 0 <= c < 8 && sprite_bit(ram[i + r], c) ==> !scr0[#[trigger] target(
                x0,
                y0,
                r,
                c,
            )],
    ensures
        !draw_collision(scr0, ram, i, x0, y0, n),
        (exists|r: int, c: int| 0 <= r < n && 0 <= c < 8 && #[trigger] sprite_bit(ram[i + r], c))
            ==> draw_collision(draw_screen(scr0, ram, i, x0, y0, n), ram, i, x0, y0, n),
{
    if draw_collision(scr0, ram, i, x0, y0, n) {
        let (rr, cc) = choose|rr: int, cc: int|
            processed(rr, cc, n, 0) && sprite_bit(ram[i + rr], cc) && scr0[target(x0, y0, rr, cc)];
        assert(!scr0[target(x0, y0, rr, cc)]);
        assert(false);
    }
    if exists|r: int, c: int| 0 <= r < n && 0 <= c < 8 && #[trigger] sprite_bit(ram[i + r], c) {
        let (r, c) = choose|r: int, c: int|
            0 <= r < n && 0 <= c < 8 && #[trigger] sprite_bit(ram[i + r], c);
        let s1 = draw_screen(scr0, ram, i, x0, y0, n);
        let t = target(x0, y0, r, c);
        lemma_target_range(x0, y0, r, c);
        assert(processed(r, c, n, 0));
        assert(covered_upto(ram, i, x0, y0, n, 0, t));
        assert(s1[t]);
        assert(hit_upto(s1, ram, i, x0, y0, n, 0));
    }
}

/// If every cell of one sprite placement toggles the same pixel as the same
/// cell of another placement, the two draws agree completely.
proof fn lemma_draw_congruent(
    scr0: Seq<bool>,
    ram: Seq<u8>,
    i: int,
    xa: int,
    ya: int,
    xb: int,
    yb: int,
    n: int,
)
    requires
        forall|rr: int, cc: int| #[trigger]
            target(xa, ya, rr, cc) == target(xb, yb, rr, cc),
    ensures
        draw_screen(scr0, ram, i, xa, ya, n) == draw_screen(scr0, ram, i, xb, yb, n),
        draw_collision(scr0, ram, i, xa, ya, n) == draw_collision(scr0, ram, i, xb, yb, n),
{
    assert forall|p: int|
        covered_upto(ram, i, xa, ya, n, 0, p) == covered_upto(ram, i, xb, yb, n, 0, p) by {
        if covered_upto(ram, i, xa, ya, n, 0, p) {
            let (rr, cc) = choose|rr: int, cc: int|
                processed(rr, cc, n, 0) && sprite_bit(ram[i + rr], cc) && target(xa, ya, rr, cc)
                    == p;
            assert(target(xb, yb, rr, cc) == p);
            assert(covered_upto(ram, i, xb, yb, n, 0, p));
        }
        if covered_upto(ram, i, xb, yb, n, 0, p) {
            let (rr, cc) = choose|rr: int, cc: int|
                processed(rr, cc, n, 0) && sprite_bit(ram[i + rr], cc) && target(xb, yb, rr, cc)
                    == p;
            assert(target(xa, ya, rr, cc) == p);
            assert(covered_upto(ram, i, xa, ya, n, 0, p));
        }
    }
    assert(draw_screen(scr0, ram, i, xa, ya, n) =~= draw_screen(scr0, ram, i, xb, yb, n));
    if hit_upto(scr0, ram, i, xa, ya, n, 0) {
        let (rr, cc) = choose|rr: int, cc: int|
            processed(rr, cc, n, 0) && sprite_bit(ram[i + rr], cc) && scr0[target(xa, ya, rr, cc)];
        assert(scr0[target(xb, yb, rr, cc)]);
        assert(hit_upto(scr0, ram, i, xb, yb, n, 0));
    }
    if hit_upto(scr0, ram, i, xb, yb, n, 0) {
        let (rr, cc) = choose|rr: int, cc: int|
            processed(rr, cc, n, 0) && sprite_bit(ram[i + rr], cc) && scr0[target(xb, yb, rr, cc)];
        assert(scr0[target(xa, ya, rr, cc)]);
        assert(hit_upto(scr0, ram, i, xa, ya, n, 0));
    }
}

/// Sprite coordinates wrap: moving the origin one full screen width to the
/// right, or one full screen height down, changes nothing — neither the
/// pixels toggled nor the collision flag.  A sprite that starts at the last
/// column or row continues at the first.
pub proof fn lemma_draw_wraps(scr0: Seq<bool>, ram: Seq<u8>, i: int, x0: int, y0: int, n: int)
    requires
        0 <= x0,
        0 <= y0,
    ensures
        draw_screen(scr0, ram, i, x0 + SCREEN_WIDTH, y0, n) == draw_screen(scr0, ram, i, x0, y0, n),
        draw_screen(scr0, ram, i, x0, y0 + SCREEN_HEIGHT, n) == draw_screen(
            scr0,
            ram,
            i,
            x0,
            y0,
            n,
        ),
        draw_collision(scr0, ram, i, x0 + SCREEN_WIDTH, y0, n) == draw_collision(
            scr0,
            ram,
            i,
            x0,
            y0,
            n,
        ),
        draw_collision(scr0, ram, i, x0, y0 + SCREEN_HEIGHT, n) == draw_collision(
            scr0,
            ram,
            i,
            x0,
            y0,
            n,
        ),
{
    assert forall|rr: int, cc: int| #[trigger]
        target(x0 + SCREEN_WIDTH, y0, rr, cc) == target(x0, y0, rr, cc) by {
        lemma_mod_add_multiples_vanish(x0 + cc, SCREEN_WIDTH as int);
        assert(x0 + SCREEN_WIDTH + cc == SCREEN_WIDTH + (x0 + cc));
    }
    lemma_draw_congruent(scr0, ram, i, x0 + SCREEN_WIDTH as int, y0, x0, y0, n);
    assert forall|rr: int, cc: int| #[trigger]
        target(x0, y0 + SCREEN_HEIGHT, rr, cc) == target(x0, y0, rr, cc) by {
        lemma_mod_add_multiples_vanish(y0 + rr, SCREEN_HEIGHT as int);
        assert(y0 + SCREEN_HEIGHT + rr == SCREEN_HEIGHT + (y0 + rr));
    }
    lemma_draw_congruent(scr0, ram, i, x0, y0 + SCREEN_HEIGHT as int, x0, y0, n);
}

} // verus!

