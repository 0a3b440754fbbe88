//! The instruction handlers: one executable method per instruction, each
//! proved to produce exactly the machine value that [`crate::step::spec_exec`]
//! assigns to its instruction.

use vstd::arithmetic::div_mod::lemma_mod_add_multiples_vanish;
use vstd::pervasive::VecAdditionalExecFns;
use vstd::prelude::*;

use crate::emulator::blank_screen;
use crate::emulator::Emulator;
use crate::emulator::Fault;
use crate::emulator::StateV;
use crate::screen::covered_upto;
use crate::screen::draw_collision;
use crate::screen::draw_screen;
use crate::screen::hit_upto;
use crate::screen::lemma_covered_none_at;
use crate::screen::lemma_covered_row_at;
use crate::screen::lemma_covered_step_at;
use crate::screen::lemma_fresh_target;
use crate::screen::lemma_hit_none;
use crate::screen::lemma_hit_row;
use crate::screen::lemma_hit_step;
use crate::screen::lemma_target_range;
use crate::screen::sprite_bit;
use crate::screen::target;
use crate::step::add_carry;
use crate::step::add_val;
use crate::step::advance;
use crate::step::bcd_hundreds;
use crate::step::bcd_ones;
use crate::step::bcd_tens;
use crate::step::first_pressed;
use crate::step::first_pressed_from;
use crate::step::lshift_bit;
use crate::step::lshift_val;
use crate::step::rshift_bit;
use crate::step::rshift_val;
use crate::step::sub_noborrow;
use crate::step::sub_val;
use crate::NUM_KEYS;
use crate::RAM_SIZE;
use crate::SCREEN_HEIGHT;
use crate::SCREEN_WIDTH;

verus! {

/// If no key below `k` is pressed, the scan of the whole pad gives the same
/// answer as the scan that starts at `k`.
proof fn lemma_first_pressed_skip(keys: Seq<bool>, k: int)
    requires
        0 <= k <= NUM_KEYS,
        forall|j: int| 0 <= j < k ==> !keys[j],
    ensures
        first_pressed(keys) == first_pressed_from(keys, k),
    decreases k,
{
    if k > 0 {
        lemma_first_pressed_skip(keys, k - 1);
    }
}

impl Emulator {
    /// 00E0: set every pixel dark; nothing else changes.
    pub(crate) fn clear_screen(&mut self)
        requires
            old(self).wf(),
        ensures
            final(self).wf(),
            final(self)@ == (StateV { screen: blank_screen(), ..old(self)@ }),
    {
        let mut p: usize = 0;
        while p < SCREEN_WIDTH * SCREEN_HEIGHT
            invariant
                old(self).wf(),
                p <= SCREEN_WIDTH * SCREEN_HEIGHT,
                self.screen@.len() == SCREEN_WIDTH * SCREEN_HEIGHT,
                self.pc == old(self).pc,
                self.ram@ == old(self).ram@,
                self.v_reg@ == old(self).v_reg@,
                self.i_reg == old(self).i_reg,
                self.stack_ptr == old(self).stack_ptr,
                self.stack@ == old(self).stack@,
                self.keys@ == old(self).keys@,
                self.delay_timer == old(self).delay_timer,
                self.sound_timer == old(self).sound_timer,
                forall|q: int| 0 <= q < p ==> !self.screen@[q],
            decreases SCREEN_WIDTH * SCREEN_HEIGHT - p,
        {
            self.screen.set(p, false);
            p = p + 1;
        }
        proof {
            assert(self@.screen =~= blank_screen());
            assert(self@ =~= (StateV { screen: blank_screen(), ..old(self)@ }));
        }
    }

    /// 00EE: return from a subroutine by popping the return address into the
    /// program counter.
    pub(crate) fn end_subroutine(&mut self) -> (r: Result<(), Fault>)
        requires
            old(self).wf(),
        ensures
            final(self).wf(),
            match r {
                Ok(()) => old(self)@.sp > 0 && final(self)@ == (StateV {
                    sp: (old(self)@.sp - 1) as u16,
                    pc: old(self)@.stack[old(self)@.sp - 1],
                    ..old(self)@
                }),
                Err(f) => f == Fault::StackUnderflow && old(self)@.sp == 0
                    && final(self)@ == old(self)@,
            },
    {
        let ret_addr = match self.pop() {
            Ok(a) => a,
            Err(f) => {
                return Err(f);
            },
        };
        self.pc = ret_addr;
        Ok(())
    }

    /// 1NNN: jump.
    pub(crate) fn jump(&mut self, nnn: u16)
        requires
            old(self).wf(),
        ensures
            final(self).wf(),
            final(self)@ == (StateV { pc: nnn, ..old(self)@ }),
    {
        self.pc = nnn;
    }

    /// 2NNN: push the address of the next instruction, then jump to the
    /// subroutine.
    pub(crate) fn call_subroutine(&mut self, nnn: u16) -> (r: Result<(), Fault>)
        requires
            old(self).wf(),
        ensures
            final(self).wf(),
            match r {
                Ok(()) => old(self)@.sp < crate::STACK_SIZE && final(self)@ == (StateV {
                    stack: old(self)@.stack.update(old(self)@.sp as int, old(self)@.pc),
                    sp: (old(self)@.sp + 1) as u16,
                    pc: nnn,
                    ..old(self)@
                }),
                Err(f) => f == Fault::StackOverflow && old(self)@.sp == crate::STACK_SIZE
                    && final(self)@ == old(self)@,
            },
    {
        let here = self.pc;
        match self.push(here) {
            Ok(()) => (),
            Err(f) => {
                return Err(f);
            },
        }
        self.pc = nnn;
        Ok(())
    }

    /// 3XNN: skip the next instruction when VX equals the immediate.
    pub(crate) fn skip_if_vx_equals_nn(&mut self, x: u16, nn: u8)
        requires
            old(self).wf(),
            x < 16,
            old(self)@.pc + 2 < 0x10000,
        ensures
            final(self).wf(),
            final(self)@ == (if old(self)@.regs[x as int] == nn {
                advance(old(self)@)
            } else {
                old(self)@
            }),
    {
        if self.v_reg[x as usize] == nn {
            self.pc = self.pc + 2;
        }
    }

    /// 4XNN: skip the next instruction when VX differs from the immediate.
    pub(crate) fn skip_if_vx_not_equals_nn(&mut self, x: u16, nn: u8)
        requires
            old(self).wf(),
            x < 16,
            old(self)@.pc + 2 < 0x10000,
        ensures
            final(self).wf(),
            final(self)@ == (if old(self)@.regs[x as int] != nn {
                advance(old(self)@)
            } else {
                old(self)@
            }),
    {
        if self.v_reg[x as usize] != nn {
            self.pc = self.pc + 2;
        }
    }

    /// 5XY0: skip the next instruction when VX equals VY.
    pub(crate) fn skip_if_vx_equals_vy(&mut self, x: u16, y: u16)
        requires
            old(self).wf(),
            x < 16,
            y < 16,
            old(self)@.pc + 2 < 0x10000,
        ensures
            final(self).wf(),
            final(self)@ == (if old(self)@.regs[x as int] == old(self)@.regs[y as int] {
                advance(old(self)@)
            } else {
                old(self)@
            }),
    {
        if self.v_reg[x as usize] == self.v_reg[y as usize] {
            self.pc = self.pc + 2;
        }
    }

    /// 9XY0: skip the next instruction when VX differs from VY.
    pub(crate) fn skip_if_vx_not_equals_vy(&mut self, x: u16, y: u16)
        requires
            old(self).wf(),
            x < 16,
            y < 16,
            old(self)@.pc + 2 < 0x10000,
        ensures
            final(self).wf(),
            final(self)@ == (if old(self)@.regs[x as int] != old(self)@.regs[y as int] {
                advance(old(self)@)
            } else {
                old(self)@
            }),
    {
        if self.v_reg[x as usize] != self.v_reg[y as usize] {
            self.pc = self.pc + 2;
        }
    }

    /// 6XNN: VX = NN.
    pub(crate) fn assign_nn_to_vx(&mut self, x: u16, nn: u8)
        requires
            old(self).wf(),
            x < 16,
        ensures
            final(self).wf(),
            final(self)@ == (StateV { regs: old(self)@.regs.update(x as int, nn), ..old(self)@ }),
    {
        self.v_reg.set(x as usize, nn);
    }

    /// 7XNN: VX += NN, wrapping modulo 256; the flag register is untouched.
    pub(crate) fn add_nn_to_vx(&mut self, x: u16, nn: u8)
        requires
            old(self).wf(),
            x < 16,
        ensures
            final(self).wf(),
            final(self)@ == (StateV {
                regs: old(self)@.regs.update(x as int, add_val(old(self)@.regs[x as int], nn)),
                ..old(self)@
            }),
    {
        let sum: u16 = self.v_reg[x as usize] as u16 + nn as u16;
        self.v_reg.set(x as usize, (sum % 256) as u8);
    }

    /// 8XY0: VX = VY.
    pub(crate) fn assign_vx_to_vy(&mut self, x: u16, y: u16)
        requires
            old(self).wf(),
            x < 16,
            y < 16,
        ensures
            final(self).wf(),
            final(self)@ == (StateV {
                regs: old(self)@.regs.update(x as int, old(self)@.regs[y as int]),
                ..old(self)@
            }),
    {
        let vy = self.v_reg[y as usize];
        self.v_reg.set(x as usize, vy);
    }

    /// 8XY1: VX |= VY.
    pub(crate) fn vx_or_vy(&mut self, x: u16, y: u16)
        requires
            old(self).wf(),
            x < 16,
            y < 16,
        ensures
            final(self).wf(),
            final(self)@ == (StateV {
                regs: old(self)@.regs.update(
                    x as int,
                    old(self)@.regs[x as int] | old(self)@.regs[y as int],
                ),
                ..old(self)@
            }),
    {
        let v = self.v_reg[x as usize] | self.v_reg[y as usize];
        self.v_reg.set(x as usize, v);
    }

    /// 8XY2: VX &= VY.
    pub(crate) fn vx_and_vy(&mut self, x: u16, y: u16)
        requires
            old(self).wf(),
            x < 16,
            y < 16,
        ensures
            final(self).wf(),
            final(self)@ == (StateV {
                regs: old(self)@.regs.update(
                    x as int,
                    old(self)@.regs[x as int] & old(self)@.regs[y as int],
                ),
                ..old(self)@
            }),
    {
        let v = self.v_reg[x as usize] & self.v_reg[y as usize];
        self.v_reg.set(x as usize, v);
    }

    /// 8XY3: VX ^= VY.
    pub(crate) fn vx_xor_vy(&mut self, x: u16, y: u16)
        requires
            old(self).wf(),
            x < 16,
            y < 16,
        ensures
            final(self).wf(),
            final(self)@ == (StateV {
                regs: old(self)@.regs.update(
                    x as int,
                    old(self)@.regs[x as int] ^ old(self)@.regs[y as int],
                ),
                ..old(self)@
            }),
    {
        let v = self.v_reg[x as usize] ^ self.v_reg[y as usize];
        self.v_reg.set(x as usize, v);
    }

    /// 8XY4: VX += VY, wrapping modulo 256; VF becomes 1 exactly when the
    /// unsigned sum overflowed, else 0.
    pub(crate) fn add_vy_to_vx(&mut self, x: u16, y: u16)
        requires
            old(self).wf(),
            x < 16,
            y < 16,
        ensures
            final(self).wf(),
            final(self)@ == (StateV {
                regs: old(self)@.regs.update(
                    x as int,
                    add_val(old(self)@.regs[x as int], old(self)@.regs[y as int]),
                ).update(0xF, add_carry(old(self)@.regs[x as int], old(self)@.regs[y as int])),
                ..old(self)@
            }),
    {
        let sum: u16 = self.v_reg[x as usize] as u16 + self.v_reg[y as usize] as u16;
        let vf: u8 = if sum >= 256 {
            1
        } else {
            0
        };
        self.v_reg.set(x as usize, (sum % 256) as u8);
        self.v_reg.set(0xF, vf);
    }

    /// 8XY5: VX -= VY, wrapping modulo 256; VF becomes 1 exactly when no
    /// borrow occurred, that is when VX was at least VY.
    pub(crate) fn sub_vy_from_vx(&mut self, x: u16, y: u16)
        requires
            old(self).wf(),
            x < 16,
            y < 16,
        ensures
            final(self).wf(),
            final(self)@ == (StateV {
                regs: old(self)@.regs.update(
                    x as int,
                    sub_val(old(self)@.regs[x as int], old(self)@.regs[y as int]),
                ).update(0xF, sub_noborrow(old(self)@.regs[x as int], old(self)@.regs[y as int])),
                ..old(self)@
            }),
    {
        let vx = self.v_reg[x as usize];
        let vy = self.v_reg[y as usize];
        let diff: u16 = (vx as u16 + 256 - vy as u16) % 256;
        let vf: u8 = if vx >= vy {
            1
        } else {
            0
        };
        proof {
            lemma_mod_add_multiples_vanish(vx - vy, 256);
        }
        self.v_reg.set(x as usize, diff as u8);
        self.v_reg.set(0xF, vf);
    }

    /// 8XY7: VY = VX - VY, wrapping modulo 256; VF becomes 1 exactly when no
    /// borrow occurred, that is when VX was at least VY.
    pub(crate) fn sub_vx_from_vy(&mut self, x: u16, y: u16)
        requires
            old(self).wf(),
            x < 16,
            y < 16,
        ensures
            final(self).wf(),
            final(self)@ == (StateV {
                regs: old(self)@.regs.update(
                    y as int,
                    sub_val(old(self)@.regs[x as int], old(self)@.regs[y as int]),
                ).update(0xF, sub_noborrow(old(self)@.regs[x as int], old(self)@.regs[y as int])),
                ..old(self)@
            }),
    {
        let vx = self.v_reg[x as usize];
        let vy = self.v_reg[y as usize];
        let diff: u16 = (vx as u16 + 256 - vy as u16) % 256;
        let vf: u8 = if vx >= vy {
            1
        } else {
            0
        };
        proof {
            lemma_mod_add_multiples_vanish(vx - vy, 256);
        }
        self.v_reg.set(y as usize, diff as u8);
        self.v_reg.set(0xF, vf);
    }

    /// 8XYE: VX <<= 1, truncated to 8 bits; VF receives the bit shifted out,
    /// the old most significant bit.
    pub(crate) fn lshift_vx(&mut self, x: u16)
        requires
            old(self).wf(),
            x < 16,
        ensures
            final(self).wf(),
            final(self)@ == (StateV {
                regs: old(self)@.regs.update(x as int, lshift_val(old(self)@.regs[x as int])).update(
                    0xF,
                    lshift_bit(old(self)@.regs[x as int]),
                ),
                ..old(self)@
            }),
    {
        let v = self.v_reg[x as usize];
        let msb: u8 = v / 128;
        let shifted: u8 = ((v as u16 * 2) % 256) as u8;
        self.v_reg.set(x as usize, shifted);
        self.v_reg.set(0xF, msb);
    }

    /// 8XY6: VX >>= 1; VF receives the bit shifted out, the old least
    /// significant bit.
    pub(crate) fn rshift_vx(&mut self, x: u16)
        requires
            old(self).wf(),
            x < 16,
        ensures
            final(self).wf(),
            final(self)@ == (StateV {
                regs: old(self)@.regs.update(x as int, rshift_val(old(self)@.regs[x as int])).update(
                    0xF,
                    rshift_bit(old(self)@.regs[x as int]),
                ),
                ..old(self)@
            }),
    {
        let v = self.v_reg[x as usize];
        let lsb: u8 = v % 2;
        self.v_reg.set(x as usize, v / 2);
        self.v_reg.set(0xF, lsb);
    }

    /// ANNN: I = NNN.
    pub(crate) fn assign_nnn_to_ireg(&mut self, nnn: u16)
        requires
            old(self).wf(),
        ensures
            final(self).wf(),
            final(self)@ == (StateV { i_reg: nnn, ..old(self)@ }),
    {
        self.i_reg = nnn;
    }

    /// BNNN: jump to V0 + NNN.
    pub(crate) fn jump_to_offset(&mut self, nnn: u16)
        requires
            old(self).wf(),
            nnn < 0x1000,
        ensures
            final(self).wf(),
            final(self)@ == (StateV { pc: (old(self)@.regs[0] + nnn) as u16, ..old(self)@ }),
    {
        self.pc = (self.v_reg[0] as u16) + nnn;
    }

    /// CXNN: VX = `rnd` AND NN, for the externally drawn byte `rnd`.
    pub(crate) fn assign_rand_and_nn_to_vx(&mut self, x: u16, nn: u8, rnd: u8)
        requires
            old(self).wf(),
            x < 16,
        ensures
            final(self).wf(),
            final(self)@ == (StateV {
                regs: old(self)@.regs.update(x as int, rnd & nn),
                ..old(self)@
            }),
    {
        self.v_reg.set(x as usize, rnd & nn);
    }

    /// EX9E: skip the next instruction when the key named by the low nibble
    /// of VX is pressed.
    pub(crate) fn skip_if_key_pressed(&mut self, x: u16)
        requires
            old(self).wf(),
            x < 16,
            old(self)@.pc + 2 < 0x10000,
        ensures
            final(self).wf(),
            final(self)@ == (if old(self)@.keys[(old(self)@.regs[x as int] % 16) as int] {
                advance(old(self)@)
            } else {
                old(self)@
            }),
    {
        let key = self.keys[(self.v_reg[x as usize] % 16) as usize];
        if key {
            self.pc = self.pc + 2;
        }
    }

    /// EXA1: skip the next instruction when the key named by the low nibble
    /// of VX is not pressed.
    pub(crate) fn skip_if_key_not_pressed(&mut self, x: u16)
        requires
            old(self).wf(),
            x < 16,
            old(self)@.pc + 2 < 0x10000,
        ensures
            final(self).wf(),
            final(self)@ == (if !old(self)@.keys[(old(self)@.regs[x as int] % 16) as int] {
                advance(old(self)@)
            } else {
                old(self)@
            }),
    {
        let key = self.keys[(self.v_reg[x as usize] % 16) as usize];
        if !key {
            self.pc = self.pc + 2;
        }
    }

    /// FX07: VX = delay timer.
    pub(crate) fn assign_dt_to_vx(&mut self, x: u16)
        requires
            old(self).wf(),
            x < 16,
        ensures
            final(self).wf(),
            final(self)@ == (StateV {
                regs: old(self)@.regs.update(x as int, old(self)@.delay),
                ..old(self)@
            }),
    {
        let dt = self.delay_timer;
        self.v_reg.set(x as usize, dt);
    }

    /// FX0A: scan the pad in index order; the first pressed key's index goes
    /// to VX.  With no key pressed, step the program counter back so the same
    /// instruction runs again next tick: a busy poll, not a suspension.
    pub(crate) fn wait_for_key_press(&mut self, x: u16)
        requires
            old(self).wf(),
            x < 16,
            old(self)@.pc >= 2,
        ensures
            final(self).wf(),
            final(self)@ == (match first_pressed(old(self)@.keys) {
                Some(k) => StateV { regs: old(self)@.regs.update(x as int, k), ..old(self)@ },
                None => StateV { pc: (old(self)@.pc - 2) as u16, ..old(self)@ },
            }),
    {
        let mut i: usize = 0;
        while i < NUM_KEYS
            invariant
                old(self).wf(),
                i <= NUM_KEYS,
                x < 16,
                self@ == old(self)@,
                forall|j: int| 0 <= j < i ==> !self.keys@[j],
            decreases NUM_KEYS - i,
        {
            if self.keys[i] {
                proof {
                    lemma_first_pressed_skip(self@.keys, i as int);
                }
                self.v_reg.set(x as usize, i as u8);
                return ;
            }
            i = i + 1;
        }
        proof {
            lemma_first_pressed_skip(self@.keys, NUM_KEYS as int);
        }
        self.pc = self.pc - 2;
    }

    /// FX15: delay timer = VX.
    pub(crate) fn assign_vx_to_dt(&mut self, x: u16)
        requires
            old(self).wf(),
            x < 16,
        ensures
            final(self).wf(),
            final(self)@ == (StateV { delay: old(self)@.regs[x as int], ..old(self)@ }),
    {
        self.delay_timer = self.v_reg[x as usize];
    }

    /// FX18: sound timer = VX.
    pub(crate) fn assign_vx_to_st(&mut self, x: u16)
        requires
            old(self).wf(),
            x < 16,
        ensures
            final(self).wf(),
            final(self)@ == (StateV { sound: old(self)@.regs[x as int], ..old(self)@ }),
    {
        self.sound_timer = self.v_reg[x as usize];
    }

    /// FX1E: I += VX, wrapping in 16 bits.
    pub(crate) fn add_vx_to_ireg(&mut self, x: u16)
        requires
            old(self).wf(),
            x < 16,
        ensures
            final(self).wf(),
            final(self)@ == (StateV {
                i_reg: ((old(self)@.i_reg + old(self)@.regs[x as int]) % 0x10000) as u16,
                ..old(self)@
            }),
    {
        let vx = self.v_reg[x as usize] as u32;
        self.i_reg = ((self.i_reg as u32 + vx) % 0x10000) as u16;
    }

    /// FX29: I = address of the five-byte font glyph for the hex digit in the
    /// low nibble of VX.
    pub(crate) fn assign_font_addr_to_ireg(&mut self, x: u16)
        requires
            old(self).wf(),
            x < 16,
        ensures
            final(self).wf(),
            final(self)@ == (StateV {
                i_reg: (5 * (old(self)@.regs[x as int] % 16)) as u16,
                ..old(self)@
            }),
    {
        let c = (self.v_reg[x as usize] % 16) as u16;
        self.i_reg = 5 * c;
    }

    /// FX33: write the hundreds, tens and ones digits of VX to memory at I,
    /// I+1 and I+2.  An index register within three bytes of the end of
    /// memory is a fatal out-of-bounds store.
    pub(crate) fn assign_vx_bcd_to_ireg(&mut self, x: u16) -> (r: Result<(), Fault>)
        requires
            old(self).wf(),
            x < 16,
        ensures
            final(self).wf(),
            match r {
                Ok(()) => old(self)@.i_reg + 3 <= RAM_SIZE && final(self)@ == (StateV {
                    ram: old(self)@.ram.update(
                        old(self)@.i_reg as int,
                        bcd_hundreds(old(self)@.regs[x as int]),
                    ).update(old(self)@.i_reg + 1, bcd_tens(old(self)@.regs[x as int])).update(
                        old(self)@.i_reg + 2,
                        bcd_ones(old(self)@.regs[x as int]),
                    ),
                    ..old(self)@
                }),
                Err(f) => f == Fault::MemoryOutOfBounds && old(self)@.i_reg + 3 > RAM_SIZE
                    && final(self)@ == old(self)@,
            },
    {
        if self.i_reg as usize + 3 > RAM_SIZE {
            return Err(Fault::MemoryOutOfBounds);
        }
        let vx = self.v_reg[x as usize];
        let i = self.i_reg as usize;
        self.ram.set(i, vx / 100);
        self.ram.set(i + 1, (vx / 10) % 10);
        self.ram.set(i + 2, vx % 10);
        Ok(())
    }

    /// FX55: copy V0..=VX into memory at I..; VF is copied like any other
    /// register and is not changed.  A block that would run past the end of
    /// memory is a fatal out-of-bounds store.
    pub(crate) fn store_regs_into_ram(&mut self, x: u16) -> (r: Result<(), Fault>)
        requires
            old(self).wf(),
            x < 16,
        ensures
            final(self).wf(),
            match r {
                Ok(()) => old(self)@.i_reg + x + 1 <= RAM_SIZE && final(self)@ == (StateV {
                    ram: Seq::new(
                        old(self)@.ram.len(),
                        |a: int|
                            if old(self)@.i_reg <= a <= old(self)@.i_reg + x {
                                old(self)@.regs[a - old(self)@.i_reg]
                            } else {
                                old(self)@.ram[a]
                            },
                    ),
                    ..old(self)@
                }),
                Err(f) => f == Fault::MemoryOutOfBounds && old(self)@.i_reg + x + 1 > RAM_SIZE
                    && final(self)@ == old(self)@,
            },
    {
        if self.i_reg as usize + x as usize + 1 > RAM_SIZE {
            return Err(Fault::MemoryOutOfBounds);
        }
        let i = self.i_reg as usize;
        let xx = x as usize;
        let mut idx: usize = 0;
        while idx <= xx
            invariant
                old(self).wf(),
                xx < 16,
                idx <= xx + 1,
                i + xx + 1 <= RAM_SIZE,
                i == old(self)@.i_reg,
                self.ram@.len() == RAM_SIZE,
                self.pc == old(self).pc,
                self.screen@ == old(self).screen@,
                self.v_reg@ == old(self).v_reg@,
                self.i_reg == old(self).i_reg,
                self.stack_ptr == old(self).stack_ptr,
                self.stack@ == old(self).stack@,
                self.keys@ == old(self).keys@,
                self.delay_timer == old(self).delay_timer,
                self.sound_timer == old(self).sound_timer,
                forall|a: int|
                    0 <= a < RAM_SIZE ==> self.ram@[a] == (if i <= a < i + idx {
                        old(self)@.regs[a - i]
                    } else {
                        old(self)@.ram[a]
                    }),
            decreases xx + 1 - idx,
        {
            let b = self.v_reg[idx];
            self.ram.set(i + idx, b);
            idx = idx + 1;
        }
        proof {
            assert(self@.ram =~= Seq::new(
                old(self)@.ram.len(),
                |a: int|
                    if old(self)@.i_reg <= a <= old(self)@.i_reg + x {
                        old(self)@.regs[a - old(self)@.i_reg]
                    } else {
                        old(self)@.ram[a]
                    },
            ));
        }
        Ok(())
    }

    /// FX65: copy memory at I.. into V0..=VX; registers above VX, VF among
    /// them, keep their values.  A block that would run past the end of
    /// memory is a fatal out-of-bounds read.
    pub(crate) fn load_ram_into_regs(&mut self, x: u16) -> (r: Result<(), Fault>)
        requires
            old(self).wf(),
            x < 16,
        ensures
            final(self).wf(),
            match r {
                Ok(()) => old(self)@.i_reg + x + 1 <= RAM_SIZE && final(self)@ == (StateV {
                    regs: Seq::new(
                        old(self)@.regs.len(),
                        |k: int|
                            if k <= x {
                                old(self)@.ram[old(self)@.i_reg + k]
                            } else {
                                old(self)@.regs[k]
                            },
                    ),
                    ..old(self)@
                }),
                Err(f) => f == Fault::MemoryOutOfBounds && old(self)@.i_reg + x + 1 > RAM_SIZE
                    && final(self)@ == old(self)@,
            },
    {
        if self.i_reg as usize + x as usize + 1 > RAM_SIZE {
            return Err(Fault::MemoryOutOfBounds);
        }
        let i = self.i_reg as usize;
        let xx = x as usize;
        let mut idx: usize = 0;
        while idx <= xx
            invariant
                old(self).wf(),
                xx < 16,
                idx <= xx + 1,
                i + xx + 1 <= RAM_SIZE,
                i == old(self)@.i_reg,
                self.v_reg@.len() == 16,
                self.pc == old(self).pc,
                self.ram@ == old(self).ram@,
                self.screen@ == old(self).screen@,
                self.i_reg == old(self).i_reg,
                self.stack_ptr == old(self).stack_ptr,
                self.stack@ == old(self).stack@,
                self.keys@ == old(self).keys@,
                self.delay_timer == old(self).delay_timer,
                self.sound_timer == old(self).sound_timer,
                forall|k: int|
                    0 <= k < 16 ==> self.v_reg@[k] == (if k < idx {
                        old(self)@.ram[i + k]
                    } else {
                        old(self)@.regs[k]
                    }),
            decreases xx + 1 - idx,
        {
            let b = self.ram[i + idx];
            self.v_reg.set(idx, b);
            idx = idx + 1;
        }
        proof {
            assert(self@.regs =~= Seq::new(
                old(self)@.regs.len(),
                |k: int|
                    if k <= x {
                        old(self)@.ram[old(self)@.i_reg + k]
                    } else {
                        old(self)@.regs[k]
                    },
            ));
        }
        Ok(())
    }

    /// DXYN: draw the sprite of `n` rows stored at I, with its origin at
    /// (VX, VY).  Each set sprite bit toggles one pixel, both coordinates
    /// wrapped modulo the screen size; VF becomes 1 exactly when some toggle
    /// darkened a lit pixel.  A sprite read that would run past the end of
    /// memory is fatal and draws nothing.
    pub(crate) fn draw_sprite(&mut self, x: u16, y: u16, n: u16) -> (r: Result<(), Fault>)
        requires
            old(self).wf(),
            x < 16,
            y < 16,
            n < 16,
        ensures
            final(self).wf(),
            match r {
                Ok(()) => (n == 0 || old(self)@.i_reg + n <= RAM_SIZE) && final(self)@ == (StateV {
                    screen: draw_screen(
                        old(self)@.screen,
                        old(self)@.ram,
                        old(self)@.i_reg as int,
                        old(self)@.regs[x as int] as int,
                        old(self)@.regs[y as int] as int,
                        n as int,
                    ),
                    regs: old(self)@.regs.update(
                        0xF,
                        if draw_collision(
                            old(self)@.screen,
                            old(self)@.ram,
                            old(self)@.i_reg as int,
                            old(self)@.regs[x as int] as int,
                            old(self)@.regs[y as int] as int,
                            n as int,
                        ) {
                            1u8
                        } else {
                            0u8
                        },
                    ),
                    ..old(self)@
                }),
                Err(f) => f == Fault::MemoryOutOfBounds && n > 0 && old(self)@.i_reg + n > RAM_SIZE
                    && final(self)@ == old(self)@,
            },
    {
        if n > 0 && self.i_reg as usize + n as usize > RAM_SIZE {
            return Err(Fault::MemoryOutOfBounds);
        }
        let x0 = self.v_reg[x as usize] as usize;
        let y0 = self.v_reg[y as usize] as usize;
        let i = self.i_reg as usize;
        let rows = n as usize;
        let ghost scr0 = self.screen@;
        let ghost ramg = self.ram@;
        let ghost gi = i as int;
        let ghost gx = x0 as int;
        let ghost gy = y0 as int;
        proof {
            assert forall|p: int| 0 <= p < SCREEN_WIDTH * SCREEN_HEIGHT implies self.screen@[p] == (
            scr0[p] ^ covered_upto(ramg, gi, gx, gy, 0, 0, p)) by {
                lemma_covered_none_at(ramg, gi, gx, gy, p);
            }
            lemma_hit_none(scr0, ramg, gi, gx, gy);
        }
        let mut flipped = false;
        let mut row: usize = 0;
        while row < rows
            invariant
                old(self).wf(),
                x0 < 256,
                y0 < 256,
                rows < 16,
                row <= rows,
                rows > 0 ==> i + rows <= RAM_SIZE,
                gi == i as int,
                gx == x0 as int,
                gy == y0 as int,
                i == old(self)@.i_reg,
                x0 == old(self)@.regs[x as int],
                y0 == old(self)@.regs[y as int],
                x < 16,
                y < 16,
                scr0 == old(self)@.screen,
                ramg == old(self)@.ram,
                self.screen@.len() == SCREEN_WIDTH * SCREEN_HEIGHT,
                self.pc == old(self).pc,
                self.ram@ == old(self).ram@,
                self.v_reg@ == old(self).v_reg@,
                self.i_reg == old(self).i_reg,
                self.stack_ptr == old(self).stack_ptr,
                self.stack@ == old(self).stack@,
                self.keys@ == old(self).keys@,
                self.delay_timer == old(self).delay_timer,
                self.sound_timer == old(self).sound_timer,
                forall|p: int|
                    0 <= p < SCREEN_WIDTH * SCREEN_HEIGHT ==> self.screen@[p] == (scr0[p]
                        ^ covered_upto(ramg, gi, gx, gy, row as int, 0, p)),
                flipped == hit_upto(scr0, ramg, gi, gx, gy, row as int, 0),
            decreases rows - row,
        {
            let pixels = self.ram[i + row];
            let mut col: usize = 0;
            while col < 8
                invariant
                    old(self).wf(),
                    x0 < 256,
                    y0 < 256,
                    rows < 16,
                    row < rows,
                    col <= 8,
                    i + rows <= RAM_SIZE,
                    gi == i as int,
                    gx == x0 as int,
                    gy == y0 as int,
                    i == old(self)@.i_reg,
                    x0 == old(self)@.regs[x as int],
                    y0 == old(self)@.regs[y as int],
                    x < 16,
                    y < 16,
                    scr0 == old(self)@.screen,
                    ramg == old(self)@.ram,
                    pixels == ramg[gi + row],
                    self.screen@.len() == SCREEN_WIDTH * SCREEN_HEIGHT,
                    self.pc == old(self).pc,
                    self.ram@ == old(self).ram@,
                    self.v_reg@ == old(self).v_reg@,
                    self.i_reg == old(self).i_reg,
                    self.stack_ptr == old(self).stack_ptr,
                    self.stack@ == old(self).stack@,
                    self.keys@ == old(self).keys@,
                    self.delay_timer == old(self).delay_timer,
                    self.sound_timer == old(self).sound_timer,
                    forall|p: int|
                        0 <= p < SCREEN_WIDTH * SCREEN_HEIGHT ==> self.screen@[p] == (scr0[p]
                            ^ covered_upto(ramg, gi, gx, gy, row as int, col as int, p)),
                    flipped == hit_upto(scr0, ramg, gi, gx, gy, row as int, col as int),
                decreases 8 - col,
            {
                let sh: u8 = (7 - col) as u8;
                let bit = (pixels >> sh) & 1 == 1;
                proof {
                    assert(bit == sprite_bit(ramg[gi + row], col as int));
                }
                if bit {
                    let px = (x0 + col) % SCREEN_WIDTH;
                    let py = (y0 + row) % SCREEN_HEIGHT;
                    let idx = px + SCREEN_WIDTH * py;
                    proof {
                        lemma_target_range(gx, gy, row as int, col as int);
                        assert(idx == target(gx, gy, row as int, col as int));
                        lemma_fresh_target(ramg, gi, gx, gy, row as int, col as int);
                    }
                    let cur = self.screen[idx];
                    flipped = flipped || cur;
                    self.screen.set(idx, !cur);
                    proof {
                        assert(cur == scr0[idx as int]);
                        assert forall|p: int|
                            0 <= p < SCREEN_WIDTH * SCREEN_HEIGHT implies self.screen@[p] == (
                        scr0[p] ^ covered_upto(ramg, gi, gx, gy, row as int, col as int + 1, p)) by {
                            lemma_covered_step_at(ramg, gi, gx, gy, row as int, col as int, p);
                        }
                        lemma_hit_step(scr0, ramg, gi, gx, gy, row as int, col as int);
                    }
                } else {
                    proof {
                        assert forall|p: int|
                            0 <= p < SCREEN_WIDTH * SCREEN_HEIGHT implies self.screen@[p] == (
                        scr0[p] ^ covered_upto(ramg, gi, gx, gy, row as int, col as int + 1, p)) by {
                            lemma_covered_step_at(ramg, gi, gx, gy, row as int, col as int, p);
                        }
                        lemma_hit_step(scr0, ramg, gi, gx, gy, row as int, col as int);
                    }
                }
                col = col + 1;
            }
            proof {
                assert forall|p: int|
                    0 <= p < SCREEN_WIDTH * SCREEN_HEIGHT implies self.screen@[p] == (scr0[p]
                    ^ covered_upto(ramg, gi, gx, gy, row as int + 1, 0, p)) by {
                    lemma_covered_row_at(ramg, gi, gx, gy, row as int, p);
                }
                lemma_hit_row(scr0, ramg, gi, gx, gy, row as int);
            }
            row = row + 1;
        }
        let vf: u8 = if flipped {
            1
        } else {
            0
        };
        self.v_reg.set(0xF, vf);
        proof {
            assert(self@.screen =~= draw_screen(scr0, ramg, gi, gx, gy, n as int));
            assert(self@ =~= (StateV {
                screen: draw_screen(
                    old(self)@.screen,
                    old(self)@.ram,
                    old(self)@.i_reg as int,
                    old(self)@.regs[x as int] as int,
                    old(self)@.regs[y as int] as int,
                    n as int,
                ),
                regs: old(self)@.regs.update(
                    0xF,
                    if draw_collision(
                        old(self)@.screen,
                        old(self)@.ram,
                        old(self)@.i_reg as int,
                        old(self)@.regs[x as int] as int,
                        old(self)@.regs[y as int] as int,
                        n as int,
                    ) {
                        1u8
                    } else {
                        0u8
                    },
                ),
                ..old(self)@
            }));
        }
        Ok(())
    }
}

} // verus!
