//! The meaning of one machine cycle, written once as a total function on the
//! mathematical machine value.
//!
//! [`spec_exec`] gives the meaning of each decoded instruction; [`spec_tick`]
//! composes fetch, decode and execute.  The executable engine in
//! [`crate::cycle`] is proved to return exactly these values.

use vstd::prelude::*;

use crate::decode::spec_decode;
use crate::decode::Instr;
use crate::emulator::blank_screen;
use crate::emulator::Fault;
use crate::emulator::StateV;
use crate::screen::draw_collision;
use crate::screen::draw_screen;
use crate::NUM_KEYS;
use crate::RAM_SIZE;
use crate::STACK_SIZE;

verus! {

/// 8-bit addition, wrapping modulo 256.
pub open spec fn add_val(a: u8, b: u8) -> u8 {
    ((a + b) % 256) as u8
}

/// The carry flag of an 8-bit addition: 1 exactly when `a + b` overflows.
pub open spec fn add_carry(a: u8, b: u8) -> u8 {
    if a + b >= 256 {
        1u8
    } else {
        0u8
    }
}

/// 8-bit subtraction `a - b`, wrapping modulo 256.
pub open spec fn sub_val(a: u8, b: u8) -> u8 {
    (((a - b) % 256) as u8)
}

/// The no-borrow flag of an 8-bit subtraction: 1 exactly when the minuend is
/// at least the subtrahend.  Note the inverted polarity relative to a carry.
pub open spec fn sub_noborrow(a: u8, b: u8) -> u8 {
    if a >= b {
        1u8
    } else {
        0u8
    }
}

/// A left shift by one, truncated to 8 bits.
pub open spec fn lshift_val(v: u8) -> u8 {
    ((2 * v) % 256) as u8
}

/// The bit a left shift by one pushes out: the most significant bit.
pub open spec fn lshift_bit(v: u8) -> u8 {
    (v / 128) as u8
}

/// A right shift by one.
pub open spec fn rshift_val(v: u8) -> u8 {
    (v / 2) as u8
}

/// The bit a right shift by one pushes out: the least significant bit.
pub open spec fn rshift_bit(v: u8) -> u8 {
    (v % 2) as u8
}

/// The hundreds digit of a byte's decimal form.
pub open spec fn bcd_hundreds(v: u8) -> u8 {
    (v / 100) as u8
}

/// The tens digit of a byte's decimal form.
pub open spec fn bcd_tens(v: u8) -> u8 {
    ((v / 10) % 10) as u8
}

/// The ones digit of a byte's decimal form.
pub open spec fn bcd_ones(v: u8) -> u8 {
    (v % 10) as u8
}

/// The lowest pressed key index at or above `k`, if any key at or above `k`
/// is pressed: the order in which the wait-for-key instruction scans.
pub open spec fn first_pressed_from(keys: Seq<bool>, k: int) -> Option<u8>
    decreases NUM_KEYS - k,
{
    if k < 0 || k >= NUM_KEYS {
        None
    } else if keys[k] {
        Some(k as u8)
    } else {
        first_pressed_from(keys, k + 1)
    }
}

/// The lowest pressed key index, if any key is pressed.
pub open spec fn first_pressed(keys: Seq<bool>) -> Option<u8> {
    first_pressed_from(keys, 0)
}

/// The big-endian instruction word at the program counter.
pub open spec fn fetch_word(s: StateV) -> u16 {
    (s.ram[s.pc as int] * 256 + s.ram[s.pc as int + 1]) as u16
}

/// The state with the program counter moved past one instruction word.
pub open spec fn advance(s: StateV) -> StateV {
    StateV { pc: (s.pc + 2) as u16, ..s }
}

/// The meaning of one decoded instruction, applied to a state whose program
/// counter has already been moved past the instruction word.  `rnd` is the
/// byte drawn for the random-mask instruction; every other instruction
/// ignores it.  A fault describes a state the instruction refuses to change.
pub open spec fn spec_exec(s: StateV, instr: Instr, rnd: u8) -> Result<StateV, Fault> {
    match instr {
        Instr::Nop => Ok(s),
        Instr::ClearScreen => Ok(StateV { screen: blank_screen(), ..s }),
        Instr::Return => if s.sp == 0 {
            Err(Fault::StackUnderflow)
        } else {
            Ok(StateV { sp: (s.sp - 1) as u16, pc: s.stack[s.sp - 1], ..s })
        },
        Instr::Jump { nnn } => Ok(StateV { pc: nnn, ..s }),
        Instr::Call { nnn } => if s.sp >= STACK_SIZE {
            Err(Fault::StackOverflow)
        } else {
            Ok(
                StateV {
                    stack: s.stack.update(s.sp as int, s.pc),
                    sp: (s.sp + 1) as u16,
                    pc: nnn,
                    ..s
                },
            )
        },
        Instr::SkipEqImm { x, nn } => Ok(
            if s.regs[x as int] == nn {
                advance(s)
            } else {
                s
            },
        ),
        Instr::SkipNeImm { x, nn } => Ok(
            if s.regs[x as int] != nn {
                advance(s)
            } else {
                s
            },
        ),
        Instr::SkipEqReg { x, y } => Ok(
            if s.regs[x as int] == s.regs[y as int] {
                advance(s)
            } else {
                s
            },
        ),
        Instr::SetImm { x, nn } => Ok(StateV { regs: s.regs.update(x as int, nn), ..s }),
        Instr::AddImm { x, nn } => Ok(
            StateV { regs: s.regs.update(x as int, add_val(s.regs[x as int], nn)), ..s },
        ),
        Instr::Assign { x, y } => Ok(
            StateV { regs: s.regs.update(x as int, s.regs[y as int]), ..s },
        ),
        Instr::Or { x, y } => Ok(
            StateV { regs: s.regs.update(x as int, s.regs[x as int] | s.regs[y as int]), ..s },
        ),
        Instr::And { x, y } => Ok(
            StateV { regs: s.regs.update(x as int, s.regs[x as int] & s.regs[y as int]), ..s },
        ),
        Instr::Xor { x, y } => Ok(
            StateV { regs: s.regs.update(x as int, s.regs[x as int] ^ s.regs[y as int]), ..s },
        ),
        Instr::AddReg { x, y } => Ok(
            StateV {
                regs: s.regs.update(x as int, add_val(s.regs[x as int], s.regs[y as int])).update(
                    0xF,
                    add_carry(s.regs[x as int], s.regs[y as int]),
                ),
                ..s
            },
        ),
        Instr::SubReg { x, y } => Ok(
            StateV {
                regs: s.regs.update(x as int, sub_val(s.regs[x as int], s.regs[y as int])).update(
                    0xF,
                    sub_noborrow(s.regs[x as int], s.regs[y as int]),
                ),
                ..s
            },
        ),
        Instr::ShiftRight { x } => Ok(
            StateV {
                regs: s.regs.update(x as int, rshift_val(s.regs[x as int])).update(
                    0xF,
                    rshift_bit(s.regs[x as int]),
                ),
                ..s
            },
        ),
        Instr::SubFrom { x, y } => Ok(
            StateV {
                regs: s.regs.update(y as int, sub_val(s.regs[x as int], s.regs[y as int])).update(
                    0xF,
                    sub_noborrow(s.regs[x as int], s.regs[y as int]),
                ),
                ..s
            },
        ),
        Instr::ShiftLeft { x } => Ok(
            StateV {
                regs: s.regs.update(x as int, lshift_val(s.regs[x as int])).update(
                    0xF,
                    lshift_bit(s.regs[x as int]),
                ),
                ..s
            },
        ),
        Instr::SkipNeReg { x, y } => Ok(
            if s.regs[x as int] != s.regs[y as int] {
                advance(s)
            } else {
                s
            },
        ),
        Instr::SetIndex { nnn } => Ok(StateV { i_reg: nnn, ..s }),
        Instr::JumpOffset { nnn } => Ok(StateV { pc: (s.regs[0] + nnn) as u16, ..s }),
        Instr::RandMask { x, nn } => Ok(StateV { regs: s.regs.update(x as int, rnd & nn), ..s }),
        Instr::Draw { x, y, n } => if n > 0 && s.i_reg + n > RAM_SIZE {
            Err(Fault::MemoryOutOfBounds)
        } else {
            Ok(
                StateV {
                    screen: draw_screen(
                        s.screen,
                        s.ram,
                        s.i_reg as int,
                        s.regs[x as int] as int,
                        s.regs[y as int] as int,
                        n as int,
                    ),
                    regs: s.regs.update(
                        0xF,
                        if draw_collision(
                            s.screen,
                            s.ram,
                            s.i_reg as int,
                            s.regs[x as int] as int,
                            s.regs[y as int] as int,
                            n as int,
                        ) {
                            1u8
                        } else {
                            0u8
                        },
                    ),
                    ..s
                },
            )
        },
        Instr::SkipKeyPressed { x } => Ok(
            if s.keys[(s.regs[x as int] % 16) as int] {
                advance(s)
            } else {
                s
            },
        ),
        Instr::SkipKeyNotPressed { x } => Ok(
            if !s.keys[(s.regs[x as int] % 16) as int] {
                advance(s)
            } else {
                s
            },
        ),
        Instr::ReadDelay { x } => Ok(StateV { regs: s.regs.update(x as int, s.delay), ..s }),
        Instr::WaitKey { x } => match first_pressed(s.keys) {
            Some(k) => Ok(StateV { regs: s.regs.update(x as int, k), ..s }),
            None => Ok(StateV { pc: (s.pc - 2) as u16, ..s }),
        },
        Instr::SetDelay { x } => Ok(StateV { delay: s.regs[x as int], ..s }),
        Instr::SetSound { x } => Ok(StateV { sound: s.regs[x as int], ..s }),
        Instr::AddIndex { x } => Ok(
            StateV { i_reg: ((s.i_reg + s.regs[x as int]) % 0x10000) as u16, ..s },
        ),
        Instr::FontAddr { x } => Ok(StateV { i_reg: (5 * (s.regs[x as int] % 16)) as u16, ..s }),
        Instr::StoreBcd { x } => if s.i_reg + 3 > RAM_SIZE {
            Err(Fault::MemoryOutOfBounds)
        } else {
            Ok(
                StateV {
                    ram: s.ram.update(s.i_reg as int, bcd_hundreds(s.regs[x as int])).update(
                        s.i_reg + 1,
                        bcd_tens(s.regs[x as int]),
                    ).update(s.i_reg + 2, bcd_ones(s.regs[x as int])),
                    ..s
                },
            )
        },
        Instr::StoreRegs { x } => if s.i_reg + x + 1 > RAM_SIZE {
            Err(Fault::MemoryOutOfBounds)
        } else {
            Ok(
                StateV {
                    ram: Seq::new(
                        s.ram.len(),
                        |a: int|
                            if s.i_reg <= a <= s.i_reg + x {
                                s.regs[a - s.i_reg]
                            } else {
                                s.ram[a]
                            },
                    ),
                    ..s
                },
            )
        },
        Instr::LoadRegs { x } => if s.i_reg + x + 1 > RAM_SIZE {
            Err(Fault::MemoryOutOfBounds)
        } else {
            Ok(
                StateV {
                    regs: Seq::new(
                        s.regs.len(),
                        |k: int|
                            if k <= x {
                                s.ram[s.i_reg + k]
                            } else {
                                s.regs[k]
                            },
                    ),
                    ..s
                },
            )
        },
    }
}

/// The meaning of one full cycle from state `s`: fetch the word at the
/// program counter, decode it, move past it, execute.  A fault describes a
/// cycle that refuses to change the machine.
pub open spec fn spec_tick(s: StateV, rnd: u8) -> Result<StateV, Fault> {
    if s.pc + 1 >= RAM_SIZE {
        Err(Fault::MemoryOutOfBounds)
    } else {
        match spec_decode(fetch_word(s)) {
            Some(instr) => spec_exec(advance(s), instr, rnd),
            None => Err(Fault::UnknownOpcode),
        }
    }
}

/// How one `tick` call relates the machine before (`pre`) and after (`post`)
/// and its returned value, for the drawn byte `rnd`: on success the machine
/// becomes exactly what [`spec_tick`] says; on a fault it reports the fault
/// and stands unchanged.
pub open spec fn tick_result_matches(
    pre: StateV,
    post: StateV,
    r: Result<(), Fault>,
    rnd: u8,
) -> bool {
    match spec_tick(pre, rnd) {
        Ok(s) => r == Ok::<(), Fault>(()) && post == s,
        Err(f) => r == Err::<(), Fault>(f) && post == pre,
    }
}

} // verus!
