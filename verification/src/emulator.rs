//! The machine state and its lifecycle: construction with the built-in font,
//! reset, loading a program image, key state, the display view, the call
//! stack, instruction fetch and the two timers.

use vstd::pervasive::VecAdditionalExecFns;
use vstd::prelude::*;

use crate::FONTSET_SIZE;
use crate::NUM_KEYS;
use crate::RAM_SIZE;
use crate::REGISTER_COUNT;
use crate::SCREEN_HEIGHT;
use crate::SCREEN_WIDTH;
use crate::STACK_SIZE;
use crate::START_ADDR;

verus! {

/// A fatal condition met while interpreting one instruction.  Every fault is
/// local to a single `tick` call and leaves the machine exactly as it was
/// before that call; the driver decides whether to halt, reset or report.
#[derive(Clone, Copy, Debug, PartialEq, Eq, Structural)]
pub enum Fault {
    /// The fetched instruction word matches no recognized pattern.
    UnknownOpcode,
    /// A subroutine call tried to push beyond the stack's capacity.
    StackOverflow,
    /// A subroutine return tried to pop an empty stack.
    StackUnderflow,
    /// A fetch or an instruction addressed memory outside the 4096-byte space.
    MemoryOutOfBounds,
}

/// The mathematical value of a machine: every field of [`Emulator`] as a
/// plain sequence or integer.  Contracts and the step function in
/// [`crate::step`] speak of this value.
#[verifier::ext_equal]
pub ghost struct StateV {
    /// Address of the next instruction to fetch.
    pub pc: u16,
    /// The 4096 bytes of memory.
    pub ram: Seq<u8>,
    /// The 64x32 framebuffer, row-major: pixel (x, y) at index `x + 64 * y`.
    pub screen: Seq<bool>,
    /// The sixteen 8-bit registers; register 0xF doubles as the flag output.
    pub regs: Seq<u8>,
    /// The 16-bit index register, used only as a memory address.
    pub i_reg: u16,
    /// Number of return addresses on the call stack.
    pub sp: u16,
    /// The call stack; entries at `0 .. sp` are live.
    pub stack: Seq<u16>,
    /// Pressed state of the sixteen keys.
    pub keys: Seq<bool>,
    /// The delay timer, decremented toward zero once per timer tick.
    pub delay: u8,
    /// The sound timer; a tone is owed while it is nonzero.
    pub sound: u8,
}

/// The sizes every reachable machine value keeps: full-size memory, screen,
/// register file, stack and keypad, and a stack pointer within capacity.
pub open spec fn state_wf(s: StateV) -> bool {
    &&& s.ram.len() == RAM_SIZE
    &&& s.screen.len() == SCREEN_WIDTH * SCREEN_HEIGHT
    &&& s.regs.len() == REGISTER_COUNT
    &&& s.stack.len() == STACK_SIZE
    &&& s.keys.len() == NUM_KEYS
    &&& s.sp <= STACK_SIZE
}

/// One interpreted machine.  All state is owned here; the only mutators are
/// `tick`, `tick_timers`, `load`, `set_key` and `reset`.
pub struct Emulator {
    pub pc: u16,
    pub ram: Vec<u8>,
    pub screen: Vec<bool>,
    pub v_reg: Vec<u8>,
    pub i_reg: u16,
    pub stack_ptr: u16,
    pub stack: Vec<u16>,
    pub keys: Vec<bool>,
    pub delay_timer: u8,
    pub sound_timer: u8,
}

impl View for Emulator {
    type V = StateV;

    open spec fn view(&self) -> StateV {
        StateV {
            pc: self.pc,
            ram: self.ram@,
            screen: self.screen@,
            regs: self.v_reg@,
            i_reg: self.i_reg,
            sp: self.stack_ptr,
            stack: self.stack@,
            keys: self.keys@,
            delay: self.delay_timer,
            sound: self.sound_timer,
        }
    }
}

/// The built-in font: sixteen glyphs of five bytes each, one glyph per hex
/// digit, placed at the bottom of memory.
pub open spec fn font_seq() -> Seq<u8> {
    seq![
        0xF0u8, 0x90u8, 0x90u8, 0x90u8, 0xF0u8,
        0x20u8, 0x60u8, 0x20u8, 0x20u8, 0x70u8,
        0xF0u8, 0x10u8, 0xF0u8, 0x80u8, 0xF0u8,
        0xF0u8, 0x10u8, 0xF0u8, 0x10u8, 0xF0u8,
        0x90u8, 0x90u8, 0xF0u8, 0x10u8, 0x10u8,
        0xF0u8, 0x80u8, 0xF0u8, 0x10u8, 0xF0u8,
        0xF0u8, 0x80u8, 0xF0u8, 0x90u8, 0xF0u8,
        0xF0u8, 0x10u8, 0x20u8, 0x40u8, 0x40u8,
        0xF0u8, 0x90u8, 0xF0u8, 0x90u8, 0xF0u8,
        0xF0u8, 0x90u8, 0xF0u8, 0x10u8, 0xF0u8,
        0xF0u8, 0x90u8, 0xF0u8, 0x90u8, 0x90u8,
        0xE0u8, 0x90u8, 0xE0u8, 0x90u8, 0xE0u8,
        0xF0u8, 0x80u8, 0x80u8, 0x80u8, 0xF0u8,
        0xE0u8, 0x90u8, 0x90u8, 0x90u8, 0xE0u8,
        0xF0u8, 0x80u8, 0xF0u8, 0x80u8, 0xF0u8,
        0xF0u8, 0x80u8, 0xF0u8, 0x80u8, 0x80u8,
    ]
}

/// Memory as construction and reset leave it: the font at the bottom, zero
/// everywhere else.
pub open spec fn initial_ram() -> Seq<u8> {
    Seq::new(RAM_SIZE as nat, |a: int| if a < FONTSET_SIZE { font_seq()[a] } else { 0u8 })
}

/// An all-dark framebuffer.
pub open spec fn blank_screen() -> Seq<bool> {
    Seq::new((SCREEN_WIDTH * SCREEN_HEIGHT) as nat, |p: int| false)
}

/// The machine value that `new` and `reset` establish: program counter at the
/// load address, font installed, everything else zero.
pub open spec fn initial_state() -> StateV {
    StateV {
        pc: START_ADDR,
        ram: initial_ram(),
        screen: blank_screen(),
        regs: Seq::new(REGISTER_COUNT as nat, |i: int| 0u8),
        i_reg: 0,
        sp: 0,
        stack: Seq::new(STACK_SIZE as nat, |i: int| 0u16),
        keys: Seq::new(NUM_KEYS as nat, |i: int| false),
        delay: 0,
        sound: 0,
    }
}

/// A timer value after one timer tick: one less, saturating at zero.
pub open spec fn decremented(t: u8) -> u8 {
    if t > 0 {
        (t - 1) as u8
    } else {
        0u8
    }
}

/// Memory after a program image `data` is copied in at the load address;
/// bytes outside the image keep their value.
pub open spec fn loaded_ram(ram: Seq<u8>, data: Seq<u8>) -> Seq<u8> {
    Seq::new(
        ram.len(),
        |a: int|
            if START_ADDR <= a < START_ADDR + data.len() {
                data[a - START_ADDR]
            } else {
                ram[a]
            },
    )
}

/// A vector of `n` copies of `t`.
fn filled<T: Copy>(n: usize, t: T) -> (v: Vec<T>)
    ensures
        v@ == Seq::new(n as nat, |i: int| t),
{
    let mut v: Vec<T> = Vec::new();
    while v.len() < n
        invariant
            v@.len() <= n,
            forall|i: int| 0 <= i < v@.len() ==> v@[i] == t,
        decreases n - v@.len(),
    {
        v.push(t);
    }
    proof {
        assert(v@ =~= Seq::new(n as nat, |i: int| t));
    }
    v
}

/// The font table as bytes.
fn font_data() -> (v: Vec<u8>)
    ensures
        v@ == font_seq(),
{
    let mut v: Vec<u8> = Vec::new();
    v.push(0xF0); v.push(0x90); v.push(0x90); v.push(0x90); v.push(0xF0);
    v.push(0x20); v.push(0x60); v.push(0x20); v.push(0x20); v.push(0x70);
    v.push(0xF0); v.push(0x10); v.push(0xF0); v.push(0x80); v.push(0xF0);
    v.push(0xF0); v.push(0x10); v.push(0xF0); v.push(0x10); v.push(0xF0);
    v.push(0x90); v.push(0x90); v.push(0xF0); v.push(0x10); v.push(0x10);
    v.push(0xF0); v.push(0x80); v.push(0xF0); v.push(0x10); v.push(0xF0);
    v.push(0xF0); v.push(0x80); v.push(0xF0); v.push(0x90); v.push(0xF0);
    v.push(0xF0); v.push(0x10); v.push(0x20); v.push(0x40); v.push(0x40);
    v.push(0xF0); v.push(0x90); v.push(0xF0); v.push(0x90); v.push(0xF0);
    v.push(0xF0); v.push(0x90); v.push(0xF0); v.push(0x10); v.push(0xF0);
    v.push(0xF0); v.push(0x90); v.push(0xF0); v.push(0x90); v.push(0x90);
    v.push(0xE0); v.push(0x90); v.push(0xE0); v.push(0x90); v.push(0xE0);
    v.push(0xF0); v.push(0x80); v.push(0x80); v.push(0x80); v.push(0xF0);
    v.push(0xE0); v.push(0x90); v.push(0x90); v.push(0x90); v.push(0xE0);
    v.push(0xF0); v.push(0x80); v.push(0xF0); v.push(0x80); v.push(0xF0);
    v.push(0xF0); v.push(0x80); v.push(0xF0); v.push(0x80); v.push(0x80);
    proof {
        assert(v@ =~= font_seq());
    }
    v
}

impl Emulator {
    /// The sizes a machine value keeps from construction on.
    pub open spec fn wf(self) -> bool {
        state_wf(self@)
    }

    /// A fresh machine: program counter at the load address, font installed,
    /// all registers, timers, keys, stack and screen zeroed.
    pub fn new() -> (e: Emulator)
        ensures
            e.wf(),
            e@ == initial_state(),
    {
        let mut ram: Vec<u8> = font_data();
        while ram.len() < RAM_SIZE
            invariant
                FONTSET_SIZE <= ram@.len() <= RAM_SIZE,
                forall|a: int| 0 <= a < ram@.len() ==> ram@[a] == initial_ram()[a],
            decreases RAM_SIZE - ram@.len(),
        {
            ram.push(0);
        }
        let e = Emulator {
            pc: START_ADDR,
            ram,
            screen: filled(SCREEN_WIDTH * SCREEN_HEIGHT, false),
            v_reg: filled(REGISTER_COUNT, 0u8),
            i_reg: 0,
            stack_ptr: 0,
            stack: filled(STACK_SIZE, 0u16),
            keys: filled(NUM_KEYS, false),
            delay_timer: 0,
            sound_timer: 0,
        };
        proof {
            assert(e@.ram =~= initial_ram());
            assert(e@ =~= initial_state());
        }
        e
    }

    /// Return to the exact post-construction state.
    pub fn reset(&mut self)
        ensures
            final(self).wf(),
            final(self)@ == initial_state(),
    {
        *self = Emulator::new();
    }

    /// Copy a program image into memory at the load address.  The caller keeps
    /// the image within the memory's capacity.
    pub fn load(&mut self, data: &[u8])
        requires
            old(self).wf(),
            START_ADDR + data@.len() <= RAM_SIZE,
        ensures
            final(self).wf(),
            final(self)@ == (StateV { ram: loaded_ram(old(self)@.ram, data@), ..old(self)@ }),
    {
        let mut k: usize = 0;
        while k < data.len()
            invariant
                k <= data@.len(),
                START_ADDR + data@.len() <= RAM_SIZE,
                self.ram@.len() == RAM_SIZE,
                self.pc == old(self).pc,
                self.screen@ == old(self).screen@,
                self.v_reg@ == old(self).v_reg@,
                self.i_reg == old(self).i_reg,
                self.stack_ptr == old(self).stack_ptr,
                self.stack@ == old(self).stack@,
                self.keys@ == old(self).keys@,
                self.delay_timer == old(self).delay_timer,
                self.sound_timer == old(self).sound_timer,
                old(self).wf(),
                forall|a: int|
                    0 <= a < RAM_SIZE ==> self.ram@[a] == (if START_ADDR <= a
                        < START_ADDR + k {
                        data@[a - START_ADDR]
                    } else {
                        old(self).ram@[a]
                    }),
            decreases data@.len() - k,
        {
            let b = data[k];
            self.ram.set(START_ADDR as usize + k, b);
            k = k + 1;
        }
        proof {
            assert(self@.ram =~= loaded_ram(old(self)@.ram, data@));
            assert(self@ =~= (StateV { ram: loaded_ram(old(self)@.ram, data@), ..old(self)@ }));
        }
    }

    /// Record a key going down or up.  This is the only external mutator of
    /// keypad state.
    pub fn set_key(&mut self, idx: usize, pressed: bool)
        requires
            old(self).wf(),
            idx < NUM_KEYS,
        ensures
            final(self).wf(),
            final(self)@ == (StateV { keys: old(self)@.keys.update(idx as int, pressed), ..old(self)@ }),
    {
        self.keys.set(idx, pressed);
    }

    /// A read-only view of the framebuffer, row-major, for a renderer to blit.
    pub fn get_display(&self) -> (r: &Vec<bool>)
        ensures
            r@ == self@.screen,
    {
        &self.screen
    }

    /// Decrement both timers toward zero.  Returns true exactly when the sound
    /// timer goes from 1 to 0: the instant at which a tone should sound.
    pub fn tick_timers(&mut self) -> (tone: bool)
        requires
            old(self).wf(),
        ensures
            final(self).wf(),
            final(self)@ == (StateV {
                delay: decremented(old(self)@.delay),
                sound: decremented(old(self)@.sound),
                ..old(self)@
            }),
            tone == (old(self)@.sound == 1),
    {
        let tone = self.sound_timer == 1;
        if self.delay_timer > 0 {
            self.delay_timer = self.delay_timer - 1;
        }
        if self.sound_timer > 0 {
            self.sound_timer = self.sound_timer - 1;
        }
        tone
    }

    /// Push a return address; a full stack is a fatal overflow.
    pub(crate) fn push(&mut self, val: u16) -> (r: Result<(), Fault>)
        requires
            old(self).wf(),
        ensures
            final(self).wf(),
            match r {
                Ok(()) => old(self)@.sp < STACK_SIZE && final(self)@ == (StateV {
                    stack: old(self)@.stack.update(old(self)@.sp as int, val),
                    sp: (old(self)@.sp + 1) as u16,
                    ..old(self)@
                }),
                Err(f) => f == Fault::StackOverflow && old(self)@.sp == STACK_SIZE && final(self)@
                    == old(self)@,
            },
    {
        if (self.stack_ptr as usize) < STACK_SIZE {
            self.stack.set(self.stack_ptr as usize, val);
            self.stack_ptr = self.stack_ptr + 1;
            Ok(())
        } else {
            Err(Fault::StackOverflow)
        }
    }

    /// Pop the most recent return address; an empty stack is a fatal
    /// underflow.
    pub(crate) fn pop(&mut self) -> (r: Result<u16, Fault>)
        requires
            old(self).wf(),
        ensures
            final(self).wf(),
            match r {
                Ok(val) => old(self)@.sp > 0 && val == old(self)@.stack[old(self)@.sp - 1]
                    && final(self)@ == (StateV { sp: (old(self)@.sp - 1) as u16, ..old(self)@ }),
                Err(f) => f == Fault::StackUnderflow && old(self)@.sp == 0
                    && final(self)@ == old(self)@,
            },
    {
        if self.stack_ptr > 0 {
            self.stack_ptr = self.stack_ptr - 1;
            Ok(self.stack[self.stack_ptr as usize])
        } else {
            Err(Fault::StackUnderflow)
        }
    }

    /// Read the big-endian instruction word at the program counter and advance
    /// past it; a fetch outside memory is fatal and changes nothing.
    pub(crate) fn fetch(&mut self) -> (r: Result<u16, Fault>)
        requires
            old(self).wf(),
        ensures
            final(self).wf(),
            match r {
                Ok(op) => old(self)@.pc + 1 < RAM_SIZE && op == crate::step::fetch_word(old(self)@)
                    && final(self)@ == (StateV { pc: (old(self)@.pc + 2) as u16, ..old(self)@ }),
                Err(f) => f == Fault::MemoryOutOfBounds && old(self)@.pc + 1 >= RAM_SIZE
                    && final(self)@ == old(self)@,
            },
    {
        if (self.pc as usize) + 1 < RAM_SIZE {
            let higher_byte = self.ram[self.pc as usize] as u16;
            let lower_byte = self.ram[self.pc as usize + 1] as u16;
            self.pc = self.pc + 2;
            Ok(higher_byte * 256 + lower_byte)
        } else {
            Err(Fault::MemoryOutOfBounds)
        }
    }
}

} // verus!
