//! The fetch-decode-execute engine: one call to [`Emulator::tick`] interprets
//! exactly one instruction, and is proved to take the machine to the value
//! given by [`crate::step::spec_tick`] — or to report a fault and leave the
//! machine untouched.

use vstd::prelude::*;

use crate::decode::decode;
use crate::decode::instr_wf;
use crate::decode::Instr;
use crate::emulator::Emulator;
use crate::emulator::Fault;
use crate::emulator::StateV;
use crate::step::spec_exec;
use crate::step::tick_result_matches;
use crate::RAM_SIZE;

verus! {

/// Relies on rand::random: draws one uniformly distributed byte from the
/// thread-local generator.  Nothing is assumed of the value; every caller is
/// verified for every byte that may come back.
#[verifier::external_body]
fn random_byte() -> u8 {
    rand::random::<u8>()
}

impl Emulator {
    /// Dispatch one decoded instruction to its handler.  `rnd` is the byte
    /// the random-mask instruction uses; every other instruction ignores it.
    /// The result is exactly what [`spec_exec`] assigns: the new machine
    /// value on success, or a fault with the machine unchanged.
    pub(crate) fn execute(&mut self, instr: Instr, rnd: u8) -> (r: Result<(), Fault>)
        requires
            old(self).wf(),
            instr_wf(instr),
            2 <= old(self)@.pc <= RAM_SIZE,
        ensures
            final(self).wf(),
            match r {
                Ok(()) => spec_exec(old(self)@, instr, rnd) == Ok::<StateV, Fault>(final(self)@),
                Err(f) => spec_exec(old(self)@, instr, rnd) == Err::<StateV, Fault>(f)
                    && final(self)@ == old(self)@,
            },
    {
        match instr {
            Instr::Nop => Ok(()),
            Instr::ClearScreen => {
                self.clear_screen();
                Ok(())
            },
            Instr::Return => self.end_subroutine(),
            Instr::Jump { nnn } => {
                self.jump(nnn);
                Ok(())
            },
            Instr::Call { nnn } => self.call_subroutine(nnn),
            Instr::SkipEqImm { x, nn } => {
                self.skip_if_vx_equals_nn(x, nn);
                Ok(())
            },
            Instr::SkipNeImm { x, nn } => {
                self.skip_if_vx_not_equals_nn(x, nn);
                Ok(())
            },
            Instr::SkipEqReg { x, y } => {
                self.skip_if_vx_equals_vy(x, y);
                Ok(())
            },
            Instr::SetImm { x, nn } => {
                self.assign_nn_to_vx(x, nn);
                Ok(())
            },
            Instr::AddImm { x, nn } => {
                self.add_nn_to_vx(x, nn);
                Ok(())
            },
            Instr::Assign { x, y } => {
                self.assign_vx_to_vy(x, y);
                Ok(())
            },
            Instr::Or { x, y } => {
                self.vx_or_vy(x, y);
                Ok(())
            },
            Instr::And { x, y } => {
                self.vx_and_vy(x, y);
                Ok(())
            },
            Instr::Xor { x, y } => {
                self.vx_xor_vy(x, y);
                Ok(())
            },
            Instr::AddReg { x, y } => {
                self.add_vy_to_vx(x, y);
                Ok(())
            },
            Instr::SubReg { x, y } => {
                self.sub_vy_from_vx(x, y);
                Ok(())
            },
            Instr::ShiftRight { x } => {
                self.rshift_vx(x);
                Ok(())
            },
            Instr::SubFrom { x, y } => {
                self.sub_vx_from_vy(x, y);
                Ok(())
            },
            Instr::ShiftLeft { x } => {
                self.lshift_vx(x);
                Ok(())
            },
            Instr::SkipNeReg { x, y } => {
                self.skip_if_vx_not_equals_vy(x, y);
                Ok(())
            },
            Instr::SetIndex { nnn } => {
                self.assign_nnn_to_ireg(nnn);
                Ok(())
            },
            Instr::JumpOffset { nnn } => {
                self.jump_to_offset(nnn);
                Ok(())
            },
            Instr::RandMask { x, nn } => {
                self.assign_rand_and_nn_to_vx(x, nn, rnd);
                Ok(())
            },
            Instr::Draw { x, y, n } => self.draw_sprite(x, y, n),
            Instr::SkipKeyPressed { x } => {
                self.skip_if_key_pressed(x);
                Ok(())
            },
            Instr::SkipKeyNotPressed { x } => {
                self.skip_if_key_not_pressed(x);
                Ok(())
            },
            Instr::ReadDelay { x } => {
                self.assign_dt_to_vx(x);
                Ok(())
            },
            Instr::WaitKey { x } => {
                self.wait_for_key_press(x);
                Ok(())
            },
            Instr::SetDelay { x } => {
                self.assign_vx_to_dt(x);
                Ok(())
            },
            Instr::SetSound { x } => {
                self.assign_vx_to_st(x);
                Ok(())
            },
            Instr::AddIndex { x } => {
                self.add_vx_to_ireg(x);
                Ok(())
            },
            Instr::FontAddr { x } => {
                self.assign_font_addr_to_ireg(x);
                Ok(())
            },
            Instr::StoreBcd { x } => self.assign_vx_bcd_to_ireg(x),
            Instr::StoreRegs { x } => self.store_regs_into_ram(x),
            Instr::LoadRegs { x } => self.load_ram_into_regs(x),
        }
    }

    /// Run one cycle: fetch the word at the program counter, decode it, move
    /// past it and execute it.  For some byte `rnd` (the one the generator
    /// supplied), the machine afterward and the returned value are exactly
    /// what [`crate::step::spec_tick`] says: the successor state on success,
    /// or the fault with the machine left exactly as it was.
    pub fn tick(&mut self) -> (r: Result<(), Fault>)
        requires
            old(self).wf(),
        ensures
            final(self).wf(),
            exists|rnd: u8| #[trigger] tick_result_matches(old(self)@, final(self)@, r, rnd),
    {
        let ghost pre = self@;
        let op = match self.fetch() {
            Ok(op) => op,
            Err(f) => {
                proof {
                    assert(tick_result_matches(pre, self@, Err::<(), Fault>(f), 0));
                }
                return Err(f);
            },
        };
        match decode(op) {
            None => {
                self.pc = self.pc - 2;
                proof {
                    assert(self@ =~= pre);
                    assert(tick_result_matches(
                        pre,
                        self@,
                        Err::<(), Fault>(Fault::UnknownOpcode),
                        0,
                    ));
                }
                Err(Fault::UnknownOpcode)
            },
            Some(instr) => {
                let rnd = random_byte();
                match self.execute(instr, rnd) {
                    Ok(()) => {
                        proof {
                            assert(tick_result_matches(pre, self@, Ok::<(), Fault>(()), rnd));
                        }
                        Ok(())
                    },
                    Err(f) => {
                        self.pc = self.pc - 2;
                        proof {
                            assert(self@ =~= pre);
                            assert(tick_result_matches(pre, self@, Err::<(), Fault>(f), rnd));
                        }
                        Err(f)
                    },
                }
            },
        }
    }
}

} // verus!
