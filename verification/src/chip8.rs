//! The execution engine with its collaborators: a machine, an optional
//! display and an optional keyboard.
//!
//! One cycle polls the keyboard, fetches and decodes the word at the program
//! counter, asks the outside world what the instruction needs (a random byte,
//! the state of a key), executes the instruction on the machine and tells the
//! display what has changed.
//!
//! Nothing is known of a display or a keyboard, so the contracts here say
//! what holds of the machine whatever they answer: the machine ends in a state
//! that the model gives for some answer, and for an instruction that asks
//! nothing, in the one state that the model gives.

use vstd::prelude::*;
use crate::machine::Machine;
use crate::opcode::Instruction;
use crate::peripherals::{Chip8Disp, Chip8Input, Chip8Key};
use crate::state::{
    cycle_reads_stimulus, cycled, cycled_and_ticked, errors_ignore_stimulus, executed,
    executed_ignores_unread_stimulus, ExecError, MachineState, Stimulus,
};

verus! {

/// Calls `rand::random::<u8>()`, which draws a byte from the random number
/// generator of the thread. Nothing is claimed of the byte.
#[verifier::external_body]
fn random_byte() -> (byte: u8) {
    rand::random::<u8>()
}

/// The engine.
pub struct Chip8<T: Chip8Disp, U: Chip8Input> {
    machine: Machine,
    screen: Option<T>,
    keyboard: Option<U>,
}

impl<T: Chip8Disp, U: Chip8Input> View for Chip8<T, U> {
    type V = MachineState;

    closed spec fn view(&self) -> MachineState {
        self.machine@
    }
}

impl<T: Chip8Disp, U: Chip8Input> Chip8<T, U> {
    /// The machine is well formed.
    pub closed spec fn wf(&self) -> bool {
        self.machine.wf()
    }

    /// The display that is connected, if any.
    pub closed spec fn display(&self) -> Option<T> {
        self.screen
    }

    /// The keyboard that is connected, if any.
    pub closed spec fn keyboard(&self) -> Option<U> {
        self.keyboard
    }

    pub open spec fn has_display(&self) -> bool {
        self.display() is Some
    }

    pub open spec fn has_keyboard(&self) -> bool {
        self.keyboard() is Some
    }

    /// What is known of an answer of the outside world: without a keyboard
    /// no key is reported.
    pub open spec fn may_answer(&self, stim: Stimulus) -> bool {
        !self.has_keyboard() ==> stim.key_down is None && stim.last_key is None
    }

    /// Whether the instruction has the keyboard asked for the state of a
    /// key: it is a key-skip, a keyboard is connected, and the register it
    /// names holds the code of a key.
    pub open spec fn asks_key(&self, instruction: Instruction) -> bool {
        self.has_keyboard() && match instruction {
            Instruction::SkipEqKey(x) => self@.v[x as int] < 16,
            Instruction::SkipNeqKey(x) => self@.v[x as int] < 16,
            _ => false,
        }
    }

    /// Whether the answer holds what the instruction has asked for and
    /// nothing else: a random byte for `Rand` only, the state of a key where
    /// the keyboard is asked for one and only there, a held key for `LoadKey`
    /// with a keyboard only.
    pub open spec fn answers(&self, instruction: Instruction, stim: Stimulus) -> bool {
        &&& !(instruction is Rand) ==> stim.random == 0
        &&& stim.key_down is Some <==> self.asks_key(instruction)
        &&& stim.last_key is Some ==> instruction is LoadKey && self.has_keyboard()
    }

    /// A well-formed engine has a well-formed model.
    pub proof fn wf_view(&self)
        requires
            self.wf(),
        ensures
            self@.wf(),
    {
        self.machine.wf_view();
    }

    /// An engine with a fresh machine and no collaborators.
    pub fn new() -> (r: Chip8<T, U>)
        ensures
            r.wf(),
            r@ == MachineState::initial(),
            r.display() is None,
            r.keyboard() is None,
    {
        Chip8 { machine: Machine::new(), screen: None, keyboard: None }
    }

    /// Connects a display in place of the one connected before, if any.
    pub fn connect_display(&mut self, display: T)
        ensures
            final(self)@ == old(self)@,
            final(self).wf() == old(self).wf(),
            final(self).display() == Some(display),
            final(self).keyboard() == old(self).keyboard(),
    {
        self.screen = Some(display);
    }

    /// Connects a keyboard in place of the one connected before, if any.
    pub fn connect_keyboard(&mut self, keyboard: U)
        ensures
            final(self)@ == old(self)@,
            final(self).wf() == old(self).wf(),
            final(self).keyboard() == Some(keyboard),
            final(self).display() == old(self).display(),
    {
        self.keyboard = Some(keyboard);
    }

    /// Loads a program at `0x200`. A program of more than 3584 bytes is
    /// refused with the text `Invalid program length!`, and nothing changes.
    pub fn upload_rom(&mut self, program: &[u8]) -> (r: Result<(), String>)
        requires
            old(self).wf(),
        ensures
            final(self).wf(),
            final(self).display() == old(self).display(),
            final(self).keyboard() == old(self).keyboard(),
            match r {
                Ok(_) => program@.len() <= 3584 && final(self)@ == old(self)@.loaded(program@),
                Err(e) => program@.len() > 3584 && final(self)@ == old(self)@ && e@
                    == "Invalid program length!"@,
            },
    {
        self.machine.upload_rom(program)
    }

    /// The machine, to look at.
    pub fn machine(&self) -> (r: &Machine)
        ensures
            r@ == self@,
            r.wf() == self.wf(),
    {
        &self.machine
    }

    /// Asks the outside world what the instruction needs: a random byte for
    /// `Rand`, the state of the key that a key-skip names, the held key for
    /// `LoadKey`. What was not asked is reported as absent.
    fn stimulus_for(&self, instruction: Instruction) -> (stim: Stimulus)
        requires
            self.wf(),
            instruction.wf(),
        ensures
            self.answers(instruction, stim),
            self.may_answer(stim),
    {
        let mut stim = Stimulus { random: 0, key_down: None, last_key: None };
        match instruction {
            Instruction::Rand(_, _) => {
                stim.random = random_byte();
            },
            Instruction::SkipEqKey(x) | Instruction::SkipNeqKey(x) => {
                if let Ok(key) = Chip8Key::new(self.machine.register(x)) {
                    if let Some(keyboard) = &self.keyboard {
                        stim.key_down = Some(keyboard.key_pressed(key));
                    }
                }
            },
            Instruction::LoadKey(_) => {
                if let Some(keyboard) = &self.keyboard {
                    stim.last_key = keyboard.last_key_pressed();
                }
            },
            _ => {},
        }
        stim
    }

    /// Executes one instruction: gathers what it needs from the outside
    /// world, runs it on the machine and tells the display what changed: a
    /// clear, or the pixels that a draw touched and the order to publish them.
    /// On an error nothing has changed.
    fn handle_instruction(&mut self, instruction: Instruction) -> (r: Result<(), ExecError>)
        requires
            old(self).wf(),
            instruction.wf(),
        ensures
            final(self).wf(),
            final(self).has_display() == old(self).has_display(),
            final(self).has_keyboard() == old(self).has_keyboard(),
            match r {
                Ok(_) => exists|stim: Stimulus|
                    old(self).may_answer(stim) && #[trigger] executed(
                        old(self)@,
                        instruction,
                        stim,
                    ) == Ok::<MachineState, ExecError>(final(self)@),
                Err(e) => final(self)@ == old(self)@ && forall|stim: Stimulus|
                    #[trigger] executed(old(self)@, instruction, stim) == Err::<
                        MachineState,
                        ExecError,
                    >(e),
            },
            r is Ok && !instruction.reads_stimulus() ==> forall|stim: Stimulus|
                #[trigger] executed(old(self)@, instruction, stim) == Ok::<
                    MachineState,
                    ExecError,
                >(final(self)@),
    {
        let stim = self.stimulus_for(instruction);
        let r = match self.machine.execute(instruction, stim) {
            Ok(pixels) => {
                if let Some(screen) = &mut self.screen {
                    match instruction {
                        Instruction::Clear => {
                            screen.clear();
                        },
                        Instruction::Draw(_, _, _) => {
                            let _ = screen.set_pixel_data(pixels.as_slice());
                            screen.draw();
                        },
                        _ => {},
                    }
                }
                Ok(())
            },
            Err(e) => Err(e),
        };
        proof {
            let outcome = executed(old(self)@, instruction, stim);
            assert(old(self).may_answer(stim));
            assert forall|other: Stimulus|
                outcome is Err || !instruction.reads_stimulus() implies #[trigger] executed(
                old(self)@,
                instruction,
                other,
            ) == outcome by {
                errors_ignore_stimulus(old(self)@, instruction, stim, other);
                if !instruction.reads_stimulus() {
                    executed_ignores_unread_stimulus(old(self)@, instruction, stim, other);
                }
            }
        }
        r
    }

    /// Runs one cycle: polls the keyboard, and unless it asks to stop,
    /// fetches, decodes and executes the instruction at the program counter.
    /// A word that does not decode is passed over.
    ///
    /// Returns `Ok(true)` where the keyboard asked to stop; nothing was
    /// executed. Returns an error, with nothing changed, where the
    /// instruction cannot be fetched or executed.
    pub fn cycle_once(&mut self) -> (r: Result<bool, ExecError>)
        requires
            old(self).wf(),
        ensures
            final(self).wf(),
            final(self).has_display() == old(self).has_display(),
            final(self).has_keyboard() == old(self).has_keyboard(),
            match r {
                Ok(true) => old(self).has_keyboard() && final(self)@ == old(self)@,
                Ok(false) => exists|stim: Stimulus|
                    old(self).may_answer(stim) && #[trigger] cycled(old(self)@, stim) == Ok::<
                        MachineState,
                        ExecError,
                    >(final(self)@),
                Err(e) => final(self)@ == old(self)@ && forall|stim: Stimulus|
                    #[trigger] cycled(old(self)@, stim) == Err::<MachineState, ExecError>(e),
            },
            r == Ok::<bool, ExecError>(false) && !cycle_reads_stimulus(old(self)@) ==> forall|
                stim: Stimulus,
            |
                #[trigger] cycled(old(self)@, stim) == Ok::<MachineState, ExecError>(final(self)@),
    {
        if let Some(keyboard) = &mut self.keyboard {
            let quit: bool = keyboard.poll();
            if quit {
                return Ok(true);
            }
        }
        let opcode = match self.machine.fetch() {
            Ok(opcode) => opcode,
            Err(e) => {
                return Err(e);
            },
        };
        match opcode.to_instruction() {
            Ok(instruction) => {
                let r = self.handle_instruction(instruction);
                proof {
                    assert forall|stim: Stimulus| #[trigger]
                        cycled(old(self)@, stim) == executed(old(self)@, instruction, stim) by {}
                    if r is Ok {
                        let stim = choose|stim: Stimulus|
                            old(self).may_answer(stim) && #[trigger] executed(
                                old(self)@,
                                instruction,
                                stim,
                            ) == Ok::<MachineState, ExecError>(self@);
                        assert(cycled(old(self)@, stim) == Ok::<MachineState, ExecError>(self@));
                    }
                }
                match r {
                    Ok(_) => Ok(false),
                    Err(e) => Err(e),
                }
            },
            Err(_) => {
                self.machine.pass_over();
                proof {
                    let silent = Stimulus { random: 0, key_down: None, last_key: None };
                    assert(cycled(old(self)@, silent) == Ok::<MachineState, ExecError>(self@));
                }
                Ok(false)
            },
        }
    }

    /// Runs one cycle and applies the timer pulses that came due: what one
    /// turn of the run loop does. Where the keyboard asks to stop or the
    /// cycle fails, the timers are left alone.
    pub fn cycle(&mut self, pulses: u64) -> (r: Result<bool, ExecError>)
        requires
            old(self).wf(),
        ensures
            final(self).wf(),
            final(self).has_display() == old(self).has_display(),
            final(self).has_keyboard() == old(self).has_keyboard(),
            match r {
                Ok(true) => old(self).has_keyboard() && final(self)@ == old(self)@,
                Ok(false) => exists|stim: Stimulus|
                    old(self).may_answer(stim) && #[trigger] cycled_and_ticked(
                        old(self)@,
                        stim,
                        pulses as nat,
                    ) == Ok::<MachineState, ExecError>(final(self)@),
                Err(e) => final(self)@ == old(self)@ && forall|stim: Stimulus|
                    #[trigger] cycled_and_ticked(old(self)@, stim, pulses as nat) == Err::<
                        MachineState,
                        ExecError,
                    >(e),
            },
            r == Ok::<bool, ExecError>(false) && !cycle_reads_stimulus(old(self)@) ==> forall|
                stim: Stimulus,
            |
                #[trigger] cycled_and_ticked(old(self)@, stim, pulses as nat) == Ok::<
                    MachineState,
                    ExecError,
                >(final(self)@),
    {
        let r = self.cycle_once();
        let ghost mid = self@;
        match r {
            Ok(false) => {
                self.machine.tick(pulses);
            },
            _ => {},
        }
        proof {
            assert forall|stim: Stimulus|
                cycled(old(self)@, stim) == Ok::<MachineState, ExecError>(
                    mid,
                ) implies #[trigger] cycled_and_ticked(old(self)@, stim, pulses as nat) == Ok::<
                MachineState,
                ExecError,
            >(mid.ticked(pulses as nat)) by {}
            if let Err(e) = r {
                assert forall|stim: Stimulus| #[trigger]
                    cycled_and_ticked(old(self)@, stim, pulses as nat) == Err::<
                        MachineState,
                        ExecError,
                    >(e) by {
                    assert(cycled(old(self)@, stim) == Err::<MachineState, ExecError>(e));
                }
            }
            if r == Ok::<bool, ExecError>(false) {
                let stim = choose|stim: Stimulus|
                    old(self).may_answer(stim) && #[trigger] cycled(old(self)@, stim) == Ok::<
                        MachineState,
                        ExecError,
                    >(mid);
                assert(cycled_and_ticked(old(self)@, stim, pulses as nat) == Ok::<
                    MachineState,
                    ExecError,
                >(self@));
            }
        }
        r
    }
}

} // verus!
