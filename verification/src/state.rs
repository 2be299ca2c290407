//! The model of the machine and the meaning of its instructions.
//!
//! The state of the machine is a plain mathematical value, and what an
//! instruction does is a function of the state, the instruction and what the
//! outside world answered. The laws at the end are proved of that function.

use vstd::prelude::*;
use crate::frame::{blank, collides, drawn, sprite_at, touched};
use crate::opcode::{decode, decode_total_and_well_formed, Instruction, Register};
use crate::peripherals::{Chip8Key, PixelData};

verus! {

/// The built-in font: sixteen glyphs of five bytes, for the digits 0 to F.
pub open spec fn font() -> Seq<u8> {
    seq![
        0xF0u8, 0x90, 0x90, 0x90, 0xF0,
        0x20, 0x60, 0x20, 0x20, 0x70,
        0xF0, 0x10, 0xF0, 0x80, 0xF0,
        0xF0, 0x10, 0xF0, 0x10, 0xF0,
        0x90, 0x90, 0xF0, 0x10, 0x10,
        0xF0, 0x80, 0xF0, 0x10, 0xF0,
        0xF0, 0x80, 0xF0, 0x90, 0xF0,
        0xF0, 0x10, 0x20, 0x40, 0x40,
        0xF0, 0x90, 0xF0, 0x90, 0xF0,
        0xF0, 0x90, 0xF0, 0x10, 0xF0,
        0xF0, 0x90, 0xF0, 0x90, 0x90,
        0xE0, 0x90, 0xE0, 0x90, 0xE0,
        0xF0, 0x80, 0x80, 0x80, 0xF0,
        0xE0, 0x90, 0x90, 0x90, 0xE0,
        0xF0, 0x80, 0xF0, 0x80, 0xF0,
        0xF0, 0x80, 0xF0, 0x80, 0x80,
    ]
}

/// Why an instruction could not be executed. Each of these ends the run.
#[derive(Clone, Copy, Debug, PartialEq, Eq, Structural)]
pub enum ExecError {
    /// A call with sixteen return addresses already on the stack.
    StackOverflow,
    /// A return with no return address on the stack.
    StackUnderflow,
    /// A fetch or an access relative to the index register beyond memory.
    OutOfBoundsMemoryAccess,
}

/// What the outside world answered for one instruction.
#[derive(Clone, Copy, Debug, PartialEq, Eq, Structural)]
pub struct Stimulus {
    /// A random byte, read by `Rand`.
    pub random: u8,
    /// Whether the key that a key-skip instruction names is down; `None`
    /// where no keyboard answered.
    pub key_down: Option<bool>,
    /// The key pressed last and still held, read by `LoadKey`.
    pub last_key: Option<Chip8Key>,
}

/// Whether an instruction can be fetched at the address: both of its bytes
/// lie in memory.
pub open spec fn fetchable(addr: u16) -> bool {
    addr + 1 < 4096
}

/// The big-endian word at an address.
pub open spec fn word_at(memory: Seq<u8>, addr: u16) -> u16 {
    (memory[addr as int] * 0x100 + memory[addr + 1]) as u16
}

/// The three decimal digits of a byte, hundreds first.
pub open spec fn bcd(value: u8) -> Seq<u8> {
    seq![value / 100, (value / 10) % 10, value % 10]
}

/// The model of the machine.
#[verifier::ext_equal]
pub ghost struct MachineState {
    /// 4096 bytes.
    pub memory: Seq<u8>,
    /// The sixteen registers.
    pub v: Seq<u8>,
    pub pc: u16,
    pub index: u16,
    /// The return addresses, the most recent last.
    pub stack: Seq<u16>,
    pub delay_timer: u8,
    pub sound_timer: u8,
    /// 2048 pixels, row by row.
    pub frame: Seq<bool>,
}

impl MachineState {
    /// Memory, registers and frame have their sizes, and the stack holds at
    /// most sixteen return addresses, each the address of a call that was
    /// fetched.
    pub open spec fn wf(self) -> bool {
        &&& self.memory.len() == 4096
        &&& self.v.len() == 16
        &&& self.stack.len() <= 16
        &&& forall|i: int| 0 <= i < self.stack.len() ==> fetchable(#[trigger] self.stack[i])
        &&& self.frame.len() == 2048
    }

    /// The state of a machine that was just made.
    pub open spec fn initial() -> MachineState {
        MachineState {
            memory: font() + Seq::new(4016, |i: int| 0u8),
            v: Seq::new(16, |i: int| 0u8),
            pc: 0x200,
            index: 0,
            stack: Seq::empty(),
            delay_timer: 0,
            sound_timer: 0,
            frame: blank(),
        }
    }

    pub open spec fn with_pc(self, pc: u16) -> MachineState {
        MachineState { pc, ..self }
    }

    /// The default action after an instruction.
    pub open spec fn advance(self) -> MachineState {
        self.with_pc((self.pc + 2) as u16)
    }

    /// Skips the next instruction where the condition holds.
    pub open spec fn skip_if(self, condition: bool) -> MachineState {
        if condition {
            self.with_pc((self.pc + 4) as u16)
        } else {
            self.with_pc((self.pc + 2) as u16)
        }
    }

    pub open spec fn with_v(self, x: Register, value: u8) -> MachineState {
        MachineState { v: self.v.update(x as int, value), ..self }
    }

    pub open spec fn with_flag(self, value: u8) -> MachineState {
        self.with_v(15, value)
    }

    pub open spec fn with_index(self, index: u16) -> MachineState {
        MachineState { index, ..self }
    }

    /// The memory with a program at `0x200`.
    pub open spec fn loaded(self, program: Seq<u8>) -> MachineState {
        MachineState {
            memory: Seq::new(
                4096,
                |a: int|
                    if 0x200 <= a < 0x200 + program.len() {
                        program[a - 0x200]
                    } else {
                        self.memory[a]
                    },
            ),
            ..self
        }
    }

    /// The timers after a number of 60 Hz pulses: each goes down by one per
    /// pulse and stays at zero.
    pub open spec fn ticked(self, pulses: nat) -> MachineState {
        MachineState {
            delay_timer: if self.delay_timer >= pulses {
                (self.delay_timer - pulses) as u8
            } else {
                0
            },
            sound_timer: if self.sound_timer >= pulses {
                (self.sound_timer - pulses) as u8
            } else {
                0
            },
            ..self
        }
    }

    /// The rows of the sprite that a draw of `n` rows reads.
    pub open spec fn sprite(self, n: u8) -> Seq<u8> {
        Seq::new(n as nat, |r: int| self.memory[self.index + r])
    }

    /// Whether the bytes `index .. index + count` all lie in memory.
    pub open spec fn in_bounds(self, count: int) -> bool {
        count <= 0 || self.index + count <= 4096
    }
}

/// The machine after one instruction, or why it could not be executed.
///
/// The flag register is written before the result register, so where an
/// instruction names register 15 as its result, the result stays.
pub open spec fn executed(s: MachineState, ins: Instruction, stim: Stimulus) -> Result<
    MachineState,
    ExecError,
> {
    if !fetchable(s.pc) {
        Err(ExecError::OutOfBoundsMemoryAccess)
    } else {
        match ins {
            Instruction::SYS(_) => Ok(s.advance()),
            Instruction::Clear => Ok(MachineState { frame: blank(), ..s }.advance()),
            Instruction::Return => if s.stack.len() == 0 {
                Err(ExecError::StackUnderflow)
            } else {
                Ok(
                    MachineState {
                        pc: (s.stack.last() + 2) as u16,
                        stack: s.stack.drop_last(),
                        ..s
                    },
                )
            },
            Instruction::Jump(addr) => Ok(s.with_pc(addr)),
            Instruction::Call(addr) => if s.stack.len() >= 16 {
                Err(ExecError::StackOverflow)
            } else {
                Ok(MachineState { pc: addr, stack: s.stack.push(s.pc), ..s })
            },
            Instruction::SkipEqI(x, imm) => Ok(s.skip_if(s.v[x as int] == imm)),
            Instruction::SkipNeqI(x, imm) => Ok(s.skip_if(s.v[x as int] != imm)),
            Instruction::SkipEq(x, y) => Ok(s.skip_if(s.v[x as int] == s.v[y as int])),
            Instruction::LoadI(x, imm) => Ok(s.with_v(x, imm).advance()),
            Instruction::AddI(x, imm) => Ok(
                s.with_v(x, ((s.v[x as int] + imm) % 256) as u8).advance(),
            ),
            Instruction::LoadR(x, y) => Ok(s.with_v(x, s.v[y as int]).advance()),
            Instruction::Or(x, y) => Ok(s.with_v(x, s.v[x as int] | s.v[y as int]).advance()),
            Instruction::And(x, y) => Ok(s.with_v(x, s.v[x as int] & s.v[y as int]).advance()),
            Instruction::Xor(x, y) => Ok(s.with_v(x, s.v[x as int] ^ s.v[y as int]).advance()),
            Instruction::Add(x, y) => {
                let sum = s.v[x as int] + s.v[y as int];
                Ok(
                    s.with_flag(
                        if sum > 255 {
                            1
                        } else {
                            0
                        },
                    ).with_v(x, (sum % 256) as u8).advance(),
                )
            },
            Instruction::Sub(x, y) => {
                let a = s.v[x as int];
                let b = s.v[y as int];
                Ok(
                    s.with_flag(
                        if a >= b {
                            1
                        } else {
                            0
                        },
                    ).with_v(x, ((a - b) % 256) as u8).advance(),
                )
            },
            Instruction::ShiftR(x) => {
                let flagged = s.with_flag(s.v[x as int] % 2);
                Ok(flagged.with_v(x, flagged.v[x as int] / 2).advance())
            },
            Instruction::SubN(x, y) => {
                let a = s.v[x as int];
                let b = s.v[y as int];
                Ok(
                    s.with_flag(
                        if b >= a {
                            1
                        } else {
                            0
                        },
                    ).with_v(x, ((b - a) % 256) as u8).advance(),
                )
            },
            Instruction::ShiftL(x) => {
                let flagged = s.with_flag(s.v[x as int] / 128);
                Ok(flagged.with_v(x, ((flagged.v[x as int] * 2) % 256) as u8).advance())
            },
            Instruction::SkipNeq(x, y) => Ok(s.skip_if(s.v[x as int] != s.v[y as int])),
            Instruction::LoadIdx(addr) => Ok(s.with_index(addr).advance()),
            Instruction::JumpAddV0(addr) => Ok(s.with_pc((addr + s.v[0]) as u16)),
            Instruction::Rand(x, imm) => Ok(s.with_v(x, stim.random & imm).advance()),
            Instruction::Draw(x, y, n) => if !s.in_bounds(n as int) {
                Err(ExecError::OutOfBoundsMemoryAccess)
            } else {
                let vx = s.v[x as int];
                let vy = s.v[y as int];
                Ok(
                    MachineState { frame: drawn(s.frame, s.sprite(n), vx, vy), ..s }.with_flag(
                        if collides(s.frame, s.sprite(n), vx, vy) {
                            1
                        } else {
                            0
                        },
                    ).advance(),
                )
            },
            Instruction::SkipEqKey(x) => Ok(
                s.skip_if(s.v[x as int] < 16 && stim.key_down == Some(true)),
            ),
            Instruction::SkipNeqKey(x) => Ok(
                s.skip_if(s.v[x as int] < 16 && stim.key_down == Some(false)),
            ),
            Instruction::LoadFromDT(x) => Ok(s.with_v(x, s.delay_timer).advance()),
            Instruction::LoadKey(x) => match stim.last_key {
                Some(key) => Ok(s.with_v(x, key.code()).advance()),
                None => Ok(s),
            },
            Instruction::SetDT(x) => Ok(MachineState { delay_timer: s.v[x as int], ..s }.advance()),
            Instruction::SetST(x) => Ok(MachineState { sound_timer: s.v[x as int], ..s }.advance()),
            Instruction::AddIdx(x) => Ok(
                s.with_index(((s.index + s.v[x as int]) % 0x10000) as u16).advance(),
            ),
            Instruction::LoadSprite(x) => Ok(s.with_index((5 * s.v[x as int]) as u16).advance()),
            Instruction::LoadBCD(x) => if !s.in_bounds(3) {
                Err(ExecError::OutOfBoundsMemoryAccess)
            } else {
                let digits = bcd(s.v[x as int]);
                Ok(
                    MachineState {
                        memory: s.memory.update(s.index as int, digits[0]).update(
                            s.index + 1,
                            digits[1],
                        ).update(s.index + 2, digits[2]),
                        ..s
                    }.advance(),
                )
            },
            Instruction::StoreRegs(x) => if !s.in_bounds(x + 1) {
                Err(ExecError::OutOfBoundsMemoryAccess)
            } else {
                Ok(
                    MachineState {
                        memory: Seq::new(
                            4096,
                            |a: int|
                                if s.index <= a <= s.index + x {
                                    s.v[a - s.index]
                                } else {
                                    s.memory[a]
                                },
                        ),
                        ..s
                    }.advance(),
                )
            },
            Instruction::ReadRegs(x) => if !s.in_bounds(x + 1) {
                Err(ExecError::OutOfBoundsMemoryAccess)
            } else {
                Ok(
                    MachineState {
                        v: Seq::new(
                            16,
                            |i: int|
                                if i <= x {
                                    s.memory[s.index + i]
                                } else {
                                    s.v[i]
                                },
                        ),
                        ..s
                    }.advance(),
                )
            },
        }
    }
}

/// The pixels that an instruction hands to the display: those that a draw
/// touched, with their new values, and none for any other instruction.
pub open spec fn presented(s: MachineState, ins: Instruction) -> Seq<PixelData> {
    match ins {
        Instruction::Draw(x, y, n) => touched(
            drawn(s.frame, s.sprite(n), s.v[x as int], s.v[y as int]),
            n as int,
            s.v[x as int],
            s.v[y as int],
        ),
        _ => Seq::empty(),
    }
}

/// The machine after one cycle: fetch at the program counter, decode,
/// execute. A word that does not decode is passed over.
pub open spec fn cycled(s: MachineState, stim: Stimulus) -> Result<MachineState, ExecError> {
    if !fetchable(s.pc) {
        Err(ExecError::OutOfBoundsMemoryAccess)
    } else {
        match decode(word_at(s.memory, s.pc)) {
            Some(ins) => executed(s, ins, stim),
            None => Ok(s.advance()),
        }
    }
}

/// The machine after a cycle and the timer pulses that follow it.
pub open spec fn cycled_and_ticked(s: MachineState, stim: Stimulus, pulses: nat) -> Result<
    MachineState,
    ExecError,
> {
    match cycled(s, stim) {
        Ok(after) => Ok(after.ticked(pulses)),
        Err(e) => Err(e),
    }
}

/// The pixels that a cycle hands to the display.
pub open spec fn cycle_presents(s: MachineState) -> Seq<PixelData> {
    match decode(word_at(s.memory, s.pc)) {
        Some(ins) => presented(s, ins),
        None => Seq::empty(),
    }
}

impl Instruction {
    /// Whether what the instruction does depends on an answer of the outside
    /// world: a random byte or the keyboard.
    pub open spec fn reads_stimulus(self) -> bool {
        self is Rand || self is SkipEqKey || self is SkipNeqKey || self is LoadKey
    }
}

/// Whether the word at the program counter decodes to an instruction that
/// depends on an answer of the outside world.
pub open spec fn cycle_reads_stimulus(s: MachineState) -> bool {
    fetchable(s.pc) && match decode(word_at(s.memory, s.pc)) {
        Some(ins) => ins.reads_stimulus(),
        None => false,
    }
}

/// An instruction that asks nothing of the outside world does the same
/// whatever the outside world would have answered.
pub proof fn executed_ignores_unread_stimulus(
    s: MachineState,
    ins: Instruction,
    a: Stimulus,
    b: Stimulus,
)
    requires
        !ins.reads_stimulus(),
    ensures
        executed(s, ins, a) == executed(s, ins, b),
{
}

/// Whether an instruction fails does not depend on the outside world.
pub proof fn errors_ignore_stimulus(s: MachineState, ins: Instruction, a: Stimulus, b: Stimulus)
    ensures
        executed(s, ins, a) is Err ==> executed(s, ins, b) == executed(s, ins, a),
        cycled(s, a) is Err ==> cycled(s, b) == cycled(s, a),
{
}

/// Whatever an instruction does to a well-formed machine leaves it well
/// formed: the stack keeps within its sixteen places, with return addresses
/// that can be fetched from, and memory, registers and frame keep their sizes.
pub proof fn executed_keeps_wf(s: MachineState, ins: Instruction, stim: Stimulus)
    requires
        s.wf(),
        ins.wf(),
    ensures
        executed(s, ins, stim) matches Ok(after) ==> after.wf(),
{
    match ins {
        Instruction::Return => {
            if s.stack.len() > 0 && fetchable(s.pc) {
                let after = executed(s, ins, stim)->Ok_0;
                assert forall|i: int| 0 <= i < after.stack.len() implies fetchable(
                    #[trigger] after.stack[i],
                ) by {
                    assert(after.stack[i] == s.stack[i]);
                }
            }
        },
        Instruction::Call(_) => {
            if s.stack.len() < 16 && fetchable(s.pc) {
                let after = executed(s, ins, stim)->Ok_0;
                assert forall|i: int| 0 <= i < after.stack.len() implies fetchable(
                    #[trigger] after.stack[i],
                ) by {
                    if i < s.stack.len() {
                        assert(after.stack[i] == s.stack[i]);
                    }
                }
            }
        },
        _ => {},
    }
}

/// A cycle leaves a well-formed machine well formed.
pub proof fn cycled_keeps_wf(s: MachineState, stim: Stimulus)
    requires
        s.wf(),
    ensures
        cycled(s, stim) matches Ok(after) ==> after.wf(),
{
    if fetchable(s.pc) {
        let word = word_at(s.memory, s.pc);
        decode_total_and_well_formed(word);
        if let Some(ins) = decode(word) {
            executed_keeps_wf(s, ins, stim);
        }
    }
}

impl MachineState {
    /// The program counter and every return address are even.
    pub open spec fn aligned(self) -> bool {
        &&& self.pc % 2 == 0
        &&& forall|i: int| 0 <= i < self.stack.len() ==> (#[trigger] self.stack[i]) % 2 == 0
    }

    /// Whether the instruction, where it assigns the program counter,
    /// assigns an even address.
    pub open spec fn lands_even(self, ins: Instruction) -> bool {
        match ins {
            Instruction::Jump(addr) => addr % 2 == 0,
            Instruction::Call(addr) => addr % 2 == 0,
            Instruction::JumpAddV0(addr) => (addr + self.v[0]) % 2 == 0,
            _ => true,
        }
    }
}

/// The program counter stays even for as long as the program jumps to even
/// addresses only: every other instruction moves it by two or by four, and a
/// return resumes two behind an even address.
pub proof fn even_program_counter_stays_even(s: MachineState, ins: Instruction, stim: Stimulus)
    requires
        s.wf(),
        ins.wf(),
        s.aligned(),
        s.lands_even(ins),
    ensures
        executed(s, ins, stim) matches Ok(after) ==> after.aligned(),
{
    if let Ok(after) = executed(s, ins, stim) {
        match ins {
            Instruction::Return => {
                assert(s.stack.last() == s.stack[s.stack.len() - 1]);
                assert forall|i: int| 0 <= i < after.stack.len() implies (
                #[trigger] after.stack[i]) % 2 == 0 by {
                    assert(after.stack[i] == s.stack[i]);
                }
            },
            Instruction::Call(_) => {
                assert forall|i: int| 0 <= i < after.stack.len() implies (
                #[trigger] after.stack[i]) % 2 == 0 by {
                    if i < s.stack.len() {
                        assert(after.stack[i] == s.stack[i]);
                    }
                }
            },
            _ => {},
        }
    }
}

/// A call followed by a return resumes behind the call: after the call the
/// program counter is the target and the stack is one deeper; after the
/// return the program counter stands two behind where it stood before the
/// call, the stack is as deep as it was, and nothing else has changed.
///
/// The call must find room on the stack, and the return must be fetched at
/// the target.
pub proof fn call_and_return_resume(s: MachineState, target: u16, a: Stimulus, b: Stimulus)
    requires
        s.wf(),
        fetchable(s.pc),
        fetchable(target),
        s.stack.len() < 16,
    ensures
        executed(s, Instruction::Call(target), a) is Ok,
        ({
            let called = executed(s, Instruction::Call(target), a)->Ok_0;
            &&& called.pc == target
            &&& called.stack.len() == s.stack.len() + 1
            &&& executed(called, Instruction::Return, b) is Ok
            &&& ({
                let returned = executed(called, Instruction::Return, b)->Ok_0;
                &&& returned.pc == s.pc + 2
                &&& returned.stack == s.stack
                &&& returned == s.advance()
            })
        }),
{
    let called = executed(s, Instruction::Call(target), a)->Ok_0;
    let returned = executed(called, Instruction::Return, b)->Ok_0;
    assert(called.stack.last() == s.pc);
    assert(returned.stack =~= s.stack);
    assert(returned =~= s.advance());
}

/// Drawing a sprite twice in a row at one place gives the frame back, and
/// the flag register holds 1 after the second draw exactly where the sprite
/// has a set bit on a pixel that was off at first.
///
/// Neither coordinate may come from the flag register, which the first draw
/// changes, and both draws must be fetched.
pub proof fn draw_twice_restores_frame(
    s: MachineState,
    x: Register,
    y: Register,
    n: u8,
    a: Stimulus,
    b: Stimulus,
)
    requires
        s.wf(),
        x < 15,
        y < 15,
        n < 16,
        s.pc + 3 < 4096,
        s.in_bounds(n as int),
    ensures
        executed(s, Instruction::Draw(x, y, n), a) is Ok,
        ({
            let once = executed(s, Instruction::Draw(x, y, n), a)->Ok_0;
            &&& executed(once, Instruction::Draw(x, y, n), b) is Ok
            &&& ({
                let twice = executed(once, Instruction::Draw(x, y, n), b)->Ok_0;
                &&& twice.frame == s.frame
                &&& twice.v[15] == 0 || twice.v[15] == 1
                &&& twice.v[15] == 1 <==> exists|p: int|
                    0 <= p < 2048 && !s.frame[p] && sprite_at(
                        s.sprite(n),
                        s.v[x as int],
                        s.v[y as int],
                        p % 64,
                        p / 64,
                    )
            })
        }),
{
    let once = executed(s, Instruction::Draw(x, y, n), a)->Ok_0;
    assert(once.sprite(n) =~= s.sprite(n));
    crate::frame::draw_twice_restores(s.frame, s.sprite(n), s.v[x as int], s.v[y as int]);
}

/// Timer pulses add up: the pulses of two drainings count as one draining
/// of as many pulses, and no pulses change nothing.
pub proof fn ticks_add_up(s: MachineState, first: nat, second: nat)
    ensures
        s.ticked(first).ticked(second) == s.ticked(first + second),
        s.ticked(0) == s,
{
}

/// Whether the cycle that starts in the state executes an instruction that
/// sets the delay timer.
pub open spec fn cycle_sets_delay_timer(s: MachineState) -> bool {
    fetchable(s.pc) && decode(word_at(s.memory, s.pc)) matches Some(Instruction::SetDT(_))
}

/// A cycle moves the delay timer by the pulses that came with it and by
/// nothing else, unless it executes the instruction that sets the timer:
/// with no pulse the timer stays, whatever was executed.
pub proof fn cycle_counts_down_by_pulses(s: MachineState, stim: Stimulus, pulses: nat)
    requires
        cycled_and_ticked(s, stim, pulses) is Ok,
        !cycle_sets_delay_timer(s),
    ensures
        cycled_and_ticked(s, stim, pulses)->Ok_0.delay_timer == s.ticked(pulses).delay_timer,
{
}

/// The machine after a run of cycles, each with its answer of the outside
/// world and the pulses that came with it. The first failure ends the run.
pub open spec fn ran(s: MachineState, turns: Seq<(Stimulus, nat)>) -> Result<
    MachineState,
    ExecError,
>
    decreases turns.len(),
{
    if turns.len() == 0 {
        Ok(s)
    } else {
        match ran(s, turns.drop_last()) {
            Ok(before) => cycled_and_ticked(before, turns.last().0, turns.last().1),
            Err(e) => Err(e),
        }
    }
}

/// The pulses of a run of cycles, taken together.
pub open spec fn pulses_of(turns: Seq<(Stimulus, nat)>) -> nat
    decreases turns.len(),
{
    if turns.len() == 0 {
        0
    } else {
        pulses_of(turns.drop_last()) + turns.last().1
    }
}

/// The delay timer goes by the pulses, not by the cycles: after a run of
/// any number of cycles, none of which set the timer, it has gone down by
/// the pulses of the run taken together, and has stopped at zero.
pub proof fn timer_goes_by_pulses_not_cycles(s: MachineState, turns: Seq<(Stimulus, nat)>)
    requires
        ran(s, turns) is Ok,
        forall|k: int|
            0 <= k < turns.len() ==> !cycle_sets_delay_timer(
                #[trigger] ran(s, turns.take(k))->Ok_0,
            ),
    ensures
        ran(s, turns)->Ok_0.delay_timer == s.ticked(pulses_of(turns)).delay_timer,
    decreases turns.len(),
{
    if turns.len() > 0 {
        let shorter = turns.drop_last();
        assert(shorter =~= turns.take(turns.len() - 1));
        assert forall|k: int| 0 <= k < shorter.len() implies !cycle_sets_delay_timer(
            #[trigger] ran(s, shorter.take(k))->Ok_0,
        ) by {
            assert(shorter.take(k) =~= turns.take(k));
        }
        timer_goes_by_pulses_not_cycles(s, shorter);
        let before = ran(s, shorter)->Ok_0;
        assert(!cycle_sets_delay_timer(ran(s, turns.take(turns.len() - 1))->Ok_0));
        cycle_counts_down_by_pulses(before, turns.last().0, turns.last().1);
    }
}

} // verus!
