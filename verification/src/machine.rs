//! The machine itself: memory, registers, call stack, timers and frame
//! buffer, and the execution of instructions on them.
//!
//! Nothing in this module reaches a display, a keyboard, a clock or a random
//! number generator: what the outside world answered comes in as a
//! `Stimulus`.

use vstd::prelude::*;
use crate::frame::FrameBuffer;
use crate::opcode::{Instruction, OpCode, Register};
use crate::peripherals::PixelData;
use crate::state::{
    cycle_presents, cycled, executed, fetchable, font, presented, word_at, ExecError, MachineState,
    Stimulus,
};

verus! {

/// Where a program is loaded and where execution starts.
pub const PROGRAM_START: u16 = 0x200;

/// The longest program that fits between `PROGRAM_START` and the end of memory.
pub const MAX_PROGRAM_SIZE: usize = 3584;

/// Writes the built-in font to the first eighty bytes of memory.
pub fn populate_builtin_sprites(memory: &mut [u8; 4096])
    ensures
        final(memory)@.subrange(0, 80) == font(),
        final(memory)@.subrange(80, 4096) == old(memory)@.subrange(80, 4096),
{
    let glyphs: [u8; 80] = [
        0xF0, 0x90, 0x90, 0x90, 0xF0,
        0x20, 0x60, 0x20, 0x20, 0x70,
        0xF0, 0x10, 0xF0, 0x80, 0xF0,
        0xF0, 0x10, 0xF0, 0x10, 0xF0,
        0x90, 0x90, 0xF0, 0x10, 0x10,
        0xF0, 0x80, 0xF0, 0x10, 0xF0,
        0xF0, 0x80, 0xF0, 0x90, 0xF0,
        0xF0, 0x10, 0x20, 0x40, 0x40,
        0xF0, 0x90, 0xF0, 0x90, 0xF0,
        0xF0, 0x90, 0xF0, 0x10, 0xF0,
        0xF0, 0x90, 0xF0, 0x90, 0x90,
        0xE0, 0x90, 0xE0, 0x90, 0xE0,
        0xF0, 0x80, 0x80, 0x80, 0xF0,
        0xE0, 0x90, 0x90, 0x90, 0xE0,
        0xF0, 0x80, 0xF0, 0x80, 0xF0,
        0xF0, 0x80, 0xF0, 0x80, 0x80,
    ];
    assert(glyphs@ =~= font());
    let mut i: usize = 0;
    while i < 80
        invariant
            i <= 80,
            glyphs@ == font(),
            forall|j: int| 0 <= j < i ==> memory@[j] == font()[j],
            forall|j: int| i <= j < 4096 ==> memory@[j] == old(memory)@[j],
        decreases 80 - i,
    {
        memory[i] = glyphs[i];
        i = i + 1;
    }
    assert(memory@.subrange(0, 80) =~= font());
    assert(memory@.subrange(80, 4096) =~= old(memory)@.subrange(80, 4096));
}

/// The sixteen general registers; register 15 doubles as the flag register.
#[derive(Debug)]
pub struct Registers {
    registers: [u8; 16],
}

impl View for Registers {
    type V = Seq<u8>;

    closed spec fn view(&self) -> Seq<u8> {
        self.registers@
    }
}

impl Registers {
    /// Sixteen registers holding zero.
    pub fn new() -> (r: Registers)
        ensures
            r@ == Seq::new(16, |i: int| 0u8),
    {
        let r = Registers { registers: [0; 16] };
        assert(r@ =~= Seq::new(16, |i: int| 0u8));
        r
    }

    /// There are sixteen registers.
    pub proof fn len_is_fixed(&self)
        ensures
            self@.len() == 16,
    {
    }

    pub fn get(&self, reg: Register) -> (r: u8)
        requires
            reg < 16,
        ensures
            r == self@[reg as int],
    {
        self.registers[reg as usize]
    }

    pub fn set(&mut self, reg: Register, value: u8)
        requires
            reg < 16,
        ensures
            final(self)@ == old(self)@.update(reg as int, value),
    {
        self.registers[reg as usize] = value;
    }

    /// Sets the flag register.
    pub fn set_0xf(&mut self, value: u8)
        ensures
            final(self)@ == old(self)@.update(15, value),
    {
        self.registers[0xF] = value;
    }
}

/// The bit operations of the shifts, as arithmetic.
proof fn shifts_are_arithmetic(value: u8)
    ensures
        value & 1 == value % 2,
        value >> 1 == value / 2,
        value >> 7 == value / 128,
        (value << 1) as int == (value * 2) % 256,
{
    assert(value & 1 == value % 2) by (bit_vector);
    assert(value >> 1 == value / 2) by (bit_vector);
    assert(value >> 7 == value / 128) by (bit_vector);
    assert((value << 1) as int == (value * 2) % 256) by (bit_vector);
}

/// The machine: memory, registers, call stack, timers and frame buffer.
pub struct Machine {
    memory: [u8; 4096],
    registers: Registers,
    pc: u16,
    index: u16,
    stack: [u16; 16],
    stack_ptr: u8,
    delay_timer: u8,
    sound_timer: u8,
    frame: FrameBuffer,
}

impl View for Machine {
    type V = MachineState;

    closed spec fn view(&self) -> MachineState {
        MachineState {
            memory: self.memory@,
            v: self.registers@,
            pc: self.pc,
            index: self.index,
            stack: self.stack@.take(self.stack_ptr as int),
            delay_timer: self.delay_timer,
            sound_timer: self.sound_timer,
            frame: self.frame@,
        }
    }
}

impl Machine {
    /// The stack pointer lies within the stack, and the model is well formed.
    pub closed spec fn wf(&self) -> bool {
        self.stack_ptr <= 16 && self@.wf()
    }

    /// A well-formed machine has a well-formed model.
    pub proof fn wf_view(&self)
        requires
            self.wf(),
        ensures
            self@.wf(),
    {
    }

    /// A machine with the font in memory, the program counter at `0x200`
    /// and everything else zero.
    pub fn new() -> (r: Machine)
        ensures
            r.wf(),
            r@ == MachineState::initial(),
    {
        let mut memory: [u8; 4096] = [0; 4096];
        populate_builtin_sprites(&mut memory);
        let r = Machine {
            memory,
            registers: Registers::new(),
            pc: PROGRAM_START,
            index: 0,
            stack: [0; 16],
            stack_ptr: 0,
            delay_timer: 0,
            sound_timer: 0,
            frame: FrameBuffer::new(),
        };
        proof {
            assert(r@.memory =~= MachineState::initial().memory) by {
                assert forall|i: int| 0 <= i < 4096 implies r@.memory[i]
                    == MachineState::initial().memory[i] by {
                    if i < 80 {
                        assert(r@.memory[i] == memory@.subrange(0, 80)[i]);
                    } else {
                        assert(r@.memory[i] == memory@.subrange(80, 4096)[i - 80]);
                    }
                }
            }
            assert(r@.stack =~= MachineState::initial().stack);
            assert(r@ =~= MachineState::initial());
        }
        r
    }

    /// Loads a program at `0x200`. A program of more than 3584 bytes is
    /// refused with the text `Invalid program length!`, and nothing changes.
    pub fn upload_rom(&mut self, program: &[u8]) -> (r: Result<(), String>)
        requires
            old(self).wf(),
        ensures
            final(self).wf(),
            match r {
                Ok(_) => program@.len() <= 3584 && final(self)@ == old(self)@.loaded(program@),
                Err(e) => program@.len() > 3584 && final(self)@ == old(self)@ && e@
                    == "Invalid program length!"@,
            },
    {
        if program.len() > MAX_PROGRAM_SIZE {
            return Err("Invalid program length!".to_string());
        }
        let mut i: usize = 0;
        while i < program.len()
            invariant
                i <= program@.len() <= 3584,
                self.wf(),
                forall|a: int| 0x200 <= a < 0x200 + i ==> self.memory@[a] == program@[a - 0x200],
                forall|a: int|
                    0 <= a < 4096 && !(0x200 <= a < 0x200 + i) ==> self.memory@[a]
                        == old(self).memory@[a],
                self.registers == old(self).registers,
                self.pc == old(self).pc,
                self.index == old(self).index,
                self.stack == old(self).stack,
                self.stack_ptr == old(self).stack_ptr,
                self.delay_timer == old(self).delay_timer,
                self.sound_timer == old(self).sound_timer,
                self.frame == old(self).frame,
            decreases program@.len() - i,
        {
            self.memory[0x200 + i] = program[i];
            i = i + 1;
        }
        proof {
            assert(self@.memory =~= old(self)@.loaded(program@).memory);
            assert(self@ =~= old(self)@.loaded(program@));
        }
        Ok(())
    }

    pub fn pc(&self) -> (r: u16)
        ensures
            r == self@.pc,
    {
        self.pc
    }

    pub fn index(&self) -> (r: u16)
        ensures
            r == self@.index,
    {
        self.index
    }

    pub fn register(&self, reg: Register) -> (r: u8)
        requires
            reg < 16,
        ensures
            r == self@.v[reg as int],
    {
        self.registers.get(reg)
    }

    pub fn memory_at(&self, addr: u16) -> (r: u8)
        requires
            addr < 4096,
        ensures
            r == self@.memory[addr as int],
    {
        self.memory[addr as usize]
    }

    /// The number of return addresses on the stack.
    pub fn stack_depth(&self) -> (r: u8)
        requires
            self.wf(),
        ensures
            r == self@.stack.len(),
    {
        self.stack_ptr
    }

    pub fn delay_timer(&self) -> (r: u8)
        ensures
            r == self@.delay_timer,
    {
        self.delay_timer
    }

    pub fn sound_timer(&self) -> (r: u8)
        ensures
            r == self@.sound_timer,
    {
        self.sound_timer
    }

    pub fn frame(&self) -> (r: &FrameBuffer)
        ensures
            r@ == self@.frame,
    {
        &self.frame
    }

    /// Applies a number of 60 Hz pulses to the two timers.
    pub fn tick(&mut self, pulses: u64)
        requires
            old(self).wf(),
        ensures
            final(self).wf(),
            final(self)@ == old(self)@.ticked(pulses as nat),
    {
        if pulses >= self.delay_timer as u64 {
            self.delay_timer = 0;
        } else {
            self.delay_timer = self.delay_timer - pulses as u8;
        }
        if pulses >= self.sound_timer as u64 {
            self.sound_timer = 0;
        } else {
            self.sound_timer = self.sound_timer - pulses as u8;
        }
    }

    /// Reads the instruction word at the program counter.
    pub fn fetch(&self) -> (r: Result<OpCode, ExecError>)
        ensures
            match r {
                Ok(opcode) => fetchable(self@.pc) && opcode@ == word_at(self@.memory, self@.pc),
                Err(e) => !fetchable(self@.pc) && e == ExecError::OutOfBoundsMemoryAccess,
            },
    {
        if self.pc >= 4095 {
            return Err(ExecError::OutOfBoundsMemoryAccess);
        }
        let bytes: [u8; 2] = [self.memory[self.pc as usize], self.memory[(self.pc + 1) as usize]];
        Ok(OpCode::new(&bytes))
    }

    fn set_v(&mut self, x: Register, value: u8)
        requires
            old(self).wf(),
            x < 16,
        ensures
            final(self).wf(),
            final(self)@ == old(self)@.with_v(x, value),
    {
        self.registers.set(x, value);
    }

    fn set_flag(&mut self, on: bool)
        requires
            old(self).wf(),
        ensures
            final(self).wf(),
            final(self)@ == old(self)@.with_flag(
                if on {
                    1u8
                } else {
                    0u8
                },
            ),
    {
        if on {
            self.registers.set_0xf(1);
        } else {
            self.registers.set_0xf(0);
        }
    }

    fn advance(&mut self)
        requires
            old(self).wf(),
            fetchable(old(self)@.pc),
        ensures
            final(self).wf(),
            final(self)@ == old(self)@.advance(),
    {
        self.pc = self.pc + 2;
    }

    fn skip_if(&mut self, condition: bool)
        requires
            old(self).wf(),
            fetchable(old(self)@.pc),
        ensures
            final(self).wf(),
            final(self)@ == old(self)@.skip_if(condition),
    {
        if condition {
            self.pc = self.pc + 4;
        } else {
            self.pc = self.pc + 2;
        }
    }

    /// Passes over the word at the program counter without executing
    /// anything: what a cycle does with a word that does not decode.
    pub(crate) fn pass_over(&mut self)
        requires
            old(self).wf(),
            fetchable(old(self)@.pc),
        ensures
            final(self).wf(),
            final(self)@ == old(self)@.advance(),
    {
        self.advance();
    }

    /// Executes one instruction. On an error nothing has changed.
    pub fn execute(&mut self, instruction: Instruction, stimulus: Stimulus) -> (r: Result<
        Vec<PixelData>,
        ExecError,
    >)
        requires
            old(self).wf(),
            instruction.wf(),
        ensures
            final(self).wf(),
            match r {
                Ok(pixels) => executed(old(self)@, instruction, stimulus) == Ok::<
                    MachineState,
                    ExecError,
                >(final(self)@) && pixels@ == presented(old(self)@, instruction),
                Err(e) => executed(old(self)@, instruction, stimulus) == Err::<
                    MachineState,
                    ExecError,
                >(e) && final(self)@ == old(self)@,
            },
    {
        if self.pc >= 4095 {
            return Err(ExecError::OutOfBoundsMemoryAccess);
        }
        match instruction {
            Instruction::SYS(_)
            | Instruction::Clear
            | Instruction::Jump(_)
            | Instruction::SkipEqI(_, _)
            | Instruction::SkipNeqI(_, _)
            | Instruction::SkipEq(_, _)
            | Instruction::SkipNeq(_, _)
            | Instruction::JumpAddV0(_)
            | Instruction::SkipEqKey(_)
            | Instruction::SkipNeqKey(_) => {
                self.execute_flow(instruction, stimulus);
                Ok(Vec::new())
            },
            Instruction::LoadI(_, _)
            | Instruction::AddI(_, _)
            | Instruction::LoadR(_, _)
            | Instruction::Or(_, _)
            | Instruction::And(_, _)
            | Instruction::Xor(_, _)
            | Instruction::Add(_, _)
            | Instruction::Sub(_, _)
            | Instruction::ShiftR(_)
            | Instruction::SubN(_, _)
            | Instruction::ShiftL(_) => {
                self.execute_arithmetic(instruction);
                Ok(Vec::new())
            },
            Instruction::LoadIdx(_)
            | Instruction::Rand(_, _)
            | Instruction::LoadFromDT(_)
            | Instruction::LoadKey(_)
            | Instruction::SetDT(_)
            | Instruction::SetST(_)
            | Instruction::AddIdx(_)
            | Instruction::LoadSprite(_) => {
                self.execute_transfer(instruction, stimulus);
                Ok(Vec::new())
            },
            Instruction::Return => self.execute_return(),
            Instruction::Call(addr) => self.execute_call(addr),
            Instruction::Draw(x, y, n) => self.execute_draw(x, y, n),
            Instruction::LoadBCD(x) => self.execute_load_bcd(x),
            Instruction::StoreRegs(x) => self.execute_store_regs(x),
            Instruction::ReadRegs(x) => self.execute_read_regs(x),
        }
    }

    /// The instructions that only move the program counter, and `Clear`.
    #[verifier::rlimit(40)]
    fn execute_flow(&mut self, instruction: Instruction, stimulus: Stimulus)
        requires
            old(self).wf(),
            instruction.wf(),
            fetchable(old(self)@.pc),
            instruction is SYS || instruction is Clear || instruction is Jump
                || instruction is SkipEqI || instruction is SkipNeqI || instruction is SkipEq
                || instruction is SkipNeq || instruction is JumpAddV0 || instruction is SkipEqKey
                || instruction is SkipNeqKey,
        ensures
            final(self).wf(),
            executed(old(self)@, instruction, stimulus) == Ok::<MachineState, ExecError>(
                final(self)@,
            ),
    {
        match instruction {
            Instruction::SYS(_) => {
                self.advance();
            },
            Instruction::Clear => {
                self.frame.clear();
                self.advance();
            },
            Instruction::Jump(addr) => {
                self.pc = addr;
            },
            Instruction::SkipEqI(x, imm) => {
                let equal: bool = self.registers.get(x) == imm;
                self.skip_if(equal);
            },
            Instruction::SkipNeqI(x, imm) => {
                let differ: bool = self.registers.get(x) != imm;
                self.skip_if(differ);
            },
            Instruction::SkipEq(x, y) => {
                let equal: bool = self.registers.get(x) == self.registers.get(y);
                self.skip_if(equal);
            },
            Instruction::SkipNeq(x, y) => {
                let differ: bool = self.registers.get(x) != self.registers.get(y);
                self.skip_if(differ);
            },
            Instruction::JumpAddV0(addr) => {
                self.pc = addr + self.registers.get(0x0) as u16;
            },
            Instruction::SkipEqKey(x) => {
                let skip: bool = self.registers.get(x) < 16 && match stimulus.key_down {
                    Some(down) => down,
                    None => false,
                };
                self.skip_if(skip);
            },
            Instruction::SkipNeqKey(x) => {
                let skip: bool = self.registers.get(x) < 16 && match stimulus.key_down {
                    Some(down) => !down,
                    None => false,
                };
                self.skip_if(skip);
            },
            _ => {},
        }
    }

    /// The instructions that compute a register from registers.
    #[verifier::rlimit(40)]
    fn execute_arithmetic(&mut self, instruction: Instruction)
        requires
            old(self).wf(),
            instruction.wf(),
            fetchable(old(self)@.pc),
            instruction is LoadI || instruction is AddI || instruction is LoadR
                || instruction is Or || instruction is And || instruction is Xor
                || instruction is Add || instruction is Sub || instruction is ShiftR
                || instruction is SubN || instruction is ShiftL,
        ensures
            final(self).wf(),
            executed(old(self)@, instruction, arbitrary()) == Ok::<MachineState, ExecError>(
                final(self)@,
            ),
    {
        match instruction {
            Instruction::LoadI(x, imm) => {
                self.set_v(x, imm);
            },
            Instruction::AddI(x, imm) => {
                let value: u8 = self.registers.get(x).wrapping_add(imm);
                self.set_v(x, value);
            },
            Instruction::LoadR(x, y) => {
                let value: u8 = self.registers.get(y);
                self.set_v(x, value);
            },
            Instruction::Or(x, y) => {
                let value: u8 = self.registers.get(x) | self.registers.get(y);
                self.set_v(x, value);
            },
            Instruction::And(x, y) => {
                let value: u8 = self.registers.get(x) & self.registers.get(y);
                self.set_v(x, value);
            },
            Instruction::Xor(x, y) => {
                let value: u8 = self.registers.get(x) ^ self.registers.get(y);
                self.set_v(x, value);
            },
            Instruction::Add(x, y) => {
                let a: u8 = self.registers.get(x);
                let b: u8 = self.registers.get(y);
                let carry: bool = a as u16 + b as u16 > 0xFF;
                self.set_flag(carry);
                self.set_v(x, a.wrapping_add(b));
            },
            Instruction::Sub(x, y) => {
                let a: u8 = self.registers.get(x);
                let b: u8 = self.registers.get(y);
                self.set_flag(a >= b);
                self.set_v(x, a.wrapping_sub(b));
            },
            Instruction::ShiftR(x) => {
                let low: u8 = self.registers.get(x) & 0b1;
                proof {
                    shifts_are_arithmetic(self.registers@[x as int]);
                }
                self.registers.set_0xf(low);
                let value: u8 = self.registers.get(x) >> 1;
                proof {
                    shifts_are_arithmetic(self.registers@[x as int]);
                }
                self.set_v(x, value);
            },
            Instruction::SubN(x, y) => {
                let a: u8 = self.registers.get(x);
                let b: u8 = self.registers.get(y);
                self.set_flag(b >= a);
                self.set_v(x, b.wrapping_sub(a));
            },
            Instruction::ShiftL(x) => {
                let high: u8 = self.registers.get(x) >> 7;
                proof {
                    shifts_are_arithmetic(self.registers@[x as int]);
                }
                self.registers.set_0xf(high);
                let value: u8 = self.registers.get(x) << 1;
                proof {
                    shifts_are_arithmetic(self.registers@[x as int]);
                }
                self.set_v(x, value);
            },
            _ => {},
        }
        self.advance();
    }

    /// The instructions that move a value between the registers, the index
    /// register, the timers and the outside world.
    #[verifier::rlimit(40)]
    fn execute_transfer(&mut self, instruction: Instruction, stimulus: Stimulus)
        requires
            old(self).wf(),
            instruction.wf(),
            fetchable(old(self)@.pc),
            instruction is LoadIdx || instruction is Rand || instruction is LoadFromDT
                || instruction is LoadKey || instruction is SetDT || instruction is SetST
                || instruction is AddIdx || instruction is LoadSprite,
        ensures
            final(self).wf(),
            executed(old(self)@, instruction, stimulus) == Ok::<MachineState, ExecError>(
                final(self)@,
            ),
    {
        match instruction {
            Instruction::LoadIdx(addr) => {
                self.index = addr;
                self.advance();
            },
            Instruction::Rand(x, imm) => {
                self.set_v(x, stimulus.random & imm);
                self.advance();
            },
            Instruction::LoadFromDT(x) => {
                let value: u8 = self.delay_timer;
                self.set_v(x, value);
                self.advance();
            },
            Instruction::LoadKey(x) => {
                if let Some(key) = stimulus.last_key {
                    self.set_v(x, key.code());
                    self.advance();
                }
            },
            Instruction::SetDT(x) => {
                self.delay_timer = self.registers.get(x);
                self.advance();
            },
            Instruction::SetST(x) => {
                self.sound_timer = self.registers.get(x);
                self.advance();
            },
            Instruction::AddIdx(x) => {
                self.index = self.index.wrapping_add(self.registers.get(x) as u16);
                self.advance();
            },
            Instruction::LoadSprite(x) => {
                self.index = 5 * (self.registers.get(x) as u16);
                self.advance();
            },
            _ => {},
        }
    }

    fn execute_return(&mut self) -> (r: Result<Vec<PixelData>, ExecError>)
        requires
            old(self).wf(),
            fetchable(old(self)@.pc),
        ensures
            final(self).wf(),
            match r {
                Ok(pixels) => old(self)@.stack.len() > 0 && final(self)@ == (MachineState {
                    pc: (old(self)@.stack.last() + 2) as u16,
                    stack: old(self)@.stack.drop_last(),
                    ..old(self)@
                }) && pixels@ == Seq::<PixelData>::empty(),
                Err(e) => old(self)@.stack.len() == 0 && e == ExecError::StackUnderflow
                    && final(self)@ == old(self)@,
            },
    {
        if self.stack_ptr == 0 {
            return Err(ExecError::StackUnderflow);
        }
        self.stack_ptr = self.stack_ptr - 1;
        let saved: u16 = self.stack[self.stack_ptr as usize];
        proof {
            assert(saved == old(self)@.stack[old(self)@.stack.len() - 1]);
            assert(fetchable(saved));
        }
        self.pc = saved + 2;
        self.stack[self.stack_ptr as usize] = 0;
        proof {
            assert(self@.stack =~= old(self)@.stack.drop_last());
        }
        Ok(Vec::new())
    }

    fn execute_call(&mut self, addr: u16) -> (r: Result<Vec<PixelData>, ExecError>)
        requires
            old(self).wf(),
            fetchable(old(self)@.pc),
        ensures
            final(self).wf(),
            match r {
                Ok(pixels) => old(self)@.stack.len() < 16 && final(self)@ == (MachineState {
                    pc: addr,
                    stack: old(self)@.stack.push(old(self)@.pc),
                    ..old(self)@
                }) && pixels@ == Seq::<PixelData>::empty(),
                Err(e) => old(self)@.stack.len() >= 16 && e == ExecError::StackOverflow
                    && final(self)@ == old(self)@,
            },
    {
        if self.stack_ptr >= 16 {
            return Err(ExecError::StackOverflow);
        }
        self.stack[self.stack_ptr as usize] = self.pc;
        self.stack_ptr = self.stack_ptr + 1;
        self.pc = addr;
        proof {
            assert(self@.stack =~= old(self)@.stack.push(old(self)@.pc));
        }
        Ok(Vec::new())
    }

    fn execute_draw(&mut self, x: Register, y: Register, n: u8) -> (r: Result<
        Vec<PixelData>,
        ExecError,
    >)
        requires
            old(self).wf(),
            fetchable(old(self)@.pc),
            x < 16,
            y < 16,
            n < 16,
        ensures
            final(self).wf(),
            match r {
                Ok(pixels) => executed(old(self)@, Instruction::Draw(x, y, n), arbitrary()) == Ok::<
                    MachineState,
                    ExecError,
                >(final(self)@) && pixels@ == presented(old(self)@, Instruction::Draw(x, y, n)),
                Err(e) => !old(self)@.in_bounds(n as int) && e
                    == ExecError::OutOfBoundsMemoryAccess && final(self)@ == old(self)@,
            },
    {
        if n > 0 && self.index as usize + n as usize > 4096 {
            return Err(ExecError::OutOfBoundsMemoryAccess);
        }
        let vx: u8 = self.registers.get(x);
        let vy: u8 = self.registers.get(y);
        let start: usize = if n == 0 {
            0
        } else {
            self.index as usize
        };
        let sprite = vstd::slice::slice_subrange(self.memory.as_slice(), start, start + n as usize);
        proof {
            assert(sprite@ =~= old(self)@.sprite(n));
        }
        let (collision, pixels) = self.frame.draw_sprite(vx, vy, sprite);
        self.set_flag(collision);
        self.advance();
        Ok(pixels)
    }

    fn execute_load_bcd(&mut self, x: Register) -> (r: Result<Vec<PixelData>, ExecError>)
        requires
            old(self).wf(),
            fetchable(old(self)@.pc),
            x < 16,
        ensures
            final(self).wf(),
            match r {
                Ok(pixels) => executed(old(self)@, Instruction::LoadBCD(x), arbitrary()) == Ok::<
                    MachineState,
                    ExecError,
                >(final(self)@) && pixels@ == Seq::<PixelData>::empty(),
                Err(e) => !old(self)@.in_bounds(3) && e == ExecError::OutOfBoundsMemoryAccess
                    && final(self)@ == old(self)@,
            },
    {
        if self.index as usize + 3 > 4096 {
            return Err(ExecError::OutOfBoundsMemoryAccess);
        }
        let value: u8 = self.registers.get(x);
        let at: usize = self.index as usize;
        self.memory[at] = value / 100;
        self.memory[at + 1] = (value / 10) % 10;
        self.memory[at + 2] = (value % 100) % 10;
        self.advance();
        Ok(Vec::new())
    }

    fn execute_store_regs(&mut self, x: Register) -> (r: Result<Vec<PixelData>, ExecError>)
        requires
            old(self).wf(),
            fetchable(old(self)@.pc),
            x < 16,
        ensures
            final(self).wf(),
            match r {
                Ok(pixels) => executed(old(self)@, Instruction::StoreRegs(x), arbitrary()) == Ok::<
                    MachineState,
                    ExecError,
                >(final(self)@) && pixels@ == Seq::<PixelData>::empty(),
                Err(e) => !old(self)@.in_bounds(x + 1) && e == ExecError::OutOfBoundsMemoryAccess
                    && final(self)@ == old(self)@,
            },
    {
        if self.index as usize + x as usize + 1 > 4096 {
            return Err(ExecError::OutOfBoundsMemoryAccess);
        }
        let at: usize = self.index as usize;
        let mut i: u8 = 0;
        while i <= x
            invariant
                x < 16,
                i <= x + 1,
                at == old(self).index,
                at + x + 1 <= 4096,
                self.wf(),
                forall|a: int| at <= a < at + i ==> self.memory@[a] == old(self).registers@[a - at],
                forall|a: int|
                    0 <= a < 4096 && !(at <= a < at + i) ==> self.memory@[a]
                        == old(self).memory@[a],
                self.registers == old(self).registers,
                self.pc == old(self).pc,
                self.index == old(self).index,
                self.stack == old(self).stack,
                self.stack_ptr == old(self).stack_ptr,
                self.delay_timer == old(self).delay_timer,
                self.sound_timer == old(self).sound_timer,
                self.frame == old(self).frame,
            decreases x + 1 - i,
        {
            self.memory[at + i as usize] = self.registers.get(i);
            i = i + 1;
        }
        proof {
            let want = executed(old(self)@, Instruction::StoreRegs(x), arbitrary())->Ok_0;
            assert(self@.memory =~= want.memory);
        }
        self.advance();
        Ok(Vec::new())
    }

    fn execute_read_regs(&mut self, x: Register) -> (r: Result<Vec<PixelData>, ExecError>)
        requires
            old(self).wf(),
            fetchable(old(self)@.pc),
            x < 16,
        ensures
            final(self).wf(),
            match r {
                Ok(pixels) => executed(old(self)@, Instruction::ReadRegs(x), arbitrary()) == Ok::<
                    MachineState,
                    ExecError,
                >(final(self)@) && pixels@ == Seq::<PixelData>::empty(),
                Err(e) => !old(self)@.in_bounds(x + 1) && e == ExecError::OutOfBoundsMemoryAccess
                    && final(self)@ == old(self)@,
            },
    {
        if self.index as usize + x as usize + 1 > 4096 {
            return Err(ExecError::OutOfBoundsMemoryAccess);
        }
        let at: usize = self.index as usize;
        let mut i: u8 = 0;
        while i <= x
            invariant
                x < 16,
                i <= x + 1,
                at == old(self).index,
                at + x + 1 <= 4096,
                self.wf(),
                forall|j: int| 0 <= j < i ==> self.registers@[j] == old(self).memory@[at + j],
                forall|j: int| i <= j < 16 ==> self.registers@[j] == old(self).registers@[j],
                self.memory == old(self).memory,
                self.pc == old(self).pc,
                self.index == old(self).index,
                self.stack == old(self).stack,
                self.stack_ptr == old(self).stack_ptr,
                self.delay_timer == old(self).delay_timer,
                self.sound_timer == old(self).sound_timer,
                self.frame == old(self).frame,
            decreases x + 1 - i,
        {
            let value: u8 = self.memory[at + i as usize];
            self.registers.set(i, value);
            i = i + 1;
        }
        proof {
            let want = executed(old(self)@, Instruction::ReadRegs(x), arbitrary())->Ok_0;
            assert(self@.v =~= want.v);
        }
        self.advance();
        Ok(Vec::new())
    }

    /// Runs one cycle with what the outside world answered: fetch, decode,
    /// execute. A word that does not decode is passed over.
    pub fn step(&mut self, stimulus: Stimulus) -> (r: Result<Vec<PixelData>, ExecError>)
        requires
            old(self).wf(),
        ensures
            final(self).wf(),
            match r {
                Ok(pixels) => cycled(old(self)@, stimulus) == Ok::<MachineState, ExecError>(
                    final(self)@,
                ) && pixels@ == cycle_presents(old(self)@),
                Err(e) => cycled(old(self)@, stimulus) == Err::<MachineState, ExecError>(e)
                    && final(self)@ == old(self)@,
            },
    {
        let opcode = match self.fetch() {
            Ok(opcode) => opcode,
            Err(e) => {
                return Err(e);
            },
        };
        match opcode.to_instruction() {
            Ok(instruction) => self.execute(instruction, stimulus),
            Err(_) => {
                self.pass_over();
                Ok(Vec::new())
            },
        }
    }
}

} // verus!
