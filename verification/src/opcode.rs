//! The instruction decoder: a 16-bit big-endian word becomes one tagged
//! instruction, or a decode failure.

use vstd::prelude::*;

verus! {

pub type Address = u16;

pub type Register = u8;

pub type Immediate = u8;

pub type Nibble = u8;

/// One decoded instruction with its operands.
#[derive(Clone, Copy, Debug, PartialEq, Eq, Structural)]
pub enum Instruction {
    SYS(Address),
    Clear,
    Return,
    Jump(Address),
    Call(Address),
    SkipEqI(Register, Immediate),
    SkipNeqI(Register, Immediate),
    SkipEq(Register, Register),
    LoadI(Register, Immediate),
    AddI(Register, Immediate),
    LoadR(Register, Register),
    Or(Register, Register),
    And(Register, Register),
    Xor(Register, Register),
    Add(Register, Register),
    Sub(Register, Register),
    ShiftR(Register),
    SubN(Register, Register),
    ShiftL(Register),
    SkipNeq(Register, Register),
    LoadIdx(Address),
    JumpAddV0(Address),
    Rand(Register, Immediate),
    Draw(Register, Register, Nibble),
    SkipEqKey(Register),
    SkipNeqKey(Register),
    LoadFromDT(Register),
    LoadKey(Register),
    SetDT(Register),
    SetST(Register),
    AddIdx(Register),
    LoadSprite(Register),
    LoadBCD(Register),
    StoreRegs(Register),
    ReadRegs(Register),
}

impl Instruction {
    /// Every register operand names one of the sixteen registers, every
    /// address lies in the 4 KiB address space and a sprite height is a nibble.
    pub open spec fn wf(self) -> bool {
        match self {
            Instruction::SYS(a) => a < 0x1000,
            Instruction::Clear => true,
            Instruction::Return => true,
            Instruction::Jump(a) => a < 0x1000,
            Instruction::Call(a) => a < 0x1000,
            Instruction::SkipEqI(x, _) => x < 16,
            Instruction::SkipNeqI(x, _) => x < 16,
            Instruction::SkipEq(x, y) => x < 16 && y < 16,
            Instruction::LoadI(x, _) => x < 16,
            Instruction::AddI(x, _) => x < 16,
            Instruction::LoadR(x, y) => x < 16 && y < 16,
            Instruction::Or(x, y) => x < 16 && y < 16,
            Instruction::And(x, y) => x < 16 && y < 16,
            Instruction::Xor(x, y) => x < 16 && y < 16,
            Instruction::Add(x, y) => x < 16 && y < 16,
            Instruction::Sub(x, y) => x < 16 && y < 16,
            Instruction::ShiftR(x) => x < 16,
            Instruction::SubN(x, y) => x < 16 && y < 16,
            Instruction::ShiftL(x) => x < 16,
            Instruction::SkipNeq(x, y) => x < 16 && y < 16,
            Instruction::LoadIdx(a) => a < 0x1000,
            Instruction::JumpAddV0(a) => a < 0x1000,
            Instruction::Rand(x, _) => x < 16,
            Instruction::Draw(x, y, n) => x < 16 && y < 16 && n < 16,
            Instruction::SkipEqKey(x) => x < 16,
            Instruction::SkipNeqKey(x) => x < 16,
            Instruction::LoadFromDT(x) => x < 16,
            Instruction::LoadKey(x) => x < 16,
            Instruction::SetDT(x) => x < 16,
            Instruction::SetST(x) => x < 16,
            Instruction::AddIdx(x) => x < 16,
            Instruction::LoadSprite(x) => x < 16,
            Instruction::LoadBCD(x) => x < 16,
            Instruction::StoreRegs(x) => x < 16,
            Instruction::ReadRegs(x) => x < 16,
        }
    }
}

/// The instruction family: the high nibble of the word.
pub open spec fn family_of(word: u16) -> int {
    word as int / 0x1000
}

/// The low twelve bits of the word.
pub open spec fn addr_of(word: u16) -> Address {
    (word as int % 0x1000) as u16
}

/// The second nibble of the word.
pub open spec fn x_of(word: u16) -> Register {
    ((word as int / 0x100) % 0x10) as u8
}

/// The third nibble of the word.
pub open spec fn y_of(word: u16) -> Register {
    ((word as int / 0x10) % 0x10) as u8
}

/// The low byte of the word.
pub open spec fn immediate_of(word: u16) -> Immediate {
    (word as int % 0x100) as u8
}

/// The low nibble of the word.
pub open spec fn nibble_of(word: u16) -> Nibble {
    (word as int % 0x10) as u8
}

/// What a word decodes to; `None` is the decode failure.
pub open spec fn decode(word: u16) -> Option<Instruction> {
    let addr = addr_of(word);
    let x = x_of(word);
    let y = y_of(word);
    let imm = immediate_of(word);
    let n = nibble_of(word);
    let family = family_of(word);
    if family == 0x0 {
        if word == 0x00E0 {
            Some(Instruction::Clear)
        } else if word == 0x00EE {
            Some(Instruction::Return)
        } else {
            Some(Instruction::SYS(addr))
        }
    } else if family == 0x1 {
        Some(Instruction::Jump(addr))
    } else if family == 0x2 {
        Some(Instruction::Call(addr))
    } else if family == 0x3 {
        Some(Instruction::SkipEqI(x, imm))
    } else if family == 0x4 {
        Some(Instruction::SkipNeqI(x, imm))
    } else if family == 0x5 {
        Some(Instruction::SkipEq(x, y))
    } else if family == 0x6 {
        Some(Instruction::LoadI(x, imm))
    } else if family == 0x7 {
        Some(Instruction::AddI(x, imm))
    } else if family == 0x8 {
        if n == 0x0 {
            Some(Instruction::LoadR(x, y))
        } else if n == 0x1 {
            Some(Instruction::Or(x, y))
        } else if n == 0x2 {
            Some(Instruction::And(x, y))
        } else if n == 0x3 {
            Some(Instruction::Xor(x, y))
        } else if n == 0x4 {
            Some(Instruction::Add(x, y))
        } else if n == 0x5 {
            Some(Instruction::Sub(x, y))
        } else if n == 0x6 {
            Some(Instruction::ShiftR(x))
        } else if n == 0x7 {
            Some(Instruction::SubN(x, y))
        } else if n == 0xE {
            Some(Instruction::ShiftL(x))
        } else {
            None
        }
    } else if family == 0x9 {
        if n == 0x0 {
            Some(Instruction::SkipNeq(x, y))
        } else {
            None
        }
    } else if family == 0xA {
        Some(Instruction::LoadIdx(addr))
    } else if family == 0xB {
        Some(Instruction::JumpAddV0(addr))
    } else if family == 0xC {
        Some(Instruction::Rand(x, imm))
    } else if family == 0xD {
        Some(Instruction::Draw(x, y, n))
    } else if family == 0xE {
        if imm == 0x9E {
            Some(Instruction::SkipEqKey(x))
        } else if imm == 0xA1 {
            Some(Instruction::SkipNeqKey(x))
        } else {
            None
        }
    } else {
        if imm == 0x07 {
            Some(Instruction::LoadFromDT(x))
        } else if imm == 0x0A {
            Some(Instruction::LoadKey(x))
        } else if imm == 0x15 {
            Some(Instruction::SetDT(x))
        } else if imm == 0x18 {
            Some(Instruction::SetST(x))
        } else if imm == 0x1E {
            Some(Instruction::AddIdx(x))
        } else if imm == 0x29 {
            Some(Instruction::LoadSprite(x))
        } else if imm == 0x33 {
            Some(Instruction::LoadBCD(x))
        } else if imm == 0x55 {
            Some(Instruction::StoreRegs(x))
        } else if imm == 0x65 {
            Some(Instruction::ReadRegs(x))
        } else {
            None
        }
    }
}

/// The secondary codes that the families with a second dispatch know.
pub open spec fn known_secondary(word: u16) -> bool {
    let n = nibble_of(word);
    let imm = immediate_of(word);
    let family = family_of(word);
    if family == 0x8 {
        n <= 0x7 || n == 0xE
    } else if family == 0x9 {
        n == 0x0
    } else if family == 0xE {
        imm == 0x9E || imm == 0xA1
    } else if family == 0xF {
        imm == 0x07 || imm == 0x0A || imm == 0x15 || imm == 0x18 || imm == 0x1E || imm == 0x29
            || imm == 0x33 || imm == 0x55 || imm == 0x65
    } else {
        true
    }
}

/// Decoding fails on exactly the words of the families 8, 9, E and F whose
/// secondary code is unknown; whatever decodes is well formed.
pub proof fn decode_total_and_well_formed(word: u16)
    ensures
        decode(word) is Some <==> known_secondary(word),
        decode(word) is None ==> family_of(word) == 0x8 || family_of(word) == 0x9 || family_of(word)
            == 0xE || family_of(word) == 0xF,
        decode(word) matches Some(i) ==> i.wf(),
{
}

/// The mask-and-shift form of each operand is its nibble arithmetic.
proof fn masks_are_nibbles(w: u16)
    ensures
        w & 0x0FFF == w % 0x1000,
        (w & 0x0F00) >> 8 == (w / 0x100) % 0x10,
        (w & 0x00F0) >> 4 == (w / 0x10) % 0x10,
        w & 0x00FF == w % 0x100,
        w & 0x000F == w % 0x10,
        w & 0xF000 == (w / 0x1000) * 0x1000,
        (w >> 8) & 0xF == (w / 0x100) % 0x10,
        (w >> 4) & 0xF == (w / 0x10) % 0x10,
{
    assert(w & 0x0FFF == w % 0x1000) by (bit_vector);
    assert((w & 0x0F00) >> 8 == (w / 0x100) % 0x10) by (bit_vector);
    assert((w & 0x00F0) >> 4 == (w / 0x10) % 0x10) by (bit_vector);
    assert(w & 0x00FF == w % 0x100) by (bit_vector);
    assert(w & 0x000F == w % 0x10) by (bit_vector);
    assert(w & 0xF000 == (w / 0x1000) * 0x1000) by (bit_vector);
    assert((w >> 8) & 0xF == (w / 0x100) % 0x10) by (bit_vector);
    assert((w >> 4) & 0xF == (w / 0x10) % 0x10) by (bit_vector);
}

/// A raw instruction word.
#[derive(Clone, Copy, Debug, PartialEq, Eq, Structural)]
pub struct OpCode {
    opcode: u16,
}

impl View for OpCode {
    type V = u16;

    closed spec fn view(&self) -> u16 {
        self.opcode
    }
}

impl OpCode {
    /// Joins two bytes, high byte first.
    pub fn new(bytes: &[u8; 2]) -> (r: OpCode)
        ensures
            r@ == bytes[0] * 0x100 + bytes[1],
    {
        let hi: u16 = bytes[0] as u16;
        let lo: u16 = bytes[1] as u16;
        assert(hi << 8 == hi * 0x100) by (bit_vector)
            requires
                hi < 0x100,
        ;
        let opcode: u16 = (hi << 8) + lo;
        OpCode { opcode }
    }

    /// The word itself.
    pub fn word(&self) -> (r: u16)
        ensures
            r == self@,
    {
        self.opcode
    }

    pub fn addr(&self) -> (r: Address)
        ensures
            r == addr_of(self@),
            r == self@ & 0x0FFF,
            r < 0x1000,
    {
        proof {
            masks_are_nibbles(self.opcode);
        }
        self.opcode & 0x0FFF
    }

    pub fn x_register(&self) -> (r: Register)
        ensures
            r == x_of(self@),
            r == (self@ >> 8) & 0xF,
            r < 16,
    {
        proof {
            masks_are_nibbles(self.opcode);
        }
        ((self.opcode & 0x0F00) >> 8) as Register
    }

    pub fn y_register(&self) -> (r: Register)
        ensures
            r == y_of(self@),
            r == (self@ >> 4) & 0xF,
            r < 16,
    {
        proof {
            masks_are_nibbles(self.opcode);
        }
        ((self.opcode & 0x00F0) >> 4) as Register
    }

    pub fn immediate(&self) -> (r: Immediate)
        ensures
            r == immediate_of(self@),
            r == self@ & 0xFF,
    {
        proof {
            masks_are_nibbles(self.opcode);
        }
        (self.opcode & 0x00FF) as Immediate
    }

    pub fn nibble(&self) -> (r: Nibble)
        ensures
            r == nibble_of(self@),
            r == self@ & 0xF,
            r < 16,
    {
        proof {
            masks_are_nibbles(self.opcode);
        }
        (self.opcode & 0x000F) as Nibble
    }

    /// Decodes the word. The failure carries the text `Invalid instruction!`.
    pub fn to_instruction(&self) -> (r: Result<Instruction, String>)
        ensures
            match r {
                Ok(i) => decode(self@) == Some(i) && i.wf(),
                Err(e) => decode(self@) is None && e@ == "Invalid instruction!"@,
            },
            r is Ok <==> known_secondary(self@),
    {
        proof {
            masks_are_nibbles(self.opcode);
            decode_total_and_well_formed(self.opcode);
        }
        let family: u16 = self.opcode & 0xF000;
        match family {
            0x0000 => match self.opcode {
                0x00E0 => Ok(Instruction::Clear),
                0x00EE => Ok(Instruction::Return),
                _ => Ok(Instruction::SYS(self.addr())),
            },
            0x1000 => Ok(Instruction::Jump(self.addr())),
            0x2000 => Ok(Instruction::Call(self.addr())),
            0x3000 => Ok(Instruction::SkipEqI(self.x_register(), self.immediate())),
            0x4000 => Ok(Instruction::SkipNeqI(self.x_register(), self.immediate())),
            0x5000 => Ok(Instruction::SkipEq(self.x_register(), self.y_register())),
            0x6000 => Ok(Instruction::LoadI(self.x_register(), self.immediate())),
            0x7000 => Ok(Instruction::AddI(self.x_register(), self.immediate())),
            0x8000 => match self.opcode & 0x000F {
                0x0 => Ok(Instruction::LoadR(self.x_register(), self.y_register())),
                0x1 => Ok(Instruction::Or(self.x_register(), self.y_register())),
                0x2 => Ok(Instruction::And(self.x_register(), self.y_register())),
                0x3 => Ok(Instruction::Xor(self.x_register(), self.y_register())),
                0x4 => Ok(Instruction::Add(self.x_register(), self.y_register())),
                0x5 => Ok(Instruction::Sub(self.x_register(), self.y_register())),
                0x6 => Ok(Instruction::ShiftR(self.x_register())),
                0x7 => Ok(Instruction::SubN(self.x_register(), self.y_register())),
                0xE => Ok(Instruction::ShiftL(self.x_register())),
                _ => Err("Invalid instruction!".to_string()),
            },
            0x9000 => match self.opcode & 0x000F {
                0x0 => Ok(Instruction::SkipNeq(self.x_register(), self.y_register())),
                _ => Err("Invalid instruction!".to_string()),
            },
            0xA000 => Ok(Instruction::LoadIdx(self.addr())),
            0xB000 => Ok(Instruction::JumpAddV0(self.addr())),
            0xC000 => Ok(Instruction::Rand(self.x_register(), self.immediate())),
            0xD000 => Ok(
                Instruction::Draw(self.x_register(), self.y_register(), self.nibble()),
            ),
            0xE000 => match self.opcode & 0x00FF {
                0x9E => Ok(Instruction::SkipEqKey(self.x_register())),
                0xA1 => Ok(Instruction::SkipNeqKey(self.x_register())),
                _ => Err("Invalid instruction!".to_string()),
            },
            _ => match self.opcode & 0x00FF {
                0x07 => Ok(Instruction::LoadFromDT(self.x_register())),
                0x0A => Ok(Instruction::LoadKey(self.x_register())),
                0x15 => Ok(Instruction::SetDT(self.x_register())),
                0x18 => Ok(Instruction::SetST(self.x_register())),
                0x1E => Ok(Instruction::AddIdx(self.x_register())),
                0x29 => Ok(Instruction::LoadSprite(self.x_register())),
                0x33 => Ok(Instruction::LoadBCD(self.x_register())),
                0x55 => Ok(Instruction::StoreRegs(self.x_register())),
                0x65 => Ok(Instruction::ReadRegs(self.x_register())),
                _ => Err("Invalid instruction!".to_string()),
            },
        }
    }
}

} // verus!
