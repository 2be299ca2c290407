use chip8_emulator::opcode::{Instruction, OpCode};

fn decode(word: u16) -> Result<Instruction, String> {
    OpCode::new(&[(word >> 8) as u8, (word & 0xFF) as u8]).to_instruction()
}

#[test]
fn opcode_joins_bytes_high_first() {
    assert_eq!(OpCode::new(&[0x12, 0x34]).word(), 0x1234);
    assert_eq!(OpCode::new(&[0x00, 0xFF]).word(), 0x00FF);
    assert_eq!(OpCode::new(&[0xFF, 0x00]).word(), 0xFF00);
}

#[test]
fn operands_are_extracted_by_nibble() {
    let op = OpCode::new(&[0xDA, 0xB7]);
    assert_eq!(op.addr(), 0xAB7);
    assert_eq!(op.x_register(), 0xA);
    assert_eq!(op.y_register(), 0xB);
    assert_eq!(op.immediate(), 0xB7);
    assert_eq!(op.nibble(), 0x7);
}

#[test]
fn decodes_family_zero() {
    assert_eq!(decode(0x00E0), Ok(Instruction::Clear));
    assert_eq!(decode(0x00EE), Ok(Instruction::Return));
    assert_eq!(decode(0x0123), Ok(Instruction::SYS(0x123)));
    assert_eq!(decode(0x0000), Ok(Instruction::SYS(0x000)));
    assert_eq!(decode(0x00E1), Ok(Instruction::SYS(0x0E1)));
}

#[test]
fn decodes_jumps_and_calls() {
    assert_eq!(decode(0x1ABC), Ok(Instruction::Jump(0xABC)));
    assert_eq!(decode(0x2DEF), Ok(Instruction::Call(0xDEF)));
    assert_eq!(decode(0xA123), Ok(Instruction::LoadIdx(0x123)));
    assert_eq!(decode(0xB456), Ok(Instruction::JumpAddV0(0x456)));
}

#[test]
fn decodes_immediate_forms() {
    assert_eq!(decode(0x3A42), Ok(Instruction::SkipEqI(0xA, 0x42)));
    assert_eq!(decode(0x4B43), Ok(Instruction::SkipNeqI(0xB, 0x43)));
    assert_eq!(decode(0x6C44), Ok(Instruction::LoadI(0xC, 0x44)));
    assert_eq!(decode(0x7D45), Ok(Instruction::AddI(0xD, 0x45)));
    assert_eq!(decode(0xCE46), Ok(Instruction::Rand(0xE, 0x46)));
}

#[test]
fn decodes_register_forms() {
    assert_eq!(decode(0x5120), Ok(Instruction::SkipEq(1, 2)));
    assert_eq!(decode(0x8120), Ok(Instruction::LoadR(1, 2)));
    assert_eq!(decode(0x8121), Ok(Instruction::Or(1, 2)));
    assert_eq!(decode(0x8122), Ok(Instruction::And(1, 2)));
    assert_eq!(decode(0x8123), Ok(Instruction::Xor(1, 2)));
    assert_eq!(decode(0x8124), Ok(Instruction::Add(1, 2)));
    assert_eq!(decode(0x8125), Ok(Instruction::Sub(1, 2)));
    assert_eq!(decode(0x8126), Ok(Instruction::ShiftR(1)));
    assert_eq!(decode(0x8127), Ok(Instruction::SubN(1, 2)));
    assert_eq!(decode(0x812E), Ok(Instruction::ShiftL(1)));
    assert_eq!(decode(0x9120), Ok(Instruction::SkipNeq(1, 2)));
    assert_eq!(decode(0xD125), Ok(Instruction::Draw(1, 2, 5)));
}

#[test]
fn decodes_key_and_timer_forms() {
    assert_eq!(decode(0xE39E), Ok(Instruction::SkipEqKey(3)));
    assert_eq!(decode(0xE3A1), Ok(Instruction::SkipNeqKey(3)));
    assert_eq!(decode(0xF307), Ok(Instruction::LoadFromDT(3)));
    assert_eq!(decode(0xF30A), Ok(Instruction::LoadKey(3)));
    assert_eq!(decode(0xF315), Ok(Instruction::SetDT(3)));
    assert_eq!(decode(0xF318), Ok(Instruction::SetST(3)));
    assert_eq!(decode(0xF31E), Ok(Instruction::AddIdx(3)));
    assert_eq!(decode(0xF329), Ok(Instruction::LoadSprite(3)));
    assert_eq!(decode(0xF333), Ok(Instruction::LoadBCD(3)));
    assert_eq!(decode(0xF355), Ok(Instruction::StoreRegs(3)));
    assert_eq!(decode(0xF365), Ok(Instruction::ReadRegs(3)));
}

#[test]
fn unknown_secondary_codes_fail() {
    let failure = Err("Invalid instruction!".to_string());
    assert_eq!(decode(0x8128), failure);
    assert_eq!(decode(0x812F), failure);
    assert_eq!(decode(0x9121), failure);
    assert_eq!(decode(0xE300), failure);
    assert_eq!(decode(0xE39F), failure);
    assert_eq!(decode(0xF300), failure);
    assert_eq!(decode(0xF366), failure);
    assert_eq!(decode(0xFFFF), failure);
}

#[test]
fn every_word_decodes_or_fails_by_its_secondary_code() {
    let mut failures: u32 = 0;
    for word in 0..=0xFFFFu16 {
        let family = word >> 12;
        let low = word & 0xF;
        let byte = word & 0xFF;
        let known = match family {
            0x8 => low <= 7 || low == 0xE,
            0x9 => low == 0,
            0xE => byte == 0x9E || byte == 0xA1,
            0xF => [0x07, 0x0A, 0x15, 0x18, 0x1E, 0x29, 0x33, 0x55, 0x65].contains(&byte),
            _ => true,
        };
        let decoded = decode(word);
        assert_eq!(decoded.is_ok(), known, "word {:#06x}", word);
        if decoded.is_err() {
            failures += 1;
        }
    }
    // 7 of 16 codes in family 8, 15 of 16 in family 9, 254 of 256 in E, 247 of 256 in F.
    assert_eq!(failures, 7 * 256 + 15 * 256 + 254 * 16 + 247 * 16);
}

#[test]
fn decoded_operands_match_the_word() {
    for word in 0..=0xFFFFu16 {
        let x = ((word >> 8) & 0xF) as u8;
        let y = ((word >> 4) & 0xF) as u8;
        let imm = (word & 0xFF) as u8;
        let addr = word & 0xFFF;
        match decode(word) {
            Ok(Instruction::Jump(a)) | Ok(Instruction::Call(a)) | Ok(Instruction::LoadIdx(a))
            | Ok(Instruction::JumpAddV0(a)) | Ok(Instruction::SYS(a)) => assert_eq!(a, addr),
            Ok(Instruction::SkipEqI(r, i)) | Ok(Instruction::SkipNeqI(r, i))
            | Ok(Instruction::LoadI(r, i)) | Ok(Instruction::AddI(r, i))
            | Ok(Instruction::Rand(r, i)) => assert_eq!((r, i), (x, imm)),
            Ok(Instruction::Draw(r, s, n)) => assert_eq!((r, s, n), (x, y, (word & 0xF) as u8)),
            Ok(Instruction::Add(r, s)) | Ok(Instruction::Sub(r, s)) | Ok(Instruction::SubN(r, s))
            | Ok(Instruction::Or(r, s)) | Ok(Instruction::And(r, s)) | Ok(Instruction::Xor(r, s))
            | Ok(Instruction::LoadR(r, s)) | Ok(Instruction::SkipEq(r, s))
            | Ok(Instruction::SkipNeq(r, s)) => assert_eq!((r, s), (x, y)),
            _ => {}
        }
    }
}
