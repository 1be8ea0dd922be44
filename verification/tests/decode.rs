use chipo::instruction::{decode, Instruction};

#[test]
fn display_and_flow_words_decode() {
    assert_eq!(decode(0x00C0), Some(Instruction::ScrollDown(0)));
    assert_eq!(decode(0x00C5), Some(Instruction::ScrollDown(5)));
    assert_eq!(decode(0x00CF), Some(Instruction::ScrollDown(15)));
    assert_eq!(decode(0x00E0), Some(Instruction::Clear));
    assert_eq!(decode(0x00EE), Some(Instruction::Return));
    assert_eq!(decode(0x00FB), Some(Instruction::ScrollRight));
    assert_eq!(decode(0x00FC), Some(Instruction::ScrollLeft));
    assert_eq!(decode(0x00FD), Some(Instruction::Exit));
    assert_eq!(decode(0x00FE), Some(Instruction::StandardMode));
    assert_eq!(decode(0x00FF), Some(Instruction::SuperMode));
    assert_eq!(decode(0x1ABC), Some(Instruction::Jump(0xABC)));
    assert_eq!(decode(0x2FFF), Some(Instruction::Call(0xFFF)));
    assert_eq!(decode(0xBABC), Some(Instruction::JumpOffset(0xABC)));
    assert_eq!(decode(0xA000), Some(Instruction::LoadIndex(0)));
}

#[test]
fn register_words_decode() {
    assert_eq!(decode(0x3A12), Some(Instruction::SkipEqual(0xA, 0x12)));
    assert_eq!(decode(0x4B34), Some(Instruction::SkipNotEqual(0xB, 0x34)));
    assert_eq!(decode(0x5CD0), Some(Instruction::SkipRegEqual(0xC, 0xD)));
    assert_eq!(decode(0x6EFF), Some(Instruction::LoadByte(0xE, 0xFF)));
    assert_eq!(decode(0x7F01), Some(Instruction::AddByte(0xF, 0x01)));
    assert_eq!(decode(0x8120), Some(Instruction::Move(1, 2)));
    assert_eq!(decode(0x8121), Some(Instruction::Or(1, 2)));
    assert_eq!(decode(0x8122), Some(Instruction::And(1, 2)));
    assert_eq!(decode(0x8123), Some(Instruction::Xor(1, 2)));
    assert_eq!(decode(0x8124), Some(Instruction::Add(1, 2)));
    assert_eq!(decode(0x8125), Some(Instruction::Sub(1, 2)));
    assert_eq!(decode(0x8126), Some(Instruction::ShiftRight(1)));
    assert_eq!(decode(0x8127), Some(Instruction::SubFrom(1, 2)));
    assert_eq!(decode(0x812E), Some(Instruction::ShiftLeft(1)));
    assert_eq!(decode(0x9120), Some(Instruction::SkipRegNotEqual(1, 2)));
    assert_eq!(decode(0xC1F0), Some(Instruction::Random(1, 0xF0)));
    assert_eq!(decode(0xD125), Some(Instruction::Draw(1, 2, 5)));
    assert_eq!(decode(0xDFE0), Some(Instruction::Draw(15, 14, 0)));
}

#[test]
fn key_timer_and_memory_words_decode() {
    assert_eq!(decode(0xE59E), Some(Instruction::SkipKey(5)));
    assert_eq!(decode(0xE5A1), Some(Instruction::SkipNotKey(5)));
    assert_eq!(decode(0xF507), Some(Instruction::ReadDelay(5)));
    assert_eq!(decode(0xF50A), Some(Instruction::WaitKey(5)));
    assert_eq!(decode(0xF515), Some(Instruction::SetDelay(5)));
    assert_eq!(decode(0xF518), Some(Instruction::SetSound(5)));
    assert_eq!(decode(0xF51E), Some(Instruction::AddIndex(5)));
    assert_eq!(decode(0xF529), Some(Instruction::Glyph(5)));
    assert_eq!(decode(0xF530), Some(Instruction::SuperGlyph(5)));
    assert_eq!(decode(0xF533), Some(Instruction::Bcd(5)));
    assert_eq!(decode(0xF555), Some(Instruction::Store(5)));
    assert_eq!(decode(0xFF65), Some(Instruction::Fill(15)));
    assert_eq!(decode(0xF775), Some(Instruction::SaveFlags(7)));
    assert_eq!(decode(0xF085), Some(Instruction::LoadFlags(0)));
}

#[test]
fn words_that_are_no_instruction_decode_to_none() {
    for word in [
        0x0000u16, 0x0123, 0x00E1, 0x00ED, 0x00FA, 0x01E0, 0x0FFF, 0x5121, 0x512F, 0x8128, 0x8129,
        0x812A, 0x812D, 0x812F, 0x9121, 0xE19F, 0xE1A2, 0xE000, 0xF000, 0xF1FF, 0xF108, 0xF56A,
        0xF875, 0xFF75, 0xF885, 0xFF85,
    ] {
        assert_eq!(decode(word), None);
    }
}

#[test]
fn every_word_of_a_whole_group_decodes() {
    for low in 0..=0x0FFFu16 {
        for high in [0x1u16, 0x2, 0x3, 0x4, 0x6, 0x7, 0xA, 0xB, 0xC, 0xD] {
            assert!(decode(high << 12 | low).is_some());
        }
    }
}

#[test]
fn the_table_has_as_many_words_as_its_patterns_cover() {
    let mut valid = 0u32;
    for word in 0..=0xFFFFu16 {
        if decode(word).is_some() {
            valid += 1;
        }
    }
    // Ten whole groups of 4096 words; 16 + 7 words in group 0; 256 each for
    // 5xy0 and 9xy0; 9 * 256 in group 8; 2 * 16 in group E; and in group F
    // ten patterns of 16 words and two of 8.
    assert_eq!(valid, 10 * 4096 + 23 + 2 * 256 + 9 * 256 + 32 + 10 * 16 + 2 * 8);
}
