use chip8::instructions::Instruction;
use chip8::parser::{read, read_all};

#[test]
fn decode_is_total_over_all_words() {
    let mut count: u32 = 0;
    for w in 0..=u16::MAX {
        let bytes = [(w >> 8) as u8, (w & 0xff) as u8];
        let _ = read(bytes);
        count += 1;
    }
    assert_eq!(count, 65536);
}

#[test]
fn decode_fixed_words() {
    assert_eq!(read([0x00, 0xE0]), Instruction::CLS);
    assert_eq!(read([0x00, 0xEE]), Instruction::RET);
}

#[test]
fn decode_round_trip_examples() {
    assert_eq!(read([0x12, 0x34]), Instruction::JPA(0x234));
    assert_eq!(read([0x6A, 0x07]), Instruction::LDI(10, 7));
    assert_eq!(read([0x80, 0x14]), Instruction::ADDR(0, 1));
}

#[test]
fn decode_reserved_low_nibble_is_unknown() {
    assert_eq!(read([0x51, 0x21]), Instruction::UNKNOWN(0x5121));
    assert_eq!(read([0x9A, 0xBF]), Instruction::UNKNOWN(0x9ABF));
    assert_eq!(read([0x51, 0x20]), Instruction::SER(1, 2));
    assert_eq!(read([0x9A, 0xB0]), Instruction::SNER(10, 11));
}

#[test]
fn decode_arithmetic_family() {
    assert_eq!(read([0x83, 0x40]), Instruction::LDR(3, 4));
    assert_eq!(read([0x83, 0x41]), Instruction::ORR(3, 4));
    assert_eq!(read([0x83, 0x42]), Instruction::ANDR(3, 4));
    assert_eq!(read([0x83, 0x43]), Instruction::XORR(3, 4));
    assert_eq!(read([0x83, 0x44]), Instruction::ADDR(3, 4));
    assert_eq!(read([0x83, 0x45]), Instruction::SUBR(3, 4));
    assert_eq!(read([0x83, 0x46]), Instruction::SHRR(3, 4));
    assert_eq!(read([0x83, 0x47]), Instruction::SUBNR(3, 4));
    assert_eq!(read([0x83, 0x4E]), Instruction::SHLR(3, 4));
    assert_eq!(read([0x83, 0x48]), Instruction::UNKNOWN(0x8348));
}

#[test]
fn decode_key_and_timer_family() {
    assert_eq!(read([0xE2, 0x9E]), Instruction::SKP(2));
    assert_eq!(read([0xE2, 0xA1]), Instruction::SKNP(2));
    assert_eq!(read([0xE2, 0x00]), Instruction::UNKNOWN(0xE200));
    assert_eq!(read([0xF4, 0x07]), Instruction::LDTG(4));
    assert_eq!(read([0xF4, 0x0A]), Instruction::LDK(4));
    assert_eq!(read([0xF4, 0x15]), Instruction::LDTS(4));
    assert_eq!(read([0xF4, 0x18]), Instruction::LDSS(4));
    assert_eq!(read([0xF4, 0x1E]), Instruction::ADDA(4));
    assert_eq!(read([0xF4, 0x29]), Instruction::LDDIG(4));
    assert_eq!(read([0xF4, 0x33]), Instruction::LDBCD(4));
    assert_eq!(read([0xF4, 0x55]), Instruction::LDREGST(4));
    assert_eq!(read([0xF4, 0x65]), Instruction::LDREGRD(4));
    assert_eq!(read([0xF4, 0x66]), Instruction::UNKNOWN(0xF466));
}

#[test]
fn decode_immediate_and_address_family() {
    assert_eq!(read([0x2F, 0xFF]), Instruction::CALL(0xFFF));
    assert_eq!(read([0x3C, 0x55]), Instruction::SEI(12, 0x55));
    assert_eq!(read([0x4C, 0x55]), Instruction::SNEI(12, 0x55));
    assert_eq!(read([0x7C, 0x55]), Instruction::ADDI(12, 0x55));
    assert_eq!(read([0xA1, 0x23]), Instruction::LDA(0x123));
    assert_eq!(read([0xB1, 0x23]), Instruction::JPAFAR(0x123));
    assert_eq!(read([0xC1, 0x23]), Instruction::RND(1, 0x23));
    assert_eq!(read([0xD1, 0x23]), Instruction::DRW(1, 2, 3));
    assert_eq!(read([0x01, 0x23]), Instruction::UNKNOWN(0x0123));
}

#[test]
fn read_all_rejects_empty_and_odd_buffers() {
    assert_eq!(read_all(&[]), None);
    assert_eq!(read_all(&[0x12]), None);
    assert_eq!(read_all(&[0x12, 0x34, 0x56]), None);
}

#[test]
fn read_all_decodes_every_word_in_order() {
    let buf = [0x00, 0xE0, 0x12, 0x34, 0x6A, 0x07];
    let out = read_all(&buf).unwrap();
    assert_eq!(
        out,
        vec![
            Instruction::CLS,
            Instruction::JPA(0x234),
            Instruction::LDI(10, 7)
        ]
    );
}
