use vstd::prelude::*;

verus! {

/// A 12-bit memory address operand.
pub type Address = u16;
/// An 8-bit immediate operand.
pub type Immediate = u8;
/// A 4-bit register index operand.
pub type Register = u8;

/// One decoded machine word: a closed tagged union with one variant per
/// opcode family, plus the `UNKNOWN` catch-all carrying the raw word.
#[derive(Copy, Clone, PartialEq, Eq, Hash, Debug, Structural)]
pub enum Instruction {
    UNKNOWN(u16),
    CLS,
    RET,
    JPA(Address),
    CALL(Address),
    SEI(Register, Immediate),
    SNEI(Register, Immediate),
    SER(Register, Register),
    LDI(Register, Immediate),
    ADDI(Register, Immediate),
    LDR(Register, Register),
    ORR(Register, Register),
    ANDR(Register, Register),
    XORR(Register, Register),
    ADDR(Register, Register),
    SUBR(Register, Register),
    SHRR(Register, Register),
    SUBNR(Register, Register),
    SHLR(Register, Register),
    SNER(Register, Register),
    LDA(Address),
    JPAFAR(Address),
    RND(Register, Immediate),
    DRW(Register, Register, Immediate),
    SKP(Register),
    SKNP(Register),
    LDTG(Register),
    LDK(Register),
    LDTS(Register),
    LDSS(Register),
    ADDA(Register),
    LDDIG(Immediate),
    LDBCD(Register),
    LDREGST(Register),
    LDREGRD(Register),
}

/// Every operand a decoder can produce is in range: register indices and
/// the draw height are nibbles (below 16), addresses are 12 bits.
pub open spec fn inst_wf(inst: Instruction) -> bool {
    match inst {
        Instruction::UNKNOWN(_) => true,
        Instruction::CLS => true,
        Instruction::RET => true,
        Instruction::JPA(a) => a < 0x1000,
        Instruction::CALL(a) => a < 0x1000,
        Instruction::SEI(x, _) => x < 16,
        Instruction::SNEI(x, _) => x < 16,
        Instruction::SER(x, y) => x < 16 && y < 16,
        Instruction::LDI(x, _) => x < 16,
        Instruction::ADDI(x, _) => x < 16,
        Instruction::LDR(x, y) => x < 16 && y < 16,
        Instruction::ORR(x, y) => x < 16 && y < 16,
        Instruction::ANDR(x, y) => x < 16 && y < 16,
        Instruction::XORR(x, y) => x < 16 && y < 16,
        Instruction::ADDR(x, y) => x < 16 && y < 16,
        Instruction::SUBR(x, y) => x < 16 && y < 16,
        Instruction::SHRR(x, y) => x < 16 && y < 16,
        Instruction::SUBNR(x, y) => x < 16 && y < 16,
        Instruction::SHLR(x, y) => x < 16 && y < 16,
        Instruction::SNER(x, y) => x < 16 && y < 16,
        Instruction::LDA(a) => a < 0x1000,
        Instruction::JPAFAR(a) => a < 0x1000,
        Instruction::RND(x, _) => x < 16,
        Instruction::DRW(x, y, n) => x < 16 && y < 16 && n < 16,
        Instruction::SKP(x) => x < 16,
        Instruction::SKNP(x) => x < 16,
        Instruction::LDTG(x) => x < 16,
        Instruction::LDK(x) => x < 16,
        Instruction::LDTS(x) => x < 16,
        Instruction::LDSS(x) => x < 16,
        Instruction::ADDA(x) => x < 16,
        Instruction::LDDIG(d) => d < 16,
        Instruction::LDBCD(x) => x < 16,
        Instruction::LDREGST(x) => x < 16,
        Instruction::LDREGRD(x) => x < 16,
    }
}

} // verus!
