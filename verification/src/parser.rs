use vstd::prelude::*;
use crate::instructions::Instruction;
use crate::instructions::inst_wf;

verus! {

// ---------------------------------------------------------------------------
// The decoding model: a total function from a 16-bit word to an instruction.
// ---------------------------------------------------------------------------

/// The big-endian word formed by two consecutive memory bytes.
pub open spec fn spec_word(b0: u8, b1: u8) -> u16 {
    (b0 * 256 + b1) as u16
}

/// The 12-bit address operand (low three nibbles).
pub open spec fn spec_op_addr(w: u16) -> u16 {
    w & 0x0fff
}

/// The first register operand (second nibble).
pub open spec fn spec_op_x(w: u16) -> u8 {
    ((w & 0x0f00) >> 8) as u8
}

/// The second register operand (third nibble).
pub open spec fn spec_op_y(w: u16) -> u8 {
    ((w & 0x00f0) >> 4) as u8
}

/// The 8-bit immediate operand (low byte).
pub open spec fn spec_op_kk(w: u16) -> u8 {
    (w & 0x00ff) as u8
}

/// The 4-bit immediate operand (low nibble).
pub open spec fn spec_op_n(w: u16) -> u8 {
    (w & 0x000f) as u8
}

/// What any 16-bit word decodes to.  The two fixed words come first; all
/// other words dispatch on the high nibble, and within a family on the low
/// nibble or low byte.  Every word that matches no known pattern decodes to
/// `UNKNOWN`, so decoding is total and never fails.
pub open spec fn spec_decode(w: u16) -> Instruction {
    if w == 0x00e0 {
        Instruction::CLS
    } else if w == 0x00ee {
        Instruction::RET
    } else if w & 0xf000 == 0x1000 {
        Instruction::JPA(spec_op_addr(w))
    } else if w & 0xf000 == 0x2000 {
        Instruction::CALL(spec_op_addr(w))
    } else if w & 0xf000 == 0x3000 {
        Instruction::SEI(spec_op_x(w), spec_op_kk(w))
    } else if w & 0xf000 == 0x4000 {
        Instruction::SNEI(spec_op_x(w), spec_op_kk(w))
    } else if w & 0xf000 == 0x5000 {
        if w & 0x000f == 0 {
            Instruction::SER(spec_op_x(w), spec_op_y(w))
        } else {
            Instruction::UNKNOWN(w)
        }
    } else if w & 0xf000 == 0x6000 {
        Instruction::LDI(spec_op_x(w), spec_op_kk(w))
    } else if w & 0xf000 == 0x7000 {
        Instruction::ADDI(spec_op_x(w), spec_op_kk(w))
    } else if w & 0xf000 == 0x8000 {
        if w & 0x000f == 0x0000 {
            Instruction::LDR(spec_op_x(w), spec_op_y(w))
        } else if w & 0x000f == 0x0001 {
            Instruction::ORR(spec_op_x(w), spec_op_y(w))
        } else if w & 0x000f == 0x0002 {
            Instruction::ANDR(spec_op_x(w), spec_op_y(w))
        } else if w & 0x000f == 0x0003 {
            Instruction::XORR(spec_op_x(w), spec_op_y(w))
        } else if w & 0x000f == 0x0004 {
            Instruction::ADDR(spec_op_x(w), spec_op_y(w))
        } else if w & 0x000f == 0x0005 {
            Instruction::SUBR(spec_op_x(w), spec_op_y(w))
        } else if w & 0x000f == 0x0006 {
            Instruction::SHRR(spec_op_x(w), spec_op_y(w))
        } else if w & 0x000f == 0x0007 {
            Instruction::SUBNR(spec_op_x(w), spec_op_y(w))
        } else if w & 0x000f == 0x000e {
            Instruction::SHLR(spec_op_x(w), spec_op_y(w))
        } else {
            Instruction::UNKNOWN(w)
        }
    } else if w & 0xf000 == 0x9000 {
        if w & 0x000f == 0 {
            Instruction::SNER(spec_op_x(w), spec_op_y(w))
        } else {
            Instruction::UNKNOWN(w)
        }
    } else if w & 0xf000 == 0xa000 {
        Instruction::LDA(spec_op_addr(w))
    } else if w & 0xf000 == 0xb000 {
        Instruction::JPAFAR(spec_op_addr(w))
    } else if w & 0xf000 == 0xc000 {
        Instruction::RND(spec_op_x(w), spec_op_kk(w))
    } else if w & 0xf000 == 0xd000 {
        Instruction::DRW(spec_op_x(w), spec_op_y(w), spec_op_n(w))
    } else if w & 0xf000 == 0xe000 {
        if w & 0x00ff == 0x009e {
            Instruction::SKP(spec_op_x(w))
        } else if w & 0x00ff == 0x00a1 {
            Instruction::SKNP(spec_op_x(w))
        } else {
            Instruction::UNKNOWN(w)
        }
    } else if w & 0xf000 == 0xf000 {
        if w & 0x00ff == 0x0007 {
            Instruction::LDTG(spec_op_x(w))
        } else if w & 0x00ff == 0x000a {
            Instruction::LDK(spec_op_x(w))
        } else if w & 0x00ff == 0x0015 {
            Instruction::LDTS(spec_op_x(w))
        } else if w & 0x00ff == 0x0018 {
            Instruction::LDSS(spec_op_x(w))
        } else if w & 0x00ff == 0x001e {
            Instruction::ADDA(spec_op_x(w))
        } else if w & 0x00ff == 0x0029 {
            Instruction::LDDIG(spec_op_x(w))
        } else if w & 0x00ff == 0x0033 {
            Instruction::LDBCD(spec_op_x(w))
        } else if w & 0x00ff == 0x0055 {
            Instruction::LDREGST(spec_op_x(w))
        } else if w & 0x00ff == 0x0065 {
            Instruction::LDREGRD(spec_op_x(w))
        } else {
            Instruction::UNKNOWN(w)
        }
    } else {
        Instruction::UNKNOWN(w)
    }
}

/// The nibble and byte operands of a word are bounded, so every decoded
/// instruction carries in-range operands.
pub proof fn lemma_ops_bounded(w: u16)
    ensures
        spec_op_x(w) < 16,
        spec_op_y(w) < 16,
        spec_op_n(w) < 16,
        spec_op_addr(w) < 0x1000,
{
    assert((w & 0x0f00) >> 8 < 16 && (w & 0x00f0) >> 4 < 16 && (w & 0x000f) < 16 && (w
        & 0x0fff) < 0x1000) by (bit_vector);
}

/// Decoding always yields well-formed operands.
pub proof fn lemma_decode_wf(w: u16)
    ensures
        inst_wf(spec_decode(w)),
{
    lemma_ops_bounded(w);
}

// ---------------------------------------------------------------------------
// The executable decoder.
// ---------------------------------------------------------------------------

fn op_addr(i: u16) -> (r: u16)
    ensures
        r == spec_op_addr(i),
        r < 0x1000,
{
    assert(i & 0x0fff < 0x1000) by (bit_vector);
    i & 0x0fff
}

fn op_x(i: u16) -> (r: u8)
    ensures
        r == spec_op_x(i),
        r < 16,
{
    let n: u16 = (i & 0x0f00) >> 8;
    assert(n < 16) by (bit_vector)
        requires
            n == (i & 0x0f00) >> 8,
    ;
    n as u8
}

fn op_y(i: u16) -> (r: u8)
    ensures
        r == spec_op_y(i),
        r < 16,
{
    let n: u16 = (i & 0x00f0) >> 4;
    assert(n < 16) by (bit_vector)
        requires
            n == (i & 0x00f0) >> 4,
    ;
    n as u8
}

fn op_kk(i: u16) -> (r: u8)
    ensures
        r == spec_op_kk(i),
{
    let n: u16 = i & 0x00ff;
    assert(n < 256) by (bit_vector)
        requires
            n == i & 0x00ff,
    ;
    n as u8
}

fn op_n(i: u16) -> (r: u8)
    ensures
        r == spec_op_n(i),
        r < 16,
{
    let n: u16 = i & 0x000f;
    assert(n < 16) by (bit_vector)
        requires
            n == i & 0x000f,
    ;
    n as u8
}

fn parse_1(i: u16) -> (r: Option<Instruction>)
    ensures
        r == Some(Instruction::JPA(spec_op_addr(i))),
{
    Some(Instruction::JPA(op_addr(i)))
}

fn parse_2(i: u16) -> (r: Option<Instruction>)
    ensures
        r == Some(Instruction::CALL(spec_op_addr(i))),
{
    Some(Instruction::CALL(op_addr(i)))
}

fn parse_3(i: u16) -> (r: Option<Instruction>)
    ensures
        r == Some(Instruction::SEI(spec_op_x(i), spec_op_kk(i))),
{
    Some(Instruction::SEI(op_x(i), op_kk(i)))
}

fn parse_4(i: u16) -> (r: Option<Instruction>)
    ensures
        r == Some(Instruction::SNEI(spec_op_x(i), spec_op_kk(i))),
{
    Some(Instruction::SNEI(op_x(i), op_kk(i)))
}

fn parse_5(i: u16) -> (r: Option<Instruction>)
    ensures
        r == if i & 0x000f == 0 {
            Some(Instruction::SER(spec_op_x(i), spec_op_y(i)))
        } else {
            None::<Instruction>
        },
{
    if i & 0x000f != 0 {
        return None;
    }
    Some(Instruction::SER(op_x(i), op_y(i)))
}

fn parse_6(i: u16) -> (r: Option<Instruction>)
    ensures
        r == Some(Instruction::LDI(spec_op_x(i), spec_op_kk(i))),
{
    Some(Instruction::LDI(op_x(i), op_kk(i)))
}

fn parse_7(i: u16) -> (r: Option<Instruction>)
    ensures
        r == Some(Instruction::ADDI(spec_op_x(i), spec_op_kk(i))),
{
    Some(Instruction::ADDI(op_x(i), op_kk(i)))
}

fn parse_8(i: u16) -> (r: Option<Instruction>)
    ensures
        r == ({
            let x = spec_op_x(i);
            let y = spec_op_y(i);
            if i & 0x000f == 0x0000 {
                Some(Instruction::LDR(x, y))
            } else if i & 0x000f == 0x0001 {
                Some(Instruction::ORR(x, y))
            } else if i & 0x000f == 0x0002 {
                Some(Instruction::ANDR(x, y))
            } else if i & 0x000f == 0x0003 {
                Some(Instruction::XORR(x, y))
            } else if i & 0x000f == 0x0004 {
                Some(Instruction::ADDR(x, y))
            } else if i & 0x000f == 0x0005 {
                Some(Instruction::SUBR(x, y))
            } else if i & 0x000f == 0x0006 {
                Some(Instruction::SHRR(x, y))
            } else if i & 0x000f == 0x0007 {
                Some(Instruction::SUBNR(x, y))
            } else if i & 0x000f == 0x000e {
                Some(Instruction::SHLR(x, y))
            } else {
                None::<Instruction>
            }
        }),
{
    let low: u16 = i & 0x000f;
    if low == 0x0000 {
        Some(Instruction::LDR(op_x(i), op_y(i)))
    } else if low == 0x0001 {
        Some(Instruction::ORR(op_x(i), op_y(i)))
    } else if low == 0x0002 {
        Some(Instruction::ANDR(op_x(i), op_y(i)))
    } else if low == 0x0003 {
        Some(Instruction::XORR(op_x(i), op_y(i)))
    } else if low == 0x0004 {
        Some(Instruction::ADDR(op_x(i), op_y(i)))
    } else if low == 0x0005 {
        Some(Instruction::SUBR(op_x(i), op_y(i)))
    } else if low == 0x0006 {
        Some(Instruction::SHRR(op_x(i), op_y(i)))
    } else if low == 0x0007 {
        Some(Instruction::SUBNR(op_x(i), op_y(i)))
    } else if low == 0x000e {
        Some(Instruction::SHLR(op_x(i), op_y(i)))
    } else {
        None
    }
}

fn parse_9(i: u16) -> (r: Option<Instruction>)
    ensures
        r == if i & 0x000f == 0 {
            Some(Instruction::SNER(spec_op_x(i), spec_op_y(i)))
        } else {
            None::<Instruction>
        },
{
    if i & 0x000f != 0 {
        return None;
    }
    Some(Instruction::SNER(op_x(i), op_y(i)))
}

fn parse_a(i: u16) -> (r: Option<Instruction>)
    ensures
        r == Some(Instruction::LDA(spec_op_addr(i))),
{
    Some(Instruction::LDA(op_addr(i)))
}

fn parse_b(i: u16) -> (r: Option<Instruction>)
    ensures
        r == Some(Instruction::JPAFAR(spec_op_addr(i))),
{
    Some(Instruction::JPAFAR(op_addr(i)))
}

fn parse_c(i: u16) -> (r: Option<Instruction>)
    ensures
        r == Some(Instruction::RND(spec_op_x(i), spec_op_kk(i))),
{
    Some(Instruction::RND(op_x(i), op_kk(i)))
}

fn parse_d(i: u16) -> (r: Option<Instruction>)
    ensures
        r == Some(Instruction::DRW(spec_op_x(i), spec_op_y(i), spec_op_n(i))),
{
    Some(Instruction::DRW(op_x(i), op_y(i), op_n(i)))
}

fn parse_e(i: u16) -> (r: Option<Instruction>)
    ensures
        r == ({
            if i & 0x00ff == 0x009e {
                Some(Instruction::SKP(spec_op_x(i)))
            } else if i & 0x00ff == 0x00a1 {
                Some(Instruction::SKNP(spec_op_x(i)))
            } else {
                None::<Instruction>
            }
        }),
{
    let low: u16 = i & 0x00ff;
    if low == 0x009e {
        Some(Instruction::SKP(op_x(i)))
    } else if low == 0x00a1 {
        Some(Instruction::SKNP(op_x(i)))
    } else {
        None
    }
}

fn parse_f(i: u16) -> (r: Option<Instruction>)
    ensures
        r == ({
            let x = spec_op_x(i);
            if i & 0x00ff == 0x0007 {
                Some(Instruction::LDTG(x))
            } else if i & 0x00ff == 0x000a {
                Some(Instruction::LDK(x))
            } else if i & 0x00ff == 0x0015 {
                Some(Instruction::LDTS(x))
            } else if i & 0x00ff == 0x0018 {
                Some(Instruction::LDSS(x))
            } else if i & 0x00ff == 0x001e {
                Some(Instruction::ADDA(x))
            } else if i & 0x00ff == 0x0029 {
                Some(Instruction::LDDIG(x))
            } else if i & 0x00ff == 0x0033 {
                Some(Instruction::LDBCD(x))
            } else if i & 0x00ff == 0x0055 {
                Some(Instruction::LDREGST(x))
            } else if i & 0x00ff == 0x0065 {
                Some(Instruction::LDREGRD(x))
            } else {
                None::<Instruction>
            }
        }),
{
    let low: u16 = i & 0x00ff;
    if low == 0x0007 {
        Some(Instruction::LDTG(op_x(i)))
    } else if low == 0x000a {
        Some(Instruction::LDK(op_x(i)))
    } else if low == 0x0015 {
        Some(Instruction::LDTS(op_x(i)))
    } else if low == 0x0018 {
        Some(Instruction::LDSS(op_x(i)))
    } else if low == 0x001e {
        Some(Instruction::ADDA(op_x(i)))
    } else if low == 0x0029 {
        Some(Instruction::LDDIG(op_x(i)))
    } else if low == 0x0033 {
        Some(Instruction::LDBCD(op_x(i)))
    } else if low == 0x0055 {
        Some(Instruction::LDREGST(op_x(i)))
    } else if low == 0x0065 {
        Some(Instruction::LDREGRD(op_x(i)))
    } else {
        None
    }
}

/// Decode one big-endian 2-byte word.  Total: every word decodes to exactly
/// one instruction, with `UNKNOWN` as the catch-all, so the engine can make
/// unconditional forward progress on malformed or unsupported words.
pub fn read(buf: [u8; 2]) -> (r: Instruction)
    ensures
        r == spec_decode(spec_word(buf[0], buf[1])),
        inst_wf(r),
{
    let i: u16 = (buf[0] as u16) * 256 + (buf[1] as u16);
    proof {
        lemma_decode_wf(i);
    }
    if i == 0x00e0 {
        return Instruction::CLS;
    }
    if i == 0x00ee {
        return Instruction::RET;
    }
    let hi: u16 = i & 0xf000;
    let parsed: Option<Instruction> = if hi == 0x1000 {
        parse_1(i)
    } else if hi == 0x2000 {
        parse_2(i)
    } else if hi == 0x3000 {
        parse_3(i)
    } else if hi == 0x4000 {
        parse_4(i)
    } else if hi == 0x5000 {
        parse_5(i)
    } else if hi == 0x6000 {
        parse_6(i)
    } else if hi == 0x7000 {
        parse_7(i)
    } else if hi == 0x8000 {
        parse_8(i)
    } else if hi == 0x9000 {
        parse_9(i)
    } else if hi == 0xa000 {
        parse_a(i)
    } else if hi == 0xb000 {
        parse_b(i)
    } else if hi == 0xc000 {
        parse_c(i)
    } else if hi == 0xd000 {
        parse_d(i)
    } else if hi == 0xe000 {
        parse_e(i)
    } else if hi == 0xf000 {
        parse_f(i)
    } else {
        None
    };
    match parsed {
        Some(inst) => inst,
        None => Instruction::UNKNOWN(i),
    }
}

/// Decode a whole buffer of packed big-endian words, for diagnostic or
/// disassembly use.  Fails exactly when the buffer is empty or has odd
/// length (words are 2-byte aligned); otherwise yields one instruction per
/// word, in order.
pub fn read_all(data: &[u8]) -> (r: Option<Vec<Instruction>>)
    ensures
        r is Some <==> data@.len() > 0 && data@.len() % 2 == 0,
        r matches Some(v) ==> {
            &&& v@.len() == data@.len() / 2
            &&& forall|j: int|
                0 <= j < v@.len() ==> v@[j] == spec_decode(
                    spec_word(data@[2 * j], data@[2 * j + 1]),
                )
        },
{
    let n = data.len();
    if n == 0 || n % 2 != 0 {
        return None;
    }
    let mut inst: Vec<Instruction> = Vec::new();
    let mut k: usize = 0;
    while k < n
        invariant
            n == data@.len(),
            n % 2 == 0,
            k % 2 == 0,
            k <= n,
            inst@.len() == k / 2,
            forall|j: int|
                0 <= j < inst@.len() ==> inst@[j] == spec_decode(
                    spec_word(data@[2 * j], data@[2 * j + 1]),
                ),
        decreases n - k,
    {
        inst.push(read([data[k], data[k + 1]]));
        k = k + 2;
    }
    Some(inst)
}

} // verus!
