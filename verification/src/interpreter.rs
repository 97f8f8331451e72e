use vstd::prelude::*;
use crate::display::{DISPLAY_SIZE, Display, blank_grid, lemma_draw_rows_len, spec_collision, spec_draw};
use crate::drivers::Context;
use crate::input::{Input, Key};
use crate::instructions::Instruction;
use crate::parser;
use crate::rand::Rand;
use crate::sound::{Sound, SoundEvent};

verus! {

/// Errors a single executed cycle can surface.  They are returned to the
/// caller of the cycle, never swallowed and never a process abort.
#[derive(Copy, Clone, PartialEq, Eq, Debug, Structural)]
pub enum VmError {
    /// A key-skip instruction found a register value of 16 or more.
    InvalidKeyIndex,
    /// A call was made with all sixteen stack slots already in use.
    StackOverflow,
    /// A return was made with an empty call stack.
    StackUnderflow,
}

/// Errors surfaced while loading a program image.
#[derive(Copy, Clone, PartialEq, Eq, Debug, Structural)]
pub enum LoadError {
    /// The program does not fit between the load address and the end of
    /// memory.
    TooLarge,
}

/// The machine: sixteen 8-bit registers (register 15 doubles as the
/// flag output of arithmetic, shifts and draws), the 16-bit index and
/// program-counter registers, a sixteen-slot call stack with its depth
/// counter, the two 8-bit timers, 4096 bytes of memory, and the counter
/// that paces the timers against executed cycles.
pub struct VM {
    pub reg_snd: u8,
    pub reg_dt: u8,
    pub reg_sp: u8,
    pub reg_i: u16,
    pub reg_pc: u16,
    pub cycle_count: u8,
    pub registers: [u8; 16],
    pub stack: [u16; 16],
    pub ram: [u8; 4096],
}

/// The mathematical machine state the contracts speak of.
#[verifier::ext_equal]
pub ghost struct VMState {
    pub regs: Seq<u8>,
    pub stack: Seq<u16>,
    pub ram: Seq<u8>,
    pub pc: u16,
    pub i: u16,
    pub sp: u8,
    pub dt: u8,
    pub snd: u8,
    pub tick: u8,
}

impl View for VM {
    type V = VMState;

    open spec fn view(&self) -> VMState {
        VMState {
            regs: self.registers@,
            stack: self.stack@,
            ram: self.ram@,
            pc: self.reg_pc,
            i: self.reg_i,
            sp: self.reg_sp,
            dt: self.reg_dt,
            snd: self.reg_snd,
            tick: self.cycle_count,
        }
    }
}

impl VMState {
    /// The structural invariant: the register file, stack and memory
    /// have their fixed sizes, the stack depth never passes the slot
    /// count, and the timer pacing counter stays below its period.
    pub open spec fn wf(self) -> bool {
        &&& self.regs.len() == 16
        &&& self.stack.len() == 16
        &&& self.ram.len() == 4096
        &&& self.sp <= 16
        &&& self.tick < 8
    }

    /// The big-endian word under the program counter.
    pub open spec fn cur_word(self) -> u16 {
        parser::spec_word(self.ram[self.pc as int], self.ram[self.pc as int + 1])
    }

    /// The instruction the next cycle will execute.
    pub open spec fn cur_inst(self) -> Instruction {
        parser::spec_decode(self.cur_word())
    }

    /// The fetch-execute precondition: the machine is well formed, both
    /// instruction bytes lie within memory, and every memory cell the
    /// fetched instruction touches resolves within memory.
    pub open spec fn ready(self) -> bool {
        &&& self.wf()
        &&& self.pc + 1 < 4096
        &&& match self.cur_inst() {
            Instruction::DRW(_, _, n) => self.i + n <= 4096,
            Instruction::LDBCD(_) => self.i + 3 <= 4096,
            Instruction::LDREGST(x) => self.i + x + 1 <= 4096,
            Instruction::LDREGRD(x) => self.i + x + 1 <= 4096,
            _ => true,
        }
    }
}

/// `data` overlaid on `base` starting at `at`; everything outside that
/// window is unchanged.
pub open spec fn write_block(base: Seq<u8>, at: int, data: Seq<u8>) -> Seq<u8> {
    Seq::new(
        base.len(),
        |p: int|
            if at <= p < at + data.len() {
                data[p - at]
            } else {
                base[p]
            },
    )
}

/// The error, if any, that executing `inst` from `pre` must surface: a
/// call with the stack full, a return with the stack empty, or a
/// key-skip on a register value that names no key.  Every other
/// instruction always succeeds.
pub open spec fn step_fault(pre: VMState, inst: Instruction) -> Option<VmError> {
    match inst {
        Instruction::CALL(_) => if pre.sp >= 16 {
            Some(VmError::StackOverflow)
        } else {
            None
        },
        Instruction::RET => if pre.sp == 0 {
            Some(VmError::StackUnderflow)
        } else {
            None
        },
        Instruction::SKP(x) => if pre.regs[x as int] >= 16 {
            Some(VmError::InvalidKeyIndex)
        } else {
            None
        },
        Instruction::SKNP(x) => if pre.regs[x as int] >= 16 {
            Some(VmError::InvalidKeyIndex)
        } else {
            None
        },
        _ => None,
    }
}

/// The machine state after a fault-free execution of `inst` from `pre`.
/// `rnd` is the byte the random source yielded, `key` the key index the
/// wait-for-key instruction received, `keys` the polled key set and
/// `coll` the display's collision report; each is read only by the
/// instruction it belongs to.
///
/// All byte arithmetic is modular.  Where an instruction writes both a
/// result and the flag register, the writes happen in the reference
/// order, so on register 15 the later write wins.  Three deliberate
/// choices are worth naming: the block copy instructions advance the
/// program counter like every other opcode; the digit-sprite
/// instruction multiplies its operand nibble itself by five, without
/// reading a register; and the decimal-digit conversion reads the value
/// stored in its register and writes the three digits at the index
/// register.
pub open spec fn step(
    pre: VMState,
    inst: Instruction,
    rnd: u8,
    key: u8,
    keys: Seq<bool>,
    coll: bool,
) -> VMState {
    let pc2 = ((pre.pc + 2) % 0x10000) as u16;
    let pc4 = ((pre.pc + 4) % 0x10000) as u16;
    match inst {
        Instruction::UNKNOWN(_) => VMState { pc: pc2, ..pre },
        Instruction::CLS => VMState { pc: pc2, ..pre },
        Instruction::RET => VMState {
            sp: (pre.sp - 1) as u8,
            pc: pre.stack[pre.sp - 1],
            ..pre
        },
        Instruction::JPA(a) => VMState { pc: a, ..pre },
        Instruction::CALL(a) => VMState {
            stack: pre.stack.update(pre.sp as int, pc2),
            sp: (pre.sp + 1) as u8,
            pc: a,
            ..pre
        },
        Instruction::SEI(x, k) => VMState {
            pc: if pre.regs[x as int] == k {
                pc4
            } else {
                pc2
            },
            ..pre
        },
        Instruction::SNEI(x, k) => VMState {
            pc: if pre.regs[x as int] == k {
                pc2
            } else {
                pc4
            },
            ..pre
        },
        Instruction::SER(x, y) => VMState {
            pc: if pre.regs[x as int] == pre.regs[y as int] {
                pc4
            } else {
                pc2
            },
            ..pre
        },
        Instruction::LDI(x, k) => VMState { regs: pre.regs.update(x as int, k), pc: pc2, ..pre },
        Instruction::ADDI(x, k) => VMState {
            regs: pre.regs.update(x as int, ((pre.regs[x as int] + k) % 256) as u8),
            pc: pc2,
            ..pre
        },
        Instruction::LDR(x, y) => VMState {
            regs: pre.regs.update(x as int, pre.regs[y as int]),
            pc: pc2,
            ..pre
        },
        Instruction::ORR(x, y) => VMState {
            regs: pre.regs.update(x as int, pre.regs[x as int] | pre.regs[y as int]),
            pc: pc2,
            ..pre
        },
        Instruction::ANDR(x, y) => VMState {
            regs: pre.regs.update(x as int, pre.regs[x as int] & pre.regs[y as int]),
            pc: pc2,
            ..pre
        },
        Instruction::XORR(x, y) => VMState {
            regs: pre.regs.update(x as int, pre.regs[x as int] ^ pre.regs[y as int]),
            pc: pc2,
            ..pre
        },
        Instruction::ADDR(x, y) => {
            let sum = pre.regs[x as int] + pre.regs[y as int];
            let carry: u8 = if sum > 255 {
                1
            } else {
                0
            };
            VMState {
                regs: pre.regs.update(x as int, (sum % 256) as u8).update(15, carry),
                pc: pc2,
                ..pre
            }
        },
        Instruction::SUBR(x, y) => {
            let ry = pre.regs[y as int];
            let borrow: u8 = if pre.regs[x as int] > ry {
                1
            } else {
                0
            };
            let flagged = pre.regs.update(15, borrow);
            VMState {
                regs: flagged.update(x as int, ((flagged[x as int] - ry) % 256) as u8),
                pc: pc2,
                ..pre
            }
        },
        Instruction::SHRR(x, _) => {
            let rx = pre.regs[x as int];
            VMState {
                regs: pre.regs.update(15, (rx % 2) as u8).update(x as int, (rx / 2) as u8),
                pc: pc2,
                ..pre
            }
        },
        Instruction::SUBNR(x, y) => {
            let rx = pre.regs[x as int];
            let ry = pre.regs[y as int];
            let borrow: u8 = if ry > rx {
                1
            } else {
                0
            };
            VMState {
                regs: pre.regs.update(15, borrow).update(x as int, ((ry - rx) % 256) as u8),
                pc: pc2,
                ..pre
            }
        },
        Instruction::SHLR(x, _) => {
            let rx = pre.regs[x as int];
            let top: u8 = if rx >= 128 {
                128
            } else {
                0
            };
            VMState {
                regs: pre.regs.update(15, top).update(x as int, ((rx * 2) % 256) as u8),
                pc: pc2,
                ..pre
            }
        },
        Instruction::SNER(x, y) => VMState {
            pc: if pre.regs[x as int] == pre.regs[y as int] {
                pc2
            } else {
                pc4
            },
            ..pre
        },
        Instruction::LDA(a) => VMState { i: a, pc: pc2, ..pre },
        Instruction::JPAFAR(a) => VMState { pc: ((pre.regs[0] + a) % 0x10000) as u16, ..pre },
        Instruction::RND(x, k) => VMState {
            regs: pre.regs.update(x as int, rnd & k),
            pc: pc2,
            ..pre
        },
        Instruction::DRW(_, _, _) => VMState {
            regs: pre.regs.update(
                15,
                if coll {
                    1u8
                } else {
                    0u8
                },
            ),
            pc: pc2,
            ..pre
        },
        Instruction::SKP(x) => VMState {
            pc: if keys[pre.regs[x as int] as int] {
                pc4
            } else {
                pc2
            },
            ..pre
        },
        Instruction::SKNP(x) => VMState {
            pc: if keys[pre.regs[x as int] as int] {
                pc2
            } else {
                pc4
            },
            ..pre
        },
        Instruction::LDTG(x) => VMState { regs: pre.regs.update(x as int, pre.dt), pc: pc2, ..pre },
        Instruction::LDK(x) => VMState { regs: pre.regs.update(x as int, key), pc: pc2, ..pre },
        Instruction::LDTS(x) => VMState { dt: pre.regs[x as int], pc: pc2, ..pre },
        Instruction::LDSS(x) => VMState { snd: pre.regs[x as int], pc: pc2, ..pre },
        Instruction::ADDA(x) => VMState {
            i: ((pre.i + pre.regs[x as int]) % 0x10000) as u16,
            pc: pc2,
            ..pre
        },
        Instruction::LDDIG(d) => VMState { i: (d * 5) as u16, pc: pc2, ..pre },
        Instruction::LDBCD(x) => {
            let v = pre.regs[x as int];
            VMState {
                ram: write_block(
                    pre.ram,
                    pre.i as int,
                    seq![(v / 100) as u8, ((v / 10) % 10) as u8, (v % 10) as u8],
                ),
                pc: pc2,
                ..pre
            }
        },
        Instruction::LDREGST(x) => VMState {
            ram: write_block(pre.ram, pre.i as int, pre.regs.take(x + 1)),
            pc: pc2,
            ..pre
        },
        Instruction::LDREGRD(x) => VMState {
            regs: Seq::new(
                16,
                |k: int|
                    if k <= x {
                        pre.ram[pre.i + k]
                    } else {
                        pre.regs[k]
                    },
            ),
            pc: pc2,
            ..pre
        },
    }
}

/// The sprite bytes a draw cycle hands to the display: the `n` memory
/// bytes starting at the index register.
pub open spec fn drw_sprite(s: VMState) -> Seq<u8> {
    match s.cur_inst() {
        Instruction::DRW(_, _, n) => s.ram.subrange(s.i as int, s.i + n),
        _ => Seq::empty(),
    }
}

/// The column a draw cycle starts at: the value of its first register.
pub open spec fn drw_x(s: VMState) -> u8 {
    match s.cur_inst() {
        Instruction::DRW(x, _, _) => s.regs[x as int],
        _ => 0,
    }
}

/// The row a draw cycle starts at: the value of its second register.
pub open spec fn drw_y(s: VMState) -> u8 {
    match s.cur_inst() {
        Instruction::DRW(_, y, _) => s.regs[y as int],
        _ => 0,
    }
}

/// The collision the display reports on a draw cycle; false on every
/// other cycle.
pub open spec fn drw_collision(s: VMState, grid: Seq<bool>) -> bool {
    match s.cur_inst() {
        Instruction::DRW(_, _, _) => spec_collision(
            grid,
            drw_x(s) as int,
            drw_y(s) as int,
            drw_sprite(s),
        ),
        _ => false,
    }
}

/// What the display's pixel grid holds after a fault-free cycle.
pub open spec fn display_after(s: VMState, grid: Seq<bool>) -> Seq<bool> {
    match s.cur_inst() {
        Instruction::CLS => blank_grid(),
        Instruction::DRW(_, _, _) => spec_draw(
            grid,
            drw_x(s) as int,
            drw_y(s) as int,
            drw_sprite(s),
        ),
        _ => grid,
    }
}

/// The tone signals a fault-free cycle appends: the store-sound-timer
/// instruction starts the tone unconditionally, before the timer value
/// is applied, even when that value is zero.
pub open spec fn sound_after(s: VMState, events: Seq<SoundEvent>) -> Seq<SoundEvent> {
    match s.cur_inst() {
        Instruction::LDSS(_) => events.push(SoundEvent::ToneStart),
        _ => events,
    }
}

/// How a fault-free executed cycle relates the post state to the pre
/// state: fully determined for every instruction except the random
/// byte, which may be any byte the source yielded, and the awaited key,
/// which may be any of the sixteen keys.
pub open spec fn cycle_ok(pre: VMState, post: VMState, keys: Seq<bool>, coll: bool) -> bool {
    let inst = pre.cur_inst();
    match inst {
        Instruction::RND(_, _) => exists|b: u8| post == step(pre, inst, b, 0, keys, coll),
        Instruction::LDK(_) => exists|k: u8| k < 16 && post == step(pre, inst, 0, k, keys, coll),
        _ => post == step(pre, inst, 0, 0, keys, coll),
    }
}

/// A timer decrement that clamps at zero instead of wrapping.
pub open spec fn sat8(v: u8) -> u8 {
    if v >= 8 {
        (v - 8) as u8
    } else {
        0
    }
}

/// The timer pacing applied after each executed cycle: every eighth
/// cycle both timers drop by eight, saturating at zero.
pub open spec fn tick_state(s: VMState) -> VMState {
    if s.tick + 1 == 8 {
        VMState { tick: 0, dt: sat8(s.dt), snd: sat8(s.snd), ..s }
    } else {
        VMState { tick: (s.tick + 1) as u8, ..s }
    }
}

/// Whether this cycle's pacing step moves the sound timer from nonzero
/// to zero, which is the one moment the tone-end signal is sent.
pub open spec fn tick_tone_end(s: VMState) -> bool {
    s.tick + 1 == 8 && 0 < s.snd <= 8
}

/// The glyph rows of the built-in font: sixteen glyphs of five bytes
/// each, one glyph per hexadecimal digit, glyph `d` starting at offset
/// `d * 5`.
pub open spec fn font() -> Seq<u8> {
    seq![
        0xF0u8, 0x90, 0x90, 0x90, 0xF0, 0x20, 0x60, 0x20, 0x20, 0x70,
        0xF0, 0x10, 0xF0, 0x80, 0xF0, 0xF0, 0x10, 0xF0, 0x10, 0xF0,
        0x90, 0x90, 0xF0, 0x10, 0x10, 0xF0, 0x80, 0xF0, 0x10, 0xF0,
        0xF0, 0x80, 0xF0, 0x90, 0xF0, 0xF0, 0x10, 0x20, 0x40, 0x40,
        0xF0, 0x90, 0xF0, 0x90, 0xF0, 0xF0, 0x90, 0xF0, 0x10, 0xF0,
        0xF0, 0x90, 0xF0, 0x90, 0x90, 0xE0, 0x90, 0xE0, 0x90, 0xE0,
        0xF0, 0x80, 0x80, 0x80, 0xF0, 0xE0, 0x90, 0x90, 0x90, 0xE0,
        0xF0, 0x80, 0xF0, 0x80, 0xF0, 0xF0, 0x80, 0xF0, 0x80, 0x80,
    ]
}

/// The font table as bytes.
fn font_table() -> (r: [u8; 80])
    ensures
        r@ == font(),
{
    let a: [u8; 80] = [
        0xF0u8, 0x90, 0x90, 0x90, 0xF0, 0x20, 0x60, 0x20, 0x20, 0x70,
        0xF0, 0x10, 0xF0, 0x80, 0xF0, 0xF0, 0x10, 0xF0, 0x10, 0xF0,
        0x90, 0x90, 0xF0, 0x10, 0x10, 0xF0, 0x80, 0xF0, 0x10, 0xF0,
        0xF0, 0x80, 0xF0, 0x90, 0xF0, 0xF0, 0x10, 0x20, 0x40, 0x40,
        0xF0, 0x90, 0xF0, 0x90, 0xF0, 0xF0, 0x90, 0xF0, 0x10, 0xF0,
        0xF0, 0x90, 0xF0, 0x90, 0x90, 0xE0, 0x90, 0xE0, 0x90, 0xE0,
        0xF0, 0x80, 0x80, 0x80, 0xF0, 0xE0, 0x90, 0x90, 0x90, 0xE0,
        0xF0, 0x80, 0xF0, 0x80, 0xF0, 0xF0, 0x80, 0xF0, 0x80, 0x80,
    ];
    proof {
        assert(a@ =~= font());
    }
    a
}

impl VM {
    /// A machine with every register, timer, stack slot and memory cell
    /// zeroed, for deterministic startup.
    pub fn new() -> (r: VM)
        ensures
            r@.wf(),
            r@.pc == 0,
            r@.i == 0,
            r@.sp == 0,
            r@.dt == 0,
            r@.snd == 0,
            r@.tick == 0,
            forall|k: int| 0 <= k < 16 ==> r@.regs[k] == 0,
            forall|k: int| 0 <= k < 16 ==> r@.stack[k] == 0,
            forall|k: int| 0 <= k < 4096 ==> r@.ram[k] == 0,
    {
        VM {
            reg_snd: 0,
            reg_dt: 0,
            reg_sp: 0,
            reg_i: 0,
            reg_pc: 0,
            cycle_count: 0,
            registers: [0u8;16],
            stack: [0u16;16],
            ram: [0u8;4096],
        }
    }

    /// Load a program image: the font table is written at the base of
    /// memory, the program bytes from 0x200 upward, and the program
    /// counter is reset to 0x200.  Nothing else changes.  A program
    /// longer than the memory left above the load address is rejected
    /// whole, leaving the machine untouched.
    #[verifier::loop_isolation(false)]
    pub fn load(&mut self, program: &[u8]) -> (r: Result<(), LoadError>)
        requires
            old(self)@.wf(),
        ensures
            final(self)@.wf(),
            program@.len() > 4096 - 0x200 ==> r == Err::<(), LoadError>(LoadError::TooLarge)
                && final(self)@ == old(self)@,
            program@.len() <= 4096 - 0x200 ==> r == Ok::<(), LoadError>(()) && final(self)@ == (
            VMState {
                ram: write_block(write_block(old(self)@.ram, 0, font()), 0x200, program@),
                pc: 0x200,
                ..old(self)@
            }),
    {
        if program.len() > 4096 - 0x200 {
            return Err(LoadError::TooLarge);
        }
        self.reg_pc = 0x200;
        let glyphs = font_table();
        let mut k: usize = 0;
        while k < 80
            invariant
                k <= 80,
                self.ram@.len() == 4096,
                forall|p: int| 0 <= p < k ==> self.ram@[p] == font()[p],
                forall|p: int| k <= p < 4096 ==> self.ram@[p] == old(self)@.ram[p],
                self.registers == old(self).registers,
                self.stack == old(self).stack,
                self.reg_snd == old(self).reg_snd,
                self.reg_dt == old(self).reg_dt,
                self.reg_sp == old(self).reg_sp,
                self.reg_i == old(self).reg_i,
                self.reg_pc == 0x200,
                self.cycle_count == old(self).cycle_count,
            decreases 80 - k,
        {
            self.ram[k] = glyphs[k];
            k = k + 1;
        }
        let n = program.len();
        let mut j: usize = 0;
        while j < n
            invariant
                j <= n,
                n == program@.len(),
                n <= 4096 - 0x200,
                self.ram@.len() == 4096,
                forall|p: int| 0 <= p < 80 ==> self.ram@[p] == font()[p],
                forall|p: int| 80 <= p < 0x200 ==> self.ram@[p] == old(self)@.ram[p],
                forall|p: int| 0x200 <= p < 0x200 + j ==> self.ram@[p] == program@[p - 0x200],
                forall|p: int| 0x200 + j <= p < 4096 ==> self.ram@[p] == old(self)@.ram[p],
                self.registers == old(self).registers,
                self.stack == old(self).stack,
                self.reg_snd == old(self).reg_snd,
                self.reg_dt == old(self).reg_dt,
                self.reg_sp == old(self).reg_sp,
                self.reg_i == old(self).reg_i,
                self.reg_pc == 0x200,
                self.cycle_count == old(self).cycle_count,
            decreases n - j,
        {
            let b = *vstd::slice::slice_index_get(program, j);
            self.ram[0x200 + j] = b;
            j = j + 1;
        }
        proof {
            assert(self.ram@ =~= write_block(write_block(old(self)@.ram, 0, font()), 0x200, program@));
            assert(self@ =~= (VMState {
                ram: write_block(write_block(old(self)@.ram, 0, font()), 0x200, program@),
                pc: 0x200,
                ..old(self)@
            }));
        }
        Ok(())
    }

    /// Copy registers 0 through `x` inclusive into memory starting at
    /// the index register.
    #[verifier::loop_isolation(false)]
    fn store_regs(&mut self, x: u8)
        requires
            old(self)@.wf(),
            x < 16,
            old(self)@.i + x + 1 <= 4096,
        ensures
            final(self)@ == (VMState {
                ram: write_block(old(self)@.ram, old(self)@.i as int, old(self)@.regs.take(x + 1)),
                ..old(self)@
            }),
    {
        let off = self.reg_i as usize;
        let xu = x as usize;
        let mut k: usize = 0;
        while k < xu + 1
            invariant
                k <= xu + 1,
                self.ram@.len() == 4096,
                forall|p: int| off <= p < off + k ==> self.ram@[p] == old(self)@.regs[p - off],
                forall|p: int|
                    0 <= p < 4096 && !(off <= p < off + k) ==> self.ram@[p] == old(self)@.ram[p],
                self.registers == old(self).registers,
                self.stack == old(self).stack,
                self.reg_snd == old(self).reg_snd,
                self.reg_dt == old(self).reg_dt,
                self.reg_sp == old(self).reg_sp,
                self.reg_i == old(self).reg_i,
                self.reg_pc == old(self).reg_pc,
                self.cycle_count == old(self).cycle_count,
            decreases xu + 1 - k,
        {
            let v = self.registers[k];
            self.ram[off + k] = v;
            k = k + 1;
        }
        proof {
            assert(self.ram@ =~= write_block(
                old(self)@.ram,
                old(self)@.i as int,
                old(self)@.regs.take(x + 1),
            ));
            assert(self@ =~= (VMState {
                ram: write_block(old(self)@.ram, old(self)@.i as int, old(self)@.regs.take(x + 1)),
                ..old(self)@
            }));
        }
    }

    /// Fill registers 0 through `x` inclusive from memory starting at
    /// the index register.
    #[verifier::loop_isolation(false)]
    fn read_regs(&mut self, x: u8)
        requires
            old(self)@.wf(),
            x < 16,
            old(self)@.i + x + 1 <= 4096,
        ensures
            final(self)@ == (VMState {
                regs: Seq::new(
                    16,
                    |k: int|
                        if k <= x {
                            old(self)@.ram[old(self)@.i + k]
                        } else {
                            old(self)@.regs[k]
                        },
                ),
                ..old(self)@
            }),
    {
        let off = self.reg_i as usize;
        let xu = x as usize;
        let mut k: usize = 0;
        while k < xu + 1
            invariant
                k <= xu + 1,
                self.registers@.len() == 16,
                forall|p: int| 0 <= p < k ==> self.registers@[p] == old(self)@.ram[off + p],
                forall|p: int| k <= p < 16 ==> self.registers@[p] == old(self)@.regs[p],
                self.ram == old(self).ram,
                self.stack == old(self).stack,
                self.reg_snd == old(self).reg_snd,
                self.reg_dt == old(self).reg_dt,
                self.reg_sp == old(self).reg_sp,
                self.reg_i == old(self).reg_i,
                self.reg_pc == old(self).reg_pc,
                self.cycle_count == old(self).cycle_count,
            decreases xu + 1 - k,
        {
            let v = self.ram[off + k];
            self.registers[k] = v;
            k = k + 1;
        }
        proof {
            assert(self@.regs =~= Seq::new(
                16,
                |k: int|
                    if k <= x {
                        old(self)@.ram[old(self)@.i + k]
                    } else {
                        old(self)@.regs[k]
                    },
            ));
            assert(self@ =~= (VMState {
                regs: Seq::new(
                    16,
                    |k: int|
                        if k <= x {
                            old(self)@.ram[old(self)@.i + k]
                        } else {
                            old(self)@.regs[k]
                        },
                ),
                ..old(self)@
            }));
        }
    }

    /// Whether the next cycle's fetch-execute preconditions hold, so a
    /// host can refuse to step a machine whose program counter or index
    /// register has wandered out of memory.
    pub fn cycle_ready(&self) -> (b: bool)
        requires
            self@.wf(),
        ensures
            b == self@.ready(),
    {
        let pc = self.reg_pc as usize;
        if pc + 1 >= 4096 {
            return false;
        }
        let inst = parser::read([self.ram[pc], self.ram[pc + 1]]);
        match inst {
            Instruction::DRW(_, _, n) => self.reg_i as usize + (n as usize) <= 4096,
            Instruction::LDBCD(_) => self.reg_i as usize + 3 <= 4096,
            Instruction::LDREGST(x) => self.reg_i as usize + (x as usize) + 1 <= 4096,
            Instruction::LDREGRD(x) => self.reg_i as usize + (x as usize) + 1 <= 4096,
            _ => true,
        }
    }


    /// Execute one control-flow or comparison instruction: the unknown
    /// no-op, the absolute and indexed jumps, and the four conditional
    /// skips.
    #[verifier::spinoff_prover]
    #[verifier::rlimit(100)]
    fn exec_branch(
        &mut self,
        inst: Instruction,
        Ghost(keys): Ghost<Seq<bool>>,
        Ghost(coll): Ghost<bool>,
    )
        requires
            old(self)@.wf(),
            crate::instructions::inst_wf(inst),
            old(self)@.pc + 4 <= 0xffff,
            inst is UNKNOWN || inst is JPA || inst is SEI || inst is SNEI || inst is SER
                || inst is SNER || inst is JPAFAR,
        ensures
            final(self)@ == step(old(self)@, inst, 0, 0, keys, coll),
            final(self)@.wf(),
    {
        let ghost pre = old(self)@;
        match inst {
            Instruction::UNKNOWN(_) => {
                self.reg_pc = self.reg_pc + 2;
                proof {
                    assert(self@ =~= step(pre, inst, 0, 0, keys, coll));
                }
            },
            Instruction::JPA(addr) => {
                self.reg_pc = addr;
                proof {
                    assert(self@ =~= step(pre, inst, 0, 0, keys, coll));
                }
            },
            Instruction::SEI(reg, val) => {
                let rv = self.registers[reg as usize];
                self.reg_pc = self.reg_pc + (if rv == val {
                    4
                } else {
                    2
                });
                proof {
                    assert(self@ =~= step(pre, inst, 0, 0, keys, coll));
                }
            },
            Instruction::SNEI(reg, val) => {
                let rv = self.registers[reg as usize];
                self.reg_pc = self.reg_pc + (if rv == val {
                    2
                } else {
                    4
                });
                proof {
                    assert(self@ =~= step(pre, inst, 0, 0, keys, coll));
                }
            },
            Instruction::SER(x, y) => {
                let rx = self.registers[x as usize];
                let ry = self.registers[y as usize];
                self.reg_pc = self.reg_pc + (if rx == ry {
                    4
                } else {
                    2
                });
                proof {
                    assert(self@ =~= step(pre, inst, 0, 0, keys, coll));
                }
            },
            Instruction::SNER(x, y) => {
                let rx = self.registers[x as usize];
                let ry = self.registers[y as usize];
                self.reg_pc = self.reg_pc + (if rx == ry {
                    2
                } else {
                    4
                });
                proof {
                    assert(self@ =~= step(pre, inst, 0, 0, keys, coll));
                }
            },
            Instruction::JPAFAR(addr) => {
                let r0 = self.registers[0];
                self.reg_pc = r0 as u16 + addr;
                proof {
                    assert(self@ =~= step(pre, inst, 0, 0, keys, coll));
                }
            },
            _ => vstd::pervasive::unreached(),
        }
    }

    /// Execute one register-file instruction without a flag output: the
    /// loads, the modular immediate addition, and the bitwise
    /// combinations.
    #[verifier::spinoff_prover]
    #[verifier::rlimit(100)]
    fn exec_alu(
        &mut self,
        inst: Instruction,
        Ghost(keys): Ghost<Seq<bool>>,
        Ghost(coll): Ghost<bool>,
    )
        requires
            old(self)@.wf(),
            crate::instructions::inst_wf(inst),
            old(self)@.pc + 4 <= 0xffff,
            inst is LDI || inst is ADDI || inst is LDR || inst is ORR || inst is ANDR
                || inst is XORR,
        ensures
            final(self)@ == step(old(self)@, inst, 0, 0, keys, coll),
            final(self)@.wf(),
    {
        let ghost pre = old(self)@;
        match inst {
            Instruction::LDI(reg, val) => {
                self.registers[reg as usize] = val;
                self.reg_pc = self.reg_pc + 2;
                proof {
                    assert(self@ =~= step(pre, inst, 0, 0, keys, coll));
                }
            },
            Instruction::ADDI(reg, val) => {
                let rv = self.registers[reg as usize];
                let sum: u16 = rv as u16 + val as u16;
                self.registers[reg as usize] = (sum % 256) as u8;
                self.reg_pc = self.reg_pc + 2;
                proof {
                    assert(self@ =~= step(pre, inst, 0, 0, keys, coll));
                }
            },
            Instruction::LDR(x, y) => {
                let ry = self.registers[y as usize];
                self.registers[x as usize] = ry;
                self.reg_pc = self.reg_pc + 2;
                proof {
                    assert(self@ =~= step(pre, inst, 0, 0, keys, coll));
                }
            },
            Instruction::ORR(x, y) => {
                let rx = self.registers[x as usize];
                let ry = self.registers[y as usize];
                self.registers[x as usize] = rx | ry;
                self.reg_pc = self.reg_pc + 2;
                proof {
                    assert(self@ =~= step(pre, inst, 0, 0, keys, coll));
                }
            },
            Instruction::ANDR(x, y) => {
                let rx = self.registers[x as usize];
                let ry = self.registers[y as usize];
                self.registers[x as usize] = rx & ry;
                self.reg_pc = self.reg_pc + 2;
                proof {
                    assert(self@ =~= step(pre, inst, 0, 0, keys, coll));
                }
            },
            Instruction::XORR(x, y) => {
                let rx = self.registers[x as usize];
                let ry = self.registers[y as usize];
                self.registers[x as usize] = rx ^ ry;
                self.reg_pc = self.reg_pc + 2;
                proof {
                    assert(self@ =~= step(pre, inst, 0, 0, keys, coll));
                }
            },
            _ => vstd::pervasive::unreached(),
        }
    }

    /// Execute one arithmetic or shift instruction that also writes the
    /// flag register.
    #[verifier::spinoff_prover]
    #[verifier::rlimit(100)]
    fn exec_alu_flags(
        &mut self,
        inst: Instruction,
        Ghost(keys): Ghost<Seq<bool>>,
        Ghost(coll): Ghost<bool>,
    )
        requires
            old(self)@.wf(),
            crate::instructions::inst_wf(inst),
            old(self)@.pc + 4 <= 0xffff,
            inst is ADDR || inst is SUBR || inst is SHRR || inst is SUBNR || inst is SHLR,
        ensures
            final(self)@ == step(old(self)@, inst, 0, 0, keys, coll),
            final(self)@.wf(),
    {
        let ghost pre = old(self)@;
        match inst {
            Instruction::ADDR(x, y) => {
                let rx = self.registers[x as usize];
                let ry = self.registers[y as usize];
                let sum: u16 = rx as u16 + ry as u16;
                let carry: u8 = if sum > 255 {
                    1
                } else {
                    0
                };
                self.registers[x as usize] = (sum % 256) as u8;
                self.registers[15] = carry;
                self.reg_pc = self.reg_pc + 2;
                proof {
                    assert(self@ =~= step(pre, inst, 0, 0, keys, coll));
                }
            },
            Instruction::SUBR(x, y) => {
                let rx = self.registers[x as usize];
                let ry = self.registers[y as usize];
                let borrow: u8 = if rx > ry {
                    1
                } else {
                    0
                };
                self.registers[15] = borrow;
                let cur = self.registers[x as usize];
                let diff: u16 = cur as u16 + 256 - ry as u16;
                self.registers[x as usize] = (diff % 256) as u8;
                self.reg_pc = self.reg_pc + 2;
                proof {
                    assert(diff % 256 == (cur - ry) % 256);
                    assert(self@ =~= step(pre, inst, 0, 0, keys, coll));
                }
            },
            Instruction::SHRR(x, _) => {
                let rx = self.registers[x as usize];
                self.registers[15] = rx % 2;
                self.registers[x as usize] = rx / 2;
                self.reg_pc = self.reg_pc + 2;
                proof {
                    assert(self@ =~= step(pre, inst, 0, 0, keys, coll));
                }
            },
            Instruction::SUBNR(x, y) => {
                let rx = self.registers[x as usize];
                let ry = self.registers[y as usize];
                let borrow: u8 = if ry > rx {
                    1
                } else {
                    0
                };
                self.registers[15] = borrow;
                let diff: u16 = ry as u16 + 256 - rx as u16;
                self.registers[x as usize] = (diff % 256) as u8;
                self.reg_pc = self.reg_pc + 2;
                proof {
                    assert(diff % 256 == (ry - rx) % 256);
                    assert(self@ =~= step(pre, inst, 0, 0, keys, coll));
                }
            },
            Instruction::SHLR(x, _) => {
                let rx = self.registers[x as usize];
                let top: u8 = if rx >= 128 {
                    128
                } else {
                    0
                };
                self.registers[15] = top;
                let doubled: u16 = rx as u16 * 2;
                self.registers[x as usize] = (doubled % 256) as u8;
                self.reg_pc = self.reg_pc + 2;
                proof {
                    assert(self@ =~= step(pre, inst, 0, 0, keys, coll));
                }
            },
            _ => vstd::pervasive::unreached(),
        }
    }

    /// Execute one index-register, timer-transfer or memory-block
    /// instruction.
    #[verifier::spinoff_prover]
    #[verifier::rlimit(100)]
    fn exec_mem(
        &mut self,
        inst: Instruction,
        Ghost(keys): Ghost<Seq<bool>>,
        Ghost(coll): Ghost<bool>,
    )
        requires
            old(self)@.wf(),
            crate::instructions::inst_wf(inst),
            old(self)@.pc + 4 <= 0xffff,
            inst is LDA || inst is LDTG || inst is LDTS || inst is ADDA || inst is LDDIG
                || inst is LDBCD || inst is LDREGST || inst is LDREGRD,
            inst matches Instruction::LDBCD(_) ==> old(self)@.i + 3 <= 4096,
            inst matches Instruction::LDREGST(x) ==> old(self)@.i + x + 1 <= 4096,
            inst matches Instruction::LDREGRD(x) ==> old(self)@.i + x + 1 <= 4096,
        ensures
            final(self)@ == step(old(self)@, inst, 0, 0, keys, coll),
            final(self)@.wf(),
    {
        let ghost pre = old(self)@;
        match inst {
            Instruction::LDA(addr) => {
                self.reg_i = addr;
                self.reg_pc = self.reg_pc + 2;
                proof {
                    assert(self@ =~= step(pre, inst, 0, 0, keys, coll));
                }
            },
            Instruction::LDTG(reg) => {
                let dt = self.reg_dt;
                self.registers[reg as usize] = dt;
                self.reg_pc = self.reg_pc + 2;
                proof {
                    assert(self@ =~= step(pre, inst, 0, 0, keys, coll));
                }
            },
            Instruction::LDTS(reg) => {
                self.reg_dt = self.registers[reg as usize];
                self.reg_pc = self.reg_pc + 2;
                proof {
                    assert(self@ =~= step(pre, inst, 0, 0, keys, coll));
                }
            },
            Instruction::ADDA(reg) => {
                let rv = self.registers[reg as usize];
                let sum: u32 = self.reg_i as u32 + rv as u32;
                self.reg_i = (sum % 0x10000) as u16;
                self.reg_pc = self.reg_pc + 2;
                proof {
                    assert(self@ =~= step(pre, inst, 0, 0, keys, coll));
                }
            },
            Instruction::LDDIG(dig) => {
                self.reg_i = dig as u16 * 5;
                self.reg_pc = self.reg_pc + 2;
                proof {
                    assert(self@ =~= step(pre, inst, 0, 0, keys, coll));
                }
            },
            Instruction::LDBCD(reg) => {
                let v = self.registers[reg as usize];
                let base = self.reg_i as usize;
                self.ram[base] = v / 100;
                self.ram[base + 1] = (v / 10) % 10;
                self.ram[base + 2] = v % 10;
                self.reg_pc = self.reg_pc + 2;
                proof {
                    assert(self@.ram =~= write_block(
                        pre.ram,
                        pre.i as int,
                        seq![(v / 100) as u8, ((v / 10) % 10) as u8, (v % 10) as u8],
                    ));
                    assert(self@ =~= step(pre, inst, 0, 0, keys, coll));
                }
            },
            Instruction::LDREGST(x) => {
                self.store_regs(x);
                self.reg_pc = self.reg_pc + 2;
                proof {
                    assert(self@ =~= step(pre, inst, 0, 0, keys, coll));
                }
            },
            Instruction::LDREGRD(x) => {
                self.read_regs(x);
                self.reg_pc = self.reg_pc + 2;
                proof {
                    assert(self@ =~= step(pre, inst, 0, 0, keys, coll));
                }
            },
            _ => vstd::pervasive::unreached(),
        }
    }

    /// Clear the screen and advance.
    #[verifier::spinoff_prover]
    #[verifier::rlimit(100)]
    fn exec_cls<D: Display, I: Input, S: Sound, R: Rand>(
        &mut self,
        ctx: &mut Context<D, I, S, R>,
        inst: Instruction,
        Ghost(keys): Ghost<Seq<bool>>,
        Ghost(coll): Ghost<bool>,
    )
        requires
            old(self)@.wf(),
            inst is CLS,
            old(self)@.pc + 4 <= 0xffff,
        ensures
            final(self)@ == step(old(self)@, inst, 0, 0, keys, coll),
            final(self)@.wf(),
            final(ctx).display.grid() == blank_grid(),
            final(ctx).input == old(ctx).input,
            final(ctx).sound == old(ctx).sound,
            final(ctx).rand == old(ctx).rand,
    {
        ctx.clear();
        self.reg_pc = self.reg_pc + 2;
        proof {
            assert(self@ =~= step(old(self)@, inst, 0, 0, keys, coll));
        }
    }

    /// Execute a call or a return, surfacing the stack faults.
    #[verifier::spinoff_prover]
    #[verifier::rlimit(100)]
    fn exec_stack(
        &mut self,
        inst: Instruction,
        Ghost(keys): Ghost<Seq<bool>>,
        Ghost(coll): Ghost<bool>,
    ) -> (r: Result<(), VmError>)
        requires
            old(self)@.wf(),
            crate::instructions::inst_wf(inst),
            inst is RET || inst is CALL,
            old(self)@.pc + 4 <= 0xffff,
        ensures
            final(self)@.wf(),
            (r is Ok) == (step_fault(old(self)@, inst) is None),
            r matches Err(e) ==> Some(e) == step_fault(old(self)@, inst) && final(self)@ == old(
                self,
            )@,
            r is Ok ==> final(self)@ == step(old(self)@, inst, 0, 0, keys, coll),
    {
        match inst {
            Instruction::RET => {
                if self.reg_sp == 0 {
                    return Err(VmError::StackUnderflow);
                }
                self.reg_sp = self.reg_sp - 1;
                self.reg_pc = self.stack[self.reg_sp as usize];
                proof {
                    assert(self@ =~= step(old(self)@, inst, 0, 0, keys, coll));
                }
                Ok(())
            },
            Instruction::CALL(addr) => {
                if self.reg_sp >= 16 {
                    return Err(VmError::StackOverflow);
                }
                self.stack[self.reg_sp as usize] = self.reg_pc + 2;
                self.reg_sp = self.reg_sp + 1;
                self.reg_pc = addr;
                proof {
                    assert(self@ =~= step(old(self)@, inst, 0, 0, keys, coll));
                }
                Ok(())
            },
            _ => vstd::pervasive::unreached(),
        }
    }

    /// Draw a random byte from the source and mask it into a register.
    #[verifier::spinoff_prover]
    #[verifier::rlimit(100)]
    fn exec_rnd<D: Display, I: Input, S: Sound, R: Rand>(
        &mut self,
        ctx: &mut Context<D, I, S, R>,
        inst: Instruction,
        Ghost(keys): Ghost<Seq<bool>>,
        Ghost(coll): Ghost<bool>,
    )
        requires
            old(self)@.wf(),
            crate::instructions::inst_wf(inst),
            inst is RND,
            old(self)@.pc + 4 <= 0xffff,
        ensures
            final(self)@.wf(),
            exists|b: u8| final(self)@ == step(old(self)@, inst, b, 0, keys, coll),
            final(ctx).display == old(ctx).display,
            final(ctx).input == old(ctx).input,
            final(ctx).sound == old(ctx).sound,
    {
        let b = ctx.random_byte();
        match inst {
            Instruction::RND(reg, val) => {
                self.registers[reg as usize] = b & val;
                self.reg_pc = self.reg_pc + 2;
                proof {
                    assert(self@ =~= step(old(self)@, inst, b, 0, keys, coll));
                }
            },
            _ => vstd::pervasive::unreached(),
        }
    }

    /// Read the sprite from memory, XOR-plot it through the display
    /// capability, and record the collision in the flag register.
    #[verifier::spinoff_prover]
    #[verifier::rlimit(100)]
    fn exec_draw<D: Display, I: Input, S: Sound, R: Rand>(
        &mut self,
        ctx: &mut Context<D, I, S, R>,
        inst: Instruction,
        Ghost(keys): Ghost<Seq<bool>>,
        Ghost(coll): Ghost<bool>,
    )
        requires
            old(self)@.wf(),
            crate::instructions::inst_wf(inst),
            inst is DRW,
            old(self)@.pc + 4 <= 0xffff,
            inst matches Instruction::DRW(_, _, n) ==> old(self)@.i + n <= 4096,
            old(ctx).display.grid().len() == DISPLAY_SIZE,
            inst matches Instruction::DRW(x, y, n) ==> coll == spec_collision(
                old(ctx).display.grid(),
                old(self)@.regs[x as int] as int,
                old(self)@.regs[y as int] as int,
                old(self)@.ram.subrange(old(self)@.i as int, old(self)@.i + n),
            ),
        ensures
            final(self)@.wf(),
            final(self)@ == step(old(self)@, inst, 0, 0, keys, coll),
            inst matches Instruction::DRW(x, y, n) ==> final(ctx).display.grid() == spec_draw(
                old(ctx).display.grid(),
                old(self)@.regs[x as int] as int,
                old(self)@.regs[y as int] as int,
                old(self)@.ram.subrange(old(self)@.i as int, old(self)@.i + n),
            ),
            final(ctx).display.grid().len() == DISPLAY_SIZE,
            final(ctx).input == old(ctx).input,
            final(ctx).sound == old(ctx).sound,
            final(ctx).rand == old(ctx).rand,
    {
        match inst {
            Instruction::DRW(x, y, n) => {
                let rx = self.registers[x as usize];
                let ry = self.registers[y as usize];
                let base = self.reg_i as usize;
                let sprite = vstd::slice::slice_subrange(
                    self.ram.as_slice(),
                    base,
                    base + n as usize,
                );
                let hit = ctx.draw(rx as usize, ry as usize, sprite);
                self.registers[15] = if hit {
                    1
                } else {
                    0
                };
                self.reg_pc = self.reg_pc + 2;
                proof {
                    lemma_draw_rows_len(
                        old(ctx).display.grid(),
                        rx as int,
                        ry as int,
                        sprite@,
                        sprite@.len() as int,
                    );
                    assert(hit == coll);
                    assert(self@ =~= step(old(self)@, inst, 0, 0, keys, coll));
                }
            },
            _ => vstd::pervasive::unreached(),
        }
    }

    /// Poll the keyboard and skip on the tested key, surfacing the
    /// invalid-key fault for register values that name no key.
    #[verifier::spinoff_prover]
    #[verifier::rlimit(100)]
    fn exec_keys<D: Display, I: Input, S: Sound, R: Rand>(
        &mut self,
        ctx: &mut Context<D, I, S, R>,
        inst: Instruction,
        Ghost(keys): Ghost<Seq<bool>>,
        Ghost(coll): Ghost<bool>,
    ) -> (r: Result<(), VmError>)
        requires
            old(self)@.wf(),
            crate::instructions::inst_wf(inst),
            inst is SKP || inst is SKNP,
            old(self)@.pc + 4 <= 0xffff,
            keys == old(ctx).input.keys(),
        ensures
            final(self)@.wf(),
            (r is Ok) == (step_fault(old(self)@, inst) is None),
            r matches Err(e) ==> Some(e) == step_fault(old(self)@, inst) && final(self)@ == old(
                self,
            )@ && *final(ctx) == *old(ctx),
            r is Ok ==> final(self)@ == step(old(self)@, inst, 0, 0, keys, coll),
            final(ctx).display == old(ctx).display,
            final(ctx).sound == old(ctx).sound,
            final(ctx).rand == old(ctx).rand,
    {
        match inst {
            Instruction::SKP(reg) => {
                let rv = self.registers[reg as usize];
                match Key::from_byte(rv) {
                    None => Err(VmError::InvalidKeyIndex),
                    Some(k) => {
                        let polled = ctx.poll_keyboard();
                        self.reg_pc = self.reg_pc + (if polled.pressed(k) {
                            4
                        } else {
                            2
                        });
                        proof {
                            assert(self@ =~= step(old(self)@, inst, 0, 0, keys, coll));
                        }
                        Ok(())
                    },
                }
            },
            Instruction::SKNP(reg) => {
                let rv = self.registers[reg as usize];
                match Key::from_byte(rv) {
                    None => Err(VmError::InvalidKeyIndex),
                    Some(k) => {
                        let polled = ctx.poll_keyboard();
                        self.reg_pc = self.reg_pc + (if polled.pressed(k) {
                            2
                        } else {
                            4
                        });
                        proof {
                            assert(self@ =~= step(old(self)@, inst, 0, 0, keys, coll));
                        }
                        Ok(())
                    },
                }
            },
            _ => vstd::pervasive::unreached(),
        }
    }

    /// Block on the keyboard and store the key that arrived.
    #[verifier::spinoff_prover]
    #[verifier::rlimit(100)]
    fn exec_wait<D: Display, I: Input, S: Sound, R: Rand>(
        &mut self,
        ctx: &mut Context<D, I, S, R>,
        inst: Instruction,
        Ghost(keys): Ghost<Seq<bool>>,
        Ghost(coll): Ghost<bool>,
    )
        requires
            old(self)@.wf(),
            crate::instructions::inst_wf(inst),
            inst is LDK,
            old(self)@.pc + 4 <= 0xffff,
        ensures
            final(self)@.wf(),
            exists|k: u8| k < 16 && final(self)@ == step(old(self)@, inst, 0, k, keys, coll),
            final(ctx).display == old(ctx).display,
            final(ctx).sound == old(ctx).sound,
            final(ctx).rand == old(ctx).rand,
    {
        let key = ctx.wait_key();
        let code = key.code();
        match inst {
            Instruction::LDK(reg) => {
                self.registers[reg as usize] = code;
                self.reg_pc = self.reg_pc + 2;
                proof {
                    assert(self@ =~= step(old(self)@, inst, 0, code, keys, coll));
                }
            },
            _ => vstd::pervasive::unreached(),
        }
    }

    /// Start the tone unconditionally, then set the sound timer.
    #[verifier::spinoff_prover]
    #[verifier::rlimit(100)]
    fn exec_sound_store<D: Display, I: Input, S: Sound, R: Rand>(
        &mut self,
        ctx: &mut Context<D, I, S, R>,
        inst: Instruction,
        Ghost(keys): Ghost<Seq<bool>>,
        Ghost(coll): Ghost<bool>,
    )
        requires
            old(self)@.wf(),
            crate::instructions::inst_wf(inst),
            inst is LDSS,
            old(self)@.pc + 4 <= 0xffff,
        ensures
            final(self)@.wf(),
            final(self)@ == step(old(self)@, inst, 0, 0, keys, coll),
            final(ctx).sound.events() == old(ctx).sound.events().push(SoundEvent::ToneStart),
            final(ctx).display == old(ctx).display,
            final(ctx).input == old(ctx).input,
            final(ctx).rand == old(ctx).rand,
    {
        ctx.beep_start();
        match inst {
            Instruction::LDSS(reg) => {
                self.reg_snd = self.registers[reg as usize];
                self.reg_pc = self.reg_pc + 2;
                proof {
                    assert(self@ =~= step(old(self)@, inst, 0, 0, keys, coll));
                }
            },
            _ => vstd::pervasive::unreached(),
        }
    }

    /// Execute one fetch-decode-execute cycle: fetch the two bytes under
    /// the program counter, decode them, apply the instruction's
    /// semantics, and invoke the capability the instruction calls for.
    /// On a fault the machine and every capability are left untouched
    /// and the error is surfaced; a cycle faults exactly when
    /// `step_fault` says so.
    #[verifier::spinoff_prover]
    #[verifier::rlimit(100)]
    pub fn interpret_cycle<D: Display, I: Input, S: Sound, R: Rand>(
        &mut self,
        ctx: &mut Context<D, I, S, R>,
    ) -> (r: Result<(), VmError>)
        requires
            old(self)@.ready(),
            old(ctx).display.grid().len() == DISPLAY_SIZE,
        ensures
            final(self)@.wf(),
            final(self)@.tick == old(self)@.tick,
            (r is Ok) == (step_fault(old(self)@, old(self)@.cur_inst()) is None),
            r matches Err(e) ==> Some(e) == step_fault(old(self)@, old(self)@.cur_inst())
                && final(self)@ == old(self)@ && *final(ctx) == *old(ctx),
            r is Ok ==> cycle_ok(
                old(self)@,
                final(self)@,
                old(ctx).input.keys(),
                drw_collision(old(self)@, old(ctx).display.grid()),
            ),
            r is Ok ==> final(ctx).display.grid() == display_after(
                old(self)@,
                old(ctx).display.grid(),
            ),
            r is Ok ==> final(ctx).sound.events() == sound_after(
                old(self)@,
                old(ctx).sound.events(),
            ),
            final(ctx).display.grid().len() == DISPLAY_SIZE,
            !(old(self)@.cur_inst() is CLS || old(self)@.cur_inst() is DRW) ==> final(ctx).display
                == old(ctx).display,
            !(old(self)@.cur_inst() is LDSS) ==> final(ctx).sound == old(ctx).sound,
            !(old(self)@.cur_inst() is SKP || old(self)@.cur_inst() is SKNP
                || old(self)@.cur_inst() is LDK) ==> final(ctx).input == old(ctx).input,
            !(old(self)@.cur_inst() is RND) ==> final(ctx).rand == old(ctx).rand,
    {
        let ghost pre = old(self)@;
        let ghost keys0 = old(ctx).input.keys();
        let ghost grid0 = old(ctx).display.grid();
        let ghost coll0 = drw_collision(pre, grid0);
        let pc = self.reg_pc as usize;
        let inst = parser::read([self.ram[pc], self.ram[pc + 1]]);
        proof {
            assert(inst == pre.cur_inst());
        }
        match inst {
            Instruction::UNKNOWN(_) | Instruction::JPA(_) | Instruction::SEI(_, _)
                | Instruction::SNEI(_, _) | Instruction::SER(_, _) | Instruction::SNER(_, _)
                | Instruction::JPAFAR(_) => {
                self.exec_branch(inst, Ghost(keys0), Ghost(coll0));
                Ok(())
            },
            Instruction::LDI(_, _) | Instruction::ADDI(_, _) | Instruction::LDR(_, _)
                | Instruction::ORR(_, _) | Instruction::ANDR(_, _) | Instruction::XORR(_, _) => {
                self.exec_alu(inst, Ghost(keys0), Ghost(coll0));
                Ok(())
            },
            Instruction::ADDR(_, _) | Instruction::SUBR(_, _) | Instruction::SHRR(_, _)
                | Instruction::SUBNR(_, _) | Instruction::SHLR(_, _) => {
                self.exec_alu_flags(inst, Ghost(keys0), Ghost(coll0));
                Ok(())
            },
            Instruction::LDA(_) | Instruction::LDTG(_) | Instruction::LDTS(_)
                | Instruction::ADDA(_) | Instruction::LDDIG(_) | Instruction::LDBCD(_)
                | Instruction::LDREGST(_) | Instruction::LDREGRD(_) => {
                self.exec_mem(inst, Ghost(keys0), Ghost(coll0));
                Ok(())
            },
            Instruction::CLS => {
                self.exec_cls(ctx, inst, Ghost(keys0), Ghost(coll0));
                Ok(())
            },
            Instruction::RET | Instruction::CALL(_) => self.exec_stack(
                inst,
                Ghost(keys0),
                Ghost(coll0),
            ),
            Instruction::RND(_, _) => {
                self.exec_rnd(ctx, inst, Ghost(keys0), Ghost(coll0));
                Ok(())
            },
            Instruction::DRW(_, _, _) => {
                self.exec_draw(ctx, inst, Ghost(keys0), Ghost(coll0));
                Ok(())
            },
            Instruction::SKP(_) | Instruction::SKNP(_) => self.exec_keys(
                ctx,
                inst,
                Ghost(keys0),
                Ghost(coll0),
            ),
            Instruction::LDK(_) => {
                self.exec_wait(ctx, inst, Ghost(keys0), Ghost(coll0));
                Ok(())
            },
            Instruction::LDSS(_) => {
                self.exec_sound_store(ctx, inst, Ghost(keys0), Ghost(coll0));
                Ok(())
            },
        }
    }

    /// Execute one paced cycle: one fetch-decode-execute step followed
    /// by the timer bookkeeping.  Every eighth executed cycle both
    /// timers drop by eight with saturation at zero, and the tone-end
    /// signal is sent exactly on the cycle where the sound timer
    /// crosses from nonzero to zero.  On a fault nothing at all
    /// changes, the pacing counter included.
    #[verifier::spinoff_prover]
    #[verifier::rlimit(100)]
    pub fn cycle<D: Display, I: Input, S: Sound, R: Rand>(
        &mut self,
        ctx: &mut Context<D, I, S, R>,
    ) -> (r: Result<(), VmError>)
        requires
            old(self)@.ready(),
            old(ctx).display.grid().len() == DISPLAY_SIZE,
        ensures
            final(self)@.wf(),
            (r is Ok) == (step_fault(old(self)@, old(self)@.cur_inst()) is None),
            r matches Err(e) ==> Some(e) == step_fault(old(self)@, old(self)@.cur_inst())
                && final(self)@ == old(self)@ && *final(ctx) == *old(ctx),
            r is Ok ==> exists|mid: VMState|
                {
                    &&& #[trigger] cycle_ok(
                        old(self)@,
                        mid,
                        old(ctx).input.keys(),
                        drw_collision(old(self)@, old(ctx).display.grid()),
                    )
                    &&& final(self)@ == tick_state(mid)
                    &&& final(ctx).sound.events() == if tick_tone_end(mid) {
                        sound_after(old(self)@, old(ctx).sound.events()).push(SoundEvent::ToneEnd)
                    } else {
                        sound_after(old(self)@, old(ctx).sound.events())
                    }
                },
            r is Ok ==> final(ctx).display.grid() == display_after(
                old(self)@,
                old(ctx).display.grid(),
            ),
            final(ctx).display.grid().len() == DISPLAY_SIZE,
            !(old(self)@.cur_inst() is CLS || old(self)@.cur_inst() is DRW) ==> final(ctx).display
                == old(ctx).display,
            !(old(self)@.cur_inst() is SKP || old(self)@.cur_inst() is SKNP
                || old(self)@.cur_inst() is LDK) ==> final(ctx).input == old(ctx).input,
            !(old(self)@.cur_inst() is RND) ==> final(ctx).rand == old(ctx).rand,
    {
        let fetched = self.interpret_cycle(ctx);
        match fetched {
            Err(e) => Err(e),
            Ok(()) => {
                let ghost mid = self@;
                if self.cycle_count == 7 {
                    self.cycle_count = 0;
                    let dt = self.reg_dt;
                    let snd = self.reg_snd;
                    self.reg_dt = if dt >= 8 {
                        dt - 8
                    } else {
                        0
                    };
                    self.reg_snd = if snd >= 8 {
                        snd - 8
                    } else {
                        0
                    };
                    if snd > 0 && self.reg_snd == 0 {
                        ctx.beep_end();
                    }
                } else {
                    self.cycle_count = self.cycle_count + 1;
                }
                proof {
                    assert(self@ =~= tick_state(mid));
                }
                Ok(())
            },
        }
    }
}

/// Law: a call followed by a return comes back where it started.  From
/// any well-formed state with a free stack slot, executing a call
/// pushes the address of the next instruction and jumps; executing a
/// return from the resulting state cannot fault, restores the program
/// counter to that pushed address and the prior stack depth, and
/// leaves the registers, memory, index register and timers untouched.
pub proof fn lemma_call_return_round_trip(
    pre: VMState,
    addr: u16,
    rnd: u8,
    key: u8,
    keys: Seq<bool>,
    coll: bool,
)
    requires
        pre.wf(),
        pre.sp < 16,
        pre.pc + 2 <= 0xffff,
    ensures
        ({
            let call = Instruction::CALL(addr);
            let mid = step(pre, call, rnd, key, keys, coll);
            let post = step(mid, Instruction::RET, rnd, key, keys, coll);
            &&& step_fault(pre, call) is None
            &&& mid.pc == addr
            &&& mid.sp == pre.sp + 1
            &&& mid.stack[pre.sp as int] == pre.pc + 2
            &&& step_fault(mid, Instruction::RET) is None
            &&& post.pc == pre.pc + 2
            &&& post.sp == pre.sp
            &&& post.regs == pre.regs
            &&& post.ram == pre.ram
            &&& post.i == pre.i
            &&& post.dt == pre.dt
            &&& post.snd == pre.snd
            &&& post.tick == pre.tick
        }),
{
}

} // verus!
