use chip8::display::FrameBuffer;
use chip8::drivers::Context;
use chip8::input::{FixedInput, Key, KeySet, NullInput};
use chip8::interpreter::{LoadError, VM, VmError};
use chip8::rand::XorShift;
use chip8::sound::{RecordingSound, SoundEvent};

type TestContext = Context<FrameBuffer, NullInput, RecordingSound, XorShift>;

fn test_ctx() -> TestContext {
    Context::new(
        FrameBuffer::new(),
        NullInput,
        RecordingSound::new(),
        XorShift::new(1),
    )
}

fn vm_with_program(words: &[u16]) -> VM {
    let mut vm = VM::new();
    let mut bytes = Vec::new();
    for w in words {
        bytes.push((w >> 8) as u8);
        bytes.push((w & 0xff) as u8);
    }
    vm.load(&bytes).unwrap();
    vm
}

#[test]
fn new_machine_is_zeroed() {
    let vm = VM::new();
    assert_eq!(vm.reg_pc, 0);
    assert_eq!(vm.reg_i, 0);
    assert_eq!(vm.reg_sp, 0);
    assert_eq!(vm.reg_dt, 0);
    assert_eq!(vm.reg_snd, 0);
    assert!(vm.registers.iter().all(|&r| r == 0));
    assert!(vm.stack.iter().all(|&s| s == 0));
    assert!(vm.ram.iter().all(|&b| b == 0));
}

#[test]
fn load_writes_font_program_and_pc() {
    let mut vm = VM::new();
    vm.load(&[1, 2, 3]).unwrap();
    assert_eq!(vm.reg_pc, 0x200);
    assert_eq!(vm.ram[0], 0xF0);
    assert_eq!(&vm.ram[0..5], &[0xF0, 0x90, 0x90, 0x90, 0xF0]);
    assert_eq!(&vm.ram[75..80], &[0xF0, 0x80, 0xF0, 0x80, 0x80]);
    assert_eq!(&vm.ram[0x200..0x203], &[1, 2, 3]);
    assert_eq!(vm.ram[0x203], 0);
}

#[test]
fn load_rejects_oversized_program() {
    let mut vm = VM::new();
    let big = vec![0u8; 4096 - 0x200 + 1];
    assert_eq!(vm.load(&big), Err(LoadError::TooLarge));
    assert_eq!(vm.reg_pc, 0);
    let exact = vec![7u8; 4096 - 0x200];
    assert_eq!(vm.load(&exact), Ok(()));
    assert_eq!(vm.ram[4095], 7);
}

#[test]
fn add_sets_carry_and_wraps() {
    let mut ctx = test_ctx();
    let mut vm = vm_with_program(&[0x8014]);
    vm.registers[0] = 0xFF;
    vm.registers[1] = 0x01;
    vm.interpret_cycle(&mut ctx).unwrap();
    assert_eq!(vm.registers[0], 0x00);
    assert_eq!(vm.registers[15], 1);
    assert_eq!(vm.reg_pc, 0x202);
}

#[test]
fn add_without_carry_clears_flag() {
    let mut ctx = test_ctx();
    let mut vm = vm_with_program(&[0x8014]);
    vm.registers[0] = 2;
    vm.registers[1] = 3;
    vm.registers[15] = 1;
    vm.interpret_cycle(&mut ctx).unwrap();
    assert_eq!(vm.registers[0], 5);
    assert_eq!(vm.registers[15], 0);
}

#[test]
fn shift_right_records_low_bit() {
    let mut ctx = test_ctx();
    let mut vm = vm_with_program(&[0x8206]);
    vm.registers[2] = 0b0000_0011;
    vm.interpret_cycle(&mut ctx).unwrap();
    assert_eq!(vm.registers[2], 1);
    assert_eq!(vm.registers[15], 1);
}

#[test]
fn shift_left_keeps_raw_masked_top_bit() {
    let mut ctx = test_ctx();
    let mut vm = vm_with_program(&[0x820E]);
    vm.registers[2] = 0x81;
    vm.interpret_cycle(&mut ctx).unwrap();
    assert_eq!(vm.registers[2], 0x02);
    assert_eq!(vm.registers[15], 0x80);
}

#[test]
fn subtract_flag_is_strictly_greater() {
    let mut ctx = test_ctx();
    let mut vm = vm_with_program(&[0x8015]);
    vm.registers[0] = 5;
    vm.registers[1] = 5;
    vm.interpret_cycle(&mut ctx).unwrap();
    assert_eq!(vm.registers[0], 0);
    assert_eq!(vm.registers[15], 0);

    let mut vm = vm_with_program(&[0x8015]);
    vm.registers[0] = 7;
    vm.registers[1] = 5;
    vm.interpret_cycle(&mut ctx).unwrap();
    assert_eq!(vm.registers[0], 2);
    assert_eq!(vm.registers[15], 1);

    let mut vm = vm_with_program(&[0x8015]);
    vm.registers[0] = 3;
    vm.registers[1] = 5;
    vm.interpret_cycle(&mut ctx).unwrap();
    assert_eq!(vm.registers[0], 254);
    assert_eq!(vm.registers[15], 0);
}

#[test]
fn subtract_reversed_flag_and_result() {
    let mut ctx = test_ctx();
    let mut vm = vm_with_program(&[0x8017]);
    vm.registers[0] = 3;
    vm.registers[1] = 5;
    vm.interpret_cycle(&mut ctx).unwrap();
    assert_eq!(vm.registers[0], 2);
    assert_eq!(vm.registers[15], 1);
}

#[test]
fn add_immediate_wraps_without_flag() {
    let mut ctx = test_ctx();
    let mut vm = vm_with_program(&[0x70FF]);
    vm.registers[0] = 2;
    vm.registers[15] = 9;
    vm.interpret_cycle(&mut ctx).unwrap();
    assert_eq!(vm.registers[0], 1);
    assert_eq!(vm.registers[15], 9);
}

#[test]
fn skips_compare_as_specified() {
    let mut ctx = test_ctx();
    let mut vm = vm_with_program(&[0x3007]);
    vm.registers[0] = 7;
    vm.interpret_cycle(&mut ctx).unwrap();
    assert_eq!(vm.reg_pc, 0x204);

    let mut vm = vm_with_program(&[0x3007]);
    vm.registers[0] = 8;
    vm.interpret_cycle(&mut ctx).unwrap();
    assert_eq!(vm.reg_pc, 0x202);

    let mut vm = vm_with_program(&[0x4007]);
    vm.registers[0] = 8;
    vm.interpret_cycle(&mut ctx).unwrap();
    assert_eq!(vm.reg_pc, 0x204);

    let mut vm = vm_with_program(&[0x5010]);
    vm.registers[0] = 4;
    vm.registers[1] = 4;
    vm.interpret_cycle(&mut ctx).unwrap();
    assert_eq!(vm.reg_pc, 0x204);

    let mut vm = vm_with_program(&[0x9010]);
    vm.registers[0] = 4;
    vm.registers[1] = 5;
    vm.interpret_cycle(&mut ctx).unwrap();
    assert_eq!(vm.reg_pc, 0x204);
}

#[test]
fn unknown_word_advances_pc() {
    let mut ctx = test_ctx();
    let mut vm = vm_with_program(&[0x0123]);
    vm.interpret_cycle(&mut ctx).unwrap();
    assert_eq!(vm.reg_pc, 0x202);
}

#[test]
fn jump_indexed_adds_register_zero() {
    let mut ctx = test_ctx();
    let mut vm = vm_with_program(&[0xB300]);
    vm.registers[0] = 5;
    vm.interpret_cycle(&mut ctx).unwrap();
    assert_eq!(vm.reg_pc, 0x305);
}

#[test]
fn call_and_return_round_trip() {
    let mut ctx = test_ctx();
    let mut vm = vm_with_program(&[0x2300]);
    vm.ram[0x300] = 0x00;
    vm.ram[0x301] = 0xEE;
    vm.interpret_cycle(&mut ctx).unwrap();
    assert_eq!(vm.reg_pc, 0x300);
    assert_eq!(vm.reg_sp, 1);
    assert_eq!(vm.stack[0], 0x202);
    vm.interpret_cycle(&mut ctx).unwrap();
    assert_eq!(vm.reg_pc, 0x202);
    assert_eq!(vm.reg_sp, 0);
}

#[test]
fn sixteen_calls_succeed_seventeenth_overflows() {
    let mut ctx = test_ctx();
    let mut words = Vec::new();
    for k in 0..17u16 {
        words.push(0x2000 | (0x202 + 2 * k));
    }
    let mut vm = vm_with_program(&words);
    for _ in 0..16 {
        assert_eq!(vm.interpret_cycle(&mut ctx), Ok(()));
    }
    assert_eq!(vm.reg_sp, 16);
    let pc_before = vm.reg_pc;
    assert_eq!(vm.interpret_cycle(&mut ctx), Err(VmError::StackOverflow));
    assert_eq!(vm.reg_pc, pc_before);
    assert_eq!(vm.reg_sp, 16);
}

#[test]
fn return_with_empty_stack_underflows() {
    let mut ctx = test_ctx();
    let mut vm = vm_with_program(&[0x00EE]);
    assert_eq!(vm.interpret_cycle(&mut ctx), Err(VmError::StackUnderflow));
    assert_eq!(vm.reg_pc, 0x200);
}

#[test]
fn key_skip_rejects_register_value_past_fifteen() {
    let mut ctx = test_ctx();
    let mut vm = vm_with_program(&[0xE09E]);
    vm.registers[0] = 16;
    assert_eq!(vm.interpret_cycle(&mut ctx), Err(VmError::InvalidKeyIndex));
    assert_eq!(vm.reg_pc, 0x200);
}

#[test]
fn key_skips_follow_polled_keys() {
    let mut pressed = [false; 16];
    pressed[5] = true;
    let mut ctx = Context::new(
        FrameBuffer::new(),
        FixedInput {
            set: KeySet(pressed),
            key: Key::Zero,
        },
        RecordingSound::new(),
        XorShift::new(1),
    );
    let mut vm = vm_with_program(&[0xE09E]);
    vm.registers[0] = 5;
    vm.interpret_cycle(&mut ctx).unwrap();
    assert_eq!(vm.reg_pc, 0x204);

    let mut vm = vm_with_program(&[0xE0A1]);
    vm.registers[0] = 5;
    vm.interpret_cycle(&mut ctx).unwrap();
    assert_eq!(vm.reg_pc, 0x202);

    let mut vm = vm_with_program(&[0xE1A1]);
    vm.registers[1] = 6;
    vm.interpret_cycle(&mut ctx).unwrap();
    assert_eq!(vm.reg_pc, 0x204);
}

#[test]
fn wait_for_key_stores_the_key() {
    let mut ctx = Context::new(
        FrameBuffer::new(),
        FixedInput {
            set: KeySet([false; 16]),
            key: Key::Seven,
        },
        RecordingSound::new(),
        XorShift::new(1),
    );
    let mut vm = vm_with_program(&[0xF30A]);
    vm.interpret_cycle(&mut ctx).unwrap();
    assert_eq!(vm.registers[3], 7);
    assert_eq!(vm.reg_pc, 0x202);
}

#[test]
fn timers_saturate_at_zero() {
    let mut ctx = test_ctx();
    let mut vm = vm_with_program(&[]);
    vm.reg_dt = 10;
    for _ in 0..8 {
        vm.cycle(&mut ctx).unwrap();
    }
    assert_eq!(vm.reg_dt, 2);
    for _ in 0..16 {
        vm.cycle(&mut ctx).unwrap();
    }
    assert_eq!(vm.reg_dt, 0);
}

#[test]
fn timer_reads_between_cycles() {
    let mut ctx = test_ctx();
    let mut vm = vm_with_program(&[]);
    vm.reg_dt = 10;
    for k in 1..=7 {
        vm.cycle(&mut ctx).unwrap();
        assert_eq!(vm.reg_dt, 10, "cycle {k}");
    }
    vm.cycle(&mut ctx).unwrap();
    assert_eq!(vm.reg_dt, 2);
}

#[test]
fn sound_timer_signals_start_then_end_once() {
    let mut ctx = test_ctx();
    let mut vm = vm_with_program(&[0xF018]);
    vm.registers[0] = 5;
    for _ in 0..8 {
        vm.cycle(&mut ctx).unwrap();
    }
    assert_eq!(vm.reg_snd, 0);
    assert_eq!(
        ctx.sound.log,
        vec![SoundEvent::ToneStart, SoundEvent::ToneEnd]
    );
    for _ in 0..16 {
        vm.cycle(&mut ctx).unwrap();
    }
    assert_eq!(
        ctx.sound.log,
        vec![SoundEvent::ToneStart, SoundEvent::ToneEnd]
    );
}

#[test]
fn tone_start_is_sent_even_for_zero_value() {
    let mut ctx = test_ctx();
    let mut vm = vm_with_program(&[0xF018]);
    vm.registers[0] = 0;
    vm.interpret_cycle(&mut ctx).unwrap();
    assert_eq!(ctx.sound.log, vec![SoundEvent::ToneStart]);
    assert_eq!(vm.reg_snd, 0);
}

#[test]
fn delay_timer_set_and_get() {
    let mut ctx = test_ctx();
    let mut vm = vm_with_program(&[0xF315, 0xF407]);
    vm.registers[3] = 42;
    vm.interpret_cycle(&mut ctx).unwrap();
    assert_eq!(vm.reg_dt, 42);
    vm.interpret_cycle(&mut ctx).unwrap();
    assert_eq!(vm.registers[4], 42);
}

#[test]
fn index_register_operations() {
    let mut ctx = test_ctx();
    let mut vm = vm_with_program(&[0xA123, 0xF41E, 0xF729]);
    vm.registers[4] = 2;
    vm.interpret_cycle(&mut ctx).unwrap();
    assert_eq!(vm.reg_i, 0x123);
    vm.interpret_cycle(&mut ctx).unwrap();
    assert_eq!(vm.reg_i, 0x125);
    vm.interpret_cycle(&mut ctx).unwrap();
    assert_eq!(vm.reg_i, 7 * 5);
    assert_eq!(vm.reg_pc, 0x206);
}

#[test]
fn bcd_expansion_is_stored_at_index() {
    let mut ctx = test_ctx();
    let mut vm = vm_with_program(&[0xF333]);
    vm.registers[3] = 234;
    vm.reg_i = 0x400;
    vm.interpret_cycle(&mut ctx).unwrap();
    assert_eq!(&vm.ram[0x400..0x403], &[2, 3, 4]);
    assert_eq!(vm.reg_pc, 0x202);
}

#[test]
fn register_block_store_and_load_inclusive() {
    let mut ctx = test_ctx();
    let mut vm = vm_with_program(&[0xF255, 0xF265]);
    vm.registers[0] = 10;
    vm.registers[1] = 11;
    vm.registers[2] = 12;
    vm.registers[3] = 13;
    vm.reg_i = 0x500;
    vm.interpret_cycle(&mut ctx).unwrap();
    assert_eq!(&vm.ram[0x500..0x504], &[10, 11, 12, 0]);
    assert_eq!(vm.reg_pc, 0x202);
    vm.registers[0] = 0;
    vm.registers[1] = 0;
    vm.registers[2] = 0;
    vm.interpret_cycle(&mut ctx).unwrap();
    assert_eq!(vm.registers[0], 10);
    assert_eq!(vm.registers[1], 11);
    assert_eq!(vm.registers[2], 12);
    assert_eq!(vm.registers[3], 13);
    assert_eq!(vm.reg_pc, 0x204);
}

#[test]
fn random_byte_is_masked() {
    let mut ctx = test_ctx();
    for seed in 1..50u64 {
        ctx.rand = XorShift::new(seed);
        let mut vm = vm_with_program(&[0xC00F]);
        vm.interpret_cycle(&mut ctx).unwrap();
        assert!(vm.registers[0] < 16);
        assert_eq!(vm.reg_pc, 0x202);
    }
}

#[test]
fn seeded_random_source_is_reproducible() {
    let mut a = XorShift::new(42);
    let mut b = XorShift::new(42);
    for _ in 0..32 {
        assert_eq!(a.next_byte(), b.next_byte());
    }
}

#[test]
fn key_conversion_is_bounds_checked() {
    for k in 0..16u8 {
        let key = Key::from_byte(k).unwrap();
        assert_eq!(key.code(), k);
    }
    assert!(Key::from_byte(16).is_none());
    assert!(Key::from_byte(255).is_none());
}

#[test]
fn cycle_ready_guards_fetch_and_operands() {
    let vm = vm_with_program(&[0x0000]);
    assert!(vm.cycle_ready());
    let mut vm = vm_with_program(&[0x0000]);
    vm.reg_pc = 4095;
    assert!(!vm.cycle_ready());
    let mut vm = vm_with_program(&[0xD011]);
    vm.reg_i = 4096;
    assert!(!vm.cycle_ready());
    let mut vm = vm_with_program(&[0xF333]);
    vm.reg_i = 4094;
    assert!(!vm.cycle_ready());
    let mut vm = vm_with_program(&[0xF555]);
    vm.reg_i = 4091;
    assert!(!vm.cycle_ready());
    vm.reg_i = 4090;
    assert!(vm.cycle_ready());
}

#[test]
fn subtract_on_flag_register_reads_the_written_flag() {
    // when the destination is register 15, the borrow flag is written
    // first and the subtraction then reads it back
    let mut ctx = test_ctx();
    let mut vm = vm_with_program(&[0x8F15]);
    vm.registers[15] = 10;
    vm.registers[1] = 3;
    vm.interpret_cycle(&mut ctx).unwrap();
    assert_eq!(vm.registers[15], 254);
}

#[test]
fn add_on_flag_register_keeps_the_carry() {
    // when the destination is register 15, the sum is written first and
    // the carry then overwrites it
    let mut ctx = test_ctx();
    let mut vm = vm_with_program(&[0x8F14]);
    vm.registers[15] = 0xFF;
    vm.registers[1] = 1;
    vm.interpret_cycle(&mut ctx).unwrap();
    assert_eq!(vm.registers[15], 1);
}

#[test]
fn copy_and_bitwise_registers() {
    let mut ctx = test_ctx();
    let mut vm = vm_with_program(&[0x8120, 0x8341, 0x8562, 0x8783]);
    vm.registers[2] = 0b1010;
    vm.registers[3] = 0b1100;
    vm.registers[4] = 0b1010;
    vm.registers[5] = 0b1100;
    vm.registers[6] = 0b1010;
    vm.registers[7] = 0b1100;
    vm.registers[8] = 0b1010;
    vm.interpret_cycle(&mut ctx).unwrap();
    assert_eq!(vm.registers[1], 0b1010);
    vm.interpret_cycle(&mut ctx).unwrap();
    assert_eq!(vm.registers[3], 0b1110);
    vm.interpret_cycle(&mut ctx).unwrap();
    assert_eq!(vm.registers[5], 0b1000);
    vm.interpret_cycle(&mut ctx).unwrap();
    assert_eq!(vm.registers[7], 0b0110);
}

#[test]
fn add_to_index_wraps_at_sixteen_bits() {
    let mut ctx = test_ctx();
    let mut vm = vm_with_program(&[0xF21E]);
    vm.reg_i = 0xFFFF;
    vm.registers[2] = 2;
    vm.interpret_cycle(&mut ctx).unwrap();
    assert_eq!(vm.reg_i, 1);
}

#[test]
fn faulted_cycle_leaves_pacing_counter_alone() {
    let mut ctx = test_ctx();
    let mut vm = vm_with_program(&[0x0000, 0x00EE]);
    vm.cycle(&mut ctx).unwrap();
    assert_eq!(vm.cycle_count, 1);
    assert_eq!(vm.cycle(&mut ctx), Err(VmError::StackUnderflow));
    assert_eq!(vm.cycle_count, 1);
}
