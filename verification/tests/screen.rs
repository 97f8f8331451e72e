use chip8::display::{Display, FrameBuffer, DISPLAY_HEIGHT, DISPLAY_WIDTH};
use chip8::drivers::Context;
use chip8::input::NullInput;
use chip8::interpreter::VM;
use chip8::rand::XorShift;
use chip8::sound::RecordingSound;

fn lit_pixels(fb: &FrameBuffer) -> usize {
    fb.pixels.iter().filter(|&&p| p).count()
}

#[test]
fn draw_twice_collides_and_restores_blank_screen() {
    let mut fb = FrameBuffer::new();
    let sprite = [0xF0u8, 0x90, 0x90, 0x90, 0xF0];
    let first = fb.draw(3, 4, &sprite);
    assert!(!first);
    assert!(lit_pixels(&fb) > 0);
    let second = fb.draw(3, 4, &sprite);
    assert!(second);
    assert_eq!(lit_pixels(&fb), 0);
}

#[test]
fn draw_plots_bits_left_to_right() {
    let mut fb = FrameBuffer::new();
    fb.draw(0, 0, &[0b1010_0001]);
    assert!(fb.pixel(0, 0));
    assert!(!fb.pixel(1, 0));
    assert!(fb.pixel(2, 0));
    assert!(!fb.pixel(3, 0));
    assert!(fb.pixel(7, 0));
    assert!(!fb.pixel(0, 1));
}

#[test]
fn draw_wraps_around_both_edges() {
    let mut fb = FrameBuffer::new();
    fb.draw(DISPLAY_WIDTH - 1, DISPLAY_HEIGHT - 1, &[0b1100_0000, 0b1000_0000]);
    assert!(fb.pixel(63, 31));
    assert!(fb.pixel(0, 31));
    assert!(fb.pixel(63, 0));
    assert_eq!(lit_pixels(&fb), 3);
}

#[test]
fn clear_unsets_every_pixel() {
    let mut fb = FrameBuffer::new();
    fb.draw(10, 10, &[0xFF, 0xFF]);
    assert!(lit_pixels(&fb) > 0);
    fb.clear();
    assert_eq!(lit_pixels(&fb), 0);
}

#[test]
fn partial_overlap_collides_and_toggles() {
    let mut fb = FrameBuffer::new();
    assert!(!fb.draw(0, 0, &[0b1111_0000]));
    let hit = fb.draw(2, 0, &[0b1100_0000]);
    assert!(hit);
    assert!(fb.pixel(0, 0));
    assert!(fb.pixel(1, 0));
    assert!(!fb.pixel(2, 0));
    assert!(!fb.pixel(3, 0));
}

#[test]
fn draw_instruction_sets_collision_flag() {
    let mut ctx = Context::new(
        FrameBuffer::new(),
        NullInput,
        RecordingSound::new(),
        XorShift::new(1),
    );
    let mut vm = VM::new();
    vm.load(&[0xD0, 0x12]).unwrap();
    vm.ram[0x400] = 0xFF;
    vm.ram[0x401] = 0xFF;
    vm.reg_i = 0x400;
    vm.registers[0] = 6;
    vm.registers[1] = 9;
    vm.interpret_cycle(&mut ctx).unwrap();
    assert_eq!(vm.registers[15], 0);
    assert_eq!(vm.reg_pc, 0x202);
    assert!(ctx.display.pixel(6, 9));

    vm.reg_pc = 0x200;
    vm.interpret_cycle(&mut ctx).unwrap();
    assert_eq!(vm.registers[15], 1);
    assert!(!ctx.display.pixel(6, 9));

    vm.reg_pc = 0x200;
    vm.ram[0x200] = 0x00;
    vm.ram[0x201] = 0xE0;
    vm.ram[0x202] = 0xD0;
    vm.ram[0x203] = 0x12;
    vm.interpret_cycle(&mut ctx).unwrap();
    vm.interpret_cycle(&mut ctx).unwrap();
    assert_eq!(vm.registers[15], 0);
    assert!(ctx.display.pixel(6, 9));
}

#[test]
fn clear_instruction_blanks_the_screen() {
    let mut ctx = Context::new(
        FrameBuffer::new(),
        NullInput,
        RecordingSound::new(),
        XorShift::new(1),
    );
    ctx.display.draw(1, 1, &[0xFF]);
    let mut vm = VM::new();
    vm.load(&[0x00, 0xE0]).unwrap();
    vm.interpret_cycle(&mut ctx).unwrap();
    assert_eq!(lit_pixels(&ctx.display), 0);
    assert_eq!(vm.reg_pc, 0x202);
}

#[test]
fn font_glyph_draws_from_digit_sprite_address() {
    let mut ctx = Context::new(
        FrameBuffer::new(),
        NullInput,
        RecordingSound::new(),
        XorShift::new(1),
    );
    // point the index at glyph 1 via the digit-sprite instruction, then
    // draw five rows of it at the origin
    let mut vm = VM::new();
    vm.load(&[0xF1, 0x29, 0xD5, 0x65]).unwrap();
    vm.registers[1] = 1;
    vm.interpret_cycle(&mut ctx).unwrap();
    assert_eq!(vm.reg_i, 5);
    vm.interpret_cycle(&mut ctx).unwrap();
    // glyph 1 is 0x20, 0x60, 0x20, 0x20, 0x70
    assert!(ctx.display.pixel(2, 0));
    assert!(!ctx.display.pixel(0, 0));
    assert!(ctx.display.pixel(1, 1));
    assert!(ctx.display.pixel(2, 4));
}
