use cheap8::emulator::cpu::CPU;
use cheap8::emulator::io::keyboard::{Keyboard, MacroquadKeyboard};
use cheap8::emulator::io::screen::{Screen, VirtualScreen};

fn fresh() -> CPU<MacroquadKeyboard, VirtualScreen> {
    CPU::new(MacroquadKeyboard::new(), VirtualScreen::new())
}

#[test]
fn new_machine_starts_at_program_start() {
    let cpu = fresh();
    assert_eq!(cpu.pc, 0x200);
    assert_eq!(cpu.sp, 0);
    assert_eq!(cpu.i, 0);
    assert!(cpu.memory.iter().all(|b| *b == 0));
    assert!(cpu.v.iter().all(|b| *b == 0));
}

#[test]
fn get_instruction_is_big_endian() {
    let mut cpu = fresh();
    cpu.memory[0x300] = 0xAB;
    cpu.memory[0x301] = 0xCD;
    assert_eq!(cpu.get_instruction(0x300), 0xABCD);
}

#[test]
fn load_program_writes_font_and_program() {
    let mut cpu = fresh();
    cpu.load_program(&[0x12, 0x34, 0x56]);
    assert_eq!(&cpu.memory[0x50..0x55], &[0xF0, 0x90, 0x90, 0x90, 0xF0]);
    assert_eq!(&cpu.memory[0x9B..0xA0], &[0xF0, 0x80, 0xF0, 0x80, 0x80]);
    assert_eq!(cpu.memory[0xA0], 0);
    assert_eq!(&cpu.memory[0x200..0x203], &[0x12, 0x34, 0x56]);
    assert_eq!(cpu.memory[0x203], 0);
}

#[test]
fn clear_screen_blanks_and_steps() {
    let mut cpu = fresh();
    cpu.screen.set_pixel((5, 5), true);
    cpu.decode(0x00E0);
    assert!(!cpu.screen.get_pixel((5, 5)));
    assert_eq!(cpu.pc, 0x202);
}

#[test]
fn call_then_return_resumes_after_the_call() {
    let mut cpu = fresh();
    cpu.decode(0x2400);
    assert_eq!(cpu.pc, 0x400);
    assert_eq!(cpu.sp, 1);
    assert_eq!(cpu.stack[1], 0x200);
    cpu.decode(0x00EE);
    assert_eq!(cpu.pc, 0x202);
    assert_eq!(cpu.sp, 0);
}

#[test]
fn skip_on_key_held() {
    let mut cpu = fresh();
    cpu.v[2] = 0x15;
    cpu.keyboard.press_key(5);
    cpu.decode(0xE291);
    assert_eq!(cpu.pc, 0x204);
    cpu.pc = 0x200;
    cpu.decode(0xE2A1);
    assert_eq!(cpu.pc, 0x202);
}

#[test]
fn skip_on_key_not_held() {
    let mut cpu = fresh();
    cpu.v[2] = 5;
    cpu.decode(0xE291);
    assert_eq!(cpu.pc, 0x202);
    cpu.pc = 0x200;
    cpu.decode(0xE2A1);
    assert_eq!(cpu.pc, 0x204);
}

#[test]
fn ex9e_is_not_a_key_instruction() {
    let mut cpu = fresh();
    cpu.v[2] = 5;
    cpu.keyboard.press_key(5);
    cpu.decode(0xE29E);
    assert_eq!(cpu.pc, 0x202);
}

#[test]
fn wait_for_key_blocks_until_a_press() {
    let mut cpu = fresh();
    cpu.decode(0xF30A);
    assert_eq!(cpu.pc, 0x200);
    cpu.keyboard.press_key(9);
    cpu.decode(0xF30A);
    assert_eq!(cpu.v[3], 9);
    assert_eq!(cpu.pc, 0x202);
}

#[test]
fn timers_and_index_instructions() {
    let mut cpu = fresh();
    cpu.v[1] = 42;
    cpu.decode(0xF115);
    assert_eq!(cpu.delay_timer, 42);
    cpu.decode(0xF118);
    assert_eq!(cpu.sound_timer, 42);
    cpu.decode(0xF207);
    assert_eq!(cpu.v[2], 42);
    cpu.i = 10;
    cpu.decode(0xF11E);
    assert_eq!(cpu.i, 52);
    cpu.v[1] = 0xA;
    cpu.decode(0xF129);
    assert_eq!(cpu.i, 0x50 + 50);
    assert_eq!(cpu.pc, 0x200 + 10);
}

#[test]
fn timers_count_down_to_zero() {
    let mut cpu = fresh();
    cpu.delay_timer = 2;
    cpu.sound_timer = 1;
    cpu.tick_delay_timer();
    cpu.tick_sound_timer();
    assert_eq!(cpu.delay_timer, 1);
    assert_eq!(cpu.sound_timer, 0);
    cpu.tick_delay_timer();
    cpu.tick_delay_timer();
    cpu.tick_sound_timer();
    assert_eq!(cpu.delay_timer, 0);
    assert_eq!(cpu.sound_timer, 0);
}

#[test]
fn logic_and_shift_instructions() {
    let mut cpu = fresh();
    cpu.v[1] = 0b1100;
    cpu.v[2] = 0b1010;
    cpu.decode(0x8121);
    assert_eq!(cpu.v[1], 0b1110);
    cpu.v[1] = 0b1100;
    cpu.decode(0x8122);
    assert_eq!(cpu.v[1], 0b1000);
    cpu.v[1] = 0b1100;
    cpu.decode(0x8123);
    assert_eq!(cpu.v[1], 0b0110);
    cpu.decode(0x8120);
    assert_eq!(cpu.v[1], 0b1010);
}

#[test]
fn add_with_carry_keeps_the_sum() {
    let mut cpu = fresh();
    cpu.v[1] = 200;
    cpu.v[2] = 100;
    cpu.decode(0x8124);
    assert_eq!(cpu.v[1], 44);
    assert_eq!(cpu.v[0xF], 1);
    assert_eq!(cpu.v[1] as u32 + 256 * cpu.v[0xF] as u32, 300);
    cpu.v[1] = 20;
    cpu.decode(0x8124);
    assert_eq!(cpu.v[1], 120);
    assert_eq!(cpu.v[0xF], 0);
}

#[test]
fn random_byte_is_masked() {
    let mut cpu = fresh();
    for _ in 0..50 {
        cpu.decode(0xC30F);
        assert!(cpu.v[3] <= 0x0F);
    }
}

#[test]
fn random_byte_varies() {
    let mut cpu = fresh();
    let mut seen = std::collections::HashSet::new();
    for _ in 0..64 {
        cpu.pc = 0x200;
        cpu.decode(0xC3FF);
        seen.insert(cpu.v[3]);
    }
    assert!(seen.len() > 1);
}

#[test]
fn decode_with_random_uses_the_given_byte() {
    let mut cpu = fresh();
    cpu.decode_with_random(0xC33C, 0xF5);
    assert_eq!(cpu.v[3], 0x34);
    assert_eq!(cpu.pc, 0x202);
}

#[test]
fn draw_wraps_around_the_edges_and_sets_vf() {
    let mut cpu = fresh();
    cpu.memory[0x300] = 0b1000_0001;
    cpu.memory[0x301] = 0b0100_0000;
    cpu.i = 0x300;
    cpu.v[0] = 60;
    cpu.v[1] = 31;
    cpu.decode(0xD012);
    assert!(cpu.screen.get_pixel((60, 31)));
    assert!(cpu.screen.get_pixel((3, 31)));
    assert!(cpu.screen.get_pixel((61, 0)));
    assert!(!cpu.screen.get_pixel((61, 31)));
    assert_eq!(cpu.v[0xF], 1);
}

#[test]
fn draw_twice_erases_the_sprite() {
    let mut cpu = fresh();
    cpu.load_program(&[]);
    cpu.v[3] = 7;
    cpu.decode(0xF329);
    cpu.v[0] = 10;
    cpu.v[1] = 4;
    cpu.screen.set_pixel((11, 5), true);
    let before = cpu.screen.get_state();
    cpu.decode(0xD015);
    assert_ne!(cpu.screen.get_state(), before);
    cpu.decode(0xD015);
    assert_eq!(cpu.screen.get_state(), before);
}

#[test]
fn store_then_load_restores_registers() {
    let mut cpu = fresh();
    for r in 0..16 {
        cpu.v[r] = (r as u8) * 3 + 1;
    }
    let saved = cpu.v;
    cpu.i = 0x400;
    cpu.decode(0xF755);
    for r in 0..8 {
        cpu.v[r] = 0;
    }
    cpu.decode(0xF765);
    assert_eq!(cpu.v, saved);
}

#[test]
fn font_digit_points_at_its_sprite() {
    let mut cpu = fresh();
    cpu.load_program(&[]);
    cpu.v[5] = 0xE;
    cpu.decode(0xF529);
    let start = cpu.i as usize;
    assert_eq!(&cpu.memory[start..start + 5], &[0xF0, 0x80, 0xF0, 0x80, 0xF0]);
}

#[test]
fn bcd_of_255() {
    let mut cpu = fresh();
    cpu.v[0] = 255;
    cpu.i = 0x300;
    cpu.decode(0xF033);
    assert_eq!(&cpu.memory[0x300..0x303], &[2, 5, 5]);
}

#[test]
fn can_decode_matches_the_panicking_cases() {
    let mut cpu = fresh();
    assert!(cpu.can_decode(0x00E0));
    assert!(!cpu.can_decode(0x00EE));
    cpu.v[4] = 250;
    assert!(!cpu.can_decode(0x7410));
    assert!(cpu.can_decode(0x7405));
    cpu.sp = 15;
    assert!(!cpu.can_decode(0x2300));
    cpu.i = 0xFFF;
    assert!(!cpu.can_decode(0xF033));
    assert!(!cpu.can_decode(0xD002));
    assert!(cpu.can_decode(0xD001));
    cpu.i = 0x300;
    cpu.v[0] = 249;
    assert!(!cpu.can_decode(0xD001));
    cpu.v[0] = 248;
    assert!(cpu.can_decode(0xD001));
}
