use cheap8::cpu::CPU;

#[test]
fn first_design_starts_at_zero() {
    let cpu = CPU::new();
    assert_eq!(cpu.pc, 0);
    assert!(cpu.memory.iter().all(|b| *b == 0));
}

#[test]
fn first_design_load_program() {
    let mut cpu = CPU::new();
    cpu.load_program(&[1, 2, 3]);
    assert_eq!(&cpu.memory[0x200..0x203], &[1, 2, 3]);
    assert_eq!(cpu.memory[0x50], 0);
}

#[test]
fn first_design_call_then_return_comes_back_to_the_call() {
    let mut cpu = CPU::new();
    cpu.pc = 0x210;
    cpu.decode(0x2300);
    assert_eq!(cpu.pc, 0x300);
    cpu.decode(0x00EE);
    assert_eq!(cpu.pc, 0x210);
    assert_eq!(cpu.sp, 0);
}

#[test]
fn first_design_add_wraps_in_7xkk() {
    let mut cpu = CPU::new();
    cpu.v[2] = 250;
    cpu.decode(0x7210);
    assert_eq!(cpu.v[2], 10);
}

#[test]
fn first_design_random_uses_register_number() {
    let mut cpu = CPU::new();
    cpu.decode_with_random(0xC5FF, 0xFF);
    assert_eq!(cpu.v[5], 5);
    cpu.decode_with_random(0xC5FF, 0x02);
    assert_eq!(cpu.v[5], 0);
}

#[test]
fn first_design_draw_twice_restores() {
    let mut cpu = CPU::new();
    cpu.memory[0x300] = 0b1010_0000;
    cpu.memory[0x301] = 0b0000_0001;
    cpu.i = 0x300;
    cpu.v[0] = 28;
    cpu.v[1] = 0;
    cpu.decode(0xD012);
    assert!(cpu.screen.get_pixel((28, 0)));
    assert!(cpu.screen.get_pixel((30, 0)));
    assert!(cpu.screen.get_pixel((3, 1)));
    assert!(!cpu.screen.get_pixel((29, 0)));
    cpu.decode(0xD012);
    assert!(!cpu.screen.get_pixel((28, 0)));
    assert!(!cpu.screen.get_pixel((3, 1)));
}

#[test]
fn first_design_shift_left_keeps_low_bit_in_vf() {
    let mut cpu = CPU::new();
    cpu.v[1] = 0x81;
    cpu.decode(0x810E);
    assert_eq!(cpu.v[1], 0x02);
    assert_eq!(cpu.v[0xF], 1);
}
