use cheap8::cpu::CPU;

#[test]
fn cpu_test_ret() {
    let mut cpu = CPU::new();
    cpu.stack = std::array::from_fn(|i| i as u16);
    cpu.sp = 5;
    cpu.ret();
    assert_eq!(cpu.pc, 5);
    assert_eq!(cpu.sp, 4);
}

#[test]
fn cpu_test_jp() {
    let mut cpu = CPU::new();
    let target = 0x0400u16;
    cpu.jp(target);
    assert_eq!(cpu.pc, target)
}

#[test]
fn cpu_test_call() {
    let mut cpu = CPU::new();
    let nnn = 7;
    cpu.stack = std::array::from_fn(|i| if i <= 5 { i as u16 } else { 0 });
    cpu.sp = 5;
    assert_eq!(cpu.get_stack_top(), cpu.get_stack_addr(5));
    cpu.call(nnn);

    assert_eq!(cpu.sp, 6);
    assert_eq!(cpu.get_stack_top(), cpu.get_stack_addr(6));
    assert_eq!(cpu.pc, nnn)
}

#[test]
fn cpu_test_dxyn() {
    let mut cpu = CPU::new();
    let opcode = 0xD001;
    cpu.memory[512usize] = 0xFF;
    cpu.v[0] = 0;
    cpu.v[1] = 0;
    cpu.i = 512;

    cpu.decode(opcode);

    let expected_pixels = [true; 8];
    let screen_pixels: [bool; 8] = std::array::from_fn(|x| cpu.screen.get_pixel((x as u8, 0)));
    assert_eq!(expected_pixels, screen_pixels);
}

#[test]
fn cpu_test_se() {
    let mut cpu = CPU::new();
    cpu.set_register(5, 0x66);
    cpu.decode(0x3566);
    assert_eq!(cpu.pc, 2);

    cpu.pc = 0;
    cpu.set_register(5, 0x67);
    cpu.decode(0x3566);
    assert_eq!(cpu.pc, 0);
}

#[test]
fn cpu_test_sne() {
    let mut cpu = CPU::new();
    cpu.set_register(5, 0x66);
    cpu.decode(0x4566);
    assert_eq!(cpu.pc, 0);

    cpu.pc = 0;
    cpu.set_register(5, 0x67);
    cpu.decode(0x4566);
    assert_eq!(cpu.pc, 2);
}

#[test]
fn cpu_test_6xnn() {
    let mut cpu = CPU::new();
    let opcode = 0x6464;
    cpu.decode(opcode);
    assert_eq!(cpu.get_register(4), 0x64);
}

#[test]
fn cpu_test_7xnn() {
    let mut cpu = CPU::new();
    let opcode = 0x7464;

    cpu.set_register(4, 1);
    cpu.decode(opcode);
    assert_eq!(cpu.get_register(4), 0x64 + 1);
}

#[test]
fn cpu_test_8xy5_no_underflow() {
    let mut cpu = CPU::new();
    let opcode = 0x8455;

    cpu.set_register(4, 5);
    cpu.set_register(5, 4);

    cpu.decode(opcode);

    assert_eq!(cpu.get_register(4), 1);
    assert_eq!(cpu.get_register(0xF), 1)
}

#[test]
fn cpu_test_8xy5_with_underflow() {
    let mut cpu = CPU::new();
    let opcode = 0x8455;

    cpu.set_register(4, 4);
    cpu.set_register(5, 5);

    cpu.decode(opcode);

    assert_eq!(cpu.get_register(4), 255);
    assert_eq!(cpu.get_register(0xF), 0);
}

#[test]
fn cpu_test_8xy6() {
    let mut cpu = CPU::new();
    let opcode: u16 = 0x8456;

    cpu.set_register(4, 0xE1);
    cpu.decode(opcode);
    assert_eq!(cpu.get_register(4), 0x70);
    assert_eq!(cpu.get_register(0xF), 1);

    cpu.set_register(4, 0xE0);
    cpu.decode(opcode);
    assert_eq!(cpu.get_register(4), 0x70);
    assert_eq!(cpu.get_register(0xF), 0);
}

#[test]
fn cpu_test_8xy7_no_underflow() {
    let mut cpu = CPU::new();
    let opcode = 0x8457;

    cpu.set_register(4, 4);
    cpu.set_register(5, 5);

    cpu.decode(opcode);

    assert_eq!(cpu.get_register(4), 1);
    assert_eq!(cpu.get_register(0xF), 1)
}

#[test]
fn cpu_test_8xy7_with_underflow() {
    let mut cpu = CPU::new();
    let opcode = 0x8457;

    cpu.set_register(4, 5);
    cpu.set_register(5, 4);

    cpu.decode(opcode);

    assert_eq!(cpu.get_register(4), 255);
    assert_eq!(cpu.get_register(0xF), 0)
}

#[test]
fn cpu_test_8xye() {
    let mut cpu = CPU::new();
    let opcode: u16 = 0x845E;

    cpu.set_register(4, 0x11);
    cpu.decode(opcode);
    assert_eq!(cpu.get_register(4), 0x22);
    assert_eq!(cpu.get_register(0xF), 1);

    cpu.set_register(4, 0x10);
    cpu.decode(opcode);
    assert_eq!(cpu.get_register(4), 0x20);
    assert_eq!(cpu.get_register(0xF), 0);
}

#[test]
fn cpu_test_9xy0() {
    let mut cpu = CPU::new();
    let opcode: u16 = 0x9430;

    cpu.set_register(4, 5);
    cpu.set_register(3, 5);
    cpu.decode(opcode);
    assert_eq!(cpu.pc, 0);

    cpu.set_register(3, 4);
    cpu.decode(opcode);
    assert_eq!(cpu.pc, 2);
}

#[test]
fn cpu_test_annn() {
    let mut cpu = CPU::new();
    let opcode: u16 = 0xA245;

    cpu.decode(opcode);
    assert_eq!(cpu.i, 0x245);
}

#[test]
fn cpu_test_bnnn() {
    let mut cpu = CPU::new();
    let opcode: u16 = 0xB245;

    cpu.set_register(0, 1);
    cpu.decode(opcode);
    assert_eq!(cpu.pc, 0x246);
}
