use cheap8::emulator::cpu::CPU;
use cheap8::emulator::io::keyboard::MacroquadKeyboard;
use cheap8::emulator::io::screen::{Screen, VirtualScreen};

fn fresh() -> CPU<MacroquadKeyboard, VirtualScreen> {
    CPU::new(MacroquadKeyboard::new(), VirtualScreen::new())
}

#[test]
fn test_ret() {
    let mut cpu = fresh();
    cpu.stack = std::array::from_fn(|i| i as u16);
    cpu.sp = 5;
    cpu.ret();
    assert_eq!(cpu.pc, 5);
    assert_eq!(cpu.sp, 4);
}

#[test]
fn test_jp() {
    let mut cpu = fresh();
    let target = 0x0400u16;
    cpu.jp(target);
    assert_eq!(cpu.pc, target)
}

#[test]
fn test_call() {
    let mut cpu = fresh();
    let nnn = 7;
    cpu.stack = std::array::from_fn(|i| if i <= 5 { i as u16 } else { 0 });
    cpu.sp = 5;
    assert_eq!(cpu.get_stack_top(), cpu.get_stack_addr(5));
    cpu.call(nnn);

    assert_eq!(cpu.sp, 6);
    assert_eq!(cpu.get_stack_top(), cpu.get_stack_addr(6));
    assert_eq!(cpu.pc, nnn)
}

#[test]
fn test_dxyn() {
    let mut cpu = fresh();
    let opcode = 0xD001;
    cpu.memory[512usize] = 0xFF;
    cpu.v[0] = 0;
    cpu.v[1] = 0;
    cpu.i = 512;

    cpu.decode(opcode);

    let expected_pixels = [true; 8];
    let screen_pixels: [bool; 8] = std::array::from_fn(|x| cpu.screen.get_pixel((x as u8, 0)));
    assert_eq!(expected_pixels, screen_pixels);
}

#[test]
fn test_se() {
    let mut cpu = fresh();
    cpu.set_register(5, 0x66);
    cpu.decode(0x3566);
    assert_eq!(cpu.pc, 0x200 + 4);

    cpu.pc = 0x200;
    cpu.set_register(5, 0x67);
    cpu.decode(0x3566);
    assert_eq!(cpu.pc, 0x200 + 2);
}

#[test]
fn test_sne() {
    let mut cpu = fresh();
    cpu.set_register(5, 0x66);
    cpu.decode(0x4566);
    assert_eq!(cpu.pc, 0x200 + 2);

    cpu.pc = 0x200;
    cpu.set_register(5, 0x67);
    cpu.decode(0x4566);
    assert_eq!(cpu.pc, 0x200 + 4);
}

#[test]
fn test_6xnn() {
    let mut cpu = fresh();
    let opcode = 0x6464;
    cpu.decode(opcode);
    assert_eq!(cpu.get_register(4), 0x64);
}

#[test]
fn test_7xnn() {
    let mut cpu = fresh();
    let opcode = 0x7464;

    cpu.set_register(4, 1);
    cpu.decode(opcode);
    assert_eq!(cpu.get_register(4), 0x64 + 1);
}

#[test]
fn test_8xy4() {
    let mut cpu = fresh();
    let opcode = 0x8454;

    cpu.set_register(4, 0xFF);
    cpu.set_register(5, 1);
    cpu.set_register(0xF, 0);

    cpu.decode(opcode);

    assert_eq!(cpu.get_register(0xF), 1);

    cpu.set_register(4, 1);
    cpu.set_register(5, 1);
    cpu.set_register(0xF, 0);

    assert_eq!(cpu.get_register(0xF), 0);
}

#[test]
fn test_8xy5_no_underflow() {
    let mut cpu = fresh();
    let opcode = 0x8455;

    cpu.set_register(4, 5);
    cpu.set_register(5, 4);

    cpu.decode(opcode);

    assert_eq!(cpu.get_register(4), 1);
    assert_eq!(cpu.get_register(0xF), 1)
}

#[test]
fn test_8xy5_with_underflow() {
    let mut cpu = fresh();
    let opcode = 0x8455;

    cpu.set_register(4, 4);
    cpu.set_register(5, 5);

    cpu.decode(opcode);

    assert_eq!(cpu.get_register(4), 255);
    assert_eq!(cpu.get_register(0xF), 0);
}

#[test]
fn test_8xy6() {
    let mut cpu = fresh();
    let opcode: u16 = 0x8456;

    cpu.set_register(4, 0xE1);
    cpu.decode(opcode);
    assert_eq!(cpu.get_register(4), 0x70);
    assert_eq!(cpu.get_register(0xF), 1);

    cpu.set_register(4, 0xE0);
    cpu.decode(opcode);
    assert_eq!(cpu.get_register(4), 0x70);
    assert_eq!(cpu.get_register(0xF), 0);
}

#[test]
fn test_8xy7_no_underflow() {
    let mut cpu = fresh();
    let opcode = 0x8457;

    cpu.set_register(4, 4);
    cpu.set_register(5, 5);

    cpu.decode(opcode);

    assert_eq!(cpu.get_register(4), 1);
    assert_eq!(cpu.get_register(0xF), 1)
}

#[test]
fn test_8xy7_with_underflow() {
    let mut cpu = fresh();
    let opcode = 0x8457;

    cpu.set_register(4, 5);
    cpu.set_register(5, 4);

    cpu.decode(opcode);

    assert_eq!(cpu.get_register(4), 255);
    assert_eq!(cpu.get_register(0xF), 0)
}

#[test]
fn test_8xye() {
    let mut cpu = fresh();
    let opcode: u16 = 0x845E;

    cpu.set_register(4, 0x11);
    cpu.decode(opcode);
    assert_eq!(cpu.get_register(4), 0x22);
    assert_eq!(cpu.get_register(0xF), 0);

    cpu.set_register(4, 0x80);
    cpu.decode(opcode);
    assert_eq!(cpu.get_register(4), 0);
    assert_eq!(cpu.get_register(0xF), 1);
}

#[test]
fn test_9xy0() {
    let mut cpu = fresh();
    let opcode: u16 = 0x9430;

    cpu.set_register(4, 5);
    cpu.set_register(3, 5);
    cpu.decode(opcode);
    assert_eq!(cpu.pc, 0x0200 + 2);

    cpu.pc = 0x0200;

    cpu.set_register(4, 5);
    cpu.set_register(3, 4);
    cpu.decode(opcode);
    assert_eq!(cpu.pc, 0x0200 + 4);
}

#[test]
fn test_annn() {
    let mut cpu = fresh();
    let opcode: u16 = 0xA245;

    cpu.decode(opcode);
    assert_eq!(cpu.i, 0x245);
}

#[test]
fn test_bnnn() {
    let mut cpu = fresh();
    let opcode: u16 = 0xB245;

    cpu.set_register(0, 1);
    cpu.decode(opcode);
    assert_eq!(cpu.pc, 0x246);
}

#[test]
fn test_fx33() {
    let mut cpu = fresh();
    let opcode: u16 = 0xF433;

    cpu.set_register(4, 128);
    cpu.i = 0x505;
    cpu.decode(opcode);
    assert_eq!(cpu.get_memory(cpu.i), 1);
    assert_eq!(cpu.get_memory(cpu.i + 1), 2);
    assert_eq!(cpu.get_memory(cpu.i + 2), 8);
}

#[test]
fn test_fx55() {
    let mut cpu = fresh();
    let opcode: u16 = 0xF355;

    cpu.set_register(0, 0);
    cpu.set_register(1, 1);
    cpu.set_register(2, 2);
    cpu.set_register(3, 3);

    cpu.i = 0x205;
    cpu.decode(opcode);
    for i in 0..4 {
        assert_eq!(i, cpu.get_memory(cpu.i + i as u16));
    }
}

#[test]
fn test_fx65() {
    let mut cpu = fresh();
    let opcode: u16 = 0xF365;

    cpu.i = 0x205;
    let start_adress = usize::from(cpu.i);

    cpu.memory[start_adress] = 0;
    cpu.memory[start_adress + 1] = 1;
    cpu.memory[start_adress + 2] = 2;
    cpu.memory[start_adress + 3] = 3;
    cpu.decode(opcode);
    for i in 0..=3 {
        assert_eq!(i, cpu.get_register(i));
    }
}
