use vstd::prelude::*;
use crate::emulator::io::keyboard::Keyboard;
use crate::emulator::io::screen::{on_screen, Screen, WIDTH, HEIGHT};
use crate::opcode::{kind_of, x_of, y_of, n_of, nnn_of, kk_of, lemma_opcode_fields};
use crate::random::random_range_inclusive;

verus! {

/// Size of the addressable memory, in bytes.
pub const MEMORY_SIZE: usize = 4096;

/// Address at which programs are loaded and execution starts.
pub const PROGRAM_START: u16 = 0x200;

/// Address of the built-in hexadecimal font: five bytes per digit, digits 0 to F.
pub const FONT_START: u16 = 0x50;

/// The state of a CHIP-8 machine apart from its display and keypad.
#[verifier::ext_equal]
pub struct Machine {
    pub memory: Seq<u8>,
    pub v: Seq<u8>,
    pub i: u16,
    pub sp: u8,
    pub pc: u16,
    pub stack: Seq<u16>,
    pub delay_timer: u8,
    pub sound_timer: u8,
}

impl Machine {
    /// Advances to the next instruction.
    pub open spec fn step(self) -> Machine {
        Machine { pc: (self.pc + 2) as u16, ..self }
    }

    /// Skips the next instruction when `cond` holds.
    pub open spec fn skip_if(self, cond: bool) -> Machine {
        if cond {
            self.step()
        } else {
            self
        }
    }

    /// Register `x` set to `value`.
    pub open spec fn with_reg(self, x: int, value: u8) -> Machine {
        Machine { v: self.v.update(x, value), ..self }
    }

    /// The byte at `addr` set to `value`.
    pub open spec fn with_mem(self, addr: int, value: u8) -> Machine {
        Machine { memory: self.memory.update(addr, value), ..self }
    }
}

/// The built-in font: the sprites of the hexadecimal digits 0 to F, five rows each.
pub open spec fn font_sprites() -> Seq<u8> {
    seq![
        0xF0u8, 0x90, 0x90, 0x90, 0xF0,
        0x20, 0x60, 0x20, 0x20, 0x70,
        0xF0, 0x10, 0xF0, 0x80, 0xF0,
        0xF0, 0x10, 0xF0, 0x10, 0xF0,
        0x90, 0x90, 0xF0, 0x10, 0x10,
        0xF0, 0x80, 0xF0, 0x10, 0xF0,
        0xF0, 0x80, 0xF0, 0x90, 0xF0,
        0xF0, 0x10, 0x20, 0x40, 0x40,
        0xF0, 0x90, 0xF0, 0x90, 0xF0,
        0xF0, 0x90, 0xF0, 0x10, 0xF0,
        0xF0, 0x90, 0xF0, 0x90, 0x90,
        0xE0, 0x90, 0xE0, 0x90, 0xE0,
        0xF0, 0x90, 0xF0, 0x90, 0x90,
        0xE0, 0x90, 0x90, 0x90, 0xE0,
        0xF0, 0x80, 0xF0, 0x80, 0xF0,
        0xF0, 0x80, 0xF0, 0x80, 0x80,
    ]
}

/// `memory` with the font written at `FONT_START`.
pub open spec fn with_font(memory: Seq<u8>) -> Seq<u8> {
    Seq::new(
        memory.len(),
        |a: int|
            if FONT_START <= a < FONT_START + 80 {
                font_sprites()[a - FONT_START]
            } else {
                memory[a]
            },
    )
}

/// `memory` with `program` written at `PROGRAM_START`.
pub open spec fn with_program(memory: Seq<u8>, program: Seq<u8>) -> Seq<u8> {
    Seq::new(
        memory.len(),
        |a: int|
            if PROGRAM_START <= a < PROGRAM_START + program.len() {
                program[a - PROGRAM_START]
            } else {
                memory[a]
            },
    )
}

/// Whether bit `b` of a sprite row is set; bit 0 is the leftmost pixel.
pub open spec fn sprite_bit(byte: u8, b: int) -> bool {
    (byte >> ((7 - b) as u8)) & 1 != 0
}

/// Whether a sprite of `n` rows read from `mem` at `addr` and drawn at `(vx, vy)` covers
/// the pixel `(px, py)` with a set bit: rows and columns wrap around the display edges.
pub open spec fn sprite_covers(mem: Seq<u8>, addr: int, n: int, vx: int, vy: int, px: int, py: int) -> bool {
    sprite_covers_before(mem, addr, n, 0, vx, vy, px, py)
}

/// As `sprite_covers`, counting only rows before `rows` and, in row `rows`, bits before `bits`.
pub open spec fn sprite_covers_before(
    mem: Seq<u8>,
    addr: int,
    rows: int,
    bits: int,
    vx: int,
    vy: int,
    px: int,
    py: int,
) -> bool {
    let col = (px - vx) % (WIDTH as int);
    let row = (py - vy) % (HEIGHT as int);
    &&& col < 8
    &&& (row < rows || (row == rows && col < bits))
    &&& sprite_bit(mem[addr + row], col)
}

/// Wrapping `base + off` onto `0..m` and measuring back from `base` gives `off` again.
pub(crate) proof fn lemma_wrap_offset(base: int, off: int, m: int)
    requires
        0 <= base,
        0 <= off < m,
    ensures
        ((base + off) % m - base) % m == off,
{
    vstd::arithmetic::div_mod::lemma_fundamental_div_mod(base + off, m);
    let q = (base + off) / m;
    assert(m * (-q) == -(m * q)) by (nonlinear_arith);
    vstd::arithmetic::div_mod::lemma_mod_multiples_vanish(-q, off, m);
    vstd::arithmetic::div_mod::lemma_small_mod(off as nat, m as nat);
}

/// The only point of `0..m` at offset `off` from `base` is `(base + off) % m`.
pub(crate) proof fn lemma_wrap_unique(base: int, off: int, p: int, m: int)
    requires
        0 <= base,
        0 <= off < m,
        0 <= p < m,
        (p - base) % m == off,
    ensures
        p == (base + off) % m,
{
    vstd::arithmetic::div_mod::lemma_fundamental_div_mod(p - base, m);
    let q = (p - base) / m;
    assert(m * (-q) == -(m * q)) by (nonlinear_arith);
    vstd::arithmetic::div_mod::lemma_mod_multiples_vanish(-q, p, m);
    vstd::arithmetic::div_mod::lemma_small_mod(p as nat, m as nat);
}

/// The shifts and masks on a byte that the instructions use, as arithmetic.
pub(crate) proof fn lemma_byte_ops(b: u8)
    ensures
        b & 0x1 == b % 2,
        b >> 1 == b / 2,
        (b >> 7) & 1 == b / 128,
        b << 1 == ((b * 2) % 256) as u8,
        b & 0x0F == b % 16,
{
    assert(b & 0x1 == b % 2) by (bit_vector);
    assert(b >> 1 == b / 2) by (bit_vector);
    assert((b >> 7) & 1 == b / 128) by (bit_vector);
    assert(b << 1 == ((b * 2) % 256) as u8) by (bit_vector);
    assert(b & 0x0F == b % 16) by (bit_vector);
}

/// The CHIP-8 interpreter: memory, registers, call stack, timers, a display and a keypad.
pub struct CPU<K: Keyboard, S: Screen> {
    pub memory: [u8; 4096],
    pub v: [u8; 16],
    pub i: u16,
    pub sp: u8,
    pub pc: u16,
    pub screen: S,
    pub keyboard: K,
    pub stack: [u16; 16],
    pub delay_timer: u8,
    pub sound_timer: u8,
}

impl<K: Keyboard, S: Screen> View for CPU<K, S> {
    type V = Machine;

    open spec fn view(&self) -> Machine {
        Machine {
            memory: self.memory@,
            v: self.v@,
            i: self.i,
            sp: self.sp,
            pc: self.pc,
            stack: self.stack@,
            delay_timer: self.delay_timer,
            sound_timer: self.sound_timer,
        }
    }
}

impl<K: Keyboard, S: Screen> CPU<K, S> {
    /// Display and keypad are the same in `self` and `other`.
    pub open spec fn same_devices(&self, other: &Self) -> bool {
        &&& self.screen == other.screen
        &&& self.keyboard == other.keyboard
    }

    /// Whether executing `op` from this state stays clear of every arithmetic overflow and
    /// out-of-range index in the interpreter, which would otherwise panic.
    pub open spec fn can_execute(&self, op: u16) -> bool {
        let m = self@;
        let x = x_of(op) as int;
        let n = n_of(op) as int;
        let vx = m.v[x];
        let vy = m.v[y_of(op) as int];
        let kk = kk_of(op);
        let fits = |advance: int| m.pc + advance <= u16::MAX;
        match (kind_of(op), x_of(op), y_of(op), n_of(op)) {
            (0, 0, 0xE, 0) => fits(2),
            (0, 0, 0xE, 0xE) => 1 <= m.sp < 16 && m.stack[m.sp as int] + 2 <= u16::MAX,
            (1, _, _, _) => true,
            (2, _, _, _) => m.sp < 15,
            (3, _, _, _) => fits(if vx == kk { 4 } else { 2 }),
            (4, _, _, _) => fits(if vx != kk { 4 } else { 2 }),
            (5, _, _, _) => fits(if vx == vy { 4 } else { 2 }),
            (7, _, _, _) => kk + vx <= u8::MAX && fits(2),
            (9, _, _, 0) => fits(if vx != vy { 4 } else { 2 }),
            (0xB, _, _, _) => true,
            (0xD, _, _, _) => {
                &&& m.i + n <= MEMORY_SIZE
                &&& n > 0 ==> vx + 7 <= u8::MAX && vy + n - 1 <= u8::MAX
                &&& fits(2)
            },
            (0xE, _, 9, 1) => fits(if self.keyboard.key_down(vx % 16) { 4 } else { 2 }),
            (0xE, _, 0xA, 1) => fits(if !self.keyboard.key_down(vx % 16) { 4 } else { 2 }),
            (0xF, _, 0, 0xA) => self.keyboard.awaited_key() is Some ==> fits(2),
            (0xF, _, 1, 0xE) => m.i + vx <= u16::MAX && fits(2),
            (0xF, _, 3, 3) => m.i + 2 < MEMORY_SIZE && fits(2),
            (0xF, _, 5, 5) => m.i + x < MEMORY_SIZE && fits(2),
            (0xF, _, 6, 5) => m.i + x < MEMORY_SIZE && fits(2),
            _ => fits(2),
        }
    }

    /// The machine state after executing `op`, where `random` is the byte that `Cxkk` draws.
    pub open spec fn next_state(&self, op: u16, random: u8) -> Machine {
        let m = self@;
        let x = x_of(op) as int;
        let vx = m.v[x];
        let vy = m.v[y_of(op) as int];
        let nnn = nnn_of(op);
        let kk = kk_of(op);
        match (kind_of(op), x_of(op), y_of(op), n_of(op)) {
            (0, 0, 0xE, 0) => m.step(),
            (0, 0, 0xE, 0xE) => Machine {
                pc: m.stack[m.sp as int],
                sp: (m.sp - 1) as u8,
                ..m
            }.step(),
            (1, _, _, _) => Machine { pc: nnn, ..m },
            (2, _, _, _) => Machine {
                sp: (m.sp + 1) as u8,
                stack: m.stack.update(m.sp + 1, m.pc),
                pc: nnn,
                ..m
            },
            (3, _, _, _) => m.skip_if(vx == kk).step(),
            (4, _, _, _) => m.skip_if(vx != kk).step(),
            (5, _, _, _) => m.skip_if(vx == vy).step(),
            (6, _, _, _) => m.with_reg(x, kk).step(),
            (7, _, _, _) => m.with_reg(x, (kk + vx) as u8).step(),
            (8, _, _, 0) => m.with_reg(x, vy).step(),
            (8, _, _, 1) => m.with_reg(x, vx | vy).step(),
            (8, _, _, 2) => m.with_reg(x, vx & vy).step(),
            (8, _, _, 3) => m.with_reg(x, vx ^ vy).step(),
            (8, _, _, 4) => m.with_reg(x, ((vx + vy) % 256) as u8).with_reg(
                0xF,
                if vx + vy > u8::MAX { 1 } else { 0 },
            ).step(),
            (8, _, _, 5) => m.with_reg(x, ((vx - vy) % 256) as u8).with_reg(
                0xF,
                if vx >= vy { 1 } else { 0 },
            ).step(),
            (8, _, _, 6) => m.with_reg(0xF, vx % 2).with_reg(x, vx / 2).step(),
            (8, _, _, 7) => m.with_reg(x, ((vy - vx) % 256) as u8).with_reg(
                0xF,
                if vy >= vx { 1 } else { 0 },
            ).step(),
            (8, _, _, 0xE) => m.with_reg(0xF, vx / 128).with_reg(x, ((vx * 2) % 256) as u8).step(),
            (9, _, _, 0) => m.skip_if(vx != vy).step(),
            (0xA, _, _, _) => Machine { i: nnn, ..m }.step(),
            (0xB, _, _, _) => Machine { pc: (nnn + m.v[0]) as u16, ..m },
            (0xC, _, _, _) => m.with_reg(x, random & kk).step(),
            (0xD, _, _, _) => m.with_reg(0xF, 1).step(),
            (0xE, _, 9, 1) => m.skip_if(self.keyboard.key_down(vx % 16)).step(),
            (0xE, _, 0xA, 1) => m.skip_if(!self.keyboard.key_down(vx % 16)).step(),
            (0xF, _, 0, 7) => m.with_reg(x, m.delay_timer).step(),
            (0xF, _, 0, 0xA) => match self.keyboard.awaited_key() {
                Some(key) => m.with_reg(x, key).step(),
                None => m,
            },
            (0xF, _, 1, 5) => Machine { delay_timer: vx, ..m }.step(),
            (0xF, _, 1, 8) => Machine { sound_timer: vx, ..m }.step(),
            (0xF, _, 1, 0xE) => Machine { i: (m.i + vx) as u16, ..m }.step(),
            (0xF, _, 2, 9) => Machine { i: (vx * 5 + FONT_START) as u16, ..m }.step(),
            (0xF, _, 3, 3) => m.with_mem(m.i as int, vx / 100).with_mem(
                m.i + 1,
                (vx / 10) % 10,
            ).with_mem(m.i + 2, vx % 10).step(),
            (0xF, _, 5, 5) => Machine {
                memory: Seq::new(
                    m.memory.len(),
                    |a: int|
                        if m.i <= a <= m.i + x {
                            m.v[a - m.i]
                        } else {
                            m.memory[a]
                        },
                ),
                ..m
            }.step(),
            (0xF, _, 6, 5) => Machine {
                v: Seq::new(
                    m.v.len(),
                    |r: int|
                        if r <= x {
                            m.memory[m.i + r]
                        } else {
                            m.v[r]
                        },
                ),
                ..m
            }.step(),
            _ => m.step(),
        }
    }

    /// Whether pixel `(px, py)` is lit after executing `op`.
    pub open spec fn next_pixel(&self, op: u16, px: int, py: int) -> bool {
        let m = self@;
        if kind_of(op) == 0 && x_of(op) == 0 && y_of(op) == 0xE && n_of(op) == 0 {
            false
        } else if kind_of(op) == 0xD {
            self.screen.pixel(px, py) != sprite_covers(
                m.memory,
                m.i as int,
                n_of(op) as int,
                m.v[x_of(op) as int] as int,
                m.v[y_of(op) as int] as int,
                px,
                py,
            )
        } else {
            self.screen.pixel(px, py)
        }
    }

    /// `after` is what executing `op` makes of `self`, where `Cxkk` draws `random`.
    pub open spec fn executes_to(&self, after: &Self, op: u16, random: u8) -> bool {
        &&& after@ == self.next_state(op, random)
        &&& after.keyboard == self.keyboard
        &&& forall|px: int, py: int|
            on_screen(px, py) ==> #[trigger] after.screen.pixel(px, py) == self.next_pixel(op, px, py)
    }

    pub fn new(keyboard: K, screen: S) -> (cpu: Self)
        ensures
            cpu@ == (Machine {
                memory: Seq::new(4096, |a: int| 0u8),
                v: Seq::new(16, |r: int| 0u8),
                i: 0,
                sp: 0,
                pc: PROGRAM_START,
                stack: Seq::new(16, |s: int| 0u16),
                delay_timer: 0,
                sound_timer: 0,
            }),
            cpu.keyboard == keyboard,
            cpu.screen == screen,
    {
        let cpu = Self {
            memory: [0; 4096],
            v: [0; 16],
            i: 0,
            sp: 0,
            stack: [0; 16],
            pc: 0x200,
            keyboard,
            screen,
            delay_timer: 0,
            sound_timer: 0,
        };
        assert(cpu.memory@ =~= Seq::new(4096, |a: int| 0u8));
        assert(cpu.v@ =~= Seq::new(16, |r: int| 0u8));
        assert(cpu.stack@ =~= Seq::new(16, |s: int| 0u16));
        cpu
    }

    pub fn get_stack_addr(&self, addr: u8) -> (entry: u16)
        requires
            addr < 16,
        ensures
            entry == self.stack@[addr as int],
    {
        self.stack[usize::from(addr)]
    }

    pub fn get_stack_top(&self) -> (entry: u16)
        requires
            self.sp < 16,
        ensures
            entry == self.stack@[self.sp as int],
    {
        self.get_stack_addr(self.sp)
    }

    /// The big-endian instruction word at `location`.
    pub fn get_instruction(&self, location: u16) -> (opcode: u16)
        requires
            location + 1 < MEMORY_SIZE,
        ensures
            opcode == self.memory@[location as int] * 0x100 + self.memory@[location + 1],
    {
        let location: usize = location.into();
        let high_byte: u8 = self.memory[location];
        let low_byte: u8 = self.memory[location + 1];
        (high_byte as u16) * 0x100 + (low_byte as u16)
    }

    pub fn step(&mut self)
        requires
            old(self).pc + 2 <= u16::MAX,
        ensures
            final(self)@ == old(self)@.step(),
            final(self).same_devices(old(self)),
    {
        self.pc += 2
    }

    pub fn clear(&mut self)
        ensures
            final(self)@ == old(self)@,
            final(self).keyboard == old(self).keyboard,
            forall|x: int, y: int| on_screen(x, y) ==> !#[trigger] final(self).screen.pixel(x, y),
    {
        self.screen.clear();
    }

    /// Returns from a subroutine: jumps back to the address on top of the stack and pops it.
    pub fn ret(&mut self)
        requires
            1 <= old(self).sp < 16,
        ensures
            final(self)@ == (Machine {
                pc: old(self)@.stack[old(self).sp as int],
                sp: (old(self).sp - 1) as u8,
                ..old(self)@
            }),
            final(self).same_devices(old(self)),
    {
        self.pc = self.stack[self.sp as usize];
        self.sp -= 1;
    }

    pub fn jp(&mut self, target: u16)
        ensures
            final(self)@ == (Machine { pc: target, ..old(self)@ }),
            final(self).same_devices(old(self)),
    {
        self.pc = target;
    }

    /// Calls the subroutine at `nnn`: pushes the current address and jumps.
    pub fn call(&mut self, nnn: u16)
        requires
            old(self).sp < 15,
        ensures
            final(self)@ == (Machine {
                sp: (old(self).sp + 1) as u8,
                stack: old(self)@.stack.update(old(self).sp + 1, old(self).pc),
                pc: nnn,
                ..old(self)@
            }),
            final(self).same_devices(old(self)),
    {
        self.sp += 1;
        self.stack[self.sp as usize] = self.pc;
        self.pc = nnn;
    }

    /// Skips the next instruction when `a == b`.
    pub fn skip_equal(&mut self, a: u8, b: u8)
        requires
            a == b ==> old(self).pc + 2 <= u16::MAX,
        ensures
            final(self)@ == old(self)@.skip_if(a == b),
            final(self).same_devices(old(self)),
    {
        if a == b {
            self.step()
        }
    }

    /// Skips the next instruction when `a != b`.
    pub fn skip_not_equal(&mut self, a: u8, b: u8)
        requires
            a != b ==> old(self).pc + 2 <= u16::MAX,
        ensures
            final(self)@ == old(self)@.skip_if(a != b),
            final(self).same_devices(old(self)),
    {
        if a != b {
            self.pc += 2
        }
    }

    pub fn get_register(&self, x: u8) -> (value: u8)
        requires
            x < 16,
        ensures
            value == self.v@[x as int],
    {
        self.v[usize::from(x)]
    }

    pub fn set_register(&mut self, x: u8, value: u8)
        requires
            x < 16,
        ensures
            final(self)@ == old(self)@.with_reg(x as int, value),
            final(self).same_devices(old(self)),
    {
        self.v[usize::from(x)] = value;
    }

    pub fn set_memory(&mut self, adress: u16, value: u8)
        requires
            adress < MEMORY_SIZE,
        ensures
            final(self)@ == old(self)@.with_mem(adress as int, value),
            final(self).same_devices(old(self)),
    {
        self.memory[usize::from(adress)] = value;
    }

    pub fn get_memory(&self, adress: u16) -> (value: u8)
        requires
            adress < MEMORY_SIZE,
        ensures
            value == self.memory@[adress as int],
    {
        self.memory[usize::from(adress)]
    }

    /// Draws the `n`-row sprite stored at `I` at `(V[x], V[y])`, flipping every pixel under a
    /// set sprite bit; afterwards `VF` holds 1.
    fn display(&mut self, x: u8, y: u8, n: u8)
        requires
            x < 16,
            y < 16,
            n < 16,
            old(self).i + n <= MEMORY_SIZE,
            n > 0 ==> old(self).v@[x as int] + 7 <= u8::MAX,
            n > 0 ==> old(self).v@[y as int] + n - 1 <= u8::MAX,
        ensures
            final(self)@ == old(self)@.with_reg(0xF, 1),
            final(self).keyboard == old(self).keyboard,
            forall|px: int, py: int|
                on_screen(px, py) ==> #[trigger] final(self).screen.pixel(px, py) == (old(self).screen.pixel(
                    px,
                    py,
                ) != sprite_covers(
                    old(self)@.memory,
                    old(self).i as int,
                    n as int,
                    old(self)@.v[x as int] as int,
                    old(self)@.v[y as int] as int,
                    px,
                    py,
                )),
    {
        let start = usize::from(self.i);
        let ghost (xr, yr) = (x as int, y as int);
        let x = self.get_register(x);
        let y = self.get_register(y);
        let ghost mem = self@.memory;
        let ghost addr = start as int;

        self.set_register(0xF, 1);

        let mut sprite_row: u8 = 0;
        while sprite_row < n
            invariant
                sprite_row <= n,
                n < 16,
                start + n <= MEMORY_SIZE,
                addr == start,
                mem == old(self)@.memory,
                x == old(self)@.v[xr],
                y == old(self)@.v[yr],
                n > 0 ==> x + 7 <= u8::MAX,
                n > 0 ==> y + n - 1 <= u8::MAX,
                self@ == old(self)@.with_reg(0xF, 1),
                self.keyboard == old(self).keyboard,
                forall|px: int, py: int|
                    on_screen(px, py) ==> #[trigger] self.screen.pixel(px, py) == (old(self).screen.pixel(
                        px,
                        py,
                    ) != sprite_covers_before(mem, addr, sprite_row as int, 0, x as int, y as int, px, py)),
            decreases n - sprite_row,
        {
            let sprite_byte = self.memory[start + sprite_row as usize];
            let mut bit: u8 = 0;
            while bit < 8
                invariant
                    bit <= 8,
                    sprite_row < n,
                    n < 16,
                    start + n <= MEMORY_SIZE,
                    addr == start,
                    mem == old(self)@.memory,
                    sprite_byte == mem[addr + sprite_row],
                    x + 7 <= u8::MAX,
                    y + sprite_row <= u8::MAX,
                    self@ == old(self)@.with_reg(0xF, 1),
                    self.keyboard == old(self).keyboard,
                    forall|px: int, py: int|
                        on_screen(px, py) ==> #[trigger] self.screen.pixel(px, py) == (old(self).screen.pixel(
                            px,
                            py,
                        ) != sprite_covers_before(
                            mem,
                            addr,
                            sprite_row as int,
                            bit as int,
                            x as int,
                            y as int,
                            px,
                            py,
                        )),
                decreases 8 - bit,
            {
                let (px, py) = ((x + bit) % 64, (y + sprite_row) % 32);
                let sprite_bit = ((sprite_byte >> (7 - bit)) & 1) != 0;
                let ghost before = self.screen;
                proof {
                    lemma_wrap_offset(x as int, bit as int, WIDTH as int);
                    lemma_wrap_offset(y as int, sprite_row as int, HEIGHT as int);
                }
                if sprite_bit {
                    let screen_bit = self.screen.get_pixel((px, py));
                    if screen_bit {
                        self.set_register(0xF, 1);
                    }
                    self.screen.set_pixel((px, py), !screen_bit);
                }
                proof {
                    assert forall|qx: int, qy: int| on_screen(qx, qy) implies #[trigger] self.screen.pixel(qx, qy)
                        == (old(self).screen.pixel(qx, qy) != sprite_covers_before(
                        mem,
                        addr,
                        sprite_row as int,
                        bit + 1,
                        x as int,
                        y as int,
                        qx,
                        qy,
                    )) by {
                        let col = (qx - x) % (WIDTH as int);
                        let row = (qy - y) % (HEIGHT as int);
                        if col == bit && row == sprite_row {
                            lemma_wrap_unique(x as int, bit as int, qx, WIDTH as int);
                            lemma_wrap_unique(y as int, sprite_row as int, qy, HEIGHT as int);
                        }
                    }
                }
                bit += 1;
            }
            sprite_row += 1;
        }
    }

    /// Copies registers `V0` to `Vx` into memory from `I` on (the loop of `Fx55`).
    fn store_registers(&mut self, x: u8)
        requires
            x < 16,
            old(self).i + x < MEMORY_SIZE,
        ensures
            final(self)@ == (Machine {
                memory: Seq::new(
                    old(self)@.memory.len(),
                    |a: int|
                        if old(self).i <= a <= old(self).i + x {
                            old(self)@.v[a - old(self).i]
                        } else {
                            old(self)@.memory[a]
                        },
                ),
                ..old(self)@
            }),
            final(self).same_devices(old(self)),
    {
        let mut i: u8 = 0;
        while i <= x
            invariant
                i <= x + 1,
                x < 16,
                old(self).i + x < MEMORY_SIZE,
                self@ == (Machine {
                    memory: Seq::new(
                        old(self)@.memory.len(),
                        |a: int|
                            if old(self).i <= a < old(self).i + i {
                                old(self)@.v[a - old(self).i]
                            } else {
                                old(self)@.memory[a]
                            },
                    ),
                    ..old(self)@
                }),
                self.same_devices(old(self)),
            decreases x + 1 - i,
        {
            self.set_memory(self.i + i as u16, self.get_register(i));
            i += 1;
        }
    }

    /// Fills registers `V0` to `Vx` from memory at `I` on (the loop of `Fx65`).
    fn load_registers(&mut self, x: u8)
        requires
            x < 16,
            old(self).i + x < MEMORY_SIZE,
        ensures
            final(self)@ == (Machine {
                v: Seq::new(
                    old(self)@.v.len(),
                    |r: int|
                        if r <= x {
                            old(self)@.memory[old(self).i + r]
                        } else {
                            old(self)@.v[r]
                        },
                ),
                ..old(self)@
            }),
            final(self).same_devices(old(self)),
    {
        let mut adress = self.i as u16;
        let mut i: u8 = 0;
        while i <= x
            invariant
                i <= x + 1,
                x < 16,
                old(self).i + x < MEMORY_SIZE,
                adress == old(self).i + i,
                self@ == (Machine {
                    v: Seq::new(
                        old(self)@.v.len(),
                        |r: int|
                            if r < i {
                                old(self)@.memory[old(self).i + r]
                            } else {
                                old(self)@.v[r]
                            },
                    ),
                    ..old(self)@
                }),
                self.same_devices(old(self)),
            decreases x + 1 - i,
        {
            self.set_register(i, self.get_memory(adress));
            adress += 1;
            i += 1;
        }
    }

    /// Executes `opcode`, with `random` as the byte that `Cxkk` draws.
    #[verifier::spinoff_prover]
    #[verifier::rlimit(40)]
    pub fn decode_with_random(&mut self, opcode: u16, random: u8)
        requires
            old(self).can_execute(opcode),
        ensures
            old(self).executes_to(final(self), opcode, random),
    {
        proof {
            lemma_opcode_fields(opcode);
        }
        let instruction = ((opcode & 0xF000) >> 12) as u8;
        let x = ((opcode & 0x0F00) >> 8) as u8;
        let y = ((opcode & 0x00F0) >> 4) as u8;
        let ls = (opcode & 0x000F) as u8;

        let vx = self.get_register(x);
        let vy = self.get_register(y);

        let nnn = opcode & 0x0FFF;
        let kk = (opcode & 0x00FF) as u8;
        proof {
            lemma_byte_ops(vx);
        }

        match (instruction, x, y, ls) {
            (0, 0, 0xE, 0) => {
                self.screen.clear();
                self.step()
            },
            (0, 0, 0xE, 0xE) => {
                self.ret();
                self.step()
            },
            (1, _, _, _) => {
                self.jp(nnn);
            },
            (2, _, _, _) => {
                self.call(nnn);
            },
            (3, _, _, _) => {
                self.skip_equal(vx, kk);
                self.step()
            },
            (4, _, _, _) => {
                self.skip_not_equal(vx, kk);
                self.step()
            },
            (5, _, _, _) => {
                self.skip_equal(self.get_register(x), self.get_register(y));
                self.step()
            },
            (6, _, _, _) => {
                self.set_register(x, kk);
                self.step()
            },
            (7, _, _, _) => {
                self.set_register(x, kk + vx);
                self.step()
            },
            (8, _, _, 0) => {
                self.set_register(x, vy);
                self.step()
            },
            (8, _, _, 1) => {
                self.set_register(x, vx | vy);
                self.step()
            },
            (8, _, _, 2) => {
                self.set_register(x, vx & vy);
                self.step()
            },
            (8, _, _, 3) => {
                self.set_register(x, vx ^ vy);
                self.step()
            },
            (8, _, _, 4) => {
                let carry = (vx as u16) + (vy as u16) > 0xFF;
                let result = vx.wrapping_add(vy);
                self.set_register(x, result);
                self.set_register(0xF, if carry { 1 } else { 0 });
                self.step()
            },
            (8, _, _, 5) => {
                self.set_register(x, vx.wrapping_sub(vy));
                self.set_register(0xF, if vx >= vy { 1 } else { 0 });
                self.step()
            },
            (8, _, _, 6) => {
                self.set_register(0xF, vx & 0x1);
                self.set_register(x, vx >> 1);
                self.step()
            },
            (8, _, _, 7) => {
                self.set_register(x, vy.wrapping_sub(vx));
                self.set_register(0xF, if vy >= vx { 1 } else { 0 });
                self.step()
            },
            (8, _, _, 0xE) => {
                self.set_register(0xF, (vx >> 7) & 1);
                self.set_register(x, vx << 1);
                self.step()
            },
            (9, _, _, 0) => {
                self.skip_not_equal(vx, vy);
                self.step()
            },
            (0xA, _, _, _) => {
                self.i = nnn;
                self.step()
            },
            (0xB, _, _, _) => {
                self.jp(nnn + self.get_register(0) as u16);
            },
            (0xC, x, _, _) => {
                let nb = random;
                self.set_register(x, nb & kk);
                self.step()
            },
            (0xD, x, y, n) => {
                self.display(x, y, n);
                self.step()
            },
            (0xE, _, 0x9, 0x1) => {
                let is_pressed = self.keyboard.is_key_pressed(vx & 0x0F);
                if is_pressed {
                    self.step()
                }
                self.step()
            },
            (0xE, _, 0xA, 1) => {
                let is_pressed = self.keyboard.is_key_pressed(vx & 0x0F);
                if !is_pressed {
                    self.step()
                }
                self.step()
            },
            (0xF, x, 0, 7) => {
                self.set_register(x, self.delay_timer);
                self.step()
            },
            (0xF, x, 0, 0xA) => {
                match self.keyboard.wait_key_press() {
                    Some(key) => {
                        self.set_register(x, key);
                        self.step();
                    },
                    None => (),
                }
            },
            (0xF, _, 1, 5) => {
                self.delay_timer = vx;
                self.step()
            },
            (0xF, _, 1, 8) => {
                self.sound_timer = vx;
                self.step()
            },
            (0xF, _, 1, 0xE) => {
                self.i += vx as u16;
                self.step()
            },
            (0xF, _, 2, 9) => {
                self.i = (vx as u16) * 5 + 0x50;
                self.step()
            },
            (0xF, _, 3, 3) => {
                self.set_memory(self.i, (vx / 100) % 10);
                self.set_memory(self.i + 1, (vx / 10) % 10);
                self.set_memory(self.i + 2, vx % 10);
                self.step()
            },
            (0xF, _, 5, 5) => {
                self.store_registers(x);
                self.step()
            },
            (0xF, _, 6, 5) => {
                self.load_registers(x);
                self.step()
            },
            _ => self.step(),
        }
    }

    fn load_fonts(&mut self)
        ensures
            final(self)@ == (Machine { memory: with_font(old(self)@.memory), ..old(self)@ }),
            final(self).same_devices(old(self)),
    {
        let fonts: [u8; 80] = [
            0xF0, 0x90, 0x90, 0x90, 0xF0,
            0x20, 0x60, 0x20, 0x20, 0x70,
            0xF0, 0x10, 0xF0, 0x80, 0xF0,
            0xF0, 0x10, 0xF0, 0x10, 0xF0,
            0x90, 0x90, 0xF0, 0x10, 0x10,
            0xF0, 0x80, 0xF0, 0x10, 0xF0,
            0xF0, 0x80, 0xF0, 0x90, 0xF0,
            0xF0, 0x10, 0x20, 0x40, 0x40,
            0xF0, 0x90, 0xF0, 0x90, 0xF0,
            0xF0, 0x90, 0xF0, 0x10, 0xF0,
            0xF0, 0x90, 0xF0, 0x90, 0x90,
            0xE0, 0x90, 0xE0, 0x90, 0xE0,
            0xF0, 0x90, 0xF0, 0x90, 0x90,
            0xE0, 0x90, 0x90, 0x90, 0xE0,
            0xF0, 0x80, 0xF0, 0x80, 0xF0,
            0xF0, 0x80, 0xF0, 0x80, 0x80,
        ];
        assert(fonts@ =~= font_sprites());
        let mut k: usize = 0;
        while k < fonts.len()
            invariant
                k <= 80,
                fonts@ == font_sprites(),
                self@ == (Machine {
                    memory: Seq::new(
                        old(self)@.memory.len(),
                        |a: int|
                            if FONT_START <= a < FONT_START + k {
                                font_sprites()[a - FONT_START]
                            } else {
                                old(self)@.memory[a]
                            },
                    ),
                    ..old(self)@
                }),
                self.same_devices(old(self)),
            decreases 80 - k,
        {
            self.memory[0x50 + k] = fonts[k];
            k += 1;
        }
    }

    /// Loads the font and then `program` at `PROGRAM_START`.
    pub fn load_program(&mut self, program: &[u8])
        requires
            PROGRAM_START + program@.len() <= MEMORY_SIZE,
        ensures
            final(self)@ == (Machine {
                memory: with_program(with_font(old(self)@.memory), program@),
                ..old(self)@
            }),
            final(self).same_devices(old(self)),
    {
        let mut address: usize = 0x0200;
        self.load_fonts();
        let ghost fonted = self@.memory;
        let mut idx: usize = 0;
        while idx < program.len()
            invariant
                idx <= program@.len(),
                PROGRAM_START + program@.len() <= MEMORY_SIZE,
                address == PROGRAM_START + idx,
                fonted == with_font(old(self)@.memory),
                self@ == (Machine {
                    memory: with_program(fonted, program@.take(idx as int)),
                    ..old(self)@
                }),
                self.same_devices(old(self)),
            decreases program@.len() - idx,
        {
            let byte: u8 = program[idx];
            self.memory[address] = byte;
            address += 1;
            idx += 1;
        }
        assert(program@.take(idx as int) =~= program@);
    }

    /// One tick of the delay timer: it counts down to zero and stays there.
    pub fn tick_delay_timer(&mut self)
        ensures
            final(self)@ == (Machine {
                delay_timer: if old(self).delay_timer > 0 {
                    (old(self).delay_timer - 1) as u8
                } else {
                    0
                },
                ..old(self)@
            }),
            final(self).same_devices(old(self)),
    {
        if self.delay_timer > 0 {
            self.delay_timer -= 1;
        }
    }

    /// One tick of the sound timer: it counts down to zero and stays there.
    pub fn tick_sound_timer(&mut self)
        ensures
            final(self)@ == (Machine {
                sound_timer: if old(self).sound_timer > 0 {
                    (old(self).sound_timer - 1) as u8
                } else {
                    0
                },
                ..old(self)@
            }),
            final(self).same_devices(old(self)),
    {
        if self.sound_timer > 0 {
            self.sound_timer -= 1;
        }
    }

    /// Executes `opcode`; `Cxkk` draws its byte at random.
    pub fn decode(&mut self, opcode: u16)
        requires
            old(self).can_execute(opcode),
        ensures
            exists|random: u8| #[trigger] old(self).executes_to(final(self), opcode, random),
            kind_of(opcode) != 0xC ==> old(self).executes_to(final(self), opcode, 0),
    {
        proof {
            lemma_opcode_fields(opcode);
        }
        let random = if (opcode & 0xF000) >> 12 == 0xC {
            random_range_inclusive(0, 255)
        } else {
            0
        };
        self.decode_with_random(opcode, random);
        assert(old(self).executes_to(self, opcode, random));
    }

    /// Whether `opcode` can be executed from this state: exactly when `can_execute` holds.
    pub fn can_decode(&self, opcode: u16) -> (ok: bool)
        ensures
            ok == self.can_execute(opcode),
    {
        proof {
            lemma_opcode_fields(opcode);
        }
        let instruction = ((opcode & 0xF000) >> 12) as u8;
        let x = ((opcode & 0x0F00) >> 8) as u8;
        let y = ((opcode & 0x00F0) >> 4) as u8;
        let ls = (opcode & 0x000F) as u8;
        let kk = (opcode & 0x00FF) as u8;
        let vx = self.v[x as usize] as u32;
        let vy = self.v[y as usize] as u32;
        let kk32 = kk as u32;
        let n = ls as u32;
        let pc = self.pc as u32;
        let i = self.i as u32;
        let max: u32 = 0xFFFF;
        proof {
            lemma_byte_ops(self.v@[x as int]);
        }
        match (instruction, x, y, ls) {
            (0, 0, 0xE, 0) => pc + 2 <= max,
            (0, 0, 0xE, 0xE) => 1 <= self.sp && self.sp < 16 && (self.stack[self.sp as usize] as u32)
                + 2 <= max,
            (1, _, _, _) => true,
            (2, _, _, _) => self.sp < 15,
            (3, _, _, _) => pc + (if vx == kk32 { 4 } else { 2 }) <= max,
            (4, _, _, _) => pc + (if vx != kk32 { 4 } else { 2 }) <= max,
            (5, _, _, _) => pc + (if vx == vy { 4 } else { 2 }) <= max,
            (7, _, _, _) => kk32 + vx <= 0xFF && pc + 2 <= max,
            (9, _, _, 0) => pc + (if vx != vy { 4 } else { 2 }) <= max,
            (0xB, _, _, _) => true,
            (0xD, _, _, _) => i + n <= 4096 && (n == 0 || (vx + 7 <= 0xFF && vy + n - 1 <= 0xFF))
                && pc + 2 <= max,
            (0xE, _, 9, 1) => {
                let held = self.keyboard.is_key_pressed(self.v[x as usize] & 0x0F);
                pc + (if held { 4 } else { 2 }) <= max
            },
            (0xE, _, 0xA, 1) => {
                let held = self.keyboard.is_key_pressed(self.v[x as usize] & 0x0F);
                pc + (if !held { 4 } else { 2 }) <= max
            },
            (0xF, _, 0, 0xA) => match self.keyboard.wait_key_press() {
                Some(_) => pc + 2 <= max,
                None => true,
            },
            (0xF, _, 1, 0xE) => i + vx <= max && pc + 2 <= max,
            (0xF, _, 3, 3) => i + 2 < 4096 && pc + 2 <= max,
            (0xF, _, 5, 5) => i + (x as u32) < 4096 && pc + 2 <= max,
            (0xF, _, 6, 5) => i + (x as u32) < 4096 && pc + 2 <= max,
            _ => pc + 2 <= max,
        }
    }

    pub fn set_i(&mut self, value: u16)
        ensures
            final(self)@ == (Machine { i: value, ..old(self)@ }),
            final(self).same_devices(old(self)),
    {
        self.i = value;
    }
}

} // verus!
