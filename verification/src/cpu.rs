use vstd::prelude::*;
use crate::emulator::cpu::{Machine, MEMORY_SIZE, PROGRAM_START, sprite_bit, with_program, lemma_wrap_offset, lemma_wrap_unique, lemma_byte_ops};
use crate::opcode::{kind_of, x_of, y_of, n_of, nnn_of, kk_of, lemma_opcode_fields};
use crate::random::random_range_inclusive;
use crate::screen::{in_bounds, Screen};

verus! {

/// Whether a sprite of `n` rows read from `mem` at `addr` and drawn at column `vx` of the first
/// rows covers pixel `(px, py)` with a set bit; columns wrap around after 32.
pub open spec fn sprite_covers(mem: Seq<u8>, addr: int, n: int, vx: int, px: int, py: int) -> bool {
    sprite_covers_before(mem, addr, n, 0, vx, px, py)
}

/// As `sprite_covers`, counting only rows before `rows` and, in row `rows`, bits before `bits`.
pub open spec fn sprite_covers_before(
    mem: Seq<u8>,
    addr: int,
    rows: int,
    bits: int,
    vx: int,
    px: int,
    py: int,
) -> bool {
    let col = (px - vx) % 32;
    &&& col < 8
    &&& (py < rows || (py == rows && col < bits))
    &&& sprite_bit(mem[addr + py], col)
}

/// A CHIP-8 interpreter with a built-in 32 x 64 display and no keypad, where each instruction
/// sets the program counter itself.
pub struct CPU {
    pub memory: [u8; 4096],
    pub v: [u8; 16],
    pub i: u16,
    pub sp: u8,
    pub pc: u16,
    pub screen: Screen,
    pub stack: [u16; 16],
    pub delay_timer: u8,
    pub sound_timer: u8,
}

impl View for CPU {
    type V = Machine;

    open spec fn view(&self) -> Machine {
        Machine {
            memory: self.memory@,
            v: self.v@,
            i: self.i,
            sp: self.sp,
            pc: self.pc,
            stack: self.stack@,
            delay_timer: self.delay_timer,
            sound_timer: self.sound_timer,
        }
    }
}

impl CPU {
    /// Whether executing `op` from this state stays clear of every arithmetic overflow and
    /// out-of-range index in the interpreter, which would otherwise panic.
    pub open spec fn can_execute(&self, op: u16) -> bool {
        let m = self@;
        let n = n_of(op) as int;
        let vx = m.v[x_of(op) as int];
        let vy = m.v[y_of(op) as int];
        let kk = kk_of(op);
        let fits = m.pc + 2 <= u16::MAX;
        match (kind_of(op), x_of(op), y_of(op), n_of(op)) {
            (0, 0, 0xE, 0xE) => 1 <= m.sp < 16,
            (2, _, _, _) => m.sp < 15,
            (3, _, _, _) => vx == kk ==> fits,
            (4, _, _, _) => vx != kk ==> fits,
            (5, _, _, _) => vx == vy ==> fits,
            (8, _, _, 4) => vx + vy <= u8::MAX,
            (9, _, _, 0) => vx != vy ==> fits,
            (0xD, _, _, _) => m.i + n <= MEMORY_SIZE && (n > 0 ==> vy == 0 && vx + 7 <= u8::MAX),
            _ => true,
        }
    }

    /// The machine state after executing `op`, where `random` is the byte that `Cxkk` draws.
    pub open spec fn next_state(&self, op: u16, random: u8) -> Machine {
        let m = self@;
        let x = x_of(op) as int;
        let vx = m.v[x];
        let vy = m.v[y_of(op) as int];
        let nnn = nnn_of(op);
        let kk = kk_of(op);
        match (kind_of(op), x_of(op), y_of(op), n_of(op)) {
            (0, 0, 0xE, 0xE) => Machine { pc: m.stack[m.sp as int], sp: (m.sp - 1) as u8, ..m },
            (1, _, _, _) => Machine { pc: nnn, ..m },
            (2, _, _, _) => Machine {
                sp: (m.sp + 1) as u8,
                stack: m.stack.update(m.sp + 1, m.pc),
                pc: nnn,
                ..m
            },
            (3, _, _, _) => m.skip_if(vx == kk),
            (4, _, _, _) => m.skip_if(vx != kk),
            (5, _, _, _) => m.skip_if(vx == vy),
            (6, _, _, _) => m.with_reg(x, kk),
            (7, _, _, _) => m.with_reg(x, ((kk + vx) % 256) as u8),
            (8, _, _, 0) => m.with_reg(x, vy),
            (8, _, _, 1) => m.with_reg(x, vx | vy),
            (8, _, _, 2) => m.with_reg(x, vx & vy),
            (8, _, _, 3) => m.with_reg(x, vx ^ vy),
            (8, _, _, 4) => m.with_reg(x, (vx + vy) as u8),
            (8, _, _, 5) => m.with_reg(x, ((vx - vy) % 256) as u8).with_reg(
                0xF,
                if vx >= vy { 1 } else { 0 },
            ),
            (8, _, _, 6) => m.with_reg(0xF, vx % 2).with_reg(x, vx / 2),
            (8, _, _, 7) => m.with_reg(x, ((vy - vx) % 256) as u8).with_reg(
                0xF,
                if vy >= vx { 1 } else { 0 },
            ),
            (8, _, _, 0xE) => m.with_reg(0xF, vx % 2).with_reg(x, ((vx * 2) % 256) as u8),
            (9, _, _, 0) => m.skip_if(vx != vy),
            (0xA, _, _, _) => Machine { i: nnn, ..m },
            (0xB, _, _, _) => Machine { pc: (nnn + m.v[0]) as u16, ..m },
            (0xC, _, _, _) => m.with_reg(x, x_of(op) & random),
            _ => m,
        }
    }

    /// Whether pixel `(px, py)` is lit after executing `op`.
    pub open spec fn next_pixel(&self, op: u16, px: int, py: int) -> bool {
        let m = self@;
        if kind_of(op) == 0 && x_of(op) == 0 && y_of(op) == 0xE && n_of(op) == 0 {
            false
        } else if kind_of(op) == 0xD {
            self.screen.pixel(px, py) != sprite_covers(
                m.memory,
                m.i as int,
                n_of(op) as int,
                m.v[x_of(op) as int] as int,
                px,
                py,
            )
        } else {
            self.screen.pixel(px, py)
        }
    }

    /// `after` is what executing `op` makes of `self`, where `Cxkk` draws `random`.
    pub open spec fn executes_to(&self, after: &Self, op: u16, random: u8) -> bool {
        &&& after@ == self.next_state(op, random)
        &&& forall|px: int, py: int|
            in_bounds(px, py) ==> #[trigger] after.screen.pixel(px, py) == self.next_pixel(op, px, py)
    }

    /// Writes `program` into memory from `PROGRAM_START` on.
    pub fn load_program(&mut self, program: &[u8])
        requires
            PROGRAM_START + program@.len() <= MEMORY_SIZE,
        ensures
            final(self)@ == (Machine { memory: with_program(old(self)@.memory, program@), ..old(self)@ }),
            final(self).screen == old(self).screen,
    {
        let mut address: usize = 0x200;
        let mut idx: usize = 0;
        while idx < program.len()
            invariant
                idx <= program@.len(),
                PROGRAM_START + program@.len() <= MEMORY_SIZE,
                address == PROGRAM_START + idx,
                self@ == (Machine {
                    memory: with_program(old(self)@.memory, program@.take(idx as int)),
                    ..old(self)@
                }),
                self.screen == old(self).screen,
            decreases program@.len() - idx,
        {
            let byte: u8 = program[idx];
            self.memory[address] = byte;
            address += 1;
            idx += 1;
        }
        assert(program@.take(idx as int) =~= program@);
    }

    pub fn new() -> (cpu: Self)
        ensures
            cpu@ == (Machine {
                memory: Seq::new(4096, |a: int| 0u8),
                v: Seq::new(16, |r: int| 0u8),
                i: 0,
                sp: 0,
                pc: 0,
                stack: Seq::new(16, |s: int| 0u16),
                delay_timer: 0,
                sound_timer: 0,
            }),
            forall|x: int, y: int| in_bounds(x, y) ==> !#[trigger] cpu.screen.pixel(x, y),
    {
        let cpu = Self {
            memory: [0; 4096],
            v: [0; 16],
            i: 0,
            sp: 0,
            stack: [0; 16],
            pc: 0,
            screen: Screen::new(),
            delay_timer: 0,
            sound_timer: 0,
        };
        assert(cpu.memory@ =~= Seq::new(4096, |a: int| 0u8));
        assert(cpu.v@ =~= Seq::new(16, |r: int| 0u8));
        assert(cpu.stack@ =~= Seq::new(16, |s: int| 0u16));
        cpu
    }

    pub fn get_stack_addr(&self, addr: u8) -> (entry: u16)
        requires
            addr < 16,
        ensures
            entry == self.stack@[addr as int],
    {
        self.stack[usize::from(addr)]
    }

    pub fn get_stack_top(&self) -> (entry: u16)
        requires
            self.sp < 16,
        ensures
            entry == self.stack@[self.sp as int],
    {
        self.get_stack_addr(self.sp)
    }

    /// Executes `opcode`, with `random` as the byte that `Cxkk` draws.
    #[verifier::spinoff_prover]
    #[verifier::rlimit(80)]
    pub fn decode_with_random(&mut self, opcode: u16, random: u8)
        requires
            old(self).can_execute(opcode),
        ensures
            old(self).executes_to(final(self), opcode, random),
    {
        proof {
            lemma_opcode_fields(opcode);
        }
        let instruction = (opcode & 0xF000) >> 12;
        let x = ((opcode & 0x0F00) >> 8) as u8;
        let y = ((opcode & 0x00F0) >> 4) as u8;
        let ls = (opcode & 0x000F) as u8;

        let vx = self.get_register(x);
        let vy = self.get_register(y);

        let nnn = opcode & 0x0FFF;
        let kk = opcode & 0x00FF;
        proof {
            lemma_byte_ops(vx);
        }

        match (instruction, x, y, ls) {
            (0, 0, 0xE, 0) => {
                self.screen.clear();
            },
            (0, 0, 0xE, 0xE) => {
                self.ret();
            },
            (1, _, _, _) => {
                self.jp(nnn);
            },
            (2, _, _, _) => {
                self.call(nnn);
            },
            (3, _, _, _) => {
                self.skip_equal(vx as u16, kk);
            },
            (4, _, _, _) => {
                self.skip_not_equal(vx as u16, kk);
            },
            (5, _, _, _) => {
                self.skip_equal(self.get_register(x) as u16, self.get_register(y) as u16);
            },
            (6, _, _, _) => {
                self.set_register(x, kk as u8);
            },
            (7, _, _, _) => {
                proof {
                    let sum: u16 = (kk + vx as u16) as u16;
                    assert(sum < 512 ==> sum as u8 == (sum % 256) as u8) by (bit_vector);
                }
                self.set_register(x, (kk + vx as u16) as u8);
            },
            (8, _, _, 0) => {
                self.set_register(x, vy);
            },
            (8, _, _, 1) => {
                self.set_register(x, vx | vy);
            },
            (8, _, _, 2) => {
                self.set_register(x, vx & vy);
            },
            (8, _, _, 3) => {
                self.set_register(x, vx ^ vy);
            },
            (8, _, _, 4) => {
                self.set_register(x, vx + vy);
            },
            (8, _, _, 5) => {
                self.set_register(x, vx.wrapping_sub(vy));
                self.set_register(0xF, if vx >= vy { 1 } else { 0 });
            },
            (8, _, _, 6) => {
                self.set_register(0xF, vx & 0x1);
                self.set_register(x, vx >> 1);
            },
            (8, _, _, 7) => {
                self.set_register(x, vy.wrapping_sub(vx));
                self.set_register(0xF, if vy >= vx { 1 } else { 0 });
            },
            (8, _, _, 0xE) => {
                self.set_register(0xF, vx & 0x1);
                self.set_register(x, vx << 1);
            },
            (9, _, _, 0) => {
                self.skip_not_equal(vx as u16, vy as u16);
            },
            (0xA, _, _, _) => {
                self.i = nnn;
            },
            (0xB, _, _, _) => {
                self.jp(nnn + self.get_register(0) as u16);
            },
            (0xC, x, _, _) => {
                let nb = random;
                self.set_register(x, x & nb);
            },
            (0xD, x, y, n) => {
                self.display(x, y, n);
            },
            _ => (),
        }
    }

    /// Executes `opcode`; `Cxkk` draws its byte at random.
    pub fn decode(&mut self, opcode: u16)
        requires
            old(self).can_execute(opcode),
        ensures
            exists|random: u8| #[trigger] old(self).executes_to(final(self), opcode, random),
            kind_of(opcode) != 0xC ==> old(self).executes_to(final(self), opcode, 0),
    {
        proof {
            lemma_opcode_fields(opcode);
        }
        let random = if (opcode & 0xF000) >> 12 == 0xC {
            random_range_inclusive(0, 255)
        } else {
            0
        };
        self.decode_with_random(opcode, random);
        assert(old(self).executes_to(self, opcode, random));
    }

    fn cls() {
    }

    /// Returns from a subroutine: jumps to the address on top of the stack and pops it.
    pub fn ret(&mut self)
        requires
            1 <= old(self).sp < 16,
        ensures
            final(self)@ == (Machine {
                pc: old(self)@.stack[old(self).sp as int],
                sp: (old(self).sp - 1) as u8,
                ..old(self)@
            }),
            final(self).screen == old(self).screen,
    {
        self.pc = self.stack[self.sp as usize];
        self.sp -= 1;
    }

    pub fn jp(&mut self, target: u16)
        ensures
            final(self)@ == (Machine { pc: target, ..old(self)@ }),
            final(self).screen == old(self).screen,
    {
        self.pc = target;
    }

    /// Calls the subroutine at `nnn`: pushes the current address and jumps.
    pub fn call(&mut self, nnn: u16)
        requires
            old(self).sp < 15,
        ensures
            final(self)@ == (Machine {
                sp: (old(self).sp + 1) as u8,
                stack: old(self)@.stack.update(old(self).sp + 1, old(self).pc),
                pc: nnn,
                ..old(self)@
            }),
            final(self).screen == old(self).screen,
    {
        self.sp += 1;
        self.stack[self.sp as usize] = self.pc;
        self.pc = nnn;
    }

    /// Skips the next instruction when `a == b`.
    fn skip_equal(&mut self, a: u16, b: u16)
        requires
            a == b ==> old(self).pc + 2 <= u16::MAX,
        ensures
            final(self)@ == old(self)@.skip_if(a == b),
            final(self).screen == old(self).screen,
    {
        if a == b {
            self.pc += 2
        }
    }

    /// Skips the next instruction when `a != b`.
    fn skip_not_equal(&mut self, a: u16, b: u16)
        requires
            a != b ==> old(self).pc + 2 <= u16::MAX,
        ensures
            final(self)@ == old(self)@.skip_if(a != b),
            final(self).screen == old(self).screen,
    {
        if a != b {
            self.pc += 2
        }
    }

    pub fn get_register(&self, x: u8) -> (value: u8)
        requires
            x < 16,
        ensures
            value == self.v@[x as int],
    {
        self.v[usize::from(x)]
    }

    pub fn set_register(&mut self, x: u8, value: u8)
        requires
            x < 16,
        ensures
            final(self)@ == old(self)@.with_reg(x as int, value),
            final(self).screen == old(self).screen,
    {
        self.v[usize::from(x)] = value;
    }

    fn set_i(&mut self, value: u16)
        ensures
            final(self)@ == (Machine { i: value, ..old(self)@ }),
            final(self).screen == old(self).screen,
    {
        self.i = value;
    }

    /// Draws the `n`-row sprite stored at `I` with its rows on `0..n` and its columns from
    /// `V[x]` on, XOR-ing every pixel with the sprite bit over it. Row `i` of the sprite is read
    /// at offset `i` from the register value `V[y]`, so only `V[y] == 0` keeps that read inside the
    /// sprite, and the precondition admits no other value when `n > 0`.
    fn display(&mut self, x: u8, y: u8, n: u8)
        requires
            x < 16,
            y < 16,
            n < 16,
            old(self).i + n <= MEMORY_SIZE,
            n > 0 ==> old(self).v@[y as int] == 0 && old(self).v@[x as int] + 7 <= u8::MAX,
        ensures
            final(self)@ == old(self)@,
            forall|px: int, py: int|
                in_bounds(px, py) ==> #[trigger] final(self).screen.pixel(px, py) == (old(self).screen.pixel(
                    px,
                    py,
                ) != sprite_covers(
                    old(self)@.memory,
                    old(self).i as int,
                    n as int,
                    old(self)@.v[x as int] as int,
                    px,
                    py,
                )),
    {
        let start = usize::from(self.i);
        let end = start + usize::from(n);
        let ghost xr = x as int;
        let ghost mem = self@.memory;
        let ghost addr = start as int;

        let x = self.v[x as usize];
        let y = self.v[y as usize];

        let mut i: u8 = y;
        while i < y + n
            invariant
                y == 0 || n == 0,
                y <= i <= y + n,
                n < 16,
                end == start + n,
                end <= MEMORY_SIZE,
                addr == start,
                mem == old(self)@.memory,
                x == old(self)@.v[xr],
                n > 0 ==> x + 7 <= u8::MAX,
                self@ == old(self)@,
                forall|px: int, py: int|
                    in_bounds(px, py) ==> #[trigger] self.screen.pixel(px, py) == (old(self).screen.pixel(px, py)
                        != sprite_covers_before(mem, addr, i - y, 0, x as int, px, py)),
            decreases y + n - i,
        {
            let sprite_byte = self.memory[start + i as usize];
            let mut bit: u8 = 0;
            while bit < 8
                invariant
                    bit <= 8,
                    i < n,
                    y == 0,
                    n < 16,
                    end == start + n,
                    end <= MEMORY_SIZE,
                    addr == start,
                    mem == old(self)@.memory,
                    sprite_byte == mem[addr + i],
                    x + 7 <= u8::MAX,
                    self@ == old(self)@,
                    forall|px: int, py: int|
                        in_bounds(px, py) ==> #[trigger] self.screen.pixel(px, py) == (old(self).screen.pixel(
                            px,
                            py,
                        ) != sprite_covers_before(mem, addr, i as int, bit as int, x as int, px, py)),
                decreases 8 - bit,
            {
                let (px, py) = ((x + bit) % 32, i % 64);
                let sprite_bit = ((sprite_byte >> (7 - bit)) & 1) != 0;
                proof {
                    lemma_wrap_offset(x as int, bit as int, 32);
                }
                let screen_bit = self.screen.get_pixel((px, py));
                self.screen.set_pixel((px, py), screen_bit ^ sprite_bit);
                proof {
                    assert forall|qx: int, qy: int| in_bounds(qx, qy) implies #[trigger] self.screen.pixel(qx, qy)
                        == (old(self).screen.pixel(qx, qy) != sprite_covers_before(
                        mem,
                        addr,
                        i as int,
                        bit + 1,
                        x as int,
                        qx,
                        qy,
                    )) by {
                        let col = (qx - x) % 32;
                        if col == bit && qy == i {
                            lemma_wrap_unique(x as int, bit as int, qx, 32);
                        }
                    }
                }
                bit += 1;
            }
            i += 1;
        }
    }
}

/// A call `2nnn` followed by a return `00EE` comes back to the call instruction itself, with the
/// stack pointer where it was; only the stack slot that the call wrote has changed.
pub proof fn law_call_then_return(a: CPU, b: CPU, c: CPU, call: u16, r1: u8, r2: u8)
    requires
        kind_of(call) == 2,
        a.can_execute(call),
        a.executes_to(&b, call, r1),
        b.executes_to(&c, 0x00EE, r2),
    ensures
        c@ == (Machine { stack: a@.stack.update(a.sp + 1, a.pc), ..a@ }),
        b.pc == nnn_of(call),
{
    lemma_opcode_fields(call);
    lemma_opcode_fields(0x00EE);
    assert(c@ =~= (Machine { stack: a@.stack.update(a.sp + 1, a.pc), ..a@ }));
}

/// Drawing the same sprite twice in a row leaves the display as it was.
pub proof fn law_draw_twice_restores(a: CPU, b: CPU, c: CPU, draw: u16, r1: u8, r2: u8)
    requires
        kind_of(draw) == 0xD,
        a.executes_to(&b, draw, r1),
        b.executes_to(&c, draw, r2),
    ensures
        forall|px: int, py: int| in_bounds(px, py) ==> #[trigger] c.screen.pixel(px, py) == a.screen.pixel(px, py),
        c@ == a@,
{
    lemma_opcode_fields(draw);
}

} // verus!
