use vstd::prelude::*;
use crate::cpu::CPU;
use crate::emulator::cpu::{Machine, lemma_wrap_offset, lemma_wrap_unique};
use crate::opcode::{x_of, y_of, n_of, lemma_opcode_fields};
use crate::screen::in_bounds;

verus! {

// What each instruction of the first design does, stated over the states before (`a`) and
// after (`b`) executing `op` and over the opcode's bits. In this design no instruction moves on
// to the next one by itself: only the skips, jumps, calls and returns change `pc`.

/// `b` shows the same pixels as `a`.
pub open spec fn same_pixels(a: CPU, b: CPU) -> bool {
    forall|px: int, py: int| in_bounds(px, py) ==> #[trigger] b.screen.pixel(px, py) == a.screen.pixel(px, py)
}

/// `1nnn` jumps to `nnn`, `Bnnn` to `nnn + V0`, and `2nnn` pushes `pc` and jumps to `nnn`;
/// `00EE` pops the stack into `pc` without moving on.
pub proof fn law_first_design_control_flow(a: CPU, b: CPU, op: u16, random: u8)
    requires
        op & 0xF000 == 0x1000 || op & 0xF000 == 0xB000 || op & 0xF000 == 0x2000 || op == 0x00EE,
        a.can_execute(op),
        a.executes_to(&b, op, random),
    ensures
        same_pixels(a, b),
        op & 0xF000 == 0x1000 ==> b@ == (Machine { pc: op & 0x0FFF, ..a@ }),
        op & 0xF000 == 0xB000 ==> b.pc == (op & 0x0FFF) + a@.v[0] && b@ == (Machine { pc: b.pc, ..a@ }),
        op & 0xF000 == 0x2000 ==> b.sp == a.sp + 1 && b@ == (Machine {
            pc: op & 0x0FFF,
            sp: b.sp,
            stack: a@.stack.update(a.sp + 1, a.pc),
            ..a@
        }),
        op == 0x00EE ==> b.sp == a.sp - 1 && b@ == (Machine { pc: a@.stack[a.sp as int], sp: b.sp, ..a@ }),
{
    lemma_opcode_fields(op);
}

/// The skips `3xkk` (`Vx == kk`), `4xkk` (`Vx != kk`), `5xy?` (`Vx == Vy`) and `9xy0`
/// (`Vx != Vy`) add 2 to `pc` when their condition holds and leave it alone otherwise.
pub proof fn law_first_design_skips(a: CPU, b: CPU, op: u16, random: u8)
    requires
        a.can_execute(op),
        a.executes_to(&b, op, random),
    ensures
        ({
            let vx = a@.v[((op & 0x0F00) >> 8) as int];
            let vy = a@.v[((op & 0x00F0) >> 4) as int];
            let kk = op & 0x00FF;
            let skip_when = |cond: bool|
                b.pc == a.pc + (if cond { 2int } else { 0int }) && b@ == (Machine { pc: b.pc, ..a@ })
                    && same_pixels(a, b);
            &&& op & 0xF000 == 0x3000 ==> skip_when(vx == kk)
            &&& op & 0xF000 == 0x4000 ==> skip_when(vx != kk)
            &&& op & 0xF000 == 0x5000 ==> skip_when(vx == vy)
            &&& op & 0xF00F == 0x9000 ==> skip_when(vx != vy)
        }),
{
    lemma_opcode_fields(op);
}

/// `6xkk` loads `kk`, `7xkk` adds `kk` modulo 256, `Annn` sets `I` to `nnn`, and `Cxkk` puts into
/// `Vx` the number `x` itself masked by the drawn byte.
pub proof fn law_first_design_immediates(a: CPU, b: CPU, op: u16, random: u8)
    requires
        op & 0xF000 == 0x6000 || op & 0xF000 == 0x7000 || op & 0xF000 == 0xA000 || op & 0xF000
            == 0xC000,
        a.can_execute(op),
        a.executes_to(&b, op, random),
    ensures
        same_pixels(a, b),
        ({
            let x = ((op & 0x0F00) >> 8) as int;
            let kk = (op & 0x00FF) as int;
            &&& op & 0xF000 == 0x6000 ==> b@ == (Machine { v: a@.v.update(x, kk as u8), ..a@ })
            &&& op & 0xF000 == 0x7000 ==> b@ == (Machine {
                v: a@.v.update(x, ((a@.v[x] + kk) % 256) as u8),
                ..a@
            })
            &&& op & 0xF000 == 0xA000 ==> b@ == (Machine { i: op & 0x0FFF, ..a@ })
            &&& op & 0xF000 == 0xC000 ==> b@ == (Machine { v: a@.v.update(x, (x as u8) & random), ..a@ })
        }),
{
    lemma_opcode_fields(op);
}

/// `8xy0` to `8xy3` copy, OR, AND and XOR `Vy` into `Vx`; `8xy4` adds (the precondition rules
/// out a sum above 255).
pub proof fn law_first_design_logic(a: CPU, b: CPU, op: u16, random: u8)
    requires
        op & 0xF000 == 0x8000,
        op & 0x000F <= 4,
        a.can_execute(op),
        a.executes_to(&b, op, random),
    ensures
        same_pixels(a, b),
        ({
            let x = ((op & 0x0F00) >> 8) as int;
            let vx = a@.v[x];
            let vy = a@.v[((op & 0x00F0) >> 4) as int];
            let sets = |value: u8| b@ == (Machine { v: a@.v.update(x, value), ..a@ });
            &&& op & 0x000F == 0 ==> sets(vy)
            &&& op & 0x000F == 1 ==> sets(vx | vy)
            &&& op & 0x000F == 2 ==> sets(vx & vy)
            &&& op & 0x000F == 3 ==> sets(vx ^ vy)
            &&& op & 0x000F == 4 ==> vx + vy < 256 && sets((vx + vy) as u8)
        }),
{
    lemma_opcode_fields(op);
}

/// `8xy5` and `8xy7` subtract modulo 256 with `VF` 1 exactly when no borrow was needed; `8xy6`
/// halves `Vx` and `8xyE` doubles it modulo 256, both putting the low bit of the old `Vx` into
/// `VF` first.
pub proof fn law_first_design_arithmetic(a: CPU, b: CPU, op: u16, random: u8)
    requires
        op & 0xF000 == 0x8000,
        op & 0x000F == 5 || op & 0x000F == 6 || op & 0x000F == 7 || op & 0x000F == 0xE,
        a.can_execute(op),
        a.executes_to(&b, op, random),
    ensures
        same_pixels(a, b),
        ({
            let x = ((op & 0x0F00) >> 8) as int;
            let vx = a@.v[x];
            let vy = a@.v[((op & 0x00F0) >> 4) as int];
            let sets = |v: Seq<u8>| b@ == (Machine { v: v, ..a@ });
            &&& op & 0x000F == 5 ==> sets(
                a@.v.update(x, ((vx - vy + 256) % 256) as u8).update(0xF, if vx >= vy { 1u8 } else { 0u8 }),
            )
            &&& op & 0x000F == 7 ==> sets(
                a@.v.update(x, ((vy - vx + 256) % 256) as u8).update(0xF, if vy >= vx { 1u8 } else { 0u8 }),
            )
            &&& op & 0x000F == 6 ==> sets(a@.v.update(0xF, vx % 2).update(x, vx / 2))
            &&& op & 0x000F == 0xE ==> sets(a@.v.update(0xF, vx % 2).update(x, ((2 * vx) % 256) as u8))
        }),
{
    lemma_opcode_fields(op);
    let vx = a@.v[x_of(op) as int];
    let vy = a@.v[y_of(op) as int];
    assert(((vx - vy + 256) % 256) == (vx - vy) % 256);
    assert(((vy - vx + 256) % 256) == (vy - vx) % 256);
}

/// `00E0` darkens every pixel; `Dxyn` flips pixel `((Vx + c) mod 32, r)` exactly when bit `c`,
/// counted from the most significant end, of sprite byte `r` at `I + r` is set, and leaves the
/// other pixels alone. Neither changes any register or memory.
pub proof fn law_first_design_display(a: CPU, b: CPU, op: u16, random: u8)
    requires
        a.can_execute(op),
        a.executes_to(&b, op, random),
    ensures
        op == 0x00E0 ==> b@ == a@ && forall|px: int, py: int|
            in_bounds(px, py) ==> !#[trigger] b.screen.pixel(px, py),
        op & 0xF000 == 0xD000 ==> ({
            let vx = a@.v[((op & 0x0F00) >> 8) as int] as int;
            let n = (op & 0x000F) as int;
            &&& b@ == a@
            &&& forall|r: int, c: int|
                0 <= r < n && 0 <= c < 8 ==> #[trigger] b.screen.pixel((vx + c) % 32, r)
                    == (a.screen.pixel((vx + c) % 32, r) != (a@.memory[a.i + r] & (0x80u8 >> (
                    c as u8)) != 0))
            &&& forall|px: int, py: int|
                in_bounds(px, py) && !((px - vx) % 32 < 8 && py < n) ==> #[trigger] b.screen.pixel(
                    px,
                    py,
                ) == a.screen.pixel(px, py)
        }),
{
    lemma_opcode_fields(op);
    if op & 0xF000 == 0xD000 {
        let vx = a@.v[x_of(op) as int] as int;
        let n = n_of(op) as int;
        assert forall|r: int, c: int| 0 <= r < n && 0 <= c < 8 implies #[trigger] b.screen.pixel(
            (vx + c) % 32,
            r,
        ) == (a.screen.pixel((vx + c) % 32, r) != (a@.memory[a.i + r] & (0x80u8 >> (c as u8))
            != 0)) by {
            lemma_wrap_offset(vx, c, 32);
            let byte = a@.memory[a.i + r];
            let cc = c as u8;
            assert(((byte >> ((7 - cc) as u8)) & 1 != 0) == (byte & (0x80u8 >> cc) != 0))
                by (bit_vector)
                requires
                    cc < 8,
            ;
            assert(in_bounds((vx + c) % 32, r));
        }
    }
}

/// Any opcode that the first design does not know changes nothing.
pub proof fn law_first_design_other_opcodes(a: CPU, b: CPU, op: u16, random: u8)
    requires
        a.can_execute(op),
        a.executes_to(&b, op, random),
        op != 0x00E0,
        op != 0x00EE,
        op & 0xF000 == 0 || op & 0xF000 == 0xE000 || op & 0xF000 == 0xF000 || (op & 0xF000
            == 0x8000 && !(op & 0x000F <= 7 || op & 0x000F == 0xE)) || (op & 0xF000 == 0x9000
            && op & 0x000F != 0),
    ensures
        b@ == a@,
        same_pixels(a, b),
{
    lemma_opcode_fields(op);
}

} // verus!
