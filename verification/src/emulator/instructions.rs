use vstd::prelude::*;
use crate::emulator::cpu::{CPU, Machine, lemma_wrap_offset, lemma_wrap_unique};
use crate::emulator::io::keyboard::Keyboard;
use crate::emulator::io::screen::{on_screen, Screen};
use crate::opcode::{kind_of, x_of, y_of, n_of, lemma_opcode_fields};

verus! {

// What each instruction does, stated over the states before (`a`) and after (`b`) executing
// `op` and over the opcode's bits, instruction by instruction.

/// `b` has the keypad of `a` and shows the same pixels.
pub open spec fn devices_unchanged<K: Keyboard, S: Screen>(a: CPU<K, S>, b: CPU<K, S>) -> bool {
    &&& b.keyboard == a.keyboard
    &&& forall|px: int, py: int| on_screen(px, py) ==> #[trigger] b.screen.pixel(px, py) == a.screen.pixel(px, py)
}

/// `1nnn` jumps to `nnn`, the low twelve bits of the opcode, and changes nothing else.
pub proof fn law_jump<K: Keyboard, S: Screen>(a: CPU<K, S>, b: CPU<K, S>, op: u16, random: u8)
    requires
        op & 0xF000 == 0x1000,
        a.executes_to(&b, op, random),
    ensures
        b.pc == op & 0x0FFF,
        b@ == (Machine { pc: b.pc, ..a@ }),
        devices_unchanged(a, b),
{
    lemma_opcode_fields(op);
}

/// `Bnnn` jumps to `nnn` plus `V0`, and changes nothing else.
pub proof fn law_jump_plus_v0<K: Keyboard, S: Screen>(a: CPU<K, S>, b: CPU<K, S>, op: u16, random: u8)
    requires
        op & 0xF000 == 0xB000,
        a.executes_to(&b, op, random),
    ensures
        b.pc == (op & 0x0FFF) + a@.v[0],
        b@ == (Machine { pc: b.pc, ..a@ }),
        devices_unchanged(a, b),
{
    lemma_opcode_fields(op);
}

/// `2nnn` pushes the address of the call onto the stack and jumps to `nnn`.
pub proof fn law_call<K: Keyboard, S: Screen>(a: CPU<K, S>, b: CPU<K, S>, op: u16, random: u8)
    requires
        op & 0xF000 == 0x2000,
        a.can_execute(op),
        a.executes_to(&b, op, random),
    ensures
        b.pc == op & 0x0FFF,
        b.sp == a.sp + 1,
        b@.stack[b.sp as int] == a.pc,
        b@ == (Machine { pc: b.pc, sp: b.sp, stack: a@.stack.update(a.sp + 1, a.pc), ..a@ }),
        devices_unchanged(a, b),
{
    lemma_opcode_fields(op);
}

/// `00EE` pops the stack and resumes at the instruction after the address it held.
pub proof fn law_return<K: Keyboard, S: Screen>(a: CPU<K, S>, b: CPU<K, S>, random: u8)
    requires
        a.can_execute(0x00EE),
        a.executes_to(&b, 0x00EE, random),
    ensures
        b.pc == a@.stack[a.sp as int] + 2,
        b.sp == a.sp - 1,
        b@ == (Machine { pc: b.pc, sp: b.sp, ..a@ }),
        devices_unchanged(a, b),
{
    lemma_opcode_fields(0x00EE);
}

/// `00E0` darkens every pixel and moves on to the next instruction.
pub proof fn law_clear_screen<K: Keyboard, S: Screen>(a: CPU<K, S>, b: CPU<K, S>, random: u8)
    requires
        a.can_execute(0x00E0),
        a.executes_to(&b, 0x00E0, random),
    ensures
        b@ == (Machine { pc: (a.pc + 2) as u16, ..a@ }),
        b.pc == a.pc + 2,
        b.keyboard == a.keyboard,
        forall|px: int, py: int| on_screen(px, py) ==> !#[trigger] b.screen.pixel(px, py),
{
    lemma_opcode_fields(0x00E0);
}

/// The conditional skips advance by four bytes, skipping one instruction, exactly when their
/// condition holds, and by two otherwise: `3xkk` when `Vx == kk`, `4xkk` when `Vx != kk`,
/// `5xy?` when `Vx == Vy`, `9xy0` when `Vx != Vy`, `Ex91` when the key `Vx mod 16` is held and
/// `ExA1` when it is not. Nothing else changes.
pub proof fn law_skips<K: Keyboard, S: Screen>(a: CPU<K, S>, b: CPU<K, S>, op: u16, random: u8)
    requires
        a.can_execute(op),
        a.executes_to(&b, op, random),
    ensures
        ({
            let vx = a@.v[((op & 0x0F00) >> 8) as int];
            let vy = a@.v[((op & 0x00F0) >> 4) as int];
            let kk = op & 0x00FF;
            let held = a.keyboard.key_down(vx % 16);
            let skip_when = |cond: bool|
                b.pc == a.pc + (if cond { 4int } else { 2int }) && b@ == (Machine { pc: b.pc, ..a@ })
                    && devices_unchanged(a, b);
            &&& op & 0xF000 == 0x3000 ==> skip_when(vx == kk)
            &&& op & 0xF000 == 0x4000 ==> skip_when(vx != kk)
            &&& op & 0xF000 == 0x5000 ==> skip_when(vx == vy)
            &&& op & 0xF00F == 0x9000 ==> skip_when(vx != vy)
            &&& op & 0xF0FF == 0xE091 ==> skip_when(held)
            &&& op & 0xF0FF == 0xE0A1 ==> skip_when(!held)
        }),
{
    lemma_opcode_fields(op);
}

/// `b` is `a` with the registers `v` in place of its own, moved on to the next instruction.
pub open spec fn sets_registers<K: Keyboard, S: Screen>(a: CPU<K, S>, b: CPU<K, S>, v: Seq<u8>) -> bool {
    &&& b@ == (Machine { v: v, pc: (a.pc + 2) as u16, ..a@ })
    &&& b.pc == a.pc + 2
    &&& devices_unchanged(a, b)
}

/// `6xkk` loads `kk` into `Vx`, whatever `Vx` held before.
pub proof fn law_load_byte<K: Keyboard, S: Screen>(a: CPU<K, S>, b: CPU<K, S>, op: u16, random: u8)
    requires
        op & 0xF000 == 0x6000,
        a.can_execute(op),
        a.executes_to(&b, op, random),
    ensures
        sets_registers(a, b, a@.v.update(((op & 0x0F00) >> 8) as int, (op & 0x00FF) as u8)),
{
    lemma_opcode_fields(op);
}

/// `7xkk` adds `kk` to `Vx`; the sum fits in a byte, the precondition ruling out the rest.
pub proof fn law_add_byte<K: Keyboard, S: Screen>(a: CPU<K, S>, b: CPU<K, S>, op: u16, random: u8)
    requires
        op & 0xF000 == 0x7000,
        a.can_execute(op),
        a.executes_to(&b, op, random),
    ensures
        ({
            let x = ((op & 0x0F00) >> 8) as int;
            &&& a@.v[x] + (op & 0x00FF) < 256
            &&& sets_registers(a, b, a@.v.update(x, (a@.v[x] + (op & 0x00FF)) as u8))
        }),
{
    lemma_opcode_fields(op);
}

/// `8xy0` copies `Vy` into `Vx`; `8xy1`, `8xy2` and `8xy3` combine `Vx` with `Vy` by OR, AND and
/// XOR.
pub proof fn law_register_logic<K: Keyboard, S: Screen>(
    a: CPU<K, S>,
    b: CPU<K, S>,
    op: u16,
    random: u8,
)
    requires
        op & 0xF000 == 0x8000,
        op & 0x000F <= 3,
        a.can_execute(op),
        a.executes_to(&b, op, random),
    ensures
        ({
            let x = ((op & 0x0F00) >> 8) as int;
            let vx = a@.v[x];
            let vy = a@.v[((op & 0x00F0) >> 4) as int];
            &&& op & 0x000F == 0 ==> sets_registers(a, b, a@.v.update(x, vy))
            &&& op & 0x000F == 1 ==> sets_registers(a, b, a@.v.update(x, vx | vy))
            &&& op & 0x000F == 2 ==> sets_registers(a, b, a@.v.update(x, vx & vy))
            &&& op & 0x000F == 3 ==> sets_registers(a, b, a@.v.update(x, vx ^ vy))
        }),
{
    lemma_opcode_fields(op);
}

/// `8xy4` adds `Vy` to `Vx` modulo 256, then puts the carry into `VF`.
pub proof fn law_add_registers<K: Keyboard, S: Screen>(a: CPU<K, S>, b: CPU<K, S>, op: u16, random: u8)
    requires
        op & 0xF00F == 0x8004,
        a.can_execute(op),
        a.executes_to(&b, op, random),
    ensures
        ({
            let x = ((op & 0x0F00) >> 8) as int;
            let vx = a@.v[x];
            let vy = a@.v[((op & 0x00F0) >> 4) as int];
            sets_registers(
                a,
                b,
                a@.v.update(x, ((vx + vy) % 256) as u8).update(0xF, ((vx + vy) / 256) as u8),
            )
        }),
{
    lemma_opcode_fields(op);
}

/// `8xy5` sets `Vx` to `Vx - Vy` modulo 256, then `VF` to 1 when no borrow was needed
/// (`Vx >= Vy`) and to 0 otherwise.
pub proof fn law_sub_registers<K: Keyboard, S: Screen>(a: CPU<K, S>, b: CPU<K, S>, op: u16, random: u8)
    requires
        op & 0xF00F == 0x8005,
        a.can_execute(op),
        a.executes_to(&b, op, random),
    ensures
        ({
            let x = ((op & 0x0F00) >> 8) as int;
            let vx = a@.v[x];
            let vy = a@.v[((op & 0x00F0) >> 4) as int];
            sets_registers(
                a,
                b,
                a@.v.update(x, ((vx - vy + 256) % 256) as u8).update(0xF, if vx >= vy { 1u8 } else { 0u8 }),
            )
        }),
{
    lemma_opcode_fields(op);
    let vx = a@.v[x_of(op) as int];
    let vy = a@.v[y_of(op) as int];
    assert(((vx - vy + 256) % 256) == (vx - vy) % 256);
}

/// `8xy7` sets `Vx` to `Vy - Vx` modulo 256, then `VF` to 1 when no borrow was needed
/// (`Vy >= Vx`) and to 0 otherwise.
pub proof fn law_sub_registers_reversed<K: Keyboard, S: Screen>(
    a: CPU<K, S>,
    b: CPU<K, S>,
    op: u16,
    random: u8,
)
    requires
        op & 0xF00F == 0x8007,
        a.can_execute(op),
        a.executes_to(&b, op, random),
    ensures
        ({
            let x = ((op & 0x0F00) >> 8) as int;
            let vx = a@.v[x];
            let vy = a@.v[((op & 0x00F0) >> 4) as int];
            sets_registers(
                a,
                b,
                a@.v.update(x, ((vy - vx + 256) % 256) as u8).update(0xF, if vy >= vx { 1u8 } else { 0u8 }),
            )
        }),
{
    lemma_opcode_fields(op);
    let vx = a@.v[x_of(op) as int];
    let vy = a@.v[y_of(op) as int];
    assert(((vy - vx + 256) % 256) == (vy - vx) % 256);
}

/// `8xy6` halves `Vx`, putting the bit shifted out at the low end into `VF` first; `8xyE`
/// doubles it modulo 256, putting the bit shifted out at the high end into `VF` first.
pub proof fn law_register_shifts<K: Keyboard, S: Screen>(
    a: CPU<K, S>,
    b: CPU<K, S>,
    op: u16,
    random: u8,
)
    requires
        op & 0xF000 == 0x8000,
        op & 0x000F == 6 || op & 0x000F == 0xE,
        a.can_execute(op),
        a.executes_to(&b, op, random),
    ensures
        ({
            let x = ((op & 0x0F00) >> 8) as int;
            let vx = a@.v[x];
            &&& op & 0x000F == 6 ==> sets_registers(a, b, a@.v.update(0xF, vx % 2).update(x, vx / 2))
            &&& op & 0x000F == 0xE ==> sets_registers(
                a,
                b,
                a@.v.update(0xF, vx / 128).update(x, ((2 * vx) % 256) as u8),
            )
        }),
{
    lemma_opcode_fields(op);
}

/// `Fx07` copies the delay timer into `Vx`; `Fx15` and `Fx18` set the delay and sound timers to
/// `Vx`. Each then moves on to the next instruction and changes nothing else.
pub proof fn law_timers<K: Keyboard, S: Screen>(a: CPU<K, S>, b: CPU<K, S>, op: u16, random: u8)
    requires
        a.can_execute(op),
        a.executes_to(&b, op, random),
    ensures
        ({
            let x = ((op & 0x0F00) >> 8) as int;
            let vx = a@.v[x];
            let next = (a.pc + 2) as u16;
            &&& op & 0xF0FF == 0xF007 ==> b@ == (Machine { v: a@.v.update(x, a.delay_timer), pc: next, ..a@ })
            &&& op & 0xF0FF == 0xF015 ==> b@ == (Machine { delay_timer: vx, pc: next, ..a@ })
            &&& op & 0xF0FF == 0xF018 ==> b@ == (Machine { sound_timer: vx, pc: next, ..a@ })
            &&& (op & 0xF0FF == 0xF007 || op & 0xF0FF == 0xF015 || op & 0xF0FF == 0xF018) ==> b.pc
                == a.pc + 2 && devices_unchanged(a, b)
        }),
{
    lemma_opcode_fields(op);
}

/// The index instructions: `Annn` sets `I` to `nnn`; `Fx1E` adds `Vx` to `I`; `Fx29` points `I`
/// at the font sprite of digit `Vx`, five bytes per digit from `0x50`. Each then moves on to the
/// next instruction and changes nothing else.
pub proof fn law_index<K: Keyboard, S: Screen>(a: CPU<K, S>, b: CPU<K, S>, op: u16, random: u8)
    requires
        a.can_execute(op),
        a.executes_to(&b, op, random),
    ensures
        ({
            let vx = a@.v[((op & 0x0F00) >> 8) as int];
            let sets_i = |i: int|
                b.i == i && b@ == (Machine { i: b.i, pc: (a.pc + 2) as u16, ..a@ }) && b.pc == a.pc
                    + 2 && devices_unchanged(a, b);
            &&& op & 0xF000 == 0xA000 ==> sets_i((op & 0x0FFF) as int)
            &&& op & 0xF0FF == 0xF01E ==> sets_i(a.i + vx)
            &&& op & 0xF0FF == 0xF029 ==> sets_i(0x50 + 5 * vx)
        }),
{
    lemma_opcode_fields(op);
}

/// `Cxkk` puts into `Vx` the drawn byte masked by `kk`, so `Vx` never has a bit that `kk` lacks.
pub proof fn law_random<K: Keyboard, S: Screen>(a: CPU<K, S>, b: CPU<K, S>, op: u16, random: u8)
    requires
        op & 0xF000 == 0xC000,
        a.can_execute(op),
        a.executes_to(&b, op, random),
    ensures
        b@ == (Machine {
            v: a@.v.update(((op & 0x0F00) >> 8) as int, random & ((op & 0x00FF) as u8)),
            pc: (a.pc + 2) as u16,
            ..a@
        }),
        b.pc == a.pc + 2,
        devices_unchanged(a, b),
{
    lemma_opcode_fields(op);
}

/// `Fx55` copies `V0..=Vx` into memory from `I` on and `Fx65` copies memory from `I` on into
/// `V0..=Vx`; neither touches any other byte or register.
pub proof fn law_register_memory<K: Keyboard, S: Screen>(
    a: CPU<K, S>,
    b: CPU<K, S>,
    op: u16,
    random: u8,
)
    requires
        a.can_execute(op),
        a.executes_to(&b, op, random),
    ensures
        ({
            let x = ((op & 0x0F00) >> 8) as int;
            &&& op & 0xF0FF == 0xF055 ==> {
                &&& forall|r: int| 0 <= r <= x ==> #[trigger] b@.memory[a.i + r] == a@.v[r]
                &&& forall|addr: int|
                    0 <= addr < 4096 && !(a.i <= addr <= a.i + x) ==> #[trigger] b@.memory[addr]
                        == a@.memory[addr]
                &&& b@.memory.len() == a@.memory.len()
                &&& b@ == (Machine { memory: b@.memory, pc: (a.pc + 2) as u16, ..a@ })
                &&& devices_unchanged(a, b)
            }
            &&& op & 0xF0FF == 0xF065 ==> {
                &&& forall|r: int| 0 <= r <= x ==> #[trigger] b@.v[r] == a@.memory[a.i + r]
                &&& forall|r: int| x < r < 16 ==> #[trigger] b@.v[r] == a@.v[r]
                &&& b@.v.len() == 16
                &&& b@ == (Machine { v: b@.v, pc: (a.pc + 2) as u16, ..a@ })
                &&& devices_unchanged(a, b)
            }
        }),
{
    lemma_opcode_fields(op);
}

/// `Fx0A` waits for a key: while none is held it changes nothing, not even `pc`, so it runs
/// again; once one is, that key goes into `Vx` and execution moves on.
pub proof fn law_wait_key<K: Keyboard, S: Screen>(a: CPU<K, S>, b: CPU<K, S>, op: u16, random: u8)
    requires
        op & 0xF0FF == 0xF00A,
        a.can_execute(op),
        a.executes_to(&b, op, random),
    ensures
        devices_unchanged(a, b),
        (forall|k: u8| !a.keyboard.key_down(k)) ==> b@ == a@,
        (exists|k: u8| a.keyboard.key_down(k)) ==> ({
            let key = b@.v[((op & 0x0F00) >> 8) as int];
            &&& a.keyboard.key_down(key)
            &&& b@ == (Machine { v: a@.v.update(((op & 0x0F00) >> 8) as int, key), pc: (a.pc + 2) as u16, ..a@ })
        }),
{
    lemma_opcode_fields(op);
    a.keyboard.lemma_awaited_key();
}

/// `Dxyn` XORs the `n`-row sprite read at `I` onto the display with its top left corner at
/// `(Vx, Vy)`: the pixel `((Vx + c) mod 64, (Vy + r) mod 32)` flips exactly when bit `c`, counted
/// from the most significant end, of sprite byte `r` is set; every pixel outside the sprite (more
/// than 7 columns right of `Vx` or `n - 1` rows below `Vy`, wrapping) stays as it was; `VF` ends up 1.
pub proof fn law_draw<K: Keyboard, S: Screen>(a: CPU<K, S>, b: CPU<K, S>, op: u16, random: u8)
    requires
        op & 0xF000 == 0xD000,
        a.can_execute(op),
        a.executes_to(&b, op, random),
    ensures
        b@ == (Machine { v: a@.v.update(0xF, 1), pc: (a.pc + 2) as u16, ..a@ }),
        b.pc == a.pc + 2,
        b.keyboard == a.keyboard,
        ({
            let vx = a@.v[((op & 0x0F00) >> 8) as int] as int;
            let vy = a@.v[((op & 0x00F0) >> 4) as int] as int;
            let n = (op & 0x000F) as int;
            &&& forall|r: int, c: int|
                0 <= r < n && 0 <= c < 8 ==> #[trigger] b.screen.pixel((vx + c) % 64, (vy + r) % 32)
                    == (a.screen.pixel((vx + c) % 64, (vy + r) % 32) != (a@.memory[a.i + r] & (0x80u8
                    >> (c as u8)) != 0))
            &&& forall|px: int, py: int|
                on_screen(px, py) && !((px - vx) % 64 < 8 && (py - vy) % 32 < n)
                    ==> #[trigger] b.screen.pixel(px, py) == a.screen.pixel(px, py)
        }),
{
    lemma_opcode_fields(op);
    let vx = a@.v[x_of(op) as int] as int;
    let vy = a@.v[y_of(op) as int] as int;
    let n = n_of(op) as int;
    assert forall|r: int, c: int| 0 <= r < n && 0 <= c < 8 implies #[trigger] b.screen.pixel(
        (vx + c) % 64,
        (vy + r) % 32,
    ) == (a.screen.pixel((vx + c) % 64, (vy + r) % 32) != (a@.memory[a.i + r] & (0x80u8 >> (
    c as u8)) != 0)) by {
        lemma_wrap_offset(vx, c, 64);
        lemma_wrap_offset(vy, r, 32);
        let byte = a@.memory[a.i + r];
        let cc = c as u8;
        assert(((byte >> ((7 - cc) as u8)) & 1 != 0) == (byte & (0x80u8 >> cc) != 0)) by (bit_vector)
            requires
                cc < 8,
        ;
        assert(on_screen((vx + c) % 64, (vy + r) % 32));
    }
}

/// `Fx33` writes the hundreds, tens and units of `Vx` at `I`, `I + 1` and `I + 2` and touches no
/// other byte.
pub proof fn law_decimal_digits<K: Keyboard, S: Screen>(
    a: CPU<K, S>,
    b: CPU<K, S>,
    op: u16,
    random: u8,
)
    requires
        op & 0xF0FF == 0xF033,
        a.can_execute(op),
        a.executes_to(&b, op, random),
    ensures
        ({
            let vx = a@.v[((op & 0x0F00) >> 8) as int];
            &&& b@ == (Machine {
                memory: a@.memory.update(a.i as int, vx / 100).update(a.i + 1, (vx / 10) % 10).update(
                    a.i + 2,
                    vx % 10,
                ),
                pc: (a.pc + 2) as u16,
                ..a@
            })
            &&& 100 * b@.memory[a.i as int] + 10 * b@.memory[a.i + 1] + b@.memory[a.i + 2] == vx
        }),
        b.pc == a.pc + 2,
        devices_unchanged(a, b),
{
    lemma_opcode_fields(op);
}

/// Whether `op` is one of the instructions that the interpreter carries out; every other opcode
/// only moves on to the next instruction.
pub open spec fn is_instruction(op: u16) -> bool {
    let family = op & 0xF000;
    let low = op & 0x000F;
    ||| op == 0x00E0 || op == 0x00EE
    ||| family == 0x1000 || family == 0x2000 || family == 0x3000 || family == 0x4000
    ||| family == 0x5000 || family == 0x6000 || family == 0x7000 || family == 0xA000
    ||| family == 0xB000 || family == 0xC000 || family == 0xD000
    ||| family == 0x8000 && (low <= 7 || low == 0xE)
    ||| family == 0x9000 && low == 0
    ||| op & 0xF0FF == 0xE091 || op & 0xF0FF == 0xE0A1
    ||| op & 0xF0FF == 0xF007 || op & 0xF0FF == 0xF00A || op & 0xF0FF == 0xF015
    ||| op & 0xF0FF == 0xF018 || op & 0xF0FF == 0xF01E || op & 0xF0FF == 0xF029
    ||| op & 0xF0FF == 0xF033 || op & 0xF0FF == 0xF055 || op & 0xF0FF == 0xF065
}

/// Any other opcode moves on to the next instruction and changes nothing else.
pub proof fn law_other_opcodes<K: Keyboard, S: Screen>(a: CPU<K, S>, b: CPU<K, S>, op: u16, random: u8)
    requires
        !is_instruction(op),
        a.can_execute(op),
        a.executes_to(&b, op, random),
    ensures
        b@ == (Machine { pc: (a.pc + 2) as u16, ..a@ }),
        b.pc == a.pc + 2,
        devices_unchanged(a, b),
{
    lemma_opcode_fields(op);
}

} // verus!
