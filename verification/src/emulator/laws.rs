use vstd::prelude::*;
use crate::emulator::cpu::{CPU, Machine, font_sprites, with_font, with_program, FONT_START, PROGRAM_START};
use crate::emulator::io::keyboard::Keyboard;
use crate::emulator::io::screen::{on_screen, Screen};
use crate::opcode::{kind_of, x_of, y_of, n_of, nnn_of, lemma_opcode_fields};

verus! {

/// A subroutine call `2nnn` followed by a return `00EE` resumes at the instruction after the
/// call, with the stack pointer back where it was and nothing else changed but the stack
/// slot the call wrote.
pub proof fn law_call_then_return<K: Keyboard, S: Screen>(
    a: CPU<K, S>,
    b: CPU<K, S>,
    c: CPU<K, S>,
    call: u16,
    r1: u8,
    r2: u8,
)
    requires
        kind_of(call) == 2,
        a.can_execute(call),
        a.executes_to(&b, call, r1),
        b.executes_to(&c, 0x00EE, r2),
    ensures
        c@ == (Machine {
            stack: a@.stack.update(a.sp + 1, a.pc),
            pc: (a.pc + 2) as u16,
            ..a@
        }),
        b.pc == nnn_of(call),
        forall|px: int, py: int| on_screen(px, py) ==> #[trigger] c.screen.pixel(px, py) == a.screen.pixel(px, py),
{
    lemma_opcode_fields(call);
    lemma_opcode_fields(0x00EE);
    assert(c@ =~= (Machine { stack: a@.stack.update(a.sp + 1, a.pc), pc: (a.pc + 2) as u16, ..a@ }));
}

/// Drawing the same sprite twice in a row leaves the display as it was: every pixel is
/// flipped twice. This needs the coordinate registers to survive the first draw, which sets
/// `VF` to 1.
pub proof fn law_draw_twice_restores<K: Keyboard, S: Screen>(
    a: CPU<K, S>,
    b: CPU<K, S>,
    c: CPU<K, S>,
    draw: u16,
    r1: u8,
    r2: u8,
)
    requires
        kind_of(draw) == 0xD,
        x_of(draw) == 0xF ==> a@.v[0xF] == 1,
        y_of(draw) == 0xF ==> a@.v[0xF] == 1,
        a.executes_to(&b, draw, r1),
        b.executes_to(&c, draw, r2),
    ensures
        forall|px: int, py: int| on_screen(px, py) ==> #[trigger] c.screen.pixel(px, py) == a.screen.pixel(px, py),
{
    lemma_opcode_fields(draw);
    assert(b@.v[x_of(draw) as int] == a@.v[x_of(draw) as int]);
    assert(b@.v[y_of(draw) as int] == a@.v[y_of(draw) as int]);
}

/// `Fx33` writes the decimal digits of `Vx` at `I`, `I + 1` and `I + 2`, hundreds first.
pub proof fn law_bcd_digits<K: Keyboard, S: Screen>(a: CPU<K, S>, op: u16, random: u8)
    requires
        kind_of(op) == 0xF,
        y_of(op) == 3,
        n_of(op) == 3,
        a.can_execute(op),
    ensures
        ({
            let m = a.next_state(op, random).memory;
            let vx = a@.v[x_of(op) as int];
            &&& m[a.i as int] < 10 && m[a.i + 1] < 10 && m[a.i + 2] < 10
            &&& 100 * m[a.i as int] + 10 * m[a.i + 1] + m[a.i + 2] == vx
        }),
{
    lemma_opcode_fields(op);
}

/// Storing registers `V0..=Vx` with `Fx55` and loading them back with `Fx65` gives every
/// register its former value.
pub proof fn law_store_then_load<K: Keyboard, S: Screen>(
    a: CPU<K, S>,
    b: CPU<K, S>,
    c: CPU<K, S>,
    store: u16,
    load: u16,
    r1: u8,
    r2: u8,
)
    requires
        kind_of(store) == 0xF && y_of(store) == 5 && n_of(store) == 5,
        kind_of(load) == 0xF && y_of(load) == 6 && n_of(load) == 5,
        x_of(store) == x_of(load),
        a.can_execute(store),
        a.executes_to(&b, store, r1),
        b.executes_to(&c, load, r2),
    ensures
        c@.v == a@.v,
        c.i == a.i,
{
    lemma_opcode_fields(store);
    lemma_opcode_fields(load);
    assert(c@.v =~= a@.v);
}

/// Once the font is in memory, `Fx29` points `I` at the five-row sprite of the digit in `Vx`.
pub proof fn law_font_digit<K: Keyboard, S: Screen>(a: CPU<K, S>, op: u16, random: u8)
    requires
        kind_of(op) == 0xF,
        y_of(op) == 2,
        n_of(op) == 9,
        a@.memory.subrange(FONT_START as int, FONT_START + 80) == font_sprites(),
        a@.v[x_of(op) as int] < 16,
    ensures
        ({
            let after = a.next_state(op, random);
            let digit = a@.v[x_of(op) as int] as int;
            after.memory.subrange(after.i as int, after.i + 5) == font_sprites().subrange(
                5 * digit,
                5 * digit + 5,
            )
        }),
{
    lemma_opcode_fields(op);
    let after = a.next_state(op, random);
    let digit = a@.v[x_of(op) as int] as int;
    assert(after.i == 5 * digit + FONT_START);
    assert forall|k: int| 0 <= k < 5 implies #[trigger] after.memory.subrange(after.i as int, after.i + 5)[k]
        == font_sprites().subrange(5 * digit, 5 * digit + 5)[k] by {
        assert(a@.memory.subrange(FONT_START as int, FONT_START + 80)[5 * digit + k] == a@.memory[FONT_START + 5 * digit + k]);
    }
    assert(after.memory.subrange(after.i as int, after.i + 5) =~= font_sprites().subrange(5 * digit, 5 * digit + 5));
}

/// The memory that `load_program` leaves holds the font where `Fx29` looks for it.
pub proof fn law_loaded_font(memory: Seq<u8>)
    requires
        memory.len() == 4096,
    ensures
        with_font(memory).subrange(FONT_START as int, FONT_START + 80) == font_sprites(),
{
    assert(with_font(memory).subrange(FONT_START as int, FONT_START + 80) =~= font_sprites());
}

/// The memory that `load_program` leaves holds every byte of the program in order from
/// `0x200`, where a new machine starts executing, and the font from `0x50` to `0xA0`, and every
/// other byte as it was.
pub proof fn law_program_at_start(memory: Seq<u8>, program: Seq<u8>)
    requires
        memory.len() == 4096,
        PROGRAM_START + program.len() <= 4096,
    ensures
        ({
            let m = with_program(with_font(memory), program);
            &&& m.len() == 4096
            &&& forall|j: int| 0 <= j < program.len() ==> #[trigger] m[0x200 + j] == program[j]
            &&& forall|addr: int|
                0 <= addr < 4096 && !(0x50 <= addr < 0xA0) && !(0x200 <= addr < 0x200 + program.len())
                    ==> #[trigger] m[addr] == memory[addr]
            &&& m.subrange(FONT_START as int, FONT_START + 80) == font_sprites()
        }),
{
    let m = with_program(with_font(memory), program);
    assert forall|j: int| 0 <= j < program.len() implies #[trigger] m[0x200 + j] == program[j] by {}
    assert(m.subrange(FONT_START as int, FONT_START + 80) =~= font_sprites());
}

/// After `load_program` the font area holds the sprite of each hexadecimal digit `d`, five rows
/// from `0x50 + 5 * d`, as these bytes (the sprite of `C` repeats the rows of `A`).
pub proof fn law_font_glyphs(memory: Seq<u8>, program: Seq<u8>)
    requires
        memory.len() == 4096,
        PROGRAM_START + program.len() <= 4096,
    ensures
        ({
            let m = with_program(with_font(memory), program);
            let glyph = |d: int| m.subrange(0x50 + 5 * d, 0x50 + 5 * d + 5);
            &&& glyph(0x0) == seq![0xF0u8, 0x90, 0x90, 0x90, 0xF0]
            &&& glyph(0x1) == seq![0x20u8, 0x60, 0x20, 0x20, 0x70]
            &&& glyph(0x2) == seq![0xF0u8, 0x10, 0xF0, 0x80, 0xF0]
            &&& glyph(0x3) == seq![0xF0u8, 0x10, 0xF0, 0x10, 0xF0]
            &&& glyph(0x4) == seq![0x90u8, 0x90, 0xF0, 0x10, 0x10]
            &&& glyph(0x5) == seq![0xF0u8, 0x80, 0xF0, 0x10, 0xF0]
            &&& glyph(0x6) == seq![0xF0u8, 0x80, 0xF0, 0x90, 0xF0]
            &&& glyph(0x7) == seq![0xF0u8, 0x10, 0x20, 0x40, 0x40]
            &&& glyph(0x8) == seq![0xF0u8, 0x90, 0xF0, 0x90, 0xF0]
            &&& glyph(0x9) == seq![0xF0u8, 0x90, 0xF0, 0x10, 0xF0]
            &&& glyph(0xA) == seq![0xF0u8, 0x90, 0xF0, 0x90, 0x90]
            &&& glyph(0xB) == seq![0xE0u8, 0x90, 0xE0, 0x90, 0xE0]
            &&& glyph(0xC) == seq![0xF0u8, 0x90, 0xF0, 0x90, 0x90]
            &&& glyph(0xD) == seq![0xE0u8, 0x90, 0x90, 0x90, 0xE0]
            &&& glyph(0xE) == seq![0xF0u8, 0x80, 0xF0, 0x80, 0xF0]
            &&& glyph(0xF) == seq![0xF0u8, 0x80, 0xF0, 0x80, 0x80]
        }),
{
    let m = with_program(with_font(memory), program);
    assert forall|d: int, r: int| 0 <= d < 16 && 0 <= r < 5 implies #[trigger] m.subrange(
        0x50 + 5 * d,
        0x50 + 5 * d + 5,
    )[r] == font_sprites()[5 * d + r] by {}
    assert(m.subrange(0x50, 0x55) =~= seq![0xF0u8, 0x90, 0x90, 0x90, 0xF0]);
    assert(m.subrange(0x55, 0x5A) =~= seq![0x20u8, 0x60, 0x20, 0x20, 0x70]);
    assert(m.subrange(0x5A, 0x5F) =~= seq![0xF0u8, 0x10, 0xF0, 0x80, 0xF0]);
    assert(m.subrange(0x5F, 0x64) =~= seq![0xF0u8, 0x10, 0xF0, 0x10, 0xF0]);
    assert(m.subrange(0x64, 0x69) =~= seq![0x90u8, 0x90, 0xF0, 0x10, 0x10]);
    assert(m.subrange(0x69, 0x6E) =~= seq![0xF0u8, 0x80, 0xF0, 0x10, 0xF0]);
    assert(m.subrange(0x6E, 0x73) =~= seq![0xF0u8, 0x80, 0xF0, 0x90, 0xF0]);
    assert(m.subrange(0x73, 0x78) =~= seq![0xF0u8, 0x10, 0x20, 0x40, 0x40]);
    assert(m.subrange(0x78, 0x7D) =~= seq![0xF0u8, 0x90, 0xF0, 0x90, 0xF0]);
    assert(m.subrange(0x7D, 0x82) =~= seq![0xF0u8, 0x90, 0xF0, 0x10, 0xF0]);
    assert(m.subrange(0x82, 0x87) =~= seq![0xF0u8, 0x90, 0xF0, 0x90, 0x90]);
    assert(m.subrange(0x87, 0x8C) =~= seq![0xE0u8, 0x90, 0xE0, 0x90, 0xE0]);
    assert(m.subrange(0x8C, 0x91) =~= seq![0xF0u8, 0x90, 0xF0, 0x90, 0x90]);
    assert(m.subrange(0x91, 0x96) =~= seq![0xE0u8, 0x90, 0x90, 0x90, 0xE0]);
    assert(m.subrange(0x96, 0x9B) =~= seq![0xF0u8, 0x80, 0xF0, 0x80, 0xF0]);
    assert(m.subrange(0x9B, 0xA0) =~= seq![0xF0u8, 0x80, 0xF0, 0x80, 0x80]);
}

/// `8xy4` adds with carry: the new `Vx` and the carry in `VF` together make the full sum.
pub proof fn law_add_with_carry<K: Keyboard, S: Screen>(a: CPU<K, S>, op: u16, random: u8)
    requires
        kind_of(op) == 8,
        n_of(op) == 4,
        x_of(op) != 0xF,
    ensures
        ({
            let after = a.next_state(op, random);
            after.v[x_of(op) as int] + 256 * after.v[0xF] == a@.v[x_of(op) as int] + a@.v[y_of(
                op,
            ) as int]
        }),
{
    lemma_opcode_fields(op);
}

/// `8xy5` subtracts modulo 256 and leaves in `VF` whether no borrow was needed.
pub proof fn law_sub_with_borrow<K: Keyboard, S: Screen>(a: CPU<K, S>, op: u16, random: u8)
    requires
        kind_of(op) == 8,
        n_of(op) == 5,
        x_of(op) != 0xF,
    ensures
        ({
            let after = a.next_state(op, random);
            let vx = a@.v[x_of(op) as int];
            let vy = a@.v[y_of(op) as int];
            &&& after.v[x_of(op) as int] == vx - vy + 256 * (1 - after.v[0xF])
            &&& (after.v[0xF] == 1) == (vx >= vy)
        }),
{
    lemma_opcode_fields(op);
}

/// Only calls and returns move the stack pointer or write the stack: every other instruction
/// leaves both as they were.
pub proof fn law_stack_untouched<K: Keyboard, S: Screen>(a: CPU<K, S>, op: u16, random: u8)
    requires
        kind_of(op) != 2,
        op != 0x00EE,
    ensures
        a.next_state(op, random).sp == a.sp,
        a.next_state(op, random).stack == a@.stack,
{
    lemma_opcode_fields(op);
}

} // verus!
