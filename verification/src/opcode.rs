use vstd::prelude::*;

verus! {

/// The high nibble of an opcode: which instruction family it belongs to.
pub open spec fn kind_of(op: u16) -> u8 {
    (op / 0x1000) as u8
}

/// The second nibble, `x` in `?x??`: usually the number of a register.
pub open spec fn x_of(op: u16) -> u8 {
    ((op / 0x100) % 0x10) as u8
}

/// The third nibble, `y` in `??y?`: usually the number of a register.
pub open spec fn y_of(op: u16) -> u8 {
    ((op / 0x10) % 0x10) as u8
}

/// The low nibble, `n` in `???n`.
pub open spec fn n_of(op: u16) -> u8 {
    (op % 0x10) as u8
}

/// The low twelve bits, `nnn`: an address.
pub open spec fn nnn_of(op: u16) -> u16 {
    (op % 0x1000) as u16
}

/// The low byte, `kk`: an immediate value.
pub open spec fn kk_of(op: u16) -> u8 {
    (op % 0x100) as u8
}

/// The masks and shifts that split an opcode compute the fields above.
pub proof fn lemma_opcode_fields(op: u16)
    ensures
        ((op & 0xF000) >> 12) as u8 == kind_of(op),
        (op & 0xF000) >> 12 == kind_of(op),
        ((op & 0x0F00) >> 8) as u8 == x_of(op),
        (op & 0x0F00) >> 8 == x_of(op),
        (op & 0x00F0) >> 4 == y_of(op),
        ((op & 0x00F0) >> 4) as u8 == y_of(op),
        (op & 0x000F) as u8 == n_of(op),
        op & 0x0FFF == nnn_of(op),
        (op & 0x00FF) as u8 == kk_of(op),
        (op & 0x00FF) == kk_of(op),
        (op & 0xF000) / 0x1000 == kind_of(op),
        (op & 0xF00F) / 0x1000 == kind_of(op),
        (op & 0xF00F) % 0x10 == n_of(op),
        (op & 0xF0FF) / 0x1000 == kind_of(op),
        ((op & 0xF0FF) / 0x10) % 0x10 == y_of(op),
        (op & 0xF0FF) % 0x10 == n_of(op),
        op & 0xF000 == kind_of(op) * 0x1000,
        op & 0xF00F == kind_of(op) * 0x1000 + n_of(op),
        op & 0xF0FF == kind_of(op) * 0x1000 + y_of(op) * 0x10 + n_of(op),
        op & 0x000F == n_of(op),
        (op == 0x00E0) == (kind_of(op) == 0 && x_of(op) == 0 && y_of(op) == 0xE && n_of(op) == 0),
        (op == 0x00EE) == (kind_of(op) == 0 && x_of(op) == 0 && y_of(op) == 0xE && n_of(op) == 0xE),
        kind_of(op) < 16,
        x_of(op) < 16,
        y_of(op) < 16,
        n_of(op) < 16,
        nnn_of(op) < 0x1000,
{
    assert((op & 0xF000) >> 12 == op / 0x1000) by (bit_vector);
    assert((op & 0x0F00) >> 8 == (op / 0x100) % 0x10) by (bit_vector);
    assert((op & 0x00F0) >> 4 == (op / 0x10) % 0x10) by (bit_vector);
    assert(op & 0x000F == op % 0x10) by (bit_vector);
    assert(op & 0x0FFF == op % 0x1000) by (bit_vector);
    assert(op & 0x00FF == op % 0x100) by (bit_vector);
    assert((op & 0xF000) / 0x1000 == op / 0x1000) by (bit_vector);
    assert(op & 0xF000 == (op / 0x1000) * 0x1000) by (bit_vector);
    assert(op & 0xF00F == (op / 0x1000) * 0x1000 + op % 0x10) by (bit_vector);
    assert(op & 0xF0FF == (op / 0x1000) * 0x1000 + ((op / 0x10) % 0x10) * 0x10 + op % 0x10)
        by (bit_vector);
    assert((op == 0x00E0) == (op / 0x1000 == 0 && (op / 0x100) % 0x10 == 0 && (op / 0x10) % 0x10
        == 0xE && op % 0x10 == 0)) by (bit_vector);
    assert((op == 0x00EE) == (op / 0x1000 == 0 && (op / 0x100) % 0x10 == 0 && (op / 0x10) % 0x10
        == 0xE && op % 0x10 == 0xE)) by (bit_vector);
    assert((op & 0xF00F) / 0x1000 == op / 0x1000) by (bit_vector);
    assert((op & 0xF00F) % 0x10 == op % 0x10) by (bit_vector);
    assert((op & 0xF0FF) / 0x1000 == op / 0x1000) by (bit_vector);
    assert(((op & 0xF0FF) / 0x10) % 0x10 == (op / 0x10) % 0x10) by (bit_vector);
    assert((op & 0xF0FF) % 0x10 == op % 0x10) by (bit_vector);
}

} // verus!
