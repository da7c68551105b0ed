use vstd::prelude::*;

verus! {

/// Bit `i` of `v` (bit 0 is the least significant).
pub open spec fn bit(v: u8, i: u8) -> bool {
    (v >> i) & 1 == 1
}

/// The level to drive on output line `bit_pos` of the ALU's `X` input to present `value`.
pub fn pin_level(value: u8, bit_pos: u8) -> (r: bool)
    requires
        bit_pos < 8,
    ensures
        r == bit(value, bit_pos),
{
    ((value >> bit_pos) & 0b0000_0001) == 1
}

/// The byte read back from the eight result lines of the ALU, `levels[i]` being line `i`.
pub fn read_x_in(levels: [bool; 8]) -> (r: u8)
    ensures
        forall|i: u8| i < 8 ==> bit(r, i) == levels@[i as int],
{
    let b0: u8 = if levels[0] { 1 } else { 0 };
    let b1: u8 = if levels[1] { 1 } else { 0 };
    let b2: u8 = if levels[2] { 1 } else { 0 };
    let b3: u8 = if levels[3] { 1 } else { 0 };
    let b4: u8 = if levels[4] { 1 } else { 0 };
    let b5: u8 = if levels[5] { 1 } else { 0 };
    let b6: u8 = if levels[6] { 1 } else { 0 };
    let b7: u8 = if levels[7] { 1 } else { 0 };
    let mut x_in: u8 = 0;
    x_in |= b0 << 0u8;
    x_in |= b1 << 1u8;
    x_in |= b2 << 2u8;
    x_in |= b3 << 3u8;
    x_in |= b4 << 4u8;
    x_in |= b5 << 5u8;
    x_in |= b6 << 6u8;
    x_in |= b7 << 7u8;
    assert forall|i: u8| i < 8 implies bit(x_in, i) == levels@[i as int] by {
        lemma_bit_of_levels(b0, b1, b2, b3, b4, b5, b6, b7, x_in, i);
        if i == 0 {
        } else if i == 1 {
        } else if i == 2 {
        } else if i == 3 {
        } else if i == 4 {
        } else if i == 5 {
        } else if i == 6 {
        } else {
        }
    }
    x_in
}

/// Bit `k` of the byte assembled from the one-bit values `b0`..`b7` is `bk`.
proof fn lemma_bit_of_levels(b0: u8, b1: u8, b2: u8, b3: u8, b4: u8, b5: u8, b6: u8, b7: u8, x: u8, k: u8)
    by (bit_vector)
    requires
        b0 <= 1,
        b1 <= 1,
        b2 <= 1,
        b3 <= 1,
        b4 <= 1,
        b5 <= 1,
        b6 <= 1,
        b7 <= 1,
        x == ((((((((0u8 | (b0 << 0u8)) | (b1 << 1u8)) | (b2 << 2u8)) | (b3 << 3u8)) | (b4 << 4u8)) | (b5
            << 5u8)) | (b6 << 6u8)) | (b7 << 7u8)),
        k < 8,
    ensures
        ((x >> k) & 1 == 1) == ((if k == 0 {
            b0
        } else if k == 1 {
            b1
        } else if k == 2 {
            b2
        } else if k == 3 {
            b3
        } else if k == 4 {
            b4
        } else if k == 5 {
            b5
        } else if k == 6 {
            b6
        } else {
            b7
        }) == 1),
{
}

/// A byte is fixed by its eight bits: reading back the levels that `pin_level` drives for `v`
/// gives `v` again.
pub proof fn lemma_levels_determine_byte(v: u8, r: u8)
    requires
        forall|i: u8| i < 8 ==> bit(r, i) == bit(v, i),
    ensures
        r == v,
{
    assert(bit(r, 0) == bit(v, 0));
    assert(bit(r, 1) == bit(v, 1));
    assert(bit(r, 2) == bit(v, 2));
    assert(bit(r, 3) == bit(v, 3));
    assert(bit(r, 4) == bit(v, 4));
    assert(bit(r, 5) == bit(v, 5));
    assert(bit(r, 6) == bit(v, 6));
    assert(bit(r, 7) == bit(v, 7));
    assert(r == v) by (bit_vector)
        requires
            ((r >> 0u8) & 1 == 1) == ((v >> 0u8) & 1 == 1),
            ((r >> 1u8) & 1 == 1) == ((v >> 1u8) & 1 == 1),
            ((r >> 2u8) & 1 == 1) == ((v >> 2u8) & 1 == 1),
            ((r >> 3u8) & 1 == 1) == ((v >> 3u8) & 1 == 1),
            ((r >> 4u8) & 1 == 1) == ((v >> 4u8) & 1 == 1),
            ((r >> 5u8) & 1 == 1) == ((v >> 5u8) & 1 == 1),
            ((r >> 6u8) & 1 == 1) == ((v >> 6u8) & 1 == 1),
            ((r >> 7u8) & 1 == 1) == ((v >> 7u8) & 1 == 1),
    ;
}

/// Whether the byte read back is the one expected.
pub fn check_x_in(x_in: u8, expected: u8) -> (r: bool)
    ensures
        r == (x_in == expected),
{
    x_in == expected
}

/// The ALU operations that the board test selects.
#[derive(Debug, Clone, Copy, PartialEq, Eq, Structural)]
pub enum AluOperation {
    Add,
    Sub,
    Rsh,
    Lsh,
    Xor,
    Not,
    And,
    Or,
}

/// The levels of the ALU's three operation-select lines `op0`, `op1`, `op2` for `op`.
pub open spec fn select_levels(op: AluOperation) -> (bool, bool, bool) {
    match op {
        AluOperation::Add => (false, false, false),
        AluOperation::Sub => (false, false, true),
        AluOperation::Rsh => (false, true, true),
        AluOperation::Lsh => (false, true, false),
        AluOperation::Xor => (true, false, false),
        AluOperation::Not => (true, false, true),
        AluOperation::And => (true, true, false),
        AluOperation::Or => (true, true, true),
    }
}

/// The levels to drive on the operation-select lines to choose `op`.
pub fn alu_select(op: AluOperation) -> (r: (bool, bool, bool))
    ensures
        r == select_levels(op),
{
    match op {
        AluOperation::Add => (false, false, false),
        AluOperation::Sub => (false, false, true),
        AluOperation::Rsh => (false, true, true),
        AluOperation::Lsh => (false, true, false),
        AluOperation::Xor => (true, false, false),
        AluOperation::Not => (true, false, true),
        AluOperation::And => (true, true, false),
        AluOperation::Or => (true, true, true),
    }
}

/// What the board test expects to read back when `out_value` is presented with `Y` left open:
/// all lines high while the ALU is disabled; once enabled, the shifts and `NOT` of
/// `out_value`, and all lines high for the operations that need `Y`.
pub open spec fn expected_levels(enabled: bool, op: AluOperation, out_value: u8) -> u8 {
    if !enabled {
        255
    } else {
        match op {
            AluOperation::Rsh => out_value / 2,
            AluOperation::Lsh => ((out_value * 2) % 256) as u8,
            AluOperation::Not => (255 - out_value) as u8,
            _ => 255,
        }
    }
}

/// The byte the board test expects from the ALU.
pub fn expected_x_in(enabled: bool, op: AluOperation, out_value: u8) -> (r: u8)
    ensures
        r == expected_levels(enabled, op, out_value),
{
    if !enabled {
        return 0b1111_1111;
    }
    match op {
        AluOperation::Rsh => {
            let v = out_value >> 1;
            assert(v == out_value / 2) by (bit_vector)
                requires
                    v == out_value >> 1,
            ;
            v
        },
        AluOperation::Lsh => {
            let v = out_value << 1;
            assert(v == (out_value * 2) % 256) by (bit_vector)
                requires
                    v == out_value << 1,
            ;
            v
        },
        AluOperation::Not => {
            let v = !out_value;
            assert(v == 255 - out_value) by (bit_vector)
                requires
                    v == !out_value,
            ;
            v
        },
        _ => 0b1111_1111,
    }
}

/// What the board test expects, over every presented value: all lines high while the ALU is
/// disabled, and, once enabled, all lines high for every operation that needs `Y` (whatever the
/// presented value); `RSH` moves each bit down one place and clears the top bit, `LSH` moves each
/// bit up one place and clears the bottom bit, and `NOT` flips every bit.
pub proof fn lemma_expected_levels(op: AluOperation, out: u8)
    ensures
        expected_levels(false, op, out) == 255,
        (op == AluOperation::Add || op == AluOperation::Sub || op == AluOperation::Xor || op
            == AluOperation::And || op == AluOperation::Or) ==> expected_levels(true, op, out) == 255,
        op == AluOperation::Rsh ==> !bit(expected_levels(true, op, out), 7) && forall|i: u8|
            i < 7 ==> #[trigger] bit(expected_levels(true, op, out), i) == bit(out, (i + 1) as u8),
        op == AluOperation::Lsh ==> !bit(expected_levels(true, op, out), 0) && forall|i: u8|
            1 <= i < 8 ==> #[trigger] bit(expected_levels(true, op, out), i) == bit(out, (i - 1) as u8),
        op == AluOperation::Not ==> forall|i: u8|
            i < 8 ==> #[trigger] bit(expected_levels(true, op, out), i) != bit(out, i),
{
    let r = expected_levels(true, op, out);
    if op == AluOperation::Rsh {
        assert(r == out / 2);
        assert((r >> 7u8) & 1 != 1) by (bit_vector)
            requires
                r == out / 2,
        ;
        assert(forall|i: u8| #![trigger (r >> i)] i < 7 ==> ((r >> i) & 1 == 1) == ((out >> ((i + 1) as u8)) & 1 == 1)) by (bit_vector)
            requires
                r == out / 2,
        ;
    } else if op == AluOperation::Lsh {
        assert(r == (out * 2) % 256);
        assert((r >> 0u8) & 1 != 1) by (bit_vector)
            requires
                r == (out * 2) % 256,
        ;
        assert(forall|i: u8| #![trigger (r >> i)] 1 <= i < 8 ==> ((r >> i) & 1 == 1) == ((out >> ((i - 1) as u8)) & 1 == 1)) by (bit_vector)
            requires
                r == (out * 2) % 256,
        ;
    } else if op == AluOperation::Not {
        assert(r == 255 - out);
        assert(forall|i: u8| #![trigger (r >> i)] i < 8 ==> ((r >> i) & 1 == 1) != ((out >> i) & 1 == 1)) by (bit_vector)
            requires
                r == 255 - out,
        ;
    }
}

} // verus!
