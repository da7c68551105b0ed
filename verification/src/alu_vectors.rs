use vstd::prelude::*;

use crate::alu_board::bit;

verus! {

/// One line of the ALU test table: the three-bit ALU operation, the inputs `X` and `Y`, and the
/// output the ALU must produce.
#[derive(Debug, Clone, Copy, PartialEq, Eq, Structural)]
pub struct AluVector {
    pub opcode: u8,
    pub x_in: u8,
    pub y: u8,
    pub x_out: u8,
}

/// What ALU operation `opcode` computes from `a` (the `X` input) and `b` (the `Y` input):
/// `000` add, `001` subtract, `100` xor, `110` and, `111` or, `011` shift left,
/// `010` shift right, `101` not; all modulo 256.
pub open spec fn alu_op(opcode: u8, a: u8, b: u8) -> u8 {
    if opcode == 0 {
        ((a + b) % 256) as u8
    } else if opcode == 1 {
        ((a - b) % 256) as u8
    } else if opcode == 4 {
        a ^ b
    } else if opcode == 6 {
        a & b
    } else if opcode == 7 {
        a | b
    } else if opcode == 3 {
        ((a * 2) % 256) as u8
    } else if opcode == 2 {
        a / 2
    } else {
        (255 - a) as u8
    }
}

/// All 256 values of `X`, each with `Y` zero, in increasing order.
pub fn unary_op() -> (r: Vec<(u8, u8)>)
    ensures
        r@.len() == 256,
        forall|i: int| 0 <= i < 256 ==> #[trigger] r@[i] == (i as u8, 0u8),
{
    let mut out: Vec<(u8, u8)> = Vec::new();
    let mut x: u32 = 0;
    while x < 256
        invariant
            x <= 256,
            out@.len() == x,
            forall|i: int| 0 <= i < x ==> #[trigger] out@[i] == (i as u8, 0u8),
        decreases 256 - x,
    {
        out.push((x as u8, 0));
        x = x + 1;
    }
    out
}

/// All 65536 pairs of `X` and `Y`, `X` major, both in increasing order.
pub fn binary_op() -> (r: Vec<(u8, u8)>)
    ensures
        r@.len() == 65536,
        forall|i: int| 0 <= i < 65536 ==> #[trigger] r@[i] == ((i / 256) as u8, (i % 256) as u8),
{
    let mut out: Vec<(u8, u8)> = Vec::new();
    let mut x: u32 = 0;
    while x < 256
        invariant
            x <= 256,
            out@.len() == x * 256,
            forall|i: int| 0 <= i < x * 256 ==> #[trigger] out@[i] == ((i / 256) as u8, (i % 256) as u8),
        decreases 256 - x,
    {
        let mut y: u32 = 0;
        while y < 256
            invariant
                x < 256,
                y <= 256,
                out@.len() == x * 256 + y,
                forall|i: int| 0 <= i < x * 256 + y ==> #[trigger] out@[i] == ((i / 256) as u8, (i % 256) as u8),
            decreases 256 - y,
        {
            proof {
                let i: int = x * 256 + y;
                assert(i / 256 == x && i % 256 == y) by (nonlinear_arith)
                    requires
                        i == x * 256 + y,
                        0 <= y < 256,
                        0 <= x,
                ;
            }
            out.push((x as u8, y as u8));
            y = y + 1;
        }
        x = x + 1;
    }
    out
}

/// The table lines for ALU operation `opcode` over `operands`, with the outputs `op` computes.
pub fn op_gen<F: Fn(u8, u8) -> u8>(opcode: u8, operands: Vec<(u8, u8)>, op: F) -> (r: Vec<AluVector>)
    requires
        forall|a: u8, b: u8| call_requires(op, (a, b)),
    ensures
        r@.len() == operands@.len(),
        forall|i: int|
            0 <= i < r@.len() ==> {
                &&& (#[trigger] r@[i]).opcode == opcode
                &&& r@[i].x_in == operands@[i].0
                &&& r@[i].y == operands@[i].1
                &&& call_ensures(op, (operands@[i].0, operands@[i].1), r@[i].x_out)
            },
{
    let mut out: Vec<AluVector> = Vec::new();
    let mut i: usize = 0;
    while i < operands.len()
        invariant
            i <= operands@.len(),
            out@.len() == i,
            forall|a: u8, b: u8| call_requires(op, (a, b)),
            forall|k: int|
                0 <= k < i ==> {
                    &&& (#[trigger] out@[k]).opcode == opcode
                    &&& out@[k].x_in == operands@[k].0
                    &&& out@[k].y == operands@[k].1
                    &&& call_ensures(op, (operands@[k].0, operands@[k].1), out@[k].x_out)
                },
        decreases operands@.len() - i,
    {
        let (x_in, y) = operands[i];
        let sum = op(x_in, y);
        out.push(AluVector { opcode, x_in, y, x_out: sum });
        i = i + 1;
    }
    out
}

/// The table for ALU operation `opcode`: every pair of inputs for a binary operation, every `X`
/// with `Y` zero for a unary one.
pub open spec fn alu_block(opcode: u8, unary: bool) -> Seq<AluVector> {
    if unary {
        Seq::new(256, |i: int| AluVector { opcode, x_in: i as u8, y: 0, x_out: alu_op(opcode, i as u8, 0) })
    } else {
        Seq::new(
            65536,
            |i: int|
                AluVector {
                    opcode,
                    x_in: (i / 256) as u8,
                    y: (i % 256) as u8,
                    x_out: alu_op(opcode, (i / 256) as u8, (i % 256) as u8),
                },
        )
    }
}

/// The whole ALU test table, in the order the hardware test reads it.
pub open spec fn alu_table() -> Seq<AluVector> {
    alu_block(0, false) + alu_block(1, false) + alu_block(4, false) + alu_block(6, false)
        + alu_block(7, false) + alu_block(3, true) + alu_block(2, true) + alu_block(5, true)
}

fn block<F: Fn(u8, u8) -> u8>(opcode: u8, unary: bool, op: F) -> (r: Vec<AluVector>)
    requires
        forall|a: u8, b: u8| call_requires(op, (a, b)),
        forall|a: u8, b: u8, v: u8| call_ensures(op, (a, b), v) ==> v == alu_op(opcode, a, b),
    ensures
        r@ == alu_block(opcode, unary),
{
    let operands = if unary {
        unary_op()
    } else {
        binary_op()
    };
    let r = op_gen(opcode, operands, op);
    assert(r@ =~= alu_block(opcode, unary));
    r
}

/// Builds the ALU test table.
pub fn alu_test_vectors() -> (r: Vec<AluVector>)
    ensures
        r@ == alu_table(),
{
    let mut out = block(0b000, false, |a: u8, b: u8| -> (v: u8)
        ensures v == alu_op(0, a, b)
        {
            assert((a + b) % 256 == if a + b > 255 { a + b - 256 } else { a + b }) by (nonlinear_arith)
                requires a < 256, b < 256;
            a.wrapping_add(b)
        });
    let mut more = block(0b001, false, |a: u8, b: u8| -> (v: u8)
        ensures v == alu_op(1, a, b)
        {
            assert((a - b) % 256 == if a - b < 0 { a - b + 256 } else { a - b }) by (nonlinear_arith)
                requires a < 256, b < 256;
            a.wrapping_sub(b)
        });
    out.append(&mut more);
    let mut more = block(0b100, false, |a: u8, b: u8| -> (v: u8) ensures v == alu_op(4, a, b) { a ^ b });
    out.append(&mut more);
    let mut more = block(0b110, false, |a: u8, b: u8| -> (v: u8) ensures v == alu_op(6, a, b) { a & b });
    out.append(&mut more);
    let mut more = block(0b111, false, |a: u8, b: u8| -> (v: u8) ensures v == alu_op(7, a, b) { a | b });
    out.append(&mut more);
    let mut more = block(0b011, true, |a: u8, b: u8| -> (v: u8)
        ensures v == alu_op(3, a, b)
        {
            let v = a << 1;
            assert(v == (a * 2) % 256) by (bit_vector) requires v == a << 1;
            v
        });
    out.append(&mut more);
    let mut more = block(0b010, true, |a: u8, b: u8| -> (v: u8)
        ensures v == alu_op(2, a, b)
        {
            let v = a >> 1;
            assert(v == a / 2) by (bit_vector) requires v == a >> 1;
            v
        });
    out.append(&mut more);
    let mut more = block(0b101, true, |a: u8, b: u8| -> (v: u8)
        ensures v == alu_op(5, a, b)
        {
            let v = !a;
            assert(v == 255 - a) by (bit_vector) requires v == !a;
            v
        });
    out.append(&mut more);
    out
}

proof fn lemma_bits_and_or_xor(a: u8, b: u8, i: u8)
    requires
        i < 8,
    ensures
        bit(a & b, i) == (bit(a, i) && bit(b, i)),
        bit(a | b, i) == (bit(a, i) || bit(b, i)),
        bit(a ^ b, i) == (bit(a, i) != bit(b, i)),
{
    assert(((a & b) >> i) & 1 == 1 <==> ((a >> i) & 1 == 1 && (b >> i) & 1 == 1)) by (bit_vector)
        requires
            i < 8,
    ;
    assert(((a | b) >> i) & 1 == 1 <==> ((a >> i) & 1 == 1 || (b >> i) & 1 == 1)) by (bit_vector)
        requires
            i < 8,
    ;
    assert(((a ^ b) >> i) & 1 == 1 <==> ((a >> i) & 1 == 1) != ((b >> i) & 1 == 1)) by (bit_vector)
        requires
            i < 8,
    ;
}

proof fn lemma_pair_index(x: u8, y: u8)
    ensures
        (x * 256 + y) / 256 == x,
        (x * 256 + y) % 256 == y,
        0 <= x * 256 + y < 65536,
{
    assert((x * 256 + y) / 256 == x && (x * 256 + y) % 256 == y && 0 <= x * 256 + y < 65536) by (nonlinear_arith)
        requires
            0 <= x < 256,
            0 <= y < 256,
    ;
}

/// The table holds every pair of inputs once per binary operation and every `X` once per unary
/// one, and each line's output is what that ALU operation must give: the sum and the difference
/// modulo 256, the bitwise xor, and and or, the shifts by one, and the complement.
pub proof fn lemma_alu_table_lines(x: u8, y: u8)
    ensures
        alu_table().len() == 5 * 65536 + 3 * 256,
        ({
            let t = alu_table();
            let n = x * 256 + y;
            &&& t[n].opcode == 0 && t[n].x_in == x && t[n].y == y
            &&& (t[n].x_out - x - y) % 256 == 0
            &&& t[65536 + n].opcode == 1 && t[65536 + n].x_in == x && t[65536 + n].y == y
            &&& (t[65536 + n].x_out + y - x) % 256 == 0
            &&& t[2 * 65536 + n].opcode == 4 && t[2 * 65536 + n].x_in == x && t[2 * 65536 + n].y == y
            &&& forall|i: u8| i < 8 ==> bit(t[2 * 65536 + n].x_out, i) == (bit(x, i) != bit(y, i))
            &&& t[3 * 65536 + n].opcode == 6 && t[3 * 65536 + n].x_in == x && t[3 * 65536 + n].y == y
            &&& forall|i: u8| i < 8 ==> bit(t[3 * 65536 + n].x_out, i) == (bit(x, i) && bit(y, i))
            &&& t[4 * 65536 + n].opcode == 7 && t[4 * 65536 + n].x_in == x && t[4 * 65536 + n].y == y
            &&& forall|i: u8| i < 8 ==> bit(t[4 * 65536 + n].x_out, i) == (bit(x, i) || bit(y, i))
            &&& t[5 * 65536 + x].opcode == 3 && t[5 * 65536 + x].x_in == x && t[5 * 65536 + x].y == 0
            &&& (t[5 * 65536 + x].x_out - 2 * x) % 256 == 0
            &&& t[5 * 65536 + 256 + x].opcode == 2 && t[5 * 65536 + 256 + x].x_in == x && t[5 * 65536 + 256 + x].y == 0
            &&& t[5 * 65536 + 256 + x].x_out * 2 + x % 2 == x
            &&& t[5 * 65536 + 512 + x].opcode == 5 && t[5 * 65536 + 512 + x].x_in == x && t[5 * 65536 + 512 + x].y == 0
            &&& t[5 * 65536 + 512 + x].x_out + x == 255
        }),
{
    let b0 = alu_block(0, false);
    let b1 = alu_block(1, false);
    let b4 = alu_block(4, false);
    let b6 = alu_block(6, false);
    let b7 = alu_block(7, false);
    let b3 = alu_block(3, true);
    let b2 = alu_block(2, true);
    let b5 = alu_block(5, true);
    let t = alu_table();
    let n = x * 256 + y;
    lemma_pair_index(x, y);
    let s1 = b0 + b1;
    let s2 = s1 + b4;
    let s3 = s2 + b6;
    let s4 = s3 + b7;
    let s5 = s4 + b3;
    let s6 = s5 + b2;
    assert(t == s6 + b5);
    assert(t[n] == b0[n]);
    assert(t[65536 + n] == b1[n]);
    assert(t[2 * 65536 + n] == b4[n]);
    assert(t[3 * 65536 + n] == b6[n]);
    assert(t[4 * 65536 + n] == b7[n]);
    assert(t[5 * 65536 + x] == b3[x as int]);
    assert(t[5 * 65536 + 256 + x] == b2[x as int]);
    assert(t[5 * 65536 + 512 + x] == b5[x as int]);
    assert(((x + y) % 256 - x - y) % 256 == 0 && (((x - y) % 256) + y - x) % 256 == 0 && ((x * 2) % 256 - 2 * x) % 256 == 0)
        by (nonlinear_arith)
        requires
            0 <= x < 256,
            0 <= y < 256,
    ;
    assert forall|i: u8| i < 8 implies bit(t[3 * 65536 + n].x_out, i) == (bit(x, i) && bit(y, i)) && bit(
        t[2 * 65536 + n].x_out,
        i,
    ) == (bit(x, i) != bit(y, i)) && bit(t[4 * 65536 + n].x_out, i) == (bit(x, i) || bit(y, i)) by {
        lemma_bits_and_or_xor(x, y, i);
    }
}

} // verus!
