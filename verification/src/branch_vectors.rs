use vstd::prelude::*;

verus! {

/// One line of the branch-unit test table: which branch instruction is selected, the value of
/// `X`, and whether the branch must be taken.
#[derive(Debug, Clone, Copy, PartialEq, Eq, Structural)]
pub struct BranchVector {
    pub jmp: bool,
    pub jgt: bool,
    pub jz: bool,
    pub x_out: u8,
    pub taken: bool,
}

/// Whether the branch unit takes the branch: always for `JMP`, when `X` read as a signed byte is
/// greater than zero for `JGT`, when `X` is zero for `JZ`, never when none is selected.
pub open spec fn branch_taken(jmp: bool, jgt: bool, jz: bool, x: u8) -> bool {
    if jmp {
        true
    } else if jgt {
        0 < x < 128
    } else if jz {
        x == 0
    } else {
        false
    }
}

/// The 256 table lines for one selection of branch lines, `X` in increasing order, with the
/// decision `op` makes on `X` read as a signed byte.
pub fn op_gen<F: Fn(i8) -> bool>(jmp: bool, jgt: bool, jz: bool, op: F) -> (r: Vec<BranchVector>)
    requires
        forall|a: i8| call_requires(op, (a,)),
    ensures
        r@.len() == 256,
        forall|i: int|
            0 <= i < 256 ==> {
                &&& (#[trigger] r@[i]).jmp == jmp
                &&& r@[i].jgt == jgt
                &&& r@[i].jz == jz
                &&& r@[i].x_out == i
                &&& call_ensures(op, ((i as u8) as i8,), r@[i].taken)
            },
{
    let mut out: Vec<BranchVector> = Vec::new();
    let mut x: u32 = 0;
    while x < 256
        invariant
            x <= 256,
            out@.len() == x,
            forall|a: i8| call_requires(op, (a,)),
            forall|i: int|
                0 <= i < x ==> {
                    &&& (#[trigger] out@[i]).jmp == jmp
                    &&& out@[i].jgt == jgt
                    &&& out@[i].jz == jz
                    &&& out@[i].x_out == i
                    &&& call_ensures(op, ((i as u8) as i8,), out@[i].taken)
                },
        decreases 256 - x,
    {
        let x_out = x as u8;
        let taken = op(x_out as i8);
        out.push(BranchVector { jmp, jgt, jz, x_out, taken });
        x = x + 1;
    }
    out
}

/// The table lines for one selection of branch lines.
pub open spec fn branch_block(jmp: bool, jgt: bool, jz: bool) -> Seq<BranchVector> {
    Seq::new(256, |i: int| BranchVector { jmp, jgt, jz, x_out: i as u8, taken: branch_taken(jmp, jgt, jz, i as u8) })
}

/// The whole branch-unit test table: `JMP`, `JGT`, `JZ`, then no branch selected.
pub open spec fn branch_table() -> Seq<BranchVector> {
    branch_block(true, false, false) + branch_block(false, true, false) + branch_block(false, false, true)
        + branch_block(false, false, false)
}

fn block<F: Fn(i8) -> bool>(jmp: bool, jgt: bool, jz: bool, op: F) -> (r: Vec<BranchVector>)
    requires
        forall|a: i8| call_requires(op, (a,)),
        forall|a: i8, t: bool| #[trigger] call_ensures(op, (a,), t) ==> t == branch_taken(jmp, jgt, jz, a as u8),
    ensures
        r@ == branch_block(jmp, jgt, jz),
{
    let r = op_gen(jmp, jgt, jz, op);
    assert forall|i: int| 0 <= i < 256 implies r@[i] == #[trigger] branch_block(jmp, jgt, jz)[i] by {
        let x = i as u8;
        assert(call_ensures(op, ((x as i8),), r@[i].taken));
        assert((x as i8) as u8 == x) by (bit_vector);
    }
    assert(r@ =~= branch_block(jmp, jgt, jz));
    r
}

/// Builds the branch-unit test table.
pub fn branch_test_vectors() -> (r: Vec<BranchVector>)
    ensures
        r@ == branch_table(),
{
    let mut out = block(true, false, false, |a: i8| -> (t: bool) ensures t == branch_taken(true, false, false, a as u8) { true });
    let mut more = block(false, true, false, |a: i8| -> (t: bool)
        ensures t == branch_taken(false, true, false, a as u8)
        {
            assert(a > 0 <==> 0 < (a as u8) && (a as u8) < 128) by (bit_vector);
            a > 0
        });
    out.append(&mut more);
    let mut more = block(false, false, true, |a: i8| -> (t: bool)
        ensures t == branch_taken(false, false, true, a as u8)
        {
            assert(a == 0 <==> (a as u8) == 0) by (bit_vector);
            a == 0
        });
    out.append(&mut more);
    let mut more = block(false, false, false, |a: i8| -> (t: bool) ensures t == branch_taken(false, false, false, a as u8) { false });
    out.append(&mut more);
    out
}

/// The table holds each value of `X` once for each selection, `JMP`, `JGT`, `JZ` and none, in
/// that order; `JMP` always branches, `JGT` exactly when `X` read as a signed byte is greater
/// than zero, `JZ` exactly when `X` is zero, and with nothing selected no branch is taken.
pub proof fn lemma_branch_table_lines(x: u8)
    ensures
        branch_table().len() == 1024,
        ({
            let t = branch_table();
            &&& t[x as int] == BranchVector { jmp: true, jgt: false, jz: false, x_out: x, taken: true }
            &&& t[256 + x] == BranchVector { jmp: false, jgt: true, jz: false, x_out: x, taken: (x as i8) > 0 }
            &&& t[512 + x] == BranchVector { jmp: false, jgt: false, jz: true, x_out: x, taken: x == 0 }
            &&& t[768 + x] == BranchVector { jmp: false, jgt: false, jz: false, x_out: x, taken: false }
        }),
{
    let t = branch_table();
    let b0 = branch_block(true, false, false);
    let b1 = branch_block(false, true, false);
    let b2 = branch_block(false, false, true);
    let b3 = branch_block(false, false, false);
    assert(t == ((b0 + b1) + b2) + b3);
    assert(t[x as int] == b0[x as int]);
    assert(t[256 + x] == b1[x as int]);
    assert(t[512 + x] == b2[x as int]);
    assert(t[768 + x] == b3[x as int]);
    assert((x as i8) > 0 <==> 0 < x && x < 128) by (bit_vector);
}

} // verus!
