use vstd::prelude::*;

use crate::alu_board::bit;
use crate::cpu::{CpuError, CpuState, Instruction, Outcome, decode_spec, inc8, ins_operand_ok, lemma_decoded_operand_ok};

verus! {

/// `RTS` rotates the four stack slots: four rotations give the state back.
pub proof fn lemma_rts_cycle(s: CpuState, mem: Seq<u8>)
    ensures
        s.run(Instruction::Rts, mem).state.run(Instruction::Rts, mem).state.run(Instruction::Rts, mem).state.run(
            Instruction::Rts,
            mem,
        ).state == s,
{
    reveal(CpuState::execute);
}

/// `EXY` undoes itself.
pub proof fn lemma_exy_involution(s: CpuState, mem: Seq<u8>)
    ensures
        s.run(Instruction::Exy, mem).state.run(Instruction::Exy, mem).state == s,
{
    reveal(CpuState::execute);
}

/// `POP` after `PTS` gives back `X`, `Y` and `Z`; the old `T` is lost and `Z` stays in `T`.
pub proof fn lemma_pop_after_pts(s: CpuState, mem: Seq<u8>)
    ensures
        s.run(Instruction::Pts, mem).state.run(Instruction::Pop, mem).state == (CpuState { t: s.z, ..s }),
{
    reveal(CpuState::execute);
}

/// No instruction but `RET` and `CALL` can fail once decoded: `RET` exactly when the call stack
/// is empty, `CALL` exactly when all four slots are in use.
pub proof fn lemma_execute_errors(s: CpuState, ins: Instruction, mem: Seq<u8>)
    requires
        s.wf(),
    ensures
        s.execute(ins, mem) is Err <==> (ins == Instruction::Ret && s.stack_ptr == 0) || (
        ins is Call && s.stack_ptr == 4),
        ins == Instruction::Ret && s.stack_ptr == 0 ==> s.execute(ins, mem) == Err::<
            (CpuState, Seq<u8>),
            CpuError,
        >(CpuError::InvalidReturn),
        ins is Call && s.stack_ptr == 4 ==> s.execute(ins, mem) == Err::<
            (CpuState, Seq<u8>),
            CpuError,
        >(CpuError::DeepCall),
{
    reveal(CpuState::execute);
}

/// A `RET` right after a `CALL` comes back to where the call was made (the address after the
/// `CALL`), with the call stack as it was; only the register used for the address may have
/// counted.
pub proof fn lemma_call_then_ret(s: CpuState, op: u8, mem: Seq<u8>)
    requires
        s.wf(),
        s.stack_ptr < 4,
        op < 16,
    ensures
        s.execute(Instruction::Call(op), mem) is Ok,
        ({
            let called = s.run(Instruction::Call(op), mem).state;
            &&& called.pc == s.address(op)
            &&& called.run(Instruction::Ret, mem).result == Ok::<(), CpuError>(())
            &&& called.run(Instruction::Ret, mem).state == s.after_address(op)
        }),
{
    reveal(CpuState::execute);
    let called = s.run(Instruction::Call(op), mem).state;
    let back = called.run(Instruction::Ret, mem).state;
    assert(back.stack =~= s.stack);
    assert(back.registers =~= s.after_address(op).registers);
}

/// Every instruction keeps the processor's invariant and the length of data memory.
pub proof fn lemma_run_keeps_wf(s: CpuState, ins: Instruction, mem: Seq<u8>)
    requires
        s.wf(),
        ins_operand_ok(ins),
        ins matches Instruction::Ld(op) ==> (s.address(op) as int) < mem.len(),
        ins matches Instruction::St(op) ==> (s.address(op) as int) < mem.len(),
    ensures
        s.run(ins, mem).state.wf(),
        s.run(ins, mem).mem.len() == mem.len(),
{
    reveal(CpuState::execute);
    let out = s.run(ins, mem).state;
    match ins {
        Instruction::Ret => {
            if s.stack_ptr > 0 {
                assert forall|i: int| out.stack_ptr <= i < 4 implies #[trigger] out.stack[i] == 0 by {
                    if i != out.stack_ptr {
                        assert(out.stack[i] == s.stack[i]);
                    }
                }
            }
        },
        Instruction::Call(op) => {
            if s.stack_ptr < 4 {
                assert forall|i: int| out.stack_ptr <= i < 4 implies #[trigger] out.stack[i] == 0 by {
                    assert(out.stack[i] == s.stack[i]);
                }
            }
        },
        _ => {},
    }
}

/// Every step keeps the processor's invariant, and its data memory keeps its length.
pub proof fn lemma_step_keeps_wf(s: CpuState, prog: Seq<u8>, mem: Seq<u8>)
    requires
        s.wf(),
        (s.pc as int) < prog.len(),
        s.data_access_in_bounds(prog, mem.len()),
    ensures
        s.step(prog, mem).state.wf(),
        s.step(prog, mem).mem.len() == mem.len(),
{
    lemma_decoded_operand_ok(prog[s.pc as int]);
    match decode_spec(prog[s.pc as int]) {
        Ok(ins) => lemma_run_keeps_wf(s.fetched(), ins, mem),
        Err(_) => {},
    }
}

/// Only `ST` writes data memory, and only at the address it names.
pub proof fn lemma_step_memory(s: CpuState, prog: Seq<u8>, mem: Seq<u8>)
    requires
        s.wf(),
        (s.pc as int) < prog.len(),
    ensures
        decode_spec(prog[s.pc as int]) matches Ok(Instruction::St(op)) ==> s.step(prog, mem).mem
            == mem.update(s.fetched().address(op) as int, s.x),
        !(decode_spec(prog[s.pc as int]) matches Ok(Instruction::St(_))) ==> s.step(prog, mem).mem
            == mem,
{
    reveal(CpuState::execute);
}

/// The all-zero opcode stops the processor with `NOP`, after moving `pc` on; nothing else
/// changes.
pub proof fn lemma_nop_stops(s: CpuState, prog: Seq<u8>, mem: Seq<u8>)
    requires
        (s.pc as int) < prog.len(),
        prog[s.pc as int] == 0,
    ensures
        s.step(prog, mem).result == Err::<(), CpuError>(CpuError::NOP),
        s.step(prog, mem).state == s.with_pc(inc8(s.pc)),
        s.step(prog, mem).mem == mem,
{
}

/// `LUP` with the high nibble of `v`, then `PUP` with its low nibble, leave `v` in `X` and
/// change nothing else.
pub proof fn lemma_lup_pup_loads(s: CpuState, v: u8, mem: Seq<u8>)
    ensures
        s.run(Instruction::Lup(v / 16), mem).state.run(Instruction::Pup(v % 16), mem).state == s.with_x(v),
{
    reveal(CpuState::execute);
    let a = (s.x % 16 + (v / 16) * 16) as u8;
    assert(a - a % 16 + v % 16 == v) by (nonlinear_arith)
        requires
            a == s.x % 16 + (v / 16) * 16,
            0 <= s.x < 256,
            0 <= v < 256,
    ;
}

proof fn lemma_byte_bits(a: u8, b: u8, i: u8)
    requires
        i < 8,
    ensures
        bit(a & b, i) == (bit(a, i) && bit(b, i)),
        bit(a | b, i) == (bit(a, i) || bit(b, i)),
        bit(a ^ b, i) == (bit(a, i) != bit(b, i)),
{
    assert(((a & b) >> i) & 1 == 1 <==> ((a >> i) & 1 == 1 && (b >> i) & 1 == 1)) by (bit_vector)
        requires
            i < 8,
    ;
    assert(((a | b) >> i) & 1 == 1 <==> ((a >> i) & 1 == 1 || (b >> i) & 1 == 1)) by (bit_vector)
        requires
            i < 8,
    ;
    assert(((a ^ b) >> i) & 1 == 1 <==> ((a >> i) & 1 == 1) != ((b >> i) & 1 == 1)) by (bit_vector)
        requires
            i < 8,
    ;
}

/// The operations on `X` and `Y`: the result in `X` is the sum, the difference `X - Y`, the
/// product modulo 256, or the bitwise and, or, xor of the two; the old `X` goes to `X0`, `Z` and
/// `T` move down, and nothing else changes.
pub proof fn lemma_binary_operations(s: CpuState, mem: Seq<u8>)
    ensures
        ({
            let add = s.run(Instruction::Add, mem).state;
            let sub = s.run(Instruction::Sub, mem).state;
            let mul = s.run(Instruction::Mul, mem).state;
            let and = s.run(Instruction::And, mem).state;
            let or = s.run(Instruction::Or, mem).state;
            let xor = s.run(Instruction::Xor, mem).state;
            &&& (add.x - s.x - s.y) % 256 == 0
            &&& (sub.x + s.y - s.x) % 256 == 0
            &&& (mul.x - s.x * s.y) % 256 == 0
            &&& forall|i: u8| i < 8 ==> #[trigger] bit(and.x, i) == (bit(s.x, i) && bit(s.y, i))
            &&& forall|i: u8| i < 8 ==> #[trigger] bit(or.x, i) == (bit(s.x, i) || bit(s.y, i))
            &&& forall|i: u8| i < 8 ==> #[trigger] bit(xor.x, i) == (bit(s.x, i) != bit(s.y, i))
            &&& forall|ins: Instruction| (ins == Instruction::Add || ins == Instruction::Sub || ins == Instruction::Mul
                || ins == Instruction::And || ins == Instruction::Or || ins == Instruction::Xor) ==> {
                let o = #[trigger] s.run(ins, mem);
                &&& o.result == Ok::<(), CpuError>(())
                &&& o.mem == mem
                &&& o.state == (CpuState { x: o.state.x, x0: s.x, y: s.z, z: s.t, ..s })
            }
        }),
{
    reveal(CpuState::execute);
    let x = s.x as int;
    let y = s.y as int;
    assert(((x + y) % 256 - x - y) % 256 == 0 && (((x - y) % 256) + y - x) % 256 == 0 && ((x * y) % 256 - x * y) % 256 == 0)
        by (nonlinear_arith)
        requires
            0 <= x < 256,
            0 <= y < 256,
    ;
    assert forall|i: u8| i < 8 implies #[trigger] bit(s.run(Instruction::And, mem).state.x, i) == (bit(s.x, i) && bit(s.y, i)) by {
        lemma_byte_bits(s.x, s.y, i);
    }
    assert forall|i: u8| i < 8 implies #[trigger] bit(s.run(Instruction::Or, mem).state.x, i) == (bit(s.x, i) || bit(s.y, i)) by {
        lemma_byte_bits(s.x, s.y, i);
    }
    assert forall|i: u8| i < 8 implies #[trigger] bit(s.run(Instruction::Xor, mem).state.x, i) == (bit(s.x, i) != bit(s.y, i)) by {
        lemma_byte_bits(s.x, s.y, i);
    }
}

/// The operations on `X` alone: `LSH` doubles it modulo 256, `RSH` halves it (dropping the low
/// bit), `NOT` complements it; the old `X` goes to `X0` and nothing else changes. A direct load
/// and `CLR` set `X` to the value and to zero, and `LUP` and `PUP` replace the high and the low
/// four bits of `X` by the operand.
pub proof fn lemma_unary_operations(s: CpuState, v: u8, op: u8, mem: Seq<u8>)
    requires
        op < 16,
    ensures
        ({
            let lsh = s.run(Instruction::Lsh, mem).state;
            let rsh = s.run(Instruction::Rsh, mem).state;
            let not = s.run(Instruction::Not, mem).state;
            &&& (lsh.x - 2 * s.x) % 256 == 0 && lsh == (CpuState { x: lsh.x, x0: s.x, ..s })
            &&& rsh.x * 2 + s.x % 2 == s.x && rsh == (CpuState { x: rsh.x, x0: s.x, ..s })
            &&& not.x + s.x == 255 && not == (CpuState { x: not.x, x0: s.x, ..s })
            &&& s.run(Instruction::Immediate(v), mem).state == (CpuState { x: v, ..s })
            &&& s.run(Instruction::Clr, mem).state == (CpuState { x: 0, ..s })
            &&& s.run(Instruction::Lup(op), mem).state.x / 16 == op
            &&& s.run(Instruction::Lup(op), mem).state.x % 16 == s.x % 16
            &&& s.run(Instruction::Pup(op), mem).state.x / 16 == s.x / 16
            &&& s.run(Instruction::Pup(op), mem).state.x % 16 == op
        }),
{
    reveal(CpuState::execute);
    let x = s.x as int;
    assert(((x * 2) % 256 - 2 * x) % 256 == 0 && (x / 2) * 2 + x % 2 == x) by (nonlinear_arith)
        requires
            0 <= x < 256,
    ;
    assert((x % 16 + op * 16) / 16 == op && (x % 16 + op * 16) % 16 == x % 16 && (x - x % 16 + op) / 16
        == x / 16 && (x - x % 16 + op) % 16 == op) by (nonlinear_arith)
        requires
            0 <= x < 256,
            0 <= op < 16,
    ;
}

/// Indirect addressing through register operand `op` (1 to 15, register `R<op>`): the address is
/// the register's value; after the access `R1`..`R5` hold one less and `R11`..`R15` one more
/// (modulo 256), `R6`..`R10` and every other register keep their value. `JMP` goes to the
/// address, `JZ` goes there when `X` is zero and `JGT` when `X` is from 1 to 127, else `pc`
/// stays; `LD` reads `X` from the address, `ST` writes `X` there.
pub proof fn lemma_indirect_operations(s: CpuState, op: u8, mem: Seq<u8>)
    requires
        s.wf(),
        1 <= op < 16,
        (s.registers[op - 1] as int) < mem.len(),
    ensures
        ({
            let a = s.registers[op - 1];
            let after = s.run(Instruction::Jmp(op), mem).state.registers;
            &&& forall|k: int| 0 <= k < 15 && k != op - 1 ==> #[trigger] after[k] == s.registers[k]
            &&& after.len() == 15
            &&& 1 <= op <= 5 ==> (after[op - 1] + 1 - a) % 256 == 0
            &&& 6 <= op <= 10 ==> after[op - 1] == a
            &&& 11 <= op <= 15 ==> (after[op - 1] - 1 - a) % 256 == 0
            &&& s.run(Instruction::Jmp(op), mem).state.pc == a
            &&& s.run(Instruction::Jz(op), mem).state.pc == (if s.x == 0 { a } else { s.pc })
            &&& s.run(Instruction::Jgt(op), mem).state.pc == (if 1 <= s.x <= 127 { a } else { s.pc })
            &&& s.run(Instruction::Ld(op), mem).state.x == mem[a as int]
            &&& s.run(Instruction::St(op), mem).mem == mem.update(a as int, s.x)
            &&& s.run(Instruction::Ld(op), mem).state.registers == after
            &&& s.run(Instruction::St(op), mem).state.registers == after
        }),
{
    reveal(CpuState::execute);
    let a = s.registers[op - 1] as int;
    assert((((a + 255) % 256) + 1 - a) % 256 == 0 && (((a + 1) % 256) - 1 - a) % 256 == 0) by (nonlinear_arith)
        requires
            0 <= a < 256,
    ;
}

/// Opcode zero is the stop, the `0111rrrr` group is the only one without an instruction, and
/// every other opcode decodes to an instruction.
pub proof fn lemma_decode_errors(opcode: u8)
    ensures
        decode_spec(opcode) == Err::<Instruction, CpuError>(CpuError::NOP) <==> opcode == 0,
        decode_spec(opcode) == Err::<Instruction, CpuError>(CpuError::InvalidOpcode(opcode)) <==> 0x70 <= opcode < 0x80,
        decode_spec(opcode) is Ok <==> opcode != 0 && !(0x70 <= opcode < 0x80),
        0 < opcode < 64 ==> decode_spec(opcode) == Ok::<Instruction, CpuError>(Instruction::Immediate(opcode)),
{
}

/// `n` steps of the processor from `s`, stopping at the first error.
pub open spec fn run_steps(s: CpuState, prog: Seq<u8>, mem: Seq<u8>, n: nat) -> Outcome
    decreases n,
{
    if n == 0 {
        Outcome { state: s, mem, result: Ok(()) }
    } else {
        let o = run_steps(s, prog, mem, (n - 1) as nat);
        if o.result is Err {
            o
        } else {
            o.state.step(prog, o.mem)
        }
    }
}

pub proof fn lemma_run_one(s: CpuState, prog: Seq<u8>, mem: Seq<u8>)
    ensures
        run_steps(s, prog, mem, 1) == s.step(prog, mem),
{
    assert(run_steps(s, prog, mem, 0) == Outcome { state: s, mem, result: Ok::<(), CpuError>(()) });
}

pub proof fn lemma_run_two(s: CpuState, prog: Seq<u8>, mem: Seq<u8>)
    requires
        s.step(prog, mem).result is Ok,
    ensures
        run_steps(s, prog, mem, 2) == s.step(prog, mem).state.step(prog, s.step(prog, mem).mem),
{
    lemma_run_one(s, prog, mem);
}

/// A direct-load opcode at `pc` puts its value in `X` and moves on.
pub proof fn lemma_immediate_loads(s: CpuState, v: u8, prog: Seq<u8>, mem: Seq<u8>)
    requires
        0 < v < 64,
        prog.len() == 256,
        prog[s.pc as int] == v,
    ensures
        run_steps(s, prog, mem, 1) == (Outcome { state: s.with_x(v).with_pc(inc8(s.pc)), mem, result: Ok::<(), CpuError>(()) }),
{
    lemma_run_one(s, prog, mem);
    assert(decode_spec(v) == Ok::<Instruction, CpuError>(Instruction::Immediate(v)));
    reveal(CpuState::execute);
}

/// A `LUP` of the high nibble of `v` at `pc` followed by a `PUP` of its low nibble: two steps leave
/// `v` in `X`, move `pc` on by two (modulo 256), and change nothing else.
pub proof fn lemma_pair_loads(s: CpuState, v: u8, prog: Seq<u8>, mem: Seq<u8>)
    requires
        prog.len() == 256,
        prog[s.pc as int] == (0x40 + v / 16) as u8,
        prog[inc8(s.pc) as int] == (0x50 + v % 16) as u8,
    ensures
        run_steps(s, prog, mem, 2) == (Outcome {
            state: s.with_x(v).with_pc(inc8(inc8(s.pc))),
            mem,
            result: Ok::<(), CpuError>(()),
        }),
{
    let c1 = (0x40 + v / 16) as u8;
    let c2 = (0x50 + v % 16) as u8;
    assert(decode_spec(c1) == Ok::<Instruction, CpuError>(Instruction::Lup(v / 16)));
    assert(decode_spec(c2) == Ok::<Instruction, CpuError>(Instruction::Pup(v % 16)));
    let lup = Instruction::Lup(v / 16);
    let pup = Instruction::Pup(v % 16);
    let f = s.fetched();
    let s1 = f.run(lup, mem).state;
    assert(f.execute(lup, mem) is Ok && s1.pc == inc8(s.pc) && f.run(lup, mem).mem == mem) by {
        reveal(CpuState::execute);
    }
    assert(s.step(prog, mem) == f.run(lup, mem));
    lemma_run_two(s, prog, mem);
    let s2 = s.with_pc(inc8(inc8(s.pc)));
    assert(s1.fetched() == s2.run(lup, mem).state) by {
        reveal(CpuState::execute);
    }
    assert(s1.step(prog, mem) == s1.fetched().run(pup, mem));
    lemma_lup_pup_loads(s2, v, mem);
    let s3 = s2.run(lup, mem).state;
    assert(s3.run(pup, mem).mem == mem && s3.run(pup, mem).result == Ok::<(), CpuError>(())) by {
        reveal(CpuState::execute);
    }
    assert(s2.with_x(v) == s.with_x(v).with_pc(inc8(inc8(s.pc))));
}

/// A `CALL` through register operand `op` at `pc` whose target holds a `RET`: two steps come
/// back to the instruction after the `CALL` with the call stack as it was; only the register
/// used for the address may have counted.
pub proof fn lemma_call_ret_steps(s: CpuState, op: u8, prog: Seq<u8>, mem: Seq<u8>)
    requires
        s.wf(),
        s.stack_ptr < 4,
        op < 16,
        prog.len() == 256,
        prog[s.pc as int] == (0xF0 + op) as u8,
        prog[s.fetched().address(op) as int] == 0xCD,
    ensures
        run_steps(s, prog, mem, 2) == (Outcome {
            state: s.fetched().after_address(op),
            mem,
            result: Ok::<(), CpuError>(()),
        }),
{
    let f = s.fetched();
    assert(decode_spec((0xF0 + op) as u8) == Ok::<Instruction, CpuError>(Instruction::Call(op)));
    assert(decode_spec(0xCD) == Ok::<Instruction, CpuError>(Instruction::Ret));
    assert(f.wf());
    lemma_call_then_ret(f, op, mem);
    let called = f.run(Instruction::Call(op), mem).state;
    assert(f.run(Instruction::Call(op), mem).result == Ok::<(), CpuError>(()) && f.run(Instruction::Call(op), mem).mem == mem) by {
        reveal(CpuState::execute);
    }
    assert(s.step(prog, mem) == f.run(Instruction::Call(op), mem));
    lemma_run_two(s, prog, mem);
    let back = called.fetched();
    assert(back.run(Instruction::Ret, mem) == called.run(Instruction::Ret, mem)) by {
        reveal(CpuState::execute);
        assert(back.run(Instruction::Ret, mem).state.stack =~= called.run(Instruction::Ret, mem).state.stack);
    }
    assert(called.run(Instruction::Ret, mem).mem == mem) by {
        reveal(CpuState::execute);
    }
    assert(called.pc == f.address(op));
    assert(called.step(prog, mem) == back.run(Instruction::Ret, mem));
}

/// A `ST` through register operand `op` followed by a `LD` through the same operand, where the
/// operand does not count (`Y` or `R6`..`R10`): memory takes `X` at the address, and `X`
/// reads back unchanged.
pub proof fn lemma_store_then_load(s: CpuState, op: u8, prog: Seq<u8>, mem: Seq<u8>)
    requires
        s.wf(),
        op == 0 || 6 <= op <= 10,
        prog.len() == 256,
        prog[s.pc as int] == (0x90 + op) as u8,
        prog[inc8(s.pc) as int] == (0x80 + op) as u8,
        (s.address(op) as int) < mem.len(),
    ensures
        run_steps(s, prog, mem, 2) == (Outcome {
            state: s.with_pc(inc8(inc8(s.pc))),
            mem: mem.update(s.address(op) as int, s.x),
            result: Ok::<(), CpuError>(()),
        }),
{
    let f = s.fetched();
    assert(decode_spec((0x90 + op) as u8) == Ok::<Instruction, CpuError>(Instruction::St(op)));
    assert(decode_spec((0x80 + op) as u8) == Ok::<Instruction, CpuError>(Instruction::Ld(op)));
    let stored = f.run(Instruction::St(op), mem);
    let m2 = mem.update(s.address(op) as int, s.x);
    assert(stored.result == Ok::<(), CpuError>(()) && stored.state == f && stored.mem == m2) by {
        reveal(CpuState::execute);
    }
    assert(s.step(prog, mem) == stored);
    lemma_run_two(s, prog, mem);
    let g = f.fetched();
    assert(g.run(Instruction::Ld(op), m2) == (Outcome { state: s.with_pc(inc8(inc8(s.pc))), mem: m2, result: Ok::<(), CpuError>(()) })) by {
        reveal(CpuState::execute);
    }
    assert(f.step(prog, m2) == g.run(Instruction::Ld(op), m2));
}

} // verus!
