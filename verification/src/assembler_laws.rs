use vstd::prelude::*;

use crate::assembler::{
    AsmErrorSpec, EntrySpec, Nibble, OperandSpec, lup_word, nibble_entry, pup_word, reg_op_code, register_code,
    set_word, single_op_code, spec_binary, spec_instruction, spec_line,
};
use crate::cpu::{CpuError, CpuState, Instruction, Outcome, decode_spec};
use crate::cpu_laws::{lemma_immediate_loads, lemma_pair_loads, run_steps};
use crate::text::{all_digits, digits_value, is_digit, parse_u8_spec, unsigned_part, words};

verus! {

/// The register-less instruction that a mnemonic names in the instruction set.
pub open spec fn named_op(m: Seq<char>) -> Option<Instruction> {
    if m == seq!['P', 'T', 'S'] { Some(Instruction::Pts) }
    else if m == seq!['E', 'X', 'Y'] { Some(Instruction::Exy) }
    else if m == seq!['R', 'T', 'S'] { Some(Instruction::Rts) }
    else if m == seq!['R', 'P', 'V'] { Some(Instruction::Rpv) }
    else if m == seq!['A', 'D', 'D'] { Some(Instruction::Add) }
    else if m == seq!['S', 'U', 'B'] { Some(Instruction::Sub) }
    else if m == seq!['M', 'U', 'L'] { Some(Instruction::Mul) }
    else if m == seq!['L', 'S', 'H'] { Some(Instruction::Lsh) }
    else if m == seq!['R', 'S', 'H'] { Some(Instruction::Rsh) }
    else if m == seq!['A', 'N', 'D'] { Some(Instruction::And) }
    else if m == seq!['O', 'R'] { Some(Instruction::Or) }
    else if m == seq!['X', 'O', 'R'] { Some(Instruction::Xor) }
    else if m == seq!['N', 'O', 'T'] { Some(Instruction::Not) }
    else if m == seq!['R', 'E', 'T'] { Some(Instruction::Ret) }
    else if m == seq!['C', 'L', 'R'] { Some(Instruction::Clr) }
    else if m == seq!['P', 'O', 'P'] { Some(Instruction::Pop) }
    else { None }
}

/// The register instruction that a mnemonic names, applied to register code `r`.
pub open spec fn named_reg_op(m: Seq<char>, r: u8) -> Option<Instruction> {
    if m == seq!['R', 'V', 'R'] { Some(Instruction::Rvr(r)) }
    else if m == seq!['W', 'V', 'R'] { Some(Instruction::Wvr(r)) }
    else if m == seq!['L', 'D'] { Some(Instruction::Ld(r)) }
    else if m == seq!['S', 'T'] { Some(Instruction::St(r)) }
    else if m == seq!['J', 'Z'] { Some(Instruction::Jz(r)) }
    else if m == seq!['J', 'M', 'P'] { Some(Instruction::Jmp(r)) }
    else if m == seq!['C', 'A', 'L', 'L'] { Some(Instruction::Call(r)) }
    else if m == seq!['J', 'G', 'T'] { Some(Instruction::Jgt(r)) }
    else { None }
}

/// What the processor must make of an emitted listing entry, read from its mnemonic and operand:
/// `NOP` stops it, the other mnemonics are the instructions of the same name, `SET` with a value
/// from 1 to 63 is a direct load.
pub open spec fn entry_meaning(e: EntrySpec) -> Option<Result<Instruction, CpuError>> {
    if e.mnemonic == seq!['N', 'O', 'P'] {
        Some(Err(CpuError::NOP))
    } else if named_op(e.mnemonic) is Some {
        Some(Ok(named_op(e.mnemonic).unwrap()))
    } else {
        match e.operand {
            OperandSpec::Register(r) => match register_code(r) {
                Some(rc) => match named_reg_op(e.mnemonic, rc) {
                    Some(ins) => Some(Ok(ins)),
                    None => None,
                },
                None => None,
            },
            OperandSpec::Value(v) => {
                if e.mnemonic == lup_word() {
                    Some(Ok(Instruction::Lup(v / 16)))
                } else if e.mnemonic == pup_word() {
                    Some(Ok(Instruction::Pup(v % 16)))
                } else if e.mnemonic == set_word() {
                    Some(Ok(Instruction::Immediate(v)))
                } else {
                    None
                }
            },
            OperandSpec::Absent => None,
        }
    }
}

proof fn lemma_or_low_nibble(c: u8, r: u8)
    requires
        c % 16 == 0,
        r < 16,
    ensures
        c | r == c + r,
{
    assert(c | r == c + r) by (bit_vector)
        requires
            c % 16 == 0,
            r < 16,
    ;
}

/// The opcodes that the assembler emits are the ones the processor decodes back into the
/// instruction that the listing names.
pub proof fn lemma_listing_decodes(line: Seq<char>)
    requires
        spec_line(line) is Ok,
    ensures
        forall|i: int|
            0 <= i < spec_line(line)->Ok_0.len() && (#[trigger] spec_line(line)->Ok_0[i]).emitted
                ==> entry_meaning(spec_line(line)->Ok_0[i]) == Some(decode_spec(spec_line(line)->Ok_0[i].code)),
{
    if !(line.len() > 0 && line[0] == '#') && words(line).len() > 0 {
        let toks = words(line);
        let m = toks[0];
        let es = spec_instruction(toks)->Ok_0;
        if single_op_code(m) is Some {
        } else if reg_op_code(m) is Some {
            if toks.len() > 1 && register_code(toks[1]) is Some {
                lemma_or_low_nibble(reg_op_code(m).unwrap(), register_code(toks[1]).unwrap());
            }
        } else if m == lup_word() || m == pup_word() {
            let arg: Option<Seq<char>> = if toks.len() > 1 { Some(toks[1]) } else { None };
            if toks.len() > 1 {
                let v = parse_u8_spec(toks[1]).unwrap();
                lemma_or_low_nibble(0x40, v / 16);
                lemma_or_low_nibble(0x50, v % 16);
            }
        } else if m == set_word() {
            let v = parse_u8_spec(toks[1]).unwrap();
            lemma_or_low_nibble(0x40, v / 16);
            lemma_or_low_nibble(0x50, v % 16);
        }
    }
}

/// The listing of `SET v`: a direct load for 1 to 63, else a `LUP`/`PUP` pair.
proof fn lemma_set_entries(arg: Seq<char>, v: u8)
    requires
        parse_u8_spec(arg) == Some(v),
    ensures
        spec_instruction(seq![set_word(), arg]) == Ok::<Seq<EntrySpec>, AsmErrorSpec>(
            if 0 < v < 64 {
                seq![EntrySpec { mnemonic: set_word(), operand: OperandSpec::Value(v), code: v, emitted: true }]
            } else {
                seq![nibble_entry(lup_word(), 0x40, v, Nibble::Upper), nibble_entry(pup_word(), 0x50, v, Nibble::Lower)]
            },
        ),
{
    let toks = seq![set_word(), arg];
    assert(toks[0] == set_word());
    assert(single_op_code(set_word()) is None);
    assert(reg_op_code(set_word()) is None);
    assert(set_word() != lup_word() && set_word() != pup_word());
}

/// `SET v` does what it promises, wherever it is placed in program memory: run from its first
/// byte, the code it assembles to leaves `v` in `X`, moves `pc` past itself (modulo 256), and
/// changes nothing else.
pub proof fn lemma_set_loads(s: CpuState, arg: Seq<char>, v: u8, prog: Seq<u8>, mem: Seq<u8>)
    requires
        parse_u8_spec(arg) == Some(v),
        prog.len() == 256,
        spec_instruction(seq![set_word(), arg]) is Ok ==> ({
            let code = spec_binary(spec_instruction(seq![set_word(), arg])->Ok_0);
            forall|i: int| 0 <= i < code.len() ==> prog[(s.pc + i) % 256] == #[trigger] code[i]
        }),
    ensures
        spec_instruction(seq![set_word(), arg]) is Ok,
        ({
            let code = spec_binary(spec_instruction(seq![set_word(), arg])->Ok_0);
            run_steps(s, prog, mem, code.len()) == (Outcome {
                state: s.with_x(v).with_pc(((s.pc + code.len()) % 256) as u8),
                mem,
                result: Ok::<(), CpuError>(()),
            })
        }),
{
    lemma_set_entries(arg, v);
    let es = spec_instruction(seq![set_word(), arg])->Ok_0;
    let code = spec_binary(es);
    reveal_with_fuel(spec_binary, 3);
    if 0 < v < 64 {
        assert(es.drop_last() =~= Seq::<EntrySpec>::empty());
        assert(code =~= seq![v]);
        assert(prog[(s.pc + 0) % 256] == code[0]);
        lemma_immediate_loads(s, v, prog, mem);
    } else {
        let hi = nibble_entry(lup_word(), 0x40, v, Nibble::Upper);
        let lo = nibble_entry(pup_word(), 0x50, v, Nibble::Lower);
        assert(es.drop_last() =~= seq![hi]);
        assert(es.drop_last().drop_last() =~= Seq::<EntrySpec>::empty());
        lemma_or_low_nibble(0x40, v / 16);
        lemma_or_low_nibble(0x50, v % 16);
        assert(code =~= seq![(0x40 + v / 16) as u8, (0x50 + v % 16) as u8]);
        assert(prog[(s.pc + 0) % 256] == code[0]);
        assert(prog[(s.pc + 1) % 256] == code[1]);
        lemma_pair_loads(s, v, prog, mem);
    }
}

/// The decimal digit character for `d` (`d` below 10).
pub open spec fn digit_char(d: nat) -> char {
    seq!['0', '1', '2', '3', '4', '5', '6', '7', '8', '9'][d as int]
}

/// The decimal numeral of `n`, without leading zeros.
pub open spec fn decimal(n: nat) -> Seq<char>
    decreases n,
{
    if n < 10 {
        seq![digit_char(n)]
    } else {
        decimal(n / 10).push(digit_char(n % 10))
    }
}

proof fn lemma_digit_char(d: nat)
    requires
        d < 10,
    ensures
        is_digit(digit_char(d)),
        digit_char(d) as nat - '0' as nat == d,
{
    let t = seq!['0', '1', '2', '3', '4', '5', '6', '7', '8', '9'];
    assert(t[0] == '0' && t[1] == '1' && t[2] == '2' && t[3] == '3' && t[4] == '4');
    assert(t[5] == '5' && t[6] == '6' && t[7] == '7' && t[8] == '8' && t[9] == '9');
}

proof fn lemma_decimal_value(n: nat)
    ensures
        decimal(n).len() > 0,
        all_digits(decimal(n)),
        digits_value(decimal(n)) == n,
        decimal(n)[0] != '+',
    decreases n,
{
    if n < 10 {
        lemma_digit_char(n);
        let d = decimal(n);
        assert(d =~= seq![digit_char(n)]);
        assert(d.drop_last() =~= Seq::<char>::empty());
        assert(d.last() == digit_char(n));
        assert(digits_value(d.drop_last()) == 0);
        assert(digits_value(d) == digits_value(d.drop_last()) * 10 + (d.last() as nat - '0' as nat) as nat);
    } else {
        lemma_decimal_value(n / 10);
        lemma_digit_char(n % 10);
        let d = decimal(n);
        assert(d == decimal(n / 10).push(digit_char(n % 10)));
        assert(d.drop_last() =~= decimal(n / 10));
        assert(d.last() == digit_char(n % 10));
        assert(digits_value(d) == digits_value(d.drop_last()) * 10 + (d.last() as nat - '0' as nat) as nat);
        assert(n == (n / 10) * 10 + n % 10);
        assert forall|i: int| 0 <= i < d.len() implies is_digit(#[trigger] d[i]) by {
            if i < d.len() - 1 {
                assert(d[i] == decimal(n / 10)[i]);
            }
        }
        assert(d[0] == decimal(n / 10)[0]);
    }
}

/// Byte values read back: the decimal numeral of every byte value, with or without a leading
/// `+`, parses to that value, and the numeral of any larger number does not parse.
pub proof fn lemma_parse_decimal(n: nat)
    ensures
        n <= 255 ==> parse_u8_spec(decimal(n)) == Some(n as u8),
        n <= 255 ==> parse_u8_spec(seq!['+'] + decimal(n)) == Some(n as u8),
        n > 255 ==> parse_u8_spec(decimal(n)) is None,
{
    lemma_decimal_value(n);
    assert(unsigned_part(decimal(n)) == decimal(n));
    assert(unsigned_part(seq!['+'] + decimal(n)) =~= decimal(n));
}

/// Register names: `Y` names register 0, `R` followed by the decimal numeral of `n` names
/// register `n` for `n` from 1 to 15, and no other word names a register.
pub proof fn lemma_register_names()
    ensures
        register_code(seq!['Y']) == Some(0u8),
        forall|n: nat| 1 <= n <= 15 ==> #[trigger] register_code(seq!['R'] + decimal(n)) == Some(n as u8),
        forall|r: Seq<char>|
            #[trigger] register_code(r) is Some ==> (register_code(r)->0 == 0 && r == seq!['Y']) || (1
                <= register_code(r)->0 <= 15 && r == seq!['R'] + decimal(register_code(r)->0 as nat)),
{
    reveal_with_fuel(decimal, 2);
    let d = seq!['0', '1', '2', '3', '4', '5', '6', '7', '8', '9'];
    assert forall|n: nat| 1 <= n <= 15 implies #[trigger] register_code(seq!['R'] + decimal(n)) == Some(n as u8) by {
        lemma_register_name(n);
    }
    assert forall|r: Seq<char>| #[trigger] register_code(r) is Some implies (register_code(r)->0 == 0 && r
        == seq!['Y']) || (1 <= register_code(r)->0 <= 15 && r == seq!['R'] + decimal(register_code(r)->0 as nat)) by {
        let c = register_code(r)->0;
        if c != 0 {
            lemma_register_name(c as nat);
        }
    }
}

proof fn lemma_register_name(n: nat)
    requires
        1 <= n <= 15,
    ensures
        register_code(seq!['R'] + decimal(n)) == Some(n as u8),
        forall|r: Seq<char>| #[trigger] register_code(r) == Some(n as u8) ==> r == seq!['R'] + decimal(n),
{
    reveal_with_fuel(decimal, 2);
    let name = seq!['R'] + decimal(n);
    if n < 10 {
        assert(name =~= seq!['R', digit_char(n)]);
    } else {
        assert(decimal(n / 10) == seq!['1']);
        assert(name =~= seq!['R', '1', digit_char((n % 10) as nat)]);
    }
    if n == 1 { assert(name =~= seq!['R', '1']); }
    else if n == 2 { assert(name =~= seq!['R', '2']); }
    else if n == 3 { assert(name =~= seq!['R', '3']); }
    else if n == 4 { assert(name =~= seq!['R', '4']); }
    else if n == 5 { assert(name =~= seq!['R', '5']); }
    else if n == 6 { assert(name =~= seq!['R', '6']); }
    else if n == 7 { assert(name =~= seq!['R', '7']); }
    else if n == 8 { assert(name =~= seq!['R', '8']); }
    else if n == 9 { assert(name =~= seq!['R', '9']); }
    else if n == 10 { assert(name =~= seq!['R', '1', '0']); }
    else if n == 11 { assert(name =~= seq!['R', '1', '1']); }
    else if n == 12 { assert(name =~= seq!['R', '1', '2']); }
    else if n == 13 { assert(name =~= seq!['R', '1', '3']); }
    else if n == 14 { assert(name =~= seq!['R', '1', '4']); }
    else { assert(name =~= seq!['R', '1', '5']); }
}

} // verus!
