use vstd::prelude::*;

use crate::text::{chars_eq, lines_of, parse_u8, parse_u8_spec, split_lines, split_whitespace, views, words};

verus! {

/// Which half of a byte a partial load carries.
#[derive(Debug, Clone, Copy, PartialEq, Eq, Structural)]
pub enum Nibble {
    Upper,
    Lower,
}

pub open spec fn nibble_spec(which: Nibble, v: u8) -> u8 {
    match which {
        Nibble::Upper => v / 16,
        Nibble::Lower => v % 16,
    }
}

/// The high four bits of `v`, moved down to the low end.
pub fn upper_nibble(v: u8) -> (r: u8)
    ensures
        r == v / 16,
{
    let r = (v & 0b1111_0000) >> 4;
    assert(r == v / 16) by (bit_vector)
        requires
            r == (v & 0xF0) >> 4,
    ;
    r
}

/// The low four bits of `v`.
pub fn lower_nibble(v: u8) -> (r: u8)
    ensures
        r == v % 16,
{
    let r = v & 0b0000_1111;
    assert(r == v % 16) by (bit_vector)
        requires
            r == v & 0x0F,
    ;
    r
}

fn nibble(which: Nibble, v: u8) -> (r: u8)
    ensures
        r == nibble_spec(which, v),
{
    match which {
        Nibble::Upper => upper_nibble(v),
        Nibble::Lower => lower_nibble(v),
    }
}

/// What follows the mnemonic in a listing line.
#[derive(Debug, Clone, PartialEq, Eq)]
pub enum Operand {
    Absent,
    /// A register name, as written.
    Register(Vec<char>),
    /// A value, as parsed.
    Value(u8),
}

pub enum OperandSpec {
    Absent,
    Register(Seq<char>),
    Value(u8),
}

impl View for Operand {
    type V = OperandSpec;

    open spec fn view(&self) -> OperandSpec {
        match self {
            Operand::Absent => OperandSpec::Absent,
            Operand::Register(r) => OperandSpec::Register(r@),
            Operand::Value(v) => OperandSpec::Value(*v),
        }
    }
}

/// One line of the assembler's listing: the instruction and its operand, the opcode, and whether
/// the opcode went into the program (a register instruction written without its register is
/// listed but not emitted).
#[derive(Debug, Clone, PartialEq, Eq)]
pub struct AsmEntry {
    pub mnemonic: Vec<char>,
    pub operand: Operand,
    pub code: u8,
    pub emitted: bool,
}

pub struct EntrySpec {
    pub mnemonic: Seq<char>,
    pub operand: OperandSpec,
    pub code: u8,
    pub emitted: bool,
}

impl View for AsmEntry {
    type V = EntrySpec;

    open spec fn view(&self) -> EntrySpec {
        EntrySpec {
            mnemonic: self.mnemonic@,
            operand: self.operand@,
            code: self.code,
            emitted: self.emitted,
        }
    }
}

pub open spec fn entry_views(v: Seq<AsmEntry>) -> Seq<EntrySpec> {
    v.map_values(|e: AsmEntry| e@)
}

/// Why a source text does not assemble.
#[derive(Debug, Clone, PartialEq, Eq)]
pub enum AsmError {
    /// A register instruction names something that is not `Y` or `R1`..`R15`.
    UnknownRegister(Vec<char>),
    /// `LUP`, `PUP` or `SET` (the instruction given) without a value that parses as a byte.
    InvalidValue(Vec<char>),
    /// The program would take more than the 256 bytes of program memory; the number of bytes.
    TooManyCommands(usize),
}

pub enum AsmErrorSpec {
    UnknownRegister(Seq<char>),
    InvalidValue(Seq<char>),
    TooManyCommands(nat),
}

impl View for AsmError {
    type V = AsmErrorSpec;

    open spec fn view(&self) -> AsmErrorSpec {
        match self {
            AsmError::UnknownRegister(r) => AsmErrorSpec::UnknownRegister(r@),
            AsmError::InvalidValue(m) => AsmErrorSpec::InvalidValue(m@),
            AsmError::TooManyCommands(n) => AsmErrorSpec::TooManyCommands(*n as nat),
        }
    }
}

/// An assembled program: the listing and the bytes of the program image.
#[derive(Debug, Clone, PartialEq, Eq)]
pub struct Assembly {
    pub listing: Vec<AsmEntry>,
    pub binary: Vec<u8>,
}

pub struct AssemblySpec {
    pub listing: Seq<EntrySpec>,
    pub binary: Seq<u8>,
}

pub open spec fn entries_result_view(r: Result<Vec<AsmEntry>, AsmError>) -> Result<Seq<EntrySpec>, AsmErrorSpec> {
    match r {
        Ok(v) => Ok(entry_views(v@)),
        Err(e) => Err(e@),
    }
}

pub open spec fn entry_result_view(r: Result<AsmEntry, AsmError>) -> Result<EntrySpec, AsmErrorSpec> {
    match r {
        Ok(v) => Ok(v@),
        Err(e) => Err(e@),
    }
}

pub open spec fn assembly_result_view(r: Result<Assembly, AsmError>) -> Result<AssemblySpec, AsmErrorSpec> {
    match r {
        Ok(a) => Ok(AssemblySpec { listing: entry_views(a.listing@), binary: a.binary@ }),
        Err(e) => Err(e@),
    }
}

/// The opcodes of the instructions without operand, as the instruction set defines them.
pub open spec fn single_op_code(m: Seq<char>) -> Option<u8> {
    if m == seq!['N', 'O', 'P'] { Some(0x00u8) }
    else if m == seq!['P', 'T', 'S'] { Some(0xC0u8) }
    else if m == seq!['E', 'X', 'Y'] { Some(0xC1u8) }
    else if m == seq!['R', 'T', 'S'] { Some(0xC2u8) }
    else if m == seq!['R', 'P', 'V'] { Some(0xC3u8) }
    else if m == seq!['A', 'D', 'D'] { Some(0xC4u8) }
    else if m == seq!['S', 'U', 'B'] { Some(0xC5u8) }
    else if m == seq!['M', 'U', 'L'] { Some(0xC6u8) }
    else if m == seq!['L', 'S', 'H'] { Some(0xC7u8) }
    else if m == seq!['R', 'S', 'H'] { Some(0xC8u8) }
    else if m == seq!['A', 'N', 'D'] { Some(0xC9u8) }
    else if m == seq!['O', 'R'] { Some(0xCAu8) }
    else if m == seq!['X', 'O', 'R'] { Some(0xCBu8) }
    else if m == seq!['N', 'O', 'T'] { Some(0xCCu8) }
    else if m == seq!['R', 'E', 'T'] { Some(0xCDu8) }
    else if m == seq!['C', 'L', 'R'] { Some(0xCEu8) }
    else if m == seq!['P', 'O', 'P'] { Some(0xCFu8) }
    else { None }
}

/// The opcodes (high nibble) of the instructions with a register operand.
pub open spec fn reg_op_code(m: Seq<char>) -> Option<u8> {
    if m == seq!['R', 'V', 'R'] { Some(0x60u8) }
    else if m == seq!['W', 'V', 'R'] { Some(0xD0u8) }
    else if m == seq!['L', 'D'] { Some(0x80u8) }
    else if m == seq!['S', 'T'] { Some(0x90u8) }
    else if m == seq!['J', 'Z'] { Some(0xA0u8) }
    else if m == seq!['J', 'M', 'P'] { Some(0xB0u8) }
    else if m == seq!['C', 'A', 'L', 'L'] { Some(0xF0u8) }
    else if m == seq!['J', 'G', 'T'] { Some(0xE0u8) }
    else { None }
}

/// The four-bit code of a register name: `Y` is 0, `R1`..`R15` are 1 to 15.
pub open spec fn register_code(r: Seq<char>) -> Option<u8> {
    if r == seq!['Y'] { Some(0u8) }
    else if r == seq!['R', '1'] { Some(1u8) }
    else if r == seq!['R', '2'] { Some(2u8) }
    else if r == seq!['R', '3'] { Some(3u8) }
    else if r == seq!['R', '4'] { Some(4u8) }
    else if r == seq!['R', '5'] { Some(5u8) }
    else if r == seq!['R', '6'] { Some(6u8) }
    else if r == seq!['R', '7'] { Some(7u8) }
    else if r == seq!['R', '8'] { Some(8u8) }
    else if r == seq!['R', '9'] { Some(9u8) }
    else if r == seq!['R', '1', '0'] { Some(10u8) }
    else if r == seq!['R', '1', '1'] { Some(11u8) }
    else if r == seq!['R', '1', '2'] { Some(12u8) }
    else if r == seq!['R', '1', '3'] { Some(13u8) }
    else if r == seq!['R', '1', '4'] { Some(14u8) }
    else if r == seq!['R', '1', '5'] { Some(15u8) }
    else { None }
}

pub open spec fn lup_word() -> Seq<char> {
    seq!['L', 'U', 'P']
}

pub open spec fn pup_word() -> Seq<char> {
    seq!['P', 'U', 'P']
}

pub open spec fn set_word() -> Seq<char> {
    seq!['S', 'E', 'T']
}

/// A partial load: `opcode` combined with one nibble of `value`.
pub open spec fn nibble_entry(m: Seq<char>, opcode: u8, value: u8, which: Nibble) -> EntrySpec {
    EntrySpec {
        mnemonic: m,
        operand: OperandSpec::Value(value),
        code: opcode | nibble_spec(which, value),
        emitted: true,
    }
}

/// What the words of one line assemble to, given that the line has at least one word.
pub open spec fn spec_instruction(toks: Seq<Seq<char>>) -> Result<Seq<EntrySpec>, AsmErrorSpec> {
    let m = toks[0];
    let arg: Option<Seq<char>> = if toks.len() > 1 {
        Some(toks[1])
    } else {
        None
    };
    let value: Option<u8> = match arg {
        Some(a) => parse_u8_spec(a),
        None => None,
    };
    match single_op_code(m) {
        Some(c) => Ok(seq![EntrySpec { mnemonic: m, operand: OperandSpec::Absent, code: c, emitted: true }]),
        None => match reg_op_code(m) {
            Some(c) => match arg {
                Some(r) => match register_code(r) {
                    Some(rc) => Ok(seq![EntrySpec { mnemonic: m, operand: OperandSpec::Register(r), code: c | rc, emitted: true }]),
                    None => Err(AsmErrorSpec::UnknownRegister(r)),
                },
                None => Ok(seq![EntrySpec { mnemonic: m, operand: OperandSpec::Absent, code: c, emitted: false }]),
            },
            None => {
                if m == lup_word() || m == pup_word() {
                    let opcode: u8 = if m == lup_word() { 0x40 } else { 0x50 };
                    let which = if m == lup_word() { Nibble::Upper } else { Nibble::Lower };
                    match value {
                        Some(v) => Ok(seq![nibble_entry(m, opcode, v, which)]),
                        None => Err(AsmErrorSpec::InvalidValue(m)),
                    }
                } else if m == set_word() {
                    match value {
                        Some(v) => if 0 < v < 64 {
                            Ok(seq![EntrySpec { mnemonic: m, operand: OperandSpec::Value(v), code: v, emitted: true }])
                        } else {
                            Ok(seq![
                                nibble_entry(lup_word(), 0x40, v, Nibble::Upper),
                                nibble_entry(pup_word(), 0x50, v, Nibble::Lower),
                            ])
                        },
                        None => Err(AsmErrorSpec::InvalidValue(m)),
                    }
                } else {
                    Ok(Seq::empty())
                }
            },
        },
    }
}

/// What one line assembles to: nothing for a comment (`#` in the first column) or a blank line,
/// else what its first words say; words after those that the instruction uses are ignored,
/// and so is a line whose first word is no instruction.
pub open spec fn spec_line(line: Seq<char>) -> Result<Seq<EntrySpec>, AsmErrorSpec> {
    if line.len() > 0 && line[0] == '#' {
        Ok(Seq::empty())
    } else if words(line).len() == 0 {
        Ok(Seq::empty())
    } else {
        spec_instruction(words(line))
    }
}

/// The listing of a sequence of lines, or the error of the first line that does not assemble.
pub open spec fn spec_lines(lines: Seq<Seq<char>>) -> Result<Seq<EntrySpec>, AsmErrorSpec>
    decreases lines.len(),
{
    if lines.len() == 0 {
        Ok(Seq::empty())
    } else {
        match spec_lines(lines.drop_last()) {
            Err(e) => Err(e),
            Ok(es) => match spec_line(lines.last()) {
                Err(e) => Err(e),
                Ok(more) => Ok(es + more),
            },
        }
    }
}

/// The program bytes of a listing: the codes of its emitted entries, in order.
pub open spec fn spec_binary(es: Seq<EntrySpec>) -> Seq<u8>
    decreases es.len(),
{
    if es.len() == 0 {
        Seq::empty()
    } else if es.last().emitted {
        spec_binary(es.drop_last()).push(es.last().code)
    } else {
        spec_binary(es.drop_last())
    }
}

/// What a source text (already in upper case) assembles to.
pub open spec fn spec_assembly(text: Seq<char>) -> Result<AssemblySpec, AsmErrorSpec> {
    match spec_lines(split_lines(text)) {
        Err(e) => Err(e),
        Ok(es) => {
            let b = spec_binary(es);
            if b.len() > 256 {
                Err(AsmErrorSpec::TooManyCommands(b.len()))
            } else {
                Ok(AssemblySpec { listing: es, binary: b })
            }
        },
    }
}

/// The opcode of an instruction without operand.
pub fn single_op(m: &[char]) -> (r: Option<u8>)
    ensures
        r == single_op_code(m@),
{
    if chars_eq(m, &['N', 'O', 'P']) {
        Some(0x00)
    } else if chars_eq(m, &['P', 'T', 'S']) {
        Some(0xC0)
    } else if chars_eq(m, &['E', 'X', 'Y']) {
        Some(0xC1)
    } else if chars_eq(m, &['R', 'T', 'S']) {
        Some(0xC2)
    } else if chars_eq(m, &['R', 'P', 'V']) {
        Some(0xC3)
    } else if chars_eq(m, &['A', 'D', 'D']) {
        Some(0xC4)
    } else if chars_eq(m, &['S', 'U', 'B']) {
        Some(0xC5)
    } else if chars_eq(m, &['M', 'U', 'L']) {
        Some(0xC6)
    } else if chars_eq(m, &['L', 'S', 'H']) {
        Some(0xC7)
    } else if chars_eq(m, &['R', 'S', 'H']) {
        Some(0xC8)
    } else if chars_eq(m, &['A', 'N', 'D']) {
        Some(0xC9)
    } else if chars_eq(m, &['O', 'R']) {
        Some(0xCA)
    } else if chars_eq(m, &['X', 'O', 'R']) {
        Some(0xCB)
    } else if chars_eq(m, &['N', 'O', 'T']) {
        Some(0xCC)
    } else if chars_eq(m, &['R', 'E', 'T']) {
        Some(0xCD)
    } else if chars_eq(m, &['C', 'L', 'R']) {
        Some(0xCE)
    } else if chars_eq(m, &['P', 'O', 'P']) {
        Some(0xCF)
    } else {
        None
    }
}

/// The opcode of an instruction with a register operand, register bits clear.
pub fn reg_op(m: &[char]) -> (r: Option<u8>)
    ensures
        r == reg_op_code(m@),
{
    if chars_eq(m, &['R', 'V', 'R']) {
        Some(0x60)
    } else if chars_eq(m, &['W', 'V', 'R']) {
        Some(0xD0)
    } else if chars_eq(m, &['L', 'D']) {
        Some(0x80)
    } else if chars_eq(m, &['S', 'T']) {
        Some(0x90)
    } else if chars_eq(m, &['J', 'Z']) {
        Some(0xA0)
    } else if chars_eq(m, &['J', 'M', 'P']) {
        Some(0xB0)
    } else if chars_eq(m, &['C', 'A', 'L', 'L']) {
        Some(0xF0)
    } else if chars_eq(m, &['J', 'G', 'T']) {
        Some(0xE0)
    } else {
        None
    }
}

/// The four-bit code of a register name.
#[verifier::rlimit(40)]
pub fn register(m: &[char]) -> (r: Option<u8>)
    ensures
        r == register_code(m@),
{
    if m.len() == 1 && m[0] == 'Y' {
        assert(m@ =~= seq!['Y']);
        Some(0x00)
    } else if chars_eq(m, &['R', '1']) {
        Some(0x01)
    } else if chars_eq(m, &['R', '2']) {
        Some(0x02)
    } else if chars_eq(m, &['R', '3']) {
        Some(0x03)
    } else if chars_eq(m, &['R', '4']) {
        Some(0x04)
    } else if chars_eq(m, &['R', '5']) {
        Some(0x05)
    } else if chars_eq(m, &['R', '6']) {
        Some(0x06)
    } else if chars_eq(m, &['R', '7']) {
        Some(0x07)
    } else if chars_eq(m, &['R', '8']) {
        Some(0x08)
    } else if chars_eq(m, &['R', '9']) {
        Some(0x09)
    } else if chars_eq(m, &['R', '1', '0']) {
        Some(0x0A)
    } else if chars_eq(m, &['R', '1', '1']) {
        Some(0x0B)
    } else if chars_eq(m, &['R', '1', '2']) {
        Some(0x0C)
    } else if chars_eq(m, &['R', '1', '3']) {
        Some(0x0D)
    } else if chars_eq(m, &['R', '1', '4']) {
        Some(0x0E)
    } else if chars_eq(m, &['R', '1', '5']) {
        Some(0x0F)
    } else {
        None
    }
}


/// The view of an optional operand word.
pub open spec fn arg_view(a: Option<&Vec<char>>) -> Option<Seq<char>> {
    match a {
        Some(w) => Some(w@),
        None => None,
    }
}

/// The byte that an optional operand word spells, if it spells one.
pub open spec fn arg_value(a: Option<Seq<char>>) -> Option<u8> {
    match a {
        Some(w) => parse_u8_spec(w),
        None => None,
    }
}

fn parse_arg(a: Option<&Vec<char>>) -> (r: Option<u8>)
    ensures
        r == arg_value(arg_view(a)),
{
    match a {
        Some(w) => parse_u8(w.as_slice()),
        None => None,
    }
}

/// A partial load entry: `opcode` combined with the chosen nibble of `value`.
fn op_split(instruction: &[char], opcode: u8, value: u8, nibbler: Nibble) -> (e: AsmEntry)
    ensures
        e@ == nibble_entry(instruction@, opcode, value, nibbler),
{
    let op = opcode | nibble(nibbler, value);
    AsmEntry {
        mnemonic: vstd::slice::slice_to_vec(instruction),
        operand: Operand::Value(value),
        code: op,
        emitted: true,
    }
}

/// A partial load whose value is the operand word `operand`, which must spell a byte.
fn op_up(instruction: &[char], opcode: u8, operand: Option<&Vec<char>>, nibbler: Nibble) -> (r: Result<AsmEntry, AsmError>)
    ensures
        entry_result_view(r) == match arg_value(arg_view(operand)) {
            Some(v) => Ok(nibble_entry(instruction@, opcode, v, nibbler)),
            None => Err(AsmErrorSpec::InvalidValue(instruction@)),
        },
{
    match parse_arg(operand) {
        Some(value) => Ok(op_split(instruction, opcode, value, nibbler)),
        None => Err(AsmError::InvalidValue(vstd::slice::slice_to_vec(instruction))),
    }
}

/// `LUP value`: loads the high nibble of `value`.
fn op_lup(instruction: &[char], operand: Option<&Vec<char>>) -> (r: Result<AsmEntry, AsmError>)
    ensures
        entry_result_view(r) == match arg_value(arg_view(operand)) {
            Some(v) => Ok(nibble_entry(instruction@, 0x40, v, Nibble::Upper)),
            None => Err(AsmErrorSpec::InvalidValue(instruction@)),
        },
{
    op_up(instruction, 0b0100_0000, operand, Nibble::Upper)
}

/// `PUP value`: loads the low nibble of `value`.
fn op_pup(instruction: &[char], operand: Option<&Vec<char>>) -> (r: Result<AsmEntry, AsmError>)
    ensures
        entry_result_view(r) == match arg_value(arg_view(operand)) {
            Some(v) => Ok(nibble_entry(instruction@, 0x50, v, Nibble::Lower)),
            None => Err(AsmErrorSpec::InvalidValue(instruction@)),
        },
{
    op_up(instruction, 0b0101_0000, operand, Nibble::Lower)
}

fn one_entry(r: Result<AsmEntry, AsmError>) -> (out: Result<Vec<AsmEntry>, AsmError>)
    ensures
        entries_result_view(out) == match entry_result_view(r) {
            Ok(e) => Ok(seq![e]),
            Err(e) => Err(e),
        },
{
    match r {
        Ok(e) => {
            let v = vec![e];
            assert(entry_views(v@) =~= seq![v@[0]@]);
            Ok(v)
        },
        Err(e) => Err(e),
    }
}

/// Assembles one source line (already in upper case).
pub fn assemble_line(line: &[char]) -> (r: Result<Vec<AsmEntry>, AsmError>)
    ensures
        entries_result_view(r) == spec_line(line@),
{
    if line.len() > 0 && line[0] == '#' {
        let none: Vec<AsmEntry> = Vec::new();
        assert(entry_views(none@) =~= Seq::empty());
        return Ok(none);
    }
    let toks = split_whitespace(line);
    if toks.len() == 0 {
        let none: Vec<AsmEntry> = Vec::new();
        assert(entry_views(none@) =~= Seq::empty());
        return Ok(none);
    }
    let ghost t = words(line@);
    assert(t[0] == toks@[0]@);
    assert(toks@.len() > 1 ==> t[1] == toks@[1]@);
    let instruction = toks[0].as_slice();
    let arg: Option<&Vec<char>> = if toks.len() > 1 {
        Some(&toks[1])
    } else {
        None
    };
    assert(arg_view(arg) == (if t.len() > 1 { Some(t[1]) } else { None::<Seq<char>> }));
    if let Some(opcode) = single_op(instruction) {
        let e = AsmEntry {
            mnemonic: vstd::slice::slice_to_vec(instruction),
            operand: Operand::Absent,
            code: opcode,
            emitted: true,
        };
        return one_entry(Ok(e));
    }
    if let Some(opcode) = reg_op(instruction) {
        match arg {
            Some(reg) => {
                match register(reg.as_slice()) {
                    Some(reg_code) => {
                        let e = AsmEntry {
                            mnemonic: vstd::slice::slice_to_vec(instruction),
                            operand: Operand::Register(vstd::slice::slice_to_vec(reg.as_slice())),
                            code: opcode | reg_code,
                            emitted: true,
                        };
                        return one_entry(Ok(e));
                    },
                    None => {
                        return Err(AsmError::UnknownRegister(vstd::slice::slice_to_vec(reg.as_slice())));
                    },
                }
            },
            None => {
                let e = AsmEntry {
                    mnemonic: vstd::slice::slice_to_vec(instruction),
                    operand: Operand::Absent,
                    code: opcode,
                    emitted: false,
                };
                return one_entry(Ok(e));
            },
        }
    }
    if chars_eq(instruction, &['L', 'U', 'P']) {
        return one_entry(op_lup(instruction, arg));
    }
    if chars_eq(instruction, &['P', 'U', 'P']) {
        return one_entry(op_pup(instruction, arg));
    }
    if chars_eq(instruction, &['S', 'E', 'T']) {
        match parse_arg(arg) {
            Some(value) => {
                if value > 0 && value < 64 {
                    let e = AsmEntry {
                        mnemonic: vstd::slice::slice_to_vec(instruction),
                        operand: Operand::Value(value),
                        code: value,
                        emitted: true,
                    };
                    return one_entry(Ok(e));
                } else {
                    let hi = op_split(&['L', 'U', 'P'], 0b0100_0000, value, Nibble::Upper);
                    let lo = op_split(&['P', 'U', 'P'], 0b0101_0000, value, Nibble::Lower);
                    let v = vec![hi, lo];
                    assert(entry_views(v@) =~= seq![v@[0]@, v@[1]@]);
                    return Ok(v);
                }
            },
            None => {
                return Err(AsmError::InvalidValue(vstd::slice::slice_to_vec(instruction)));
            },
        }
    }
    let none: Vec<AsmEntry> = Vec::new();
    assert(entry_views(none@) =~= Seq::empty());
    Ok(none)
}


proof fn lemma_error_persists(lines: Seq<Seq<char>>, k: int, e: AsmErrorSpec)
    requires
        0 <= k <= lines.len(),
        spec_lines(lines.take(k)) == Err::<Seq<EntrySpec>, AsmErrorSpec>(e),
    ensures
        spec_lines(lines) == Err::<Seq<EntrySpec>, AsmErrorSpec>(e),
    decreases lines.len() - k,
{
    if k < lines.len() {
        assert(lines.take(k + 1).drop_last() =~= lines.take(k));
        lemma_error_persists(lines, k + 1, e);
    } else {
        assert(lines.take(k) =~= lines);
    }
}

/// Assembles a source text that is already in upper case.
pub fn assemble_upper(text: &[char]) -> (r: Result<Assembly, AsmError>)
    ensures
        assembly_result_view(r) == spec_assembly(text@),
{
    let lines = lines_of(text);
    let ghost ls = views(lines@);
    let mut listing: Vec<AsmEntry> = Vec::new();
    let mut k: usize = 0;
    assert(ls.take(0) =~= Seq::<Seq<char>>::empty());
    assert(entry_views(listing@) =~= Seq::empty());
    while k < lines.len()
        invariant
            ls == views(lines@),
            ls == split_lines(text@),
            k <= lines@.len(),
            spec_lines(ls.take(k as int)) == Ok::<Seq<EntrySpec>, AsmErrorSpec>(entry_views(listing@)),
        decreases lines@.len() - k,
    {
        let ghost before = listing@;
        assert(ls.take(k + 1).drop_last() =~= ls.take(k as int));
        assert(ls.take(k + 1).last() == lines@[k as int]@);
        match assemble_line(lines[k].as_slice()) {
            Err(e) => {
                proof {
                    lemma_error_persists(ls, k + 1, e@);
                }
                return Err(e);
            },
            Ok(mut more) => {
                let ghost added = more@;
                listing.append(&mut more);
                assert(entry_views(listing@) =~= entry_views(before) + entry_views(added));
            },
        }
        k = k + 1;
    }
    assert(ls.take(ls.len() as int) =~= ls);
    let mut binary: Vec<u8> = Vec::new();
    let mut i: usize = 0;
    let ghost es = entry_views(listing@);
    assert(es.take(0) =~= Seq::<EntrySpec>::empty());
    while i < listing.len()
        invariant
            es == entry_views(listing@),
            i <= listing@.len(),
            binary@ == spec_binary(es.take(i as int)),
        decreases listing@.len() - i,
    {
        assert(es.take(i + 1).drop_last() =~= es.take(i as int));
        assert(es.take(i + 1).last() == listing@[i as int]@);
        if listing[i].emitted {
            binary.push(listing[i].code);
        }
        i = i + 1;
    }
    assert(es.take(es.len() as int) =~= es);
    if binary.len() > 256 {
        return Err(AsmError::TooManyCommands(binary.len()));
    }
    Ok(Assembly { listing, binary })
}


/// What `str::to_uppercase` makes of a text: each character replaced by its Unicode upper-case
/// mapping, which may be more than one character.
pub uninterp spec fn upper_case(s: Seq<char>) -> Seq<char>;

/// Calls `str::to_uppercase`. Claimed: the result is `upper_case` of the argument, a function
/// of its characters alone; the Unicode tables behind it are not stated.
#[verifier::external_body]
fn to_uppercase(s: &str) -> (r: String)
    ensures
        r@ == upper_case(s@),
{
    s.to_uppercase()
}

/// The characters of `s`, in order.
fn chars_of(s: &str) -> (r: Vec<char>)
    ensures
        r@ == s@,
{
    broadcast use vstd::string::axiom_spec_iter;
    let mut out: Vec<char> = Vec::new();
    for c in it: s.chars()
        invariant
            out@ == it.seq().take(it.index() as int),
    {
        out.push(c);
    }
    out
}

/// Assembles P1 source text: the whole text is put in upper case, then each line is read as
/// described by `spec_line`.
pub fn assemble(source: &str) -> (r: Result<Assembly, AsmError>)
    ensures
        assembly_result_view(r) == spec_assembly(upper_case(source@)),
{
    let upper = to_uppercase(source);
    let text = chars_of(upper.as_str());
    assemble_upper(text.as_slice())
}

} // verus!
