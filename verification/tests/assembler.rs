use p1::assembler::{assemble, lower_nibble, upper_nibble, AsmEntry, AsmError, Operand};
use p1::cpu::{decode, CpuError, Instruction, CPU};

fn text(v: &[char]) -> String {
    v.iter().collect()
}

fn chars(s: &str) -> Vec<char> {
    s.chars().collect()
}

fn listing_line(e: &AsmEntry) -> String {
    let operand = match &e.operand {
        Operand::Absent => String::new(),
        Operand::Register(r) => format!(" {}", text(r)),
        Operand::Value(v) => format!(" {}", v),
    };
    format!("{}{} -> {:08b}", text(&e.mnemonic), operand, e.code)
}

const HELLO: &str = "# puts a phrase to the output area
LUP 248
PUP 248
WVR R15
LUP 72
PUP 72
ST R15
LUP 105
PUP 105
ST R15
SET 32
ST R15
LUP 116
PUP 116
ST R15
LUP 104
PUP 104
ST R15
LUP 101
PUP 101
ST R15
LUP 114
PUP 114
ST R15
LUP 101
PUP 101
ST R15
";

#[test]
fn nibbles() {
    assert_eq!(upper_nibble(0xA7), 0x0A);
    assert_eq!(lower_nibble(0xA7), 0x07);
    assert_eq!(upper_nibble(248), 15);
    assert_eq!(lower_nibble(248), 8);
}

#[test]
fn hello_world_listing() {
    let out = assemble(HELLO).unwrap();
    assert_eq!(out.binary.len(), 26);
    let lines: Vec<String> = out.listing.iter().map(listing_line).collect();
    assert_eq!(lines[0], "LUP 248 -> 01001111");
    assert_eq!(lines[1], "PUP 248 -> 01011000");
    assert_eq!(lines[2], "WVR R15 -> 11011111");
    assert_eq!(lines[3], "LUP 72 -> 01000100");
    assert_eq!(lines[4], "PUP 72 -> 01011000");
    assert_eq!(lines[5], "ST R15 -> 10011111");
    assert_eq!(lines[6], "LUP 105 -> 01000110");
    assert_eq!(lines[7], "PUP 105 -> 01011001");
    assert_eq!(lines[9], "SET 32 -> 00100000");
    assert_eq!(lines[11], "LUP 116 -> 01000111");
    assert_eq!(lines[12], "PUP 116 -> 01010100");
    assert_eq!(&out.binary[..3], &[0b0100_1111u8, 0b0101_1000, 0b1101_1111][..]);
}

#[test]
fn hello_world_runs() {
    let out = assemble(HELLO).unwrap();
    let mut prog = vec![0u8; 256];
    prog[..out.binary.len()].copy_from_slice(&out.binary);
    let mut data = vec![0u8; 256];
    let mut cpu = CPU::new();
    let mut steps = 0;
    let stop = loop {
        match cpu.step(&prog, &mut data) {
            Ok(()) => steps += 1,
            Err(e) => break e,
        }
    };
    assert_eq!(stop, CpuError::NOP);
    assert_eq!(steps, 26);
    assert_eq!(&data[248..256], b"Hi there");
    assert_eq!(cpu.registers()[14], 0);
}

#[test]
fn set_short_and_long_forms() {
    let out = assemble("SET 63\nSET 64\nSET 0\n").unwrap();
    assert_eq!(out.binary, vec![63, 0x44, 0x50, 0x40, 0x50]);
    let lines: Vec<String> = out.listing.iter().map(listing_line).collect();
    assert_eq!(lines, vec!["SET 63 -> 00111111", "LUP 64 -> 01000100", "PUP 64 -> 01010000", "LUP 0 -> 01000000", "PUP 0 -> 01010000"]);
}

#[test]
fn single_operations_use_instruction_set_codes() {
    let out = assemble("nop\npts\nexy\nrts\nrpv\nadd\nsub\nmul\nlsh\nrsh\nand\nor\nxor\nnot\nret\nclr\npop").unwrap();
    let want: Vec<u8> = std::iter::once(0u8).chain(0xC0..=0xCF).collect();
    assert_eq!(out.binary, want);
}

#[test]
fn register_operations() {
    let out = assemble("RVR R1\nWVR R2\nLD Y\nST R10\nJZ R11\nJMP R12\nCALL R13\nJGT R15").unwrap();
    assert_eq!(out.binary, vec![0x61, 0xD2, 0x80, 0x9A, 0xAB, 0xBC, 0xFD, 0xEF]);
}

#[test]
fn register_operation_without_register_is_listed_not_emitted() {
    let out = assemble("JMP\nCLR").unwrap();
    assert_eq!(out.binary, vec![0xCE]);
    assert_eq!(out.listing.len(), 2);
    assert!(!out.listing[0].emitted);
    assert_eq!(listing_line(&out.listing[0]), "JMP -> 10110000");
}

#[test]
fn comments_blank_lines_and_unknown_words_are_skipped() {
    let out = assemble("# SET 5\n\n   \nHELLO 3\n  SET 5 extra words\n\t#x\n").unwrap();
    // "#x" after a tab is not a comment: its first word is "#X", which is no instruction
    assert_eq!(out.binary, vec![5]);
    assert_eq!(out.listing.len(), 1);
}

#[test]
fn crlf_lines() {
    let out = assemble("SET 1\r\nSET 2\r\n").unwrap();
    assert_eq!(out.binary, vec![1, 2]);
}

#[test]
fn unknown_register_is_an_error() {
    assert_eq!(assemble("ST R16"), Err(AsmError::UnknownRegister(chars("R16"))));
    assert_eq!(assemble("st x"), Err(AsmError::UnknownRegister(chars("X"))));
}

#[test]
fn invalid_values_are_errors() {
    assert_eq!(assemble("LUP 256"), Err(AsmError::InvalidValue(chars("LUP"))));
    assert_eq!(assemble("PUP"), Err(AsmError::InvalidValue(chars("PUP"))));
    assert_eq!(assemble("SET -1"), Err(AsmError::InvalidValue(chars("SET"))));
    assert_eq!(assemble("SET +"), Err(AsmError::InvalidValue(chars("SET"))));
    // the first failing line decides
    assert_eq!(assemble("SET 1\nST R99\nLUP x"), Err(AsmError::UnknownRegister(chars("R99"))));
}

#[test]
fn values_parse_like_u8() {
    let out = assemble("SET +7\nSET 007\nLUP 0255").unwrap();
    assert_eq!(out.binary, vec![7, 7, 0x4F]);
}

#[test]
fn too_many_commands() {
    let src = "CLR\n".repeat(256);
    assert_eq!(assemble(&src).unwrap().binary.len(), 256);
    let src = "CLR\n".repeat(257);
    assert_eq!(assemble(&src), Err(AsmError::TooManyCommands(257)));
    let src = "SET 200\n".repeat(129);
    assert_eq!(assemble(&src), Err(AsmError::TooManyCommands(258)));
}

#[test]
fn assembled_codes_decode_to_their_mnemonics() {
    let cases = [
        ("PTS", Instruction::Pts),
        ("EXY", Instruction::Exy),
        ("RTS", Instruction::Rts),
        ("RPV", Instruction::Rpv),
        ("ADD", Instruction::Add),
        ("SUB", Instruction::Sub),
        ("MUL", Instruction::Mul),
        ("LSH", Instruction::Lsh),
        ("RSH", Instruction::Rsh),
        ("AND", Instruction::And),
        ("OR", Instruction::Or),
        ("XOR", Instruction::Xor),
        ("NOT", Instruction::Not),
        ("RET", Instruction::Ret),
        ("CLR", Instruction::Clr),
        ("POP", Instruction::Pop),
        ("RVR R3", Instruction::Rvr(3)),
        ("WVR R4", Instruction::Wvr(4)),
        ("LD Y", Instruction::Ld(0)),
        ("ST R5", Instruction::St(5)),
        ("JZ R6", Instruction::Jz(6)),
        ("JMP R7", Instruction::Jmp(7)),
        ("CALL R8", Instruction::Call(8)),
        ("JGT R9", Instruction::Jgt(9)),
        ("LUP 200", Instruction::Lup(12)),
        ("PUP 200", Instruction::Pup(8)),
        ("SET 9", Instruction::Immediate(9)),
    ];
    for (src, ins) in cases {
        let out = assemble(src).unwrap();
        assert_eq!(out.binary.len(), 1, "{}", src);
        assert_eq!(decode(out.binary[0]), Ok(ins), "{}", src);
    }
    assert_eq!(decode(assemble("NOP").unwrap().binary[0]), Err(CpuError::NOP));
}
