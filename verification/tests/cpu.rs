use p1::cpu::{decode, CpuError, Instruction, CPU};

fn run(prog: &[u8], data: &mut [u8], steps: usize) -> CPU {
    let mut cpu = CPU::new();
    for _ in 0..steps {
        cpu.step(prog, data).unwrap();
    }
    cpu
}

fn program(bytes: &[u8]) -> Vec<u8> {
    let mut prog = vec![0u8; 256];
    prog[..bytes.len()].copy_from_slice(bytes);
    prog
}

#[test]
fn new_cpu_is_zeroed() {
    let cpu = CPU::new();
    assert_eq!(cpu.pc(), 0);
    assert_eq!((cpu.x(), cpu.y(), cpu.z(), cpu.t(), cpu.x0()), (0, 0, 0, 0, 0));
    assert_eq!(cpu.registers(), &[0u8; 15][..]);
    assert_eq!(cpu.stack(), &[0u8; 4][..]);
    assert_eq!(cpu.stack_ptr(), 0);
}

#[test]
fn decode_formats() {
    assert_eq!(decode(0x00), Err(CpuError::NOP));
    assert_eq!(decode(0x2A), Ok(Instruction::Immediate(42)));
    assert_eq!(decode(0x3F), Ok(Instruction::Immediate(63)));
    assert_eq!(decode(0xC0), Ok(Instruction::Pts));
    assert_eq!(decode(0xC4), Ok(Instruction::Add));
    assert_eq!(decode(0xC7), Ok(Instruction::Lsh));
    assert_eq!(decode(0xCF), Ok(Instruction::Pop));
    assert_eq!(decode(0x4F), Ok(Instruction::Lup(15)));
    assert_eq!(decode(0x58), Ok(Instruction::Pup(8)));
    assert_eq!(decode(0x61), Ok(Instruction::Rvr(1)));
    assert_eq!(decode(0xDF), Ok(Instruction::Wvr(15)));
    assert_eq!(decode(0x80), Ok(Instruction::Ld(0)));
    assert_eq!(decode(0x9F), Ok(Instruction::St(15)));
    assert_eq!(decode(0xA3), Ok(Instruction::Jz(3)));
    assert_eq!(decode(0xB4), Ok(Instruction::Jmp(4)));
    assert_eq!(decode(0xF5), Ok(Instruction::Call(5)));
    assert_eq!(decode(0xE6), Ok(Instruction::Jgt(6)));
    assert_eq!(decode(0x70), Err(CpuError::InvalidOpcode(0x70)));
    assert_eq!(decode(0x7F), Err(CpuError::InvalidOpcode(0x7F)));
}

#[test]
fn nop_stops_after_advancing_pc() {
    let prog = program(&[]);
    let mut data = vec![0u8; 256];
    let mut cpu = CPU::new();
    assert_eq!(cpu.step(&prog, &mut data), Err(CpuError::NOP));
    assert_eq!(cpu.pc(), 1);
}

#[test]
fn invalid_opcode_is_reported() {
    let prog = program(&[0x75]);
    let mut data = vec![0u8; 256];
    let mut cpu = CPU::new();
    assert_eq!(cpu.step(&prog, &mut data), Err(CpuError::InvalidOpcode(0x75)));
    assert_eq!(cpu.pc(), 1);
}

#[test]
fn immediate_and_stack_operations() {
    // 5, PTS, 7, ADD
    let prog = program(&[5, 0xC0, 7, 0xC4]);
    let mut data = vec![0u8; 256];
    let cpu = run(&prog, &mut data, 2);
    assert_eq!((cpu.x(), cpu.y()), (5, 5));
    let cpu = run(&prog, &mut data, 4);
    assert_eq!((cpu.x(), cpu.y(), cpu.x0()), (12, 0, 7));
}

#[test]
fn arithmetic_wraps() {
    // 10 PTS 20 SUB: X = 20 - 10
    let prog = program(&[10, 0xC0, 20, 0xC5]);
    let mut data = vec![0u8; 256];
    assert_eq!(run(&prog, &mut data, 4).x(), 10);
    // 20 PTS 10 SUB: X = 10 - 20 wraps
    let prog = program(&[20, 0xC0, 10, 0xC5]);
    assert_eq!(run(&prog, &mut data, 4).x(), 246);
    // 0xF0 loaded by LUP 15, PUP 0; PTS; 0x20; ADD -> 0x10
    let prog = program(&[0x4F, 0x50, 0xC0, 0x20, 0xC4]);
    assert_eq!(run(&prog, &mut data, 5).x(), 0x10);
    // MUL 16 * 17 = 272 -> 16
    let prog = program(&[16, 0xC0, 17, 0xC6]);
    assert_eq!(run(&prog, &mut data, 4).x(), 16);
}

#[test]
fn shifts_and_not() {
    let mut data = vec![0u8; 256];
    // LUP 12, PUP 3 -> 0xC3; LSH shifts left
    let prog = program(&[0x4C, 0x53, 0xC7]);
    let cpu = run(&prog, &mut data, 3);
    assert_eq!((cpu.x(), cpu.x0()), (0x86, 0xC3));
    // RSH shifts right
    let prog = program(&[0x4C, 0x53, 0xC8]);
    assert_eq!(run(&prog, &mut data, 3).x(), 0x61);
    // NOT
    let prog = program(&[0x4C, 0x53, 0xCC]);
    assert_eq!(run(&prog, &mut data, 3).x(), 0x3C);
}

#[test]
fn bitwise_operations() {
    let mut data = vec![0u8; 256];
    // 0x0C PTS 0x0A AND/OR/XOR
    for (op, want) in [(0xC9u8, 0x08u8), (0xCA, 0x0E), (0xCB, 0x06)] {
        let prog = program(&[0x0C, 0xC0, 0x0A, op]);
        assert_eq!(run(&prog, &mut data, 4).x(), want);
    }
}

#[test]
fn rotate_exchange_and_pop() {
    let mut data = vec![0u8; 256];
    // 1 PTS 2 PTS 3 PTS 4 : X=4 Y=3 Z=2 T=1
    let base = [1u8, 0xC0, 2, 0xC0, 3, 0xC0, 4];
    let cpu = run(&program(&base), &mut data, 7);
    assert_eq!((cpu.x(), cpu.y(), cpu.z(), cpu.t()), (4, 3, 2, 1));
    let mut p = base.to_vec();
    p.push(0xC2);
    let cpu = run(&program(&p), &mut data, 8);
    assert_eq!((cpu.x(), cpu.y(), cpu.z(), cpu.t()), (3, 2, 1, 4));
    let mut p = base.to_vec();
    p.extend_from_slice(&[0xC2, 0xC2, 0xC2, 0xC2]);
    let cpu = run(&program(&p), &mut data, 11);
    assert_eq!((cpu.x(), cpu.y(), cpu.z(), cpu.t()), (4, 3, 2, 1));
    let mut p = base.to_vec();
    p.push(0xC1);
    let cpu = run(&program(&p), &mut data, 8);
    assert_eq!((cpu.x(), cpu.y()), (3, 4));
    let mut p = base.to_vec();
    p.push(0xCF);
    let cpu = run(&program(&p), &mut data, 8);
    assert_eq!((cpu.x(), cpu.y(), cpu.z(), cpu.t()), (3, 2, 1, 1));
}

#[test]
fn rpv_and_clr() {
    let mut data = vec![0u8; 256];
    // 9 NOT (x0 = 9) RPV -> X = 9, Y = !9
    let cpu = run(&program(&[9, 0xCC, 0xC3]), &mut data, 3);
    assert_eq!((cpu.x(), cpu.y()), (9, 246));
    let cpu = run(&program(&[9, 0xCE]), &mut data, 2);
    assert_eq!(cpu.x(), 0);
}

#[test]
fn registers_and_memory() {
    let mut data = vec![0u8; 256];
    // 40 WVR R1; 11 RVR R1 -> 40; 33 ST R1 -> data[40] = 33, R1 counts down to 39
    let prog = program(&[40, 0xD1, 11, 0x61, 33, 0x91]);
    let cpu = run(&prog, &mut data, 6);
    assert_eq!(data[40], 33);
    assert_eq!(cpu.registers()[0], 39);
    // LD R1 reads data[39] (0) and counts down again; LD Y reads data[Y]
    let prog = program(&[40, 0xD1, 33, 0x91, 0x81]);
    let mut data = vec![0u8; 256];
    data[39] = 77;
    let cpu = run(&prog, &mut data, 5);
    assert_eq!(cpu.x(), 77);
    assert_eq!(cpu.registers()[0], 38);
    // R6..R10 keep their value, R11..R15 count up
    let prog = program(&[50, 0xD6, 0x96, 60, 0xDB, 0x9B]);
    let mut data = vec![0u8; 256];
    let cpu = run(&prog, &mut data, 6);
    assert_eq!(cpu.registers()[5], 50);
    assert_eq!(cpu.registers()[10], 61);
    assert_eq!(data[50], 50);
    assert_eq!(data[60], 60);
}

#[test]
fn register_counters_wrap() {
    let mut data = vec![0u8; 256];
    // R15 = 255 (LUP 15 PUP 15 WVR R15), ST R15 -> data[255], R15 wraps to 0
    let prog = program(&[0x4F, 0x5F, 0xDF, 0x9F]);
    let cpu = run(&prog, &mut data, 4);
    assert_eq!(data[255], 255);
    assert_eq!(cpu.registers()[14], 0);
    // R1 = 0 counts down to 255
    let prog = program(&[0x91]);
    let cpu = run(&prog, &mut data, 1);
    assert_eq!(cpu.registers()[0], 255);
    // WVR 0 and RVR 0 do nothing
    let prog = program(&[5, 0xD0, 0x60]);
    let cpu = run(&prog, &mut data, 3);
    assert_eq!(cpu.x(), 5);
    assert_eq!(cpu.registers(), &[0u8; 15][..]);
}

#[test]
fn jumps() {
    let mut data = vec![0u8; 256];
    // 10 WVR R6; JMP R6 -> pc 10
    let cpu = run(&program(&[10, 0xD6, 0xB6]), &mut data, 3);
    assert_eq!(cpu.pc(), 10);
    // X = 10 nonzero: JZ not taken
    let cpu = run(&program(&[10, 0xD6, 0xA6]), &mut data, 3);
    assert_eq!(cpu.pc(), 3);
    // CLR then JZ taken
    let cpu = run(&program(&[10, 0xD6, 0xCE, 0xA6]), &mut data, 4);
    assert_eq!(cpu.pc(), 10);
    // JGT taken for X from 1 to 127, not for 0 and not for X >= 128
    let cpu = run(&program(&[10, 0xD6, 0xE6]), &mut data, 3);
    assert_eq!(cpu.pc(), 10);
    let cpu = run(&program(&[10, 0xD6, 0xCE, 0xE6]), &mut data, 4);
    assert_eq!(cpu.pc(), 4);
    let cpu = run(&program(&[10, 0xD6, 0x48, 0xE6]), &mut data, 4);
    assert_eq!(cpu.pc(), 4);
    // JMP Y
    let cpu = run(&program(&[20, 0xC0, 0xB0]), &mut data, 3);
    assert_eq!(cpu.pc(), 20);
}

#[test]
fn call_and_return() {
    let mut data = vec![0u8; 256];
    // 0: 10, 1: WVR R6, 2: CALL R6, ..., 10: RET
    let mut bytes = vec![10u8, 0xD6, 0xF6];
    bytes.resize(10, 0);
    bytes.push(0xCD);
    let prog = program(&bytes);
    let cpu = run(&prog, &mut data, 3);
    assert_eq!(cpu.pc(), 10);
    assert_eq!(cpu.stack_ptr(), 1);
    assert_eq!(cpu.stack()[0], 3);
    let cpu = run(&prog, &mut data, 4);
    assert_eq!(cpu.pc(), 3);
    assert_eq!(cpu.stack_ptr(), 0);
    assert_eq!(cpu.stack(), &[0u8; 4][..]);
}

#[test]
fn ret_without_call_is_an_error() {
    let mut data = vec![0u8; 256];
    let prog = program(&[0xCD]);
    let mut cpu = CPU::new();
    assert_eq!(cpu.step(&prog, &mut data), Err(CpuError::InvalidReturn));
    assert_eq!(cpu.pc(), 1);
}

#[test]
fn fifth_call_is_an_error() {
    let mut data = vec![0u8; 256];
    // CALL Y with Y = 0 calls address 0 again and again
    let prog = program(&[0xF0]);
    let mut cpu = CPU::new();
    for depth in 1..=4 {
        assert_eq!(cpu.step(&prog, &mut data), Ok(()));
        assert_eq!(cpu.stack_ptr(), depth);
        assert_eq!(cpu.pc(), 0);
    }
    assert_eq!(cpu.step(&prog, &mut data), Err(CpuError::DeepCall));
    assert_eq!(cpu.stack_ptr(), 4);
    assert_eq!(cpu.stack(), &[1u8, 1, 1, 1][..]);
    assert_eq!(cpu.pc(), 1);
}

#[test]
fn lup_and_pup_load_nibbles() {
    let mut data = vec![0u8; 256];
    let cpu = run(&program(&[0x4F, 0x58]), &mut data, 2);
    assert_eq!(cpu.x(), 248);
    let cpu = run(&program(&[0x4F]), &mut data, 1);
    assert_eq!(cpu.x(), 240);
}

#[test]
fn exchange_twice_and_pop_after_push() {
    let mut data = vec![0u8; 256];
    let base = [1u8, 0xC0, 2, 0xC0, 3, 0xC0, 4];
    let mut p = base.to_vec();
    p.extend_from_slice(&[0xC1, 0xC1]);
    let cpu = run(&program(&p), &mut data, 9);
    assert_eq!((cpu.x(), cpu.y(), cpu.z(), cpu.t()), (4, 3, 2, 1));
    let mut p = base.to_vec();
    p.extend_from_slice(&[0xC0, 0xCF]);
    let cpu = run(&program(&p), &mut data, 9);
    assert_eq!((cpu.x(), cpu.y(), cpu.z(), cpu.t()), (4, 3, 2, 2));
}

#[test]
fn only_stores_write_memory() {
    let mut data: Vec<u8> = (0..=255).collect();
    let before = data.clone();
    // loads, jumps, register moves and arithmetic leave memory alone
    let prog = program(&[0x81, 5, 0xD2, 0x62, 0xC0, 0xC4, 0xA2]);
    let _ = run(&prog, &mut data, 7);
    assert_eq!(data, before);
    // a store changes exactly one byte
    let prog = program(&[7, 0xC0, 33, 0x90]);
    let _ = run(&prog, &mut data, 4);
    let changed: Vec<usize> = (0..256).filter(|&i| data[i] != before[i]).collect();
    assert_eq!(changed, vec![7]);
    assert_eq!(data[7], 33);
}

#[test]
fn store_then_load_reads_back() {
    let mut data = vec![0u8; 256];
    // 40 WVR R7; 33; ST R7; LD R7 -> data[40] = 33, X = 33, R7 unchanged
    let prog = program(&[40, 0xD7, 33, 0x97, 0x87]);
    let cpu = run(&prog, &mut data, 5);
    assert_eq!(data[40], 33);
    assert_eq!(cpu.x(), 33);
    assert_eq!(cpu.registers()[6], 40);
    assert_eq!(cpu.pc(), 5);
}

#[test]
fn call_to_a_return_comes_back() {
    let mut data = vec![0u8; 256];
    // 0: 60, 1: WVR R9, 2: CALL R9; 60: RET
    let mut bytes = vec![60u8, 0xD9, 0xF9];
    bytes.resize(60, 0);
    bytes.push(0xCD);
    let prog = program(&bytes);
    let cpu = run(&prog, &mut data, 4);
    assert_eq!(cpu.pc(), 3);
    assert_eq!(cpu.stack_ptr(), 0);
    assert_eq!(cpu.registers()[8], 60);
}

#[test]
fn lup_pup_pair_anywhere() {
    let mut data = vec![0u8; 256];
    // 5, PTS, then LUP 12 / PUP 8 at addresses 2 and 3 load 200 and keep the rest
    let cpu = run(&program(&[5, 0xC0, 0x4C, 0x58]), &mut data, 4);
    assert_eq!((cpu.x(), cpu.y(), cpu.pc()), (200, 5, 4));
}
