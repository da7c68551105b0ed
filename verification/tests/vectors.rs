use p1::alu_board::{alu_select, check_x_in, expected_x_in, pin_level, read_x_in, AluOperation};
use p1::alu_vectors::{alu_test_vectors, binary_op, op_gen, unary_op, AluVector};
use p1::branch_vectors::{branch_test_vectors, BranchVector};

#[test]
fn operand_tables() {
    let u = unary_op();
    assert_eq!(u.len(), 256);
    assert_eq!(u[0], (0, 0));
    assert_eq!(u[255], (255, 0));
    let b = binary_op();
    assert_eq!(b.len(), 65536);
    assert_eq!(b[1], (0, 1));
    assert_eq!(b[256], (1, 0));
    assert_eq!(b[65535], (255, 255));
}

#[test]
fn op_gen_applies_the_operation() {
    let v = op_gen(0b110, vec![(0x0C, 0x0A), (0xFF, 0x0F)], |a, b| a & b);
    assert_eq!(v, vec![
        AluVector { opcode: 6, x_in: 0x0C, y: 0x0A, x_out: 0x08 },
        AluVector { opcode: 6, x_in: 0xFF, y: 0x0F, x_out: 0x0F },
    ]);
}

#[test]
fn alu_table_contents() {
    let t = alu_test_vectors();
    assert_eq!(t.len(), 5 * 65536 + 3 * 256);
    // add 200 + 100 wraps
    assert_eq!(t[200 * 256 + 100], AluVector { opcode: 0, x_in: 200, y: 100, x_out: 44 });
    // sub 10 - 20 wraps
    assert_eq!(t[65536 + 10 * 256 + 20], AluVector { opcode: 1, x_in: 10, y: 20, x_out: 246 });
    // xor, and, or
    assert_eq!(t[2 * 65536 + 0x0C * 256 + 0x0A].x_out, 0x06);
    assert_eq!(t[3 * 65536 + 0x0C * 256 + 0x0A].x_out, 0x08);
    assert_eq!(t[4 * 65536 + 0x0C * 256 + 0x0A].x_out, 0x0E);
    // shl, shr, not
    let base = 5 * 65536;
    assert_eq!(t[base + 0xC3], AluVector { opcode: 3, x_in: 0xC3, y: 0, x_out: 0x86 });
    assert_eq!(t[base + 256 + 0xC3], AluVector { opcode: 2, x_in: 0xC3, y: 0, x_out: 0x61 });
    assert_eq!(t[base + 512 + 0xC3], AluVector { opcode: 5, x_in: 0xC3, y: 0, x_out: 0x3C });
}

#[test]
fn branch_table_contents() {
    let t = branch_test_vectors();
    assert_eq!(t.len(), 1024);
    assert!(t[..256].iter().all(|v| v.jmp && v.taken));
    assert_eq!(t[256], BranchVector { jmp: false, jgt: true, jz: false, x_out: 0, taken: false });
    assert_eq!(t[257].taken, true);
    assert_eq!(t[256 + 127].taken, true);
    assert_eq!(t[256 + 128].taken, false);
    assert_eq!(t[512], BranchVector { jmp: false, jgt: false, jz: true, x_out: 0, taken: true });
    assert_eq!(t[513].taken, false);
    assert!(t[768..].iter().all(|v| !v.taken && !v.jmp && !v.jgt && !v.jz));
}

#[test]
fn pin_levels_round_trip() {
    for v in 0u8..=255 {
        let mut levels = [false; 8];
        for (i, l) in levels.iter_mut().enumerate() {
            *l = pin_level(v, i as u8);
        }
        assert_eq!(read_x_in(levels), v);
    }
    assert_eq!(read_x_in([true, false, false, false, false, false, false, true]), 0x81);
    assert!(pin_level(0x80, 7));
    assert!(!pin_level(0x80, 6));
}

#[test]
fn board_expectations() {
    assert!(check_x_in(3, 3));
    assert!(!check_x_in(3, 4));
    assert_eq!(alu_select(AluOperation::Add), (false, false, false));
    assert_eq!(alu_select(AluOperation::Rsh), (false, true, true));
    assert_eq!(alu_select(AluOperation::Or), (true, true, true));
    assert_eq!(expected_x_in(false, AluOperation::Not, 5), 0xFF);
    assert_eq!(expected_x_in(true, AluOperation::Add, 5), 0xFF);
    assert_eq!(expected_x_in(true, AluOperation::Rsh, 0x81), 0x40);
    assert_eq!(expected_x_in(true, AluOperation::Lsh, 0x81), 0x02);
    assert_eq!(expected_x_in(true, AluOperation::Not, 0x81), 0x7E);
}
