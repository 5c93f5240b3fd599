use rv32i::control::{decode, exec_alu, hazard_unit, inst_rd, inst_rs1, inst_rs2, AluOp, CtrlWord, PcSel, PipeCtrl};

fn encode_op(funct7: u32, rs2: u32, rs1: u32, funct3: u32, rd: u32) -> u32 {
    (funct7 << 25) | (rs2 << 20) | (rs1 << 15) | (funct3 << 12) | (rd << 7) | 0x33
}

#[test]
fn decode_all_rv32i_op_variants() {
    let cases = [
        (0b000, 0b0000000, AluOp::Add),
        (0b000, 0b0100000, AluOp::Sub),
        (0b001, 0b0000000, AluOp::Sll),
        (0b010, 0b0000000, AluOp::Slt),
        (0b011, 0b0000000, AluOp::Sltu),
        (0b100, 0b0000000, AluOp::Xor),
        (0b101, 0b0000000, AluOp::Srl),
        (0b101, 0b0100000, AluOp::Sra),
        (0b110, 0b0000000, AluOp::Or),
        (0b111, 0b0000000, AluOp::And),
    ];

    for (funct3, funct7, expected) in cases {
        let inst = encode_op(funct7, 3, 2, funct3, 1);
        let c = decode(inst);
        assert!(c.reg_write);
        assert!(!c.mem_read);
        assert!(!c.mem_write);
        assert!(!c.alu_src_imm);
        assert!(!c.branch);
        assert!(!c.jump);
        assert_eq!(c.alu_op, Some(expected));
    }
}

#[test]
fn invalid_op_encoding_is_nop() {
    let invalid = encode_op(0b0100000, 3, 2, 0b001, 1);
    let c = decode(invalid);
    assert_eq!(c, CtrlWord::default());
}

#[test]
fn exec_alu_signed_unsigned_compare() {
    let a = 0xffff_ffff;
    let b = 1;
    assert_eq!(exec_alu(AluOp::Slt, a, b), 1);
    assert_eq!(exec_alu(AluOp::Sltu, a, b), 0);
}

#[test]
fn exec_alu_shift_and_wrap_behavior() {
    assert_eq!(exec_alu(AluOp::Sra, 0x8000_0000, 1), 0xc000_0000);
    assert_eq!(exec_alu(AluOp::Sll, 1, 33), 2);
    assert_eq!(exec_alu(AluOp::Sub, 7, 10), 0xffff_fffd);
}

#[test]
fn decode_lw_sw_beq_jal() {
    let lw = 0x00002083u32;
    let sw = 0x00102023u32;
    let beq = 0x00100063u32;
    let jal = 0x000000efu32;

    let lw_c = decode(lw);
    assert!(lw_c.reg_write && lw_c.mem_read && lw_c.alu_src_imm);
    assert_eq!(lw_c.alu_op, Some(AluOp::Add));

    let sw_c = decode(sw);
    assert!(sw_c.mem_write && sw_c.alu_src_imm);
    assert_eq!(sw_c.alu_op, Some(AluOp::Add));

    let beq_c = decode(beq);
    assert!(beq_c.branch);
    assert_eq!(beq_c.alu_op, Some(AluOp::Sub));

    let jal_c = decode(jal);
    assert!(jal_c.reg_write && jal_c.jump);
    assert_eq!(jal_c.alu_op, None);
}

#[test]
fn extract_reg_fields() {
    let inst = 0b0000000_00101_00100_000_00011_0110011u32;
    assert_eq!(inst_rd(inst), 3);
    assert_eq!(inst_rs1(inst), 4);
    assert_eq!(inst_rs2(inst), 5);
}

#[test]
fn load_use_hazard_stalls_pipeline() {
    let p = hazard_unit(5, 7, 5, true, false, false);
    assert_eq!(
        p,
        PipeCtrl {
            stall_if: true,
            stall_id: true,
            flush_ex: true,
            pc_sel: None
        }
    );
}

#[test]
fn branch_taken_flushes_and_redirects_pc() {
    let p = hazard_unit(1, 2, 0, false, true, false);
    assert_eq!(
        p,
        PipeCtrl {
            stall_if: false,
            stall_id: false,
            flush_ex: true,
            pc_sel: Some(PcSel::BranchTarget)
        }
    );
}

#[test]
fn jump_flushes_and_redirects_pc() {
    let p = hazard_unit(1, 2, 0, false, false, true);
    assert_eq!(
        p,
        PipeCtrl {
            stall_if: false,
            stall_id: false,
            flush_ex: true,
            pc_sel: Some(PcSel::JumpTarget)
        }
    );
}

#[test]
fn load_use_has_higher_priority_than_branch() {
    let p = hazard_unit(8, 9, 8, true, true, false);
    assert!(p.stall_if);
    assert!(p.stall_id);
    assert!(p.flush_ex);
    assert_eq!(p.pc_sel, None);
}
