use rv32i::control::{
    decode, exec_alu, exec_auipc, exec_branch, exec_jal, exec_jalr, exec_load, exec_lui, exec_store,
    hazard_unit, inst_i_imm, inst_jal_imm, inst_jalr_imm, inst_u_imm, AluOp, BranchKind, CtrlWord,
    LoadKind, PcSel, PipeCtrl, Storekind,
};
use rv32i::cpu::{inst_b_imm, inst_s_imm, Cpu};

fn encode_i(opcode: u32, rd: u32, funct3: u32, rs1: u32, imm: u32) -> u32 {
    ((imm & 0xfff) << 20) | (rs1 << 15) | (funct3 << 12) | (rd << 7) | opcode
}

fn encode_s(rs1: u32, rs2: u32, funct3: u32, imm: u32) -> u32 {
    (((imm >> 5) & 0x7f) << 25) | (rs2 << 20) | (rs1 << 15) | (funct3 << 12) | ((imm & 0x1f) << 7) | 0x23
}

fn encode_b(rs1: u32, rs2: u32, funct3: u32, imm: u32) -> u32 {
    (((imm >> 12) & 0x1) << 31)
        | (((imm >> 5) & 0x3f) << 25)
        | (rs2 << 20)
        | (rs1 << 15)
        | (funct3 << 12)
        | (((imm >> 1) & 0xf) << 8)
        | (((imm >> 11) & 0x1) << 7)
        | 0x63
}

fn encode_j(rd: u32, imm: u32) -> u32 {
    (((imm >> 20) & 0x1) << 31)
        | (((imm >> 1) & 0x3ff) << 21)
        | (((imm >> 11) & 0x1) << 20)
        | (((imm >> 12) & 0xff) << 12)
        | (rd << 7)
        | 0x6f
}

fn encode_r(funct7: u32, rs2: u32, rs1: u32, funct3: u32, rd: u32) -> u32 {
    (funct7 << 25) | (rs2 << 20) | (rs1 << 15) | (funct3 << 12) | (rd << 7) | 0x33
}

#[test]
fn alu_every_operation() {
    assert_eq!(exec_alu(AluOp::Add, 0xffff_ffff, 2), 1);
    assert_eq!(exec_alu(AluOp::Sub, 5, 3), 2);
    assert_eq!(exec_alu(AluOp::Sll, 0x8000_0001, 1), 2);
    assert_eq!(exec_alu(AluOp::Slt, 1, 0xffff_ffff), 0);
    assert_eq!(exec_alu(AluOp::Slt, 0x8000_0000, 0x7fff_ffff), 1);
    assert_eq!(exec_alu(AluOp::Sltu, 1, 2), 1);
    assert_eq!(exec_alu(AluOp::Xor, 0b1100, 0b1010), 0b0110);
    assert_eq!(exec_alu(AluOp::Srl, 0x8000_0000, 31), 1);
    assert_eq!(exec_alu(AluOp::Srl, 0x8000_0000, 32), 0x8000_0000);
    assert_eq!(exec_alu(AluOp::Sra, 0xffff_fff0, 2), 0xffff_fffc);
    assert_eq!(exec_alu(AluOp::Sra, 0x4000_0000, 30), 1);
    assert_eq!(exec_alu(AluOp::Or, 0b1100, 0b1010), 0b1110);
    assert_eq!(exec_alu(AluOp::And, 0b1100, 0b1010), 0b1000);
}

#[test]
fn sub_undoes_add_on_values() {
    for (a, b) in [(0u32, 0u32), (7, 10), (0xffff_ffff, 1), (0x8000_0000, 0x8000_0000)] {
        assert_eq!(exec_alu(AluOp::Sub, exec_alu(AluOp::Add, a, b), b), a);
    }
}

#[test]
fn decode_op_imm_lui_auipc_jalr() {
    let addi = decode(encode_i(0x13, 2, 0b000, 1, 5));
    assert!(addi.reg_write && addi.alu_src_imm);
    assert_eq!(addi.alu_op, Some(AluOp::Add));
    let srai = decode(encode_i(0x13, 2, 0b101, 1, 0x403));
    assert_eq!(srai.alu_op, Some(AluOp::Sra));
    let bad_shift = decode(encode_i(0x13, 2, 0b001, 1, 0x403));
    assert_eq!(bad_shift, CtrlWord::default());
    let lui = decode(0x123452b7);
    assert!(lui.reg_write && !lui.jump);
    let auipc = decode(0x00001317);
    assert!(auipc.reg_write);
    let jalr = decode(0x0000_82e7);
    assert!(jalr.reg_write && jalr.jump);
    assert_eq!(decode(0x0000_f2e7), CtrlWord::default());
}

#[test]
fn decode_branch_kinds_and_invalid() {
    let kinds = [
        (0b000, BranchKind::Beq),
        (0b001, BranchKind::Bne),
        (0b100, BranchKind::Blt),
        (0b101, BranchKind::Bge),
        (0b110, BranchKind::Bltu),
        (0b111, BranchKind::Bgeu),
    ];
    for (f3, k) in kinds {
        let c = decode(encode_b(1, 2, f3, 8));
        assert!(c.branch);
        assert_eq!(c.branch_kind, Some(k));
    }
    let odd = decode(encode_b(1, 2, 0b010, 8));
    assert!(odd.branch);
    assert_eq!(odd.alu_op, Some(AluOp::Sub));
    assert_eq!(odd.branch_kind, None);
    assert_eq!(
        odd,
        CtrlWord { branch: true, alu_op: Some(AluOp::Sub), ..CtrlWord::default() }
    );
    assert_eq!(decode(encode_i(0x03, 1, 0b011, 0, 0)), CtrlWord::default());
    assert_eq!(decode(encode_s(0, 1, 0b011, 0)), CtrlWord::default());
    assert_eq!(decode(0x0000_007f), CtrlWord::default());
}

#[test]
fn decoded_words_are_consistent() {
    for inst in [0x00002083u32, 0x00102023, 0x00100063, 0x000000ef, 0x0050_8113, 0x123452b7, 0x0000_82e7] {
        let c = decode(inst);
        assert_eq!(c.load_kind.is_some(), c.mem_read);
        assert_eq!(c.store_kind.is_some(), c.mem_write);
        assert!(!c.branch_kind.is_some() || c.branch);
        assert!(!(c.mem_read && c.mem_write));
    }
}

#[test]
fn immediates_decode() {
    assert_eq!(inst_i_imm(encode_i(0x13, 0, 0, 0, 0x7ff)), 0x7ff);
    assert_eq!(inst_i_imm(encode_i(0x13, 0, 0, 0, 0xfff)), 0xffff_ffff);
    assert_eq!(inst_jalr_imm(encode_i(0x67, 0, 0, 0, 0x800)), 0xffff_f800);
    assert_eq!(inst_s_imm(encode_s(0, 0, 2, 0xffc)), 0xffff_fffc);
    assert_eq!(inst_s_imm(encode_s(0, 0, 2, 0x123)), 0x123);
    assert_eq!(inst_b_imm(encode_b(0, 0, 0, 0x1ffc)), 0xffff_fffc);
    assert_eq!(inst_b_imm(encode_b(0, 0, 0, 0xffe)), 0xffe);
    assert_eq!(inst_jal_imm(encode_j(0, 0x1f_fffe)), 0xffff_fffe);
    assert_eq!(inst_jal_imm(encode_j(0, 0x0f_f802)), 0x0f_f802);
    assert_eq!(inst_u_imm(0x1234_5fff), 0x1234_5000);
}

#[test]
fn branch_comparisons() {
    assert!(exec_branch(BranchKind::Beq, 3, 3));
    assert!(!exec_branch(BranchKind::Bne, 3, 3));
    assert!(exec_branch(BranchKind::Blt, 0xffff_ffff, 0));
    assert!(!exec_branch(BranchKind::Bltu, 0xffff_ffff, 0));
    assert!(exec_branch(BranchKind::Bge, 0, 0xffff_ffff));
    assert!(exec_branch(BranchKind::Bgeu, 0xffff_ffff, 0));
    assert!(!exec_branch(BranchKind::Bge, 0x8000_0000, 0));
}

#[test]
fn jumps_and_upper_immediates() {
    assert_eq!(exec_jal(100, 0xffff_fff8), (92, 104));
    assert_eq!(exec_jalr(0xffff_ffff, 2, 8), (0, 12));
    assert_eq!(exec_jalr(10, 5, 0xffff_fffc), (14, 0));
    assert_eq!(exec_lui(0x1234_5000), 0x1234_5000);
    assert_eq!(exec_auipc(0xffff_f000, 0x1000), 0);
}

#[test]
fn loads_read_little_endian_and_fail_out_of_range() {
    let mem = [0x80u8, 0x7f, 0x01, 0xff];
    assert_eq!(exec_load(LoadKind::Lb, &mem, 0), Some(0xffff_ff80));
    assert_eq!(exec_load(LoadKind::Lbu, &mem, 0), Some(0x80));
    assert_eq!(exec_load(LoadKind::Lh, &mem, 0), Some(0x7f80));
    assert_eq!(exec_load(LoadKind::Lh, &mem, 2), Some(0xffff_ff01));
    assert_eq!(exec_load(LoadKind::Lhu, &mem, 2), Some(0xff01));
    assert_eq!(exec_load(LoadKind::Lw, &mem, 0), Some(0xff01_7f80));
    assert_eq!(exec_load(LoadKind::Lb, &mem, 4), None);
    assert_eq!(exec_load(LoadKind::Lbu, &mem, 0xffff_ffff), None);
    assert_eq!(exec_load(LoadKind::Lh, &mem, 3), None);
    assert_eq!(exec_load(LoadKind::Lhu, &mem, 3), None);
    assert_eq!(exec_load(LoadKind::Lw, &mem, 1), None);
}

#[test]
fn stores_write_little_endian_and_fail_out_of_range() {
    let mut mem = [0u8; 6];
    assert_eq!(exec_store(Storekind::SW, &mut mem, 1, 0x1122_3344), Some(()));
    assert_eq!(mem, [0, 0x44, 0x33, 0x22, 0x11, 0]);
    assert_eq!(exec_store(Storekind::SH, &mut mem, 4, 0xaabb_ccdd), Some(()));
    assert_eq!(mem, [0, 0x44, 0x33, 0x22, 0xdd, 0xcc]);
    assert_eq!(exec_store(Storekind::SB, &mut mem, 0, 0x1ee), Some(()));
    assert_eq!(mem, [0xee, 0x44, 0x33, 0x22, 0xdd, 0xcc]);
    let before = mem;
    assert_eq!(exec_store(Storekind::SW, &mut mem, 3, 7), None);
    assert_eq!(exec_store(Storekind::SH, &mut mem, 5, 7), None);
    assert_eq!(exec_store(Storekind::SB, &mut mem, 6, 7), None);
    assert_eq!(exec_store(Storekind::SB, &mut mem, 0xffff_ffff, 7), None);
    assert_eq!(mem, before);
}

#[test]
fn store_then_load_reads_back() {
    let mut mem = [0u8; 8];
    exec_store(Storekind::SB, &mut mem, 1, 0x1234_5680).unwrap();
    assert_eq!(exec_load(LoadKind::Lbu, &mem, 1), Some(0x80));
    assert_eq!(exec_load(LoadKind::Lb, &mem, 1), Some(0xffff_ff80));
    exec_store(Storekind::SH, &mut mem, 2, 0x1234_8001).unwrap();
    assert_eq!(exec_load(LoadKind::Lhu, &mem, 2), Some(0x8001));
    assert_eq!(exec_load(LoadKind::Lh, &mem, 2), Some(0xffff_8001));
    exec_store(Storekind::SW, &mut mem, 4, 0xdead_beef).unwrap();
    assert_eq!(exec_load(LoadKind::Lw, &mem, 4), Some(0xdead_beef));
    // the earlier stores are untouched by the later ones
    assert_eq!(exec_load(LoadKind::Lbu, &mem, 1), Some(0x80));
    assert_eq!(exec_load(LoadKind::Lhu, &mem, 2), Some(0x8001));
}

#[test]
fn hazard_priorities() {
    let stall = PipeCtrl { stall_if: true, stall_id: true, flush_ex: true, pc_sel: None };
    assert_eq!(hazard_unit(1, 4, 4, true, false, true), stall);
    assert_eq!(hazard_unit(1, 4, 4, true, true, true), stall);
    assert_eq!(hazard_unit(0, 0, 0, true, false, false), PipeCtrl::default());
    assert_eq!(hazard_unit(1, 2, 3, true, false, false), PipeCtrl::default());
    assert_eq!(hazard_unit(1, 2, 1, false, false, false), PipeCtrl::default());
    assert_eq!(
        hazard_unit(1, 2, 0, false, true, true).pc_sel,
        Some(PcSel::BranchTarget)
    );
}

#[test]
fn new_cpu_is_zeroed() {
    let cpu = Cpu::new(vec![1, 2, 3], 5);
    assert_eq!(cpu.pc, 0);
    assert_eq!(cpu.regs, [0u32; 32]);
    assert_eq!(cpu.imem, vec![1, 2, 3]);
    assert_eq!(cpu.dmem, vec![0u8; 5]);
}

#[test]
fn halted_cpu_does_not_change() {
    let mut cpu = Cpu::new(vec![0x0050_8113], 4);
    cpu.pc = 4;
    cpu.regs[0] = 9;
    cpu.regs[1] = 3;
    cpu.step();
    assert_eq!(cpu.pc, 4);
    assert_eq!(cpu.regs[0], 9);
    assert_eq!(cpu.regs[1], 3);
    assert_eq!(cpu.regs[2], 0);
}

#[test]
fn step_resets_x0_and_leaves_other_registers() {
    let lui_x0 = 0x1234_5037u32;
    let mut cpu = Cpu::new(vec![lui_x0, encode_r(0, 2, 1, 0, 3)], 0);
    cpu.regs[0] = 7;
    cpu.regs[1] = 1;
    cpu.regs[2] = 2;
    cpu.step();
    assert_eq!(cpu.regs[0], 0);
    assert_eq!(cpu.pc, 4);
    cpu.step();
    assert_eq!(cpu.regs[3], 3);
    for i in [1usize, 2] {
        assert_eq!(cpu.regs[i], i as u32);
    }
    for i in 4..32 {
        assert_eq!(cpu.regs[i], 0);
    }
}

#[test]
fn step_op_imm_variants() {
    let prog = vec![
        encode_i(0x13, 2, 0b010, 1, 0xfff), // slti x2, x1, -1
        encode_i(0x13, 3, 0b101, 1, 0x404), // srai x3, x1, 4
        encode_i(0x13, 4, 0b111, 1, 0x0ff), // andi x4, x1, 0xff
        encode_i(0x13, 5, 0b001, 1, 0x004), // slli x5, x1, 4
    ];
    let mut cpu = Cpu::new(prog, 0);
    cpu.regs[1] = 0xffff_ff00;
    for _ in 0..4 {
        cpu.step();
    }
    assert_eq!(cpu.regs[2], 1);
    assert_eq!(cpu.regs[3], 0xffff_fff0);
    assert_eq!(cpu.regs[4], 0);
    assert_eq!(cpu.regs[5], 0xffff_f000);
    assert_eq!(cpu.pc, 16);
}

#[test]
fn step_branch_kinds() {
    // bne taken, blt not taken, bgeu taken
    let prog = vec![
        encode_b(1, 2, 0b001, 8),
        0,
        encode_b(1, 2, 0b100, 8),
        encode_b(2, 1, 0b111, 0x1ff4),
    ];
    let mut cpu = Cpu::new(prog, 0);
    cpu.regs[1] = 5;
    cpu.regs[2] = 0xffff_ffff;
    cpu.step();
    assert_eq!(cpu.pc, 8);
    cpu.step();
    assert_eq!(cpu.pc, 12);
    cpu.step();
    assert_eq!(cpu.pc, 0);
    // a BRANCH with an undefined funct3 falls through
    let mut cpu2 = Cpu::new(vec![encode_b(0, 0, 0b011, 8)], 0);
    cpu2.step();
    assert_eq!(cpu2.pc, 4);
}

#[test]
fn step_jal_backwards_and_memory_errors_are_ignored() {
    let sw_far = encode_s(0, 1, 0b010, 0x7fc);
    let lw_far = encode_i(0x03, 3, 0b010, 0, 0x7fc);
    let jal_back = encode_j(1, 0x1f_fff8);
    let mut cpu = Cpu::new(vec![sw_far, lw_far, jal_back], 8);
    cpu.regs[1] = 0xabcd;
    cpu.regs[3] = 17;
    cpu.step();
    assert_eq!(cpu.dmem, vec![0u8; 8]);
    cpu.step();
    assert_eq!(cpu.regs[3], 17);
    cpu.step();
    assert_eq!(cpu.regs[1], 12);
    assert_eq!(cpu.pc, 0);
}

#[test]
fn step_store_load_roundtrip_with_offset() {
    let sh = encode_s(1, 2, 0b001, 0xffe); // sh x2, -2(x1)
    let lh = encode_i(0x03, 3, 0b001, 4, 2); // lh x3, 2(x4)
    let lbu = encode_i(0x03, 5, 0b100, 4, 3); // lbu x5, 3(x4)
    let mut cpu = Cpu::new(vec![sh, lh, lbu], 8);
    cpu.regs[1] = 6;
    cpu.regs[2] = 0x0000_9abc;
    cpu.regs[4] = 2;
    cpu.step();
    cpu.step();
    cpu.step();
    assert_eq!(cpu.regs[3], 0xffff_9abc);
    assert_eq!(cpu.regs[5], 0x9a);
    assert_eq!(cpu.dmem, vec![0, 0, 0, 0, 0xbc, 0x9a, 0, 0]);
}
