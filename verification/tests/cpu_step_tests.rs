use rv32i::cpu::Cpu;

/// Encodes a B-type branch instruction.
fn encode_branch(rs1: u32,rs2: u32,funct3: u32,imm: u32) -> u32{
    let imm12 = (imm >> 12) & 0x1;
    let imm10_5 = (imm >> 5) & 0x3f;
    let imm4_1 = (imm >> 1) & 0xf;
    let imm11 = (imm >> 11) & 0x1;
    (imm12 << 31)
    | (imm10_5 << 25)
    | (rs2 << 20)
    | (rs1 << 15)
    | (funct3 << 12)
    | (imm4_1 << 8)
    | (imm11 << 7)
    | 0x63
}
#[test]
fn cpu_step_runs_beq_taken() {
    let beq = encode_branch(1, 2, 0b000, 8);
    let mut cpu = Cpu::new(vec![beq], 0);

    cpu.regs[1] = 7;
    cpu.regs[2] = 7;

    cpu.step();

    assert_eq!(cpu.pc, 8);
}
#[test]
fn cpu_step_runs_beq_not_taken() {
    let beq = encode_branch(1, 2, 0b000, 8);
    let mut cpu = Cpu::new(vec![beq], 0);

    cpu.regs[1] = 7;
    cpu.regs[2] = 9;

    cpu.step();

    assert_eq!(cpu.pc, 4);
}
#[test]
fn cpu_step_runs_beq_taken_nagtive_imm() {
    let beq = encode_branch(1, 2, 0b000, (-4i32) as u32);
    let mut cpu = Cpu::new(vec![0, 0, 0, 0, beq], 0);
    // The zero words fill the slots before PC 16.
    cpu.pc = 16;
    cpu.regs[1] = 7;
    cpu.regs[2] = 7;

    cpu.step();

    assert_eq!(cpu.pc, 12);
}
#[test]
fn cpu_run_jalr_with_funct3not0_and_clear_lsb() {
    let jalr_x5_x1_0 = 0x0000_f2e7u32;
    let mut cpu = Cpu::new(vec![jalr_x5_x1_0], 0);
    cpu.regs[1] = 9; // target 9; its lowest bit is cleared, giving 8

    cpu.step();

    assert_eq!(cpu.regs[5], 0); // return address
    assert_eq!(cpu.pc, 4); // (9 + 0) & !1
}


#[test]
fn cpu_step_runs_jal_and_writes_ra() {
    // jal x1, +8
    let jal_x1_plus8 = 0x0080_00efu32;
    let mut cpu = Cpu::new(vec![jal_x1_plus8], 0);

    cpu.step();

    assert_eq!(cpu.regs[1], 4); // return address
    assert_eq!(cpu.pc, 8); // jumps to PC + 8
}

#[test]
fn cpu_step_runs_jalr_and_clears_lsb() {
    // jalr x5, x1, 0
    let jalr_x5_x1_0 = 0x0000_82e7u32;
    let mut cpu = Cpu::new(vec![jalr_x5_x1_0], 0);
    cpu.regs[1] = 9; // target 9; its lowest bit is cleared, giving 8

    cpu.step();

    assert_eq!(cpu.regs[5], 4); // return address
    assert_eq!(cpu.pc, 8); // (9 + 0) & !1
}

/// Encodes an R-type OP instruction.
fn encode_op(funct7: u32, rs2: u32, rs1: u32, funct3: u32, rd: u32) -> u32 {
    (funct7 << 25) | (rs2 << 20) | (rs1 << 15) | (funct3 << 12) | (rd << 7) | 0x33
}

#[test]
fn cpu_step_runs_addi() {
    // addi x2, x1, 5
    let addi_x2_x1_5 = 0x0050_8113u32;

    let mut cpu = Cpu::new(vec![addi_x2_x1_5], 0);
    cpu.regs[1] = 10;
    cpu.step();

    assert_eq!(cpu.regs[2], 15);
    assert_eq!(cpu.pc, 4);
}

#[test]
fn cpu_step_runs_lui() {
    let lui_x5 = 0x123452b7u32;
    let mut cpu = Cpu::new(vec![lui_x5], 0);
    cpu.step();
    assert_eq!(cpu.regs[5], 0x12345000);
}

#[test]
fn cpu_step_runs_auipc() {
    let auipc_x6 = 0x00001317u32;
    let mut cpu = Cpu::new(vec![0, auipc_x6], 0);
    cpu.pc = 4;
    cpu.step();
    assert_eq!(cpu.regs[6], 0x1004);
}

#[test]
fn cpu_step_runs_add_then_sub_and_updates_pc() {
    let add_x3_x1_x2 = encode_op(0b0000000, 2, 1, 0b000, 3);
    let sub_x4_x3_x1 = encode_op(0b0100000, 1, 3, 0b000, 4);

    let mut cpu = Cpu::new(vec![add_x3_x1_x2, sub_x4_x3_x1], 0);
    cpu.regs[1] = 10;
    cpu.regs[2] = 7;

    cpu.step();
    cpu.step();

    assert_eq!(cpu.regs[3], 17);
    assert_eq!(cpu.regs[4], 7);
    assert_eq!(cpu.pc, 8);
}

#[test]
fn cpu_x0_is_immutable() {
    let add_x0_x1_x2 = encode_op(0b0000000, 2, 1, 0b000, 0);

    let mut cpu = Cpu::new(vec![add_x0_x1_x2], 0);
    cpu.regs[1] = 123;
    cpu.regs[2] = 456;
    cpu.step();

    assert_eq!(cpu.regs[0], 0);
}

#[test]
fn cpu_sw_then_lw_roundtrip() {
    // sw x2, 0(x1) -> 0x0020a023
    // lw x3, 0(x1) -> 0x0000a183
    let sw = 0x0020a023u32;
    let lw = 0x0000a183u32;

    let mut cpu = Cpu::new(vec![sw, lw], 64);
    cpu.regs[1] = 0;
    cpu.regs[2] = 0xdeadbeef;

    cpu.step();
    cpu.step();

    assert_eq!(cpu.regs[3], 0xdeadbeef);
}
