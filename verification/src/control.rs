//! Decoding of instructions into control words, and the execution units.
use vstd::prelude::*;
use vstd::arithmetic::power2::pow2;
use crate::isa::{
    as_signed, wrap, opcode_of, rd_of, rs1_of, rs2_of, funct3_of, funct7_of,
    i_imm_of, u_imm_of, j_imm_of, sign_extend, lemma_sign_extend_field,
};

verus! {

/// Where the next PC comes from.
#[derive(Debug, Clone, Copy, PartialEq, Eq, Structural)]
pub enum PcSel {
    /// Sequential execution: PC + 4.
    Plus4,
    /// The target of a taken conditional branch.
    BranchTarget,
    /// The target of an unconditional jump.
    JumpTarget,
}

/// The operation the ALU performs.
#[derive(Debug, Clone, Copy, PartialEq, Eq, Structural)]
pub enum AluOp {
    Add,
    Sub,
    Sll,
    Slt,
    Sltu,
    Xor,
    Srl,
    Sra,
    Or,
    And,
}

/// The width and extension of a load.
#[derive(Debug, Clone, Copy, PartialEq, Eq, Structural)]
pub enum LoadKind {
    Lb,
    Lh,
    Lw,
    Lbu,
    Lhu,
}

/// The width of a store.
#[derive(Debug, Clone, Copy, PartialEq, Eq, Structural)]
pub enum Storekind {
    SB,
    SH,
    SW,
}

/// The comparison a conditional branch makes.
#[derive(Debug, Clone, Copy, PartialEq, Eq, Structural)]
pub enum BranchKind {
    Beq,
    Bne,
    Blt,
    Bge,
    Bltu,
    Bgeu,
}

/// The control signals that one instruction asserts.
#[derive(Debug, Clone, Copy, PartialEq, Eq, Structural)]
pub struct CtrlWord {
    /// The instruction writes the register file.
    pub reg_write: bool,
    /// The instruction reads data memory.
    pub mem_read: bool,
    /// The instruction writes data memory.
    pub mem_write: bool,
    /// The ALU's second operand is the immediate.
    pub alu_src_imm: bool,
    /// A conditional branch.
    pub branch: bool,
    /// An unconditional jump.
    pub jump: bool,
    /// The ALU operation, if the instruction uses the ALU.
    pub alu_op: Option<AluOp>,
    /// The kind of load, for loads.
    pub load_kind: Option<LoadKind>,
    /// The kind of store, for stores.
    pub store_kind: Option<Storekind>,
    /// The comparison, for conditional branches.
    pub branch_kind: Option<BranchKind>,
}

/// The control word of an instruction that does nothing: every signal off.
pub open spec fn nop_ctrl() -> CtrlWord {
    CtrlWord {
        reg_write: false,
        mem_read: false,
        mem_write: false,
        alu_src_imm: false,
        branch: false,
        jump: false,
        alu_op: None,
        load_kind: None,
        store_kind: None,
        branch_kind: None,
    }
}

impl Default for CtrlWord {
    fn default() -> (r: Self)
        ensures
            r == nop_ctrl(),
    {
        CtrlWord {
            reg_write: false,
            mem_read: false,
            mem_write: false,
            alu_src_imm: false,
            branch: false,
            jump: false,
            alu_op: None,
            load_kind: None,
            store_kind: None,
            branch_kind: None,
        }
    }
}

/// The ALU operation of an OP (register-register) instruction with these
/// minor opcodes; `None` for an encoding RV32I does not define.
pub open spec fn op_alu_op(funct3: u32, funct7: u32) -> Option<AluOp> {
    if funct7 == 0 {
        if funct3 == 0 { Some(AluOp::Add) }
        else if funct3 == 1 { Some(AluOp::Sll) }
        else if funct3 == 2 { Some(AluOp::Slt) }
        else if funct3 == 3 { Some(AluOp::Sltu) }
        else if funct3 == 4 { Some(AluOp::Xor) }
        else if funct3 == 5 { Some(AluOp::Srl) }
        else if funct3 == 6 { Some(AluOp::Or) }
        else if funct3 == 7 { Some(AluOp::And) }
        else { None }
    } else if funct7 == 0x20 {
        if funct3 == 0 { Some(AluOp::Sub) }
        else if funct3 == 5 { Some(AluOp::Sra) }
        else { None }
    } else {
        None
    }
}

/// The ALU operation of an OP-IMM instruction with these minor opcodes
/// (`funct7` matters to the shifts only); `None` for an undefined encoding.
pub open spec fn op_imm_alu_op(funct3: u32, funct7: u32) -> Option<AluOp> {
    if funct3 == 0 { Some(AluOp::Add) }
    else if funct3 == 2 { Some(AluOp::Slt) }
    else if funct3 == 3 { Some(AluOp::Sltu) }
    else if funct3 == 4 { Some(AluOp::Xor) }
    else if funct3 == 6 { Some(AluOp::Or) }
    else if funct3 == 7 { Some(AluOp::And) }
    else if funct3 == 1 && funct7 == 0 { Some(AluOp::Sll) }
    else if funct3 == 5 && funct7 == 0 { Some(AluOp::Srl) }
    else if funct3 == 5 && funct7 == 0x20 { Some(AluOp::Sra) }
    else { None }
}

/// The load of a LOAD instruction with this `funct3`.
pub open spec fn load_kind_of(funct3: u32) -> Option<LoadKind> {
    if funct3 == 0 { Some(LoadKind::Lb) }
    else if funct3 == 1 { Some(LoadKind::Lh) }
    else if funct3 == 2 { Some(LoadKind::Lw) }
    else if funct3 == 4 { Some(LoadKind::Lbu) }
    else if funct3 == 5 { Some(LoadKind::Lhu) }
    else { None }
}

/// The store of a STORE instruction with this `funct3`.
pub open spec fn store_kind_of(funct3: u32) -> Option<Storekind> {
    if funct3 == 0 { Some(Storekind::SB) }
    else if funct3 == 1 { Some(Storekind::SH) }
    else if funct3 == 2 { Some(Storekind::SW) }
    else { None }
}

/// The comparison of a BRANCH instruction with this `funct3`.
pub open spec fn branch_kind_of(funct3: u32) -> Option<BranchKind> {
    if funct3 == 0 { Some(BranchKind::Beq) }
    else if funct3 == 1 { Some(BranchKind::Bne) }
    else if funct3 == 4 { Some(BranchKind::Blt) }
    else if funct3 == 5 { Some(BranchKind::Bge) }
    else if funct3 == 6 { Some(BranchKind::Bltu) }
    else if funct3 == 7 { Some(BranchKind::Bgeu) }
    else { None }
}

/// The control word of an instruction. Every encoding that is not a
/// supported RV32I instruction decodes to `nop_ctrl()`, except that a
/// BRANCH opcode always marks a branch, with no comparison named when its
/// `funct3` is undefined.
pub open spec fn decode_spec(inst: u32) -> CtrlWord {
    let opcode = opcode_of(inst);
    let f3 = funct3_of(inst);
    let f7 = funct7_of(inst);
    if opcode == 0x33 {
        match op_alu_op(f3, f7) {
            Some(op) => CtrlWord { reg_write: true, alu_op: Some(op), ..nop_ctrl() },
            None => nop_ctrl(),
        }
    } else if opcode == 0x13 {
        match op_imm_alu_op(f3, f7) {
            Some(op) => CtrlWord { reg_write: true, alu_src_imm: true, alu_op: Some(op), ..nop_ctrl() },
            None => nop_ctrl(),
        }
    } else if opcode == 0x03 {
        match load_kind_of(f3) {
            Some(k) => CtrlWord {
                reg_write: true,
                mem_read: true,
                alu_src_imm: true,
                alu_op: Some(AluOp::Add),
                load_kind: Some(k),
                ..nop_ctrl()
            },
            None => nop_ctrl(),
        }
    } else if opcode == 0x23 {
        match store_kind_of(f3) {
            Some(k) => CtrlWord {
                mem_write: true,
                alu_src_imm: true,
                alu_op: Some(AluOp::Add),
                store_kind: Some(k),
                ..nop_ctrl()
            },
            None => nop_ctrl(),
        }
    } else if opcode == 0x63 {
        CtrlWord { branch: true, alu_op: Some(AluOp::Sub), branch_kind: branch_kind_of(f3), ..nop_ctrl() }
    } else if opcode == 0x6f {
        CtrlWord { reg_write: true, jump: true, ..nop_ctrl() }
    } else if opcode == 0x67 {
        if f3 == 0 {
            CtrlWord { reg_write: true, jump: true, alu_src_imm: true, ..nop_ctrl() }
        } else {
            nop_ctrl()
        }
    } else if opcode == 0x37 || opcode == 0x17 {
        CtrlWord { reg_write: true, alu_src_imm: true, ..nop_ctrl() }
    } else {
        nop_ctrl()
    }
}

/// What `exec_alu(op, a, b)` computes: the shift amount is the low five
/// bits of `b`, arithmetic wraps modulo 2^32, and the signed operations read
/// their operands in two's complement.
pub open spec fn alu_spec(op: AluOp, a: u32, b: u32) -> u32 {
    let s = (b % 32) as nat;
    match op {
        AluOp::Add => wrap(a + b),
        AluOp::Sub => wrap(a - b),
        AluOp::Sll => wrap(a * pow2(s)),
        AluOp::Slt => if as_signed(a) < as_signed(b) { 1 } else { 0 },
        AluOp::Sltu => if a < b { 1 } else { 0 },
        AluOp::Xor => a ^ b,
        AluOp::Srl => (a as nat / pow2(s)) as u32,
        AluOp::Sra => wrap(as_signed(a) / (pow2(s) as int)),
        AluOp::Or => a | b,
        AluOp::And => a & b,
    }
}

/// Executes one ALU operation on two register values.
pub fn exec_alu(op: AluOp, a: u32, b: u32) -> (r: u32)
    ensures
        r == alu_spec(op, a, b),
{
    let shamt = b & 0x1f;
    proof {
        assert(shamt == b % 32) by (bit_vector) requires shamt == b & 0x1f;
    }
    match op {
        AluOp::Add => a.wrapping_add(b),
        AluOp::Sub => a.wrapping_sub(b),
        AluOp::Sll => {
            let r = a << shamt;
            proof { lemma_shl_wraps(a, shamt); }
            r
        },
        AluOp::Slt => {
            if (a as i32) < (b as i32) {
                proof { lemma_signed_lt(a, b); }
                1
            } else {
                proof { lemma_signed_lt(a, b); }
                0
            }
        },
        AluOp::Sltu => if a < b { 1 } else { 0 },
        AluOp::Xor => a ^ b,
        AluOp::Srl => {
            let r = a >> shamt;
            proof { vstd::bits::lemma_u32_shr_is_div(a, shamt); }
            r
        },
        AluOp::Sra => {
            let r = ((a as i32) >> shamt) as u32;
            proof { lemma_sra(a, shamt); }
            r
        },
        AluOp::Or => a | b,
        AluOp::And => a & b,
    }
}

/// Decodes an OP instruction's minor opcodes.
pub fn decode_op(funct3: u32, funct7: u32) -> (c: CtrlWord)
    ensures
        c == (match op_alu_op(funct3, funct7) {
            Some(op) => CtrlWord { reg_write: true, alu_op: Some(op), ..nop_ctrl() },
            None => nop_ctrl(),
        }),
{
    let alu_op = match (funct3, funct7) {
        (0b000, 0b0000000) => Some(AluOp::Add),
        (0b000, 0b0100000) => Some(AluOp::Sub),
        (0b001, 0b0000000) => Some(AluOp::Sll),
        (0b010, 0b0000000) => Some(AluOp::Slt),
        (0b011, 0b0000000) => Some(AluOp::Sltu),
        (0b100, 0b0000000) => Some(AluOp::Xor),
        (0b101, 0b0000000) => Some(AluOp::Srl),
        (0b101, 0b0100000) => Some(AluOp::Sra),
        (0b110, 0b0000000) => Some(AluOp::Or),
        (0b111, 0b0000000) => Some(AluOp::And),
        _ => None,
    };
    match alu_op {
        Some(op) => CtrlWord { reg_write: true, alu_op: Some(op), ..Default::default() },
        None => CtrlWord::default(),
    }
}

/// Decodes an OP-IMM instruction's minor opcodes.
pub fn decode_op_imm(funct3: u32, funct7: u32) -> (c: CtrlWord)
    ensures
        c == (match op_imm_alu_op(funct3, funct7) {
            Some(op) => CtrlWord { reg_write: true, alu_src_imm: true, alu_op: Some(op), ..nop_ctrl() },
            None => nop_ctrl(),
        }),
{
    let alu_op = match (funct3, funct7) {
        (0b000, _) => Some(AluOp::Add),
        (0b010, _) => Some(AluOp::Slt),
        (0b011, _) => Some(AluOp::Sltu),
        (0b100, _) => Some(AluOp::Xor),
        (0b110, _) => Some(AluOp::Or),
        (0b111, _) => Some(AluOp::And),
        (0b001, 0b0000000) => Some(AluOp::Sll),
        (0b101, 0b0000000) => Some(AluOp::Srl),
        (0b101, 0b0100000) => Some(AluOp::Sra),
        _ => None,
    };
    match alu_op {
        Some(op) => CtrlWord { reg_write: true, alu_src_imm: true, alu_op: Some(op), ..Default::default() },
        None => CtrlWord::default(),
    }
}

/// Decodes a LOAD instruction's `funct3`.
pub fn decode_load(funct3: u32) -> (c: CtrlWord)
    ensures
        c == (match load_kind_of(funct3) {
            Some(k) => CtrlWord {
                reg_write: true,
                mem_read: true,
                alu_src_imm: true,
                alu_op: Some(AluOp::Add),
                load_kind: Some(k),
                ..nop_ctrl()
            },
            None => nop_ctrl(),
        }),
{
    let kind = match funct3 {
        0b000 => Some(LoadKind::Lb),
        0b001 => Some(LoadKind::Lh),
        0b010 => Some(LoadKind::Lw),
        0b100 => Some(LoadKind::Lbu),
        0b101 => Some(LoadKind::Lhu),
        _ => None,
    };
    match kind {
        Some(k) => CtrlWord {
            reg_write: true,
            mem_read: true,
            alu_src_imm: true,
            alu_op: Some(AluOp::Add),
            load_kind: Some(k),
            ..Default::default()
        },
        None => CtrlWord::default(),
    }
}

/// Decodes a STORE instruction's `funct3`.
pub fn decode_store(funct3: u32) -> (c: CtrlWord)
    ensures
        c == (match store_kind_of(funct3) {
            Some(k) => CtrlWord {
                mem_write: true,
                alu_src_imm: true,
                alu_op: Some(AluOp::Add),
                store_kind: Some(k),
                ..nop_ctrl()
            },
            None => nop_ctrl(),
        }),
{
    let kind = match funct3 {
        0b000 => Some(Storekind::SB),
        0b001 => Some(Storekind::SH),
        0b010 => Some(Storekind::SW),
        _ => None,
    };
    match kind {
        Some(k) => CtrlWord {
            mem_write: true,
            alu_src_imm: true,
            alu_op: Some(AluOp::Add),
            store_kind: Some(k),
            ..Default::default()
        },
        None => CtrlWord::default(),
    }
}

/// Decodes a BRANCH instruction's `funct3`. Every BRANCH instruction is
/// marked as a branch comparing by subtraction; the comparison is named only
/// for the six funct3 values RV32I defines.
pub fn decode_branch(funct3: u32) -> (c: CtrlWord)
    ensures
        c == (CtrlWord {
            branch: true,
            alu_op: Some(AluOp::Sub),
            branch_kind: branch_kind_of(funct3),
            ..nop_ctrl()
        }),
{
    let kind = match funct3 {
        0b000 => Some(BranchKind::Beq),
        0b001 => Some(BranchKind::Bne),
        0b100 => Some(BranchKind::Blt),
        0b101 => Some(BranchKind::Bge),
        0b110 => Some(BranchKind::Bltu),
        0b111 => Some(BranchKind::Bgeu),
        _ => None,
    };
    CtrlWord { branch: true, alu_op: Some(AluOp::Sub), branch_kind: kind, ..Default::default() }
}

/// Decodes an instruction into its control word: first by major opcode,
/// then by the minor opcodes where the major class needs them.
pub fn decode(inst: u32) -> (c: CtrlWord)
    ensures
        c == decode_spec(inst),
{
    let opcode = inst & 0x7f;
    let funct3 = (inst >> 12) & 0x7;
    let funct7 = (inst >> 25) & 0x7f;
    proof { lemma_fields(inst); }
    match opcode {
        0x33 => decode_op(funct3, funct7),
        0x13 => decode_op_imm(funct3, funct7),
        0x03 => decode_load(funct3),
        0x23 => decode_store(funct3),
        0x63 => decode_branch(funct3),
        0x6f => CtrlWord { reg_write: true, jump: true, ..Default::default() },
        0x67 => {
            if funct3 == 0 {
                CtrlWord { reg_write: true, jump: true, alu_src_imm: true, ..Default::default() }
            } else {
                CtrlWord::default()
            }
        },
        0x37 | 0x17 => CtrlWord { reg_write: true, alu_src_imm: true, ..Default::default() },
        _ => CtrlWord::default(),
    }
}

/// The shift-and-mask extraction of each field gives the field.
pub proof fn lemma_fields(inst: u32)
    ensures
        inst & 0x7f == opcode_of(inst),
        (inst >> 7) & 0x1f == rd_of(inst),
        (inst >> 12) & 0x7 == funct3_of(inst),
        (inst >> 15) & 0x1f == rs1_of(inst),
        (inst >> 20) & 0x1f == rs2_of(inst),
        (inst >> 25) & 0x7f == funct7_of(inst),
{
    assert(inst & 0x7f == inst % 0x80) by (bit_vector);
    assert((inst >> 7) & 0x1f == (inst / 0x80) % 0x20) by (bit_vector);
    assert((inst >> 12) & 0x7 == (inst / 0x1000) % 0x8) by (bit_vector);
    assert((inst >> 15) & 0x1f == (inst / 0x8000) % 0x20) by (bit_vector);
    assert((inst >> 20) & 0x1f == (inst / 0x10_0000) % 0x20) by (bit_vector);
    assert((inst >> 25) & 0x7f == inst / 0x200_0000) by (bit_vector);
}

/// Extracts the `rd` field, bits [11:7].
pub fn inst_rd(inst: u32) -> (r: u8)
    ensures
        r == rd_of(inst),
        r < 32,
{
    proof { lemma_fields(inst); }
    ((inst >> 7) & 0x1f) as u8
}

/// Extracts the `rs1` field, bits [19:15].
pub fn inst_rs1(inst: u32) -> (r: u8)
    ensures
        r == rs1_of(inst),
        r < 32,
{
    proof { lemma_fields(inst); }
    ((inst >> 15) & 0x1f) as u8
}

/// Extracts the `rs2` field, bits [24:20].
pub fn inst_rs2(inst: u32) -> (r: u8)
    ensures
        r == rs2_of(inst),
        r < 32,
{
    proof { lemma_fields(inst); }
    ((inst >> 20) & 0x1f) as u8
}

/// Extracts the I-type immediate, bits [31:20], sign-extended.
pub fn inst_i_imm(inst: u32) -> (r: u32)
    ensures
        r == i_imm_of(inst),
{
    let r = ((inst as i32) >> 20) as u32;
    proof {
        let x = inst >> 20;
        assert(x == inst / 0x10_0000) by (bit_vector) requires x == inst >> 20;
        assert(r == if x < 0x800 { x } else { (x + 0xffff_f000) as u32 }) by (bit_vector)
            requires x == inst >> 20, r == ((inst as i32) >> 20) as u32;
        vstd::arithmetic::power2::lemma2_to64();
        lemma_sign_extend_field(x as int, 12);
    }
    r
}

/// Extracts the immediate of JALR, which is the I-type immediate.
pub fn inst_jalr_imm(inst: u32) -> (r: u32)
    ensures
        r == i_imm_of(inst),
{
    inst_i_imm(inst)
}

/// Extracts the U-type immediate: bits [31:12] in place.
pub fn inst_u_imm(inst: u32) -> (r: u32)
    ensures
        r == u_imm_of(inst),
        r % 0x1000 == 0,
{
    let r = inst & 0xffff_f000;
    proof {
        assert(r == (inst / 0x1000) * 0x1000) by (bit_vector) requires r == inst & 0xffff_f000;
    }
    r
}

/// Extracts the J-type immediate of JAL, sign-extended; it is always even.
pub fn inst_jal_imm(inst: u32) -> (r: u32)
    ensures
        r == j_imm_of(inst),
        r % 2 == 0,
{
    let imm20 = (inst >> 31) & 0x1;
    let imm19_12 = (inst >> 12) & 0xff;
    let imm11 = (inst >> 20) & 0x1;
    let imm10_1 = (inst >> 21) & 0x3ff;
    let raw = (imm20 << 20) | (imm19_12 << 12) | (imm11 << 11) | (imm10_1 << 1);
    let r = ((raw as i32) << 11 >> 11) as u32;
    proof {
        let x = (inst / 0x8000_0000) * 0x10_0000 + ((inst / 0x1000) % 0x100) * 0x1000
            + ((inst / 0x10_0000) % 2) * 0x800 + ((inst / 0x20_0000) % 0x400) * 2;
        assert(raw == (inst / 0x8000_0000) * 0x10_0000 + ((inst / 0x1000) % 0x100) * 0x1000
            + ((inst / 0x10_0000) % 2) * 0x800 + ((inst / 0x20_0000) % 0x400) * 2) by (bit_vector)
            requires raw == (((inst >> 31) & 0x1) << 20) | (((inst >> 12) & 0xff) << 12)
                | (((inst >> 20) & 0x1) << 11) | (((inst >> 21) & 0x3ff) << 1);
        assert(raw < 0x20_0000 && raw % 2 == 0) by (bit_vector)
            requires raw == (((inst >> 31) & 0x1) << 20) | (((inst >> 12) & 0xff) << 12)
                | (((inst >> 20) & 0x1) << 11) | (((inst >> 21) & 0x3ff) << 1);
        assert(r == if raw < 0x10_0000 { raw } else { (raw + 0xffe0_0000) as u32 }) by (bit_vector)
            requires raw < 0x20_0000, r == ((raw as i32) << 11 >> 11) as u32;
        vstd::arithmetic::power2::lemma2_to64();
        lemma_sign_extend_field(x, 21);
    }
    r
}

/// What `exec_branch(kind, a, b)` decides: whether the branch is taken.
pub open spec fn branch_spec(kind: BranchKind, a: u32, b: u32) -> bool {
    match kind {
        BranchKind::Beq => a == b,
        BranchKind::Bne => a != b,
        BranchKind::Blt => as_signed(a) < as_signed(b),
        BranchKind::Bge => as_signed(a) >= as_signed(b),
        BranchKind::Bltu => a < b,
        BranchKind::Bgeu => a >= b,
    }
}

/// Compares two register values as a conditional branch of this kind does.
pub fn exec_branch(kind: BranchKind, a: u32, b: u32) -> (taken: bool)
    ensures
        taken == branch_spec(kind, a, b),
{
    proof { lemma_signed_lt(a, b); }
    match kind {
        BranchKind::Beq => a == b,
        BranchKind::Bne => a != b,
        BranchKind::Blt => (a as i32) < (b as i32),
        BranchKind::Bge => !((a as i32) < (b as i32)),
        BranchKind::Bltu => a < b,
        BranchKind::Bgeu => a >= b,
    }
}

/// JAL: returns the jump target `pc + imm` and the return address `pc + 4`,
/// both modulo 2^32.
pub fn exec_jal(pc: u32, imm: u32) -> (r: (u32, u32))
    ensures
        r.0 == wrap(pc + imm),
        r.1 == wrap(pc + 4),
{
    (pc.wrapping_add(imm), pc.wrapping_add(4))
}

/// JALR: returns the jump target `(rs1 + imm)` with its lowest bit cleared,
/// and the return address `pc + 4`, both modulo 2^32.
pub fn exec_jalr(rs1: u32, imm: u32, pc: u32) -> (r: (u32, u32))
    ensures
        r.0 == wrap(rs1 + imm) / 2 * 2,
        r.0 % 2 == 0,
        r.1 == wrap(pc + 4),
{
    let sum = rs1.wrapping_add(imm);
    let target = sum & !1u32;
    proof {
        assert(target == sum / 2 * 2) by (bit_vector) requires target == sum & !1u32;
    }
    (target, pc.wrapping_add(4))
}

/// LUI: the value written is the U-type immediate itself.
pub fn exec_lui(imm: u32) -> (r: u32)
    ensures
        r == imm,
{
    imm
}

/// AUIPC: the value written is `pc + imm` modulo 2^32.
pub fn exec_auipc(pc: u32, imm: u32) -> (r: u32)
    ensures
        r == wrap(pc + imm),
{
    pc.wrapping_add(imm)
}

/// The number of bytes a load of this kind reads.
pub open spec fn load_width(kind: LoadKind) -> int {
    match kind {
        LoadKind::Lb | LoadKind::Lbu => 1,
        LoadKind::Lh | LoadKind::Lhu => 2,
        LoadKind::Lw => 4,
    }
}

/// The number of bytes a store of this kind writes.
pub open spec fn store_width(kind: Storekind) -> int {
    match kind {
        Storekind::SB => 1,
        Storekind::SH => 2,
        Storekind::SW => 4,
    }
}

/// The little-endian halfword at byte address `a`.
pub open spec fn le_half(mem: Seq<u8>, a: int) -> int {
    mem[a] + 0x100 * mem[a + 1]
}

/// The little-endian word at byte address `a`.
pub open spec fn le_word(mem: Seq<u8>, a: int) -> int {
    mem[a] + 0x100 * mem[a + 1] + 0x1_0000 * mem[a + 2] + 0x100_0000 * mem[a + 3]
}

/// What a load reads: `None` when the accessed bytes do not all lie in
/// memory; otherwise the little-endian value, sign- or zero-extended.
pub open spec fn load_spec(kind: LoadKind, mem: Seq<u8>, addr: u32) -> Option<u32> {
    let a = addr as int;
    if a + load_width(kind) <= mem.len() {
        Some(
            match kind {
                LoadKind::Lb => sign_extend(mem[a] as int, 8),
                LoadKind::Lbu => mem[a] as u32,
                LoadKind::Lh => sign_extend(le_half(mem, a), 16),
                LoadKind::Lhu => le_half(mem, a) as u32,
                LoadKind::Lw => le_word(mem, a) as u32,
            },
        )
    } else {
        None
    }
}

/// Byte `k` (0 the lowest) of the little-endian encoding of `val`.
pub open spec fn byte_of(val: u32, k: int) -> u8 {
    if k == 0 {
        (val % 0x100) as u8
    } else if k == 1 {
        ((val / 0x100) % 0x100) as u8
    } else if k == 2 {
        ((val / 0x1_0000) % 0x100) as u8
    } else {
        (val / 0x100_0000) as u8
    }
}

/// What a store leaves in memory: `None` when the accessed bytes do not all
/// lie in memory; otherwise the memory with the low `store_width(kind)`
/// bytes of `val` written little-endian at `addr` and every other byte kept.
pub open spec fn store_spec(kind: Storekind, mem: Seq<u8>, addr: u32, val: u32) -> Option<Seq<u8>> {
    let a = addr as int;
    let w = store_width(kind);
    if a + w <= mem.len() {
        Some(Seq::new(mem.len(), |i: int| if a <= i < a + w { byte_of(val, i - a) } else { mem[i] }))
    } else {
        None
    }
}

/// Loads from byte-addressed data memory. Returns `None` when the access
/// runs past the end of memory.
pub fn exec_load(kind: LoadKind, dmem: &[u8], addr: u32) -> (r: Option<u32>)
    ensures
        r == load_spec(kind, dmem@, addr),
{
    let a = addr as usize;
    let len = dmem.len();
    proof { vstd::arithmetic::power2::lemma2_to64(); }
    match kind {
        LoadKind::Lb => {
            if a >= len {
                return None;
            }
            let b = dmem[a];
            let r = (b as i8 as i32) as u32;
            proof {
                assert(r == if b < 0x80 { b as u32 } else { (b as u32 + 0xffff_ff00) as u32 }) by (bit_vector)
                    requires r == (b as i8 as i32) as u32;
                lemma_sign_extend_field(b as int, 8);
            }
            Some(r)
        },
        LoadKind::Lbu => {
            if a >= len {
                return None;
            }
            Some(dmem[a] as u32)
        },
        LoadKind::Lh => {
            if a >= len || len - a < 2 {
                return None;
            }
            let raw = le_u16(dmem[a], dmem[a + 1]);
            let r = (raw as i16 as i32) as u32;
            proof {
                assert(r == if raw < 0x8000 { raw as u32 } else { (raw as u32 + 0xffff_0000) as u32 }) by (bit_vector)
                    requires r == (raw as i16 as i32) as u32;
                lemma_sign_extend_field(raw as int, 16);
            }
            Some(r)
        },
        LoadKind::Lhu => {
            if a >= len || len - a < 2 {
                return None;
            }
            let raw = le_u16(dmem[a], dmem[a + 1]);
            Some(raw as u32)
        },
        LoadKind::Lw => {
            if a >= len || len - a < 4 {
                return None;
            }
            Some(le_u32(dmem[a], dmem[a + 1], dmem[a + 2], dmem[a + 3]))
        },
    }
}

/// Joins two bytes, lowest first, into a halfword.
fn le_u16(b0: u8, b1: u8) -> (r: u16)
    ensures
        r == b0 + 0x100 * b1,
{
    let r = (b0 as u16) | ((b1 as u16) << 8);
    proof {
        assert(r == b0 + 0x100 * b1) by (bit_vector) requires r == (b0 as u16) | ((b1 as u16) << 8);
    }
    r
}

/// Joins four bytes, lowest first, into a word.
fn le_u32(b0: u8, b1: u8, b2: u8, b3: u8) -> (r: u32)
    ensures
        r == b0 + 0x100 * b1 + 0x1_0000 * b2 + 0x100_0000 * b3,
{
    let r = (b0 as u32) | ((b1 as u32) << 8) | ((b2 as u32) << 16) | ((b3 as u32) << 24);
    proof {
        assert(r == b0 + 0x100 * b1 + 0x1_0000 * b2 + 0x100_0000 * b3) by (bit_vector)
            requires r == (b0 as u32) | ((b1 as u32) << 8) | ((b2 as u32) << 16) | ((b3 as u32) << 24);
    }
    r
}

/// Stores the low byte, halfword or word of `val` little-endian at `addr`.
/// Returns `None`, with memory unchanged, when the access runs past the end
/// of memory.
pub fn exec_store(kind: Storekind, dmem: &mut [u8], addr: u32, val: u32) -> (r: Option<()>)
    ensures
        r is Some <==> store_spec(kind, old(dmem)@, addr, val) is Some,
        match store_spec(kind, old(dmem)@, addr, val) {
            Some(m) => final(dmem)@ == m,
            None => final(dmem)@ == old(dmem)@,
        },
{
    let a = addr as usize;
    let len = dmem.len();
    proof {
        assert((val as u8) == val % 0x100) by (bit_vector);
        assert(((val >> 8) as u8) == (val / 0x100) % 0x100) by (bit_vector);
        assert(((val >> 16) as u8) == (val / 0x1_0000) % 0x100) by (bit_vector);
        assert(((val >> 24) as u8) == val / 0x100_0000) by (bit_vector);
    }
    match kind {
        Storekind::SB => {
            if a >= len {
                return None;
            }
            dmem[a] = val as u8;
        },
        Storekind::SH => {
            if a >= len || len - a < 2 {
                return None;
            }
            dmem[a] = val as u8;
            dmem[a + 1] = (val >> 8) as u8;
        },
        Storekind::SW => {
            if a >= len || len - a < 4 {
                return None;
            }
            dmem[a] = val as u8;
            dmem[a + 1] = (val >> 8) as u8;
            dmem[a + 2] = (val >> 16) as u8;
            dmem[a + 3] = (val >> 24) as u8;
        },
    }
    proof {
        assert(dmem@ =~= store_spec(kind, old(dmem)@, addr, val)->0);
    }
    Some(())
}

/// The pipeline control unit's outputs.
#[derive(Debug, Clone, Copy, PartialEq, Eq, Structural)]
pub struct PipeCtrl {
    /// Freeze IF: keep the PC and the IF register.
    pub stall_if: bool,
    /// Freeze ID: keep the IF/ID register.
    pub stall_id: bool,
    /// Flush EX: insert a bubble.
    pub flush_ex: bool,
    /// Redirect the PC, if set.
    pub pc_sel: Option<PcSel>,
}

/// The pipeline control with every signal off.
pub open spec fn idle_pipe() -> PipeCtrl {
    PipeCtrl { stall_if: false, stall_id: false, flush_ex: false, pc_sel: None }
}

impl Default for PipeCtrl {
    fn default() -> (r: Self)
        ensures
            r == idle_pipe(),
    {
        PipeCtrl { stall_if: false, stall_id: false, flush_ex: false, pc_sel: None }
    }
}

/// A load in EX writes a register, other than `x0`, that the instruction in
/// ID reads.
pub open spec fn is_load_use(id_rs1: u8, id_rs2: u8, ex_rd: u8, ex_mem_read: bool) -> bool {
    ex_mem_read && ex_rd != 0 && (ex_rd == id_rs1 || ex_rd == id_rs2)
}

/// The classic five-stage hazard decision, in order of priority: a
/// load-use hazard stalls IF and ID and flushes EX; otherwise a taken branch
/// or a jump flushes EX and redirects the PC; otherwise nothing happens.
pub open spec fn hazard_spec(
    id_rs1: u8,
    id_rs2: u8,
    ex_rd: u8,
    ex_mem_read: bool,
    branch_taken: bool,
    jump: bool,
) -> PipeCtrl {
    if is_load_use(id_rs1, id_rs2, ex_rd, ex_mem_read) {
        PipeCtrl { stall_if: true, stall_id: true, flush_ex: true, pc_sel: None }
    } else if branch_taken {
        PipeCtrl { flush_ex: true, pc_sel: Some(PcSel::BranchTarget), ..idle_pipe() }
    } else if jump {
        PipeCtrl { flush_ex: true, pc_sel: Some(PcSel::JumpTarget), ..idle_pipe() }
    } else {
        idle_pipe()
    }
}

/// The pipeline control for the instruction in ID (reading `id_rs1` and
/// `id_rs2`) and the one in EX (writing `ex_rd`, reading memory when
/// `ex_mem_read`), given whether a branch is taken or a jump made.
pub fn hazard_unit(
    id_rs1: u8,
    id_rs2: u8,
    ex_rd: u8,
    ex_mem_read: bool,
    branch_taken: bool,
    jump: bool,
) -> (p: PipeCtrl)
    ensures
        p == hazard_spec(id_rs1, id_rs2, ex_rd, ex_mem_read, branch_taken, jump),
{
    let load_use = ex_mem_read && ex_rd != 0 && (ex_rd == id_rs1 || ex_rd == id_rs2);
    if load_use {
        return PipeCtrl { stall_if: true, stall_id: true, flush_ex: true, pc_sel: None };
    }
    if branch_taken {
        return PipeCtrl { flush_ex: true, pc_sel: Some(PcSel::BranchTarget), ..Default::default() };
    }
    if jump {
        return PipeCtrl { flush_ex: true, pc_sel: Some(PcSel::JumpTarget), ..Default::default() };
    }
    PipeCtrl::default()
}

proof fn lemma_shl_wraps(a: u32, s: u32)
    requires s < 32,
    ensures a << s == wrap(a * pow2(s as nat)),
{
    assert(a << s == ((a as u64) << (s as u64)) as u32) by (bit_vector) requires s < 32;
    vstd::bits::lemma_u32_pow2_no_overflow(s as nat);
    assert((a as u64) * pow2(s as nat) <= u64::MAX) by (nonlinear_arith)
        requires pow2(s as nat) < 0x1_0000_0000, a < 0x1_0000_0000;
    vstd::bits::lemma_u64_shl_is_mul(a as u64, s as u64);
    let x = (a as u64) << (s as u64);
    assert(x as u32 == x % 0x1_0000_0000) by (bit_vector);
}

proof fn lemma_signed_lt(a: u32, b: u32)
    ensures ((a as i32) < (b as i32)) == (as_signed(a) < as_signed(b)),
{
    assert(((a as i32) < (b as i32)) == ((a ^ 0x8000_0000u32) < (b ^ 0x8000_0000u32))) by (bit_vector);
    assert(a ^ 0x8000_0000u32 == if a < 0x8000_0000u32 { a + 0x8000_0000u32 } else { a - 0x8000_0000u32 }) by (bit_vector);
    assert(b ^ 0x8000_0000u32 == if b < 0x8000_0000u32 { b + 0x8000_0000u32 } else { b - 0x8000_0000u32 }) by (bit_vector);
}

proof fn lemma_sra(a: u32, s: u32)
    requires s < 32,
    ensures ((a as i32) >> s) as u32 == wrap(as_signed(a) / (pow2(s as nat) as int)),
{
    vstd::bits::lemma_u32_pow2_no_overflow(s as nat);
    let p = pow2(s as nat) as int;
    if a < 0x8000_0000 {
        assert(((a as i32) >> s) as u32 == a >> s) by (bit_vector) requires a < 0x8000_0000u32, s < 32;
        vstd::bits::lemma_u32_shr_is_div(a, s);
        vstd::arithmetic::div_mod::lemma_div_is_ordered_by_denominator(a as int, 1, p);
    } else {
        let na = !a;
        assert(((a as i32) >> s) as u32 == !(na >> s)) by (bit_vector) requires a >= 0x8000_0000u32, s < 32, na == !a;
        assert(na == 0xffff_ffff - a) by (bit_vector) requires na == !a;
        vstd::bits::lemma_u32_shr_is_div(na, s);
        let q = na >> s;
        assert(!q == 0xffff_ffff - q) by (bit_vector);
        let n = na as int;
        vstd::arithmetic::div_mod::lemma_fundamental_div_mod(n, p);
        assert(as_signed(a) == (-(n / p) - 1) * p + (p - 1 - n % p)) by (nonlinear_arith)
            requires n == p * (n / p) + n % p, as_signed(a) == -n - 1;
        vstd::arithmetic::div_mod::lemma_fundamental_div_mod_converse(
            as_signed(a), p, -(n / p) - 1, p - 1 - n % p);
        vstd::arithmetic::div_mod::lemma_div_is_ordered_by_denominator(n, 1, p);
        assert(as_signed(a) / p == -(q as int) - 1);
    }
}

} // verus!
