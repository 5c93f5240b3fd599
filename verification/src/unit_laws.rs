//! What the decoder, the ALU, the branch comparator and the hazard unit do,
//! stated over their inputs: tables written out with the RV32I encodings,
//! and relations between operations.
use vstd::prelude::*;
use vstd::arithmetic::power2::pow2;
use crate::isa::{as_signed, opcode_of, funct3_of, funct7_of};
use crate::control::{
    AluOp, LoadKind, Storekind, BranchKind, PcSel, PipeCtrl, alu_spec, branch_spec, decode_spec,
    hazard_spec,
};

verus! {

/// The OP (0x33) and OP-IMM (0x13) encodings of RV32I, funct3 and funct7
/// written out: each defined pair selects its ALU operation and writes `rd`.
pub proof fn law_decode_arith_table(inst: u32)
    ensures
        ({
            let c = decode_spec(inst);
            let f3 = funct3_of(inst);
            let f7 = funct7_of(inst);
            &&& opcode_of(inst) == 0x33 ==> {
                &&& (f3 == 0 && f7 == 0 ==> c.alu_op == Some(AluOp::Add))
                &&& (f3 == 0 && f7 == 0x20 ==> c.alu_op == Some(AluOp::Sub))
                &&& (f3 == 1 && f7 == 0 ==> c.alu_op == Some(AluOp::Sll))
                &&& (f3 == 2 && f7 == 0 ==> c.alu_op == Some(AluOp::Slt))
                &&& (f3 == 3 && f7 == 0 ==> c.alu_op == Some(AluOp::Sltu))
                &&& (f3 == 4 && f7 == 0 ==> c.alu_op == Some(AluOp::Xor))
                &&& (f3 == 5 && f7 == 0 ==> c.alu_op == Some(AluOp::Srl))
                &&& (f3 == 5 && f7 == 0x20 ==> c.alu_op == Some(AluOp::Sra))
                &&& (f3 == 6 && f7 == 0 ==> c.alu_op == Some(AluOp::Or))
                &&& (f3 == 7 && f7 == 0 ==> c.alu_op == Some(AluOp::And))
                &&& (c.alu_op is Some ==> c.reg_write && !c.alu_src_imm)
            }
            &&& opcode_of(inst) == 0x13 ==> {
                &&& (f3 == 0 ==> c.alu_op == Some(AluOp::Add))
                &&& (f3 == 1 && f7 == 0 ==> c.alu_op == Some(AluOp::Sll))
                &&& (f3 == 2 ==> c.alu_op == Some(AluOp::Slt))
                &&& (f3 == 3 ==> c.alu_op == Some(AluOp::Sltu))
                &&& (f3 == 4 ==> c.alu_op == Some(AluOp::Xor))
                &&& (f3 == 5 && f7 == 0 ==> c.alu_op == Some(AluOp::Srl))
                &&& (f3 == 5 && f7 == 0x20 ==> c.alu_op == Some(AluOp::Sra))
                &&& (f3 == 6 ==> c.alu_op == Some(AluOp::Or))
                &&& (f3 == 7 ==> c.alu_op == Some(AluOp::And))
                &&& (c.alu_op is Some ==> c.reg_write && c.alu_src_imm)
            }
        }),
{
}

/// An OP-IMM shift decodes to the same shift as the OP instruction with the
/// same funct3 and funct7 (the word with opcode 0x33 in place of 0x13).
pub proof fn law_shift_imm_matches_register_shift(inst: u32)
    requires
        opcode_of(inst) == 0x13,
        funct3_of(inst) == 1 || funct3_of(inst) == 5,
    ensures
        decode_spec(inst).alu_op == decode_spec((inst + 0x20) as u32).alu_op,
{
    let j = (inst + 0x20) as u32;
    assert(opcode_of(j) == 0x33 && funct3_of(j) == funct3_of(inst) && funct7_of(j) == funct7_of(inst))
        by (bit_vector)
        requires
            inst % 0x80 == 0x13,
            j == (inst + 0x20) as u32,
    ;
}

/// The LOAD, STORE and BRANCH encodings of RV32I written out: funct3 selects
/// the load, the store or the comparison; loads read memory and write `rd`,
/// stores write memory and no register.
pub proof fn law_decode_memory_branch_table(inst: u32)
    ensures
        ({
            let c = decode_spec(inst);
            let f3 = funct3_of(inst);
            &&& opcode_of(inst) == 0x03 ==> {
                &&& (f3 == 0 ==> c.load_kind == Some(LoadKind::Lb))
                &&& (f3 == 1 ==> c.load_kind == Some(LoadKind::Lh))
                &&& (f3 == 2 ==> c.load_kind == Some(LoadKind::Lw))
                &&& (f3 == 4 ==> c.load_kind == Some(LoadKind::Lbu))
                &&& (f3 == 5 ==> c.load_kind == Some(LoadKind::Lhu))
                &&& (c.load_kind is Some ==> c.reg_write && c.mem_read && !c.mem_write
                    && c.alu_src_imm && c.alu_op == Some(AluOp::Add))
            }
            &&& opcode_of(inst) == 0x23 ==> {
                &&& (f3 == 0 ==> c.store_kind == Some(Storekind::SB))
                &&& (f3 == 1 ==> c.store_kind == Some(Storekind::SH))
                &&& (f3 == 2 ==> c.store_kind == Some(Storekind::SW))
                &&& (c.store_kind is Some ==> !c.reg_write && !c.mem_read && c.mem_write
                    && c.alu_src_imm && c.alu_op == Some(AluOp::Add))
            }
            &&& opcode_of(inst) == 0x63 ==> {
                &&& c.branch && !c.reg_write && !c.jump && c.alu_op == Some(AluOp::Sub)
                &&& (f3 == 0 ==> c.branch_kind == Some(BranchKind::Beq))
                &&& (f3 == 1 ==> c.branch_kind == Some(BranchKind::Bne))
                &&& (f3 == 4 ==> c.branch_kind == Some(BranchKind::Blt))
                &&& (f3 == 5 ==> c.branch_kind == Some(BranchKind::Bge))
                &&& (f3 == 6 ==> c.branch_kind == Some(BranchKind::Bltu))
                &&& (f3 == 7 ==> c.branch_kind == Some(BranchKind::Bgeu))
            }
            &&& opcode_of(inst) == 0x6f ==> c.jump && c.reg_write && c.alu_op is None
            &&& opcode_of(inst) == 0x67 ==> (c.jump && c.reg_write) == (f3 == 0)
            &&& (opcode_of(inst) == 0x37 || opcode_of(inst) == 0x17) ==> c.reg_write && !c.jump
        }),
{
}

/// The set-less-than operations give 1 exactly when the first operand is
/// below the second (unsigned for Sltu, two's complement for Slt) and 0
/// otherwise; so no word is below itself and of two words at most one is
/// below the other. Slt is Sltu with the sign bits flipped.
pub proof fn law_set_less_than(a: u32, b: u32)
    ensures
        alu_spec(AluOp::Sltu, a, b) == 1 || alu_spec(AluOp::Sltu, a, b) == 0,
        (alu_spec(AluOp::Sltu, a, b) == 1) == (a < b),
        alu_spec(AluOp::Sltu, a, a) == 0,
        alu_spec(AluOp::Sltu, a, b) + alu_spec(AluOp::Sltu, b, a) <= 1,
        alu_spec(AluOp::Slt, a, b) == 1 || alu_spec(AluOp::Slt, a, b) == 0,
        (alu_spec(AluOp::Slt, a, b) == 1) == (as_signed(a) < as_signed(b)),
        alu_spec(AluOp::Slt, a, a) == 0,
        alu_spec(AluOp::Slt, a, b) + alu_spec(AluOp::Slt, b, a) <= 1,
        alu_spec(AluOp::Slt, a, b) == alu_spec(AluOp::Sltu, a ^ 0x8000_0000u32, b ^ 0x8000_0000u32),
{
    assert(a ^ 0x8000_0000u32 == if a < 0x8000_0000u32 { a + 0x8000_0000u32 } else { a - 0x8000_0000u32 }) by (bit_vector);
    assert(b ^ 0x8000_0000u32 == if b < 0x8000_0000u32 { b + 0x8000_0000u32 } else { b - 0x8000_0000u32 }) by (bit_vector);
}

/// Add and subtract: addition is commutative, a word minus itself is zero,
/// adding zero changes nothing, and both are exact when no wrap happens.
pub proof fn law_add_sub(a: u32, b: u32)
    ensures
        alu_spec(AluOp::Add, a, b) == alu_spec(AluOp::Add, b, a),
        alu_spec(AluOp::Sub, a, a) == 0,
        alu_spec(AluOp::Add, a, 0) == a,
        alu_spec(AluOp::Sub, a, 0) == a,
        a + b <= u32::MAX ==> alu_spec(AluOp::Add, a, b) == a + b,
        b <= a ==> alu_spec(AluOp::Sub, a, b) == a - b,
        a < b ==> alu_spec(AluOp::Sub, a, b) == a + 0x1_0000_0000 - b,
{
}

/// The bitwise operations: a word xor itself is 0, or and and of a word with
/// itself give the word, and xor is or without the common bits.
pub proof fn law_bitwise(a: u32, b: u32)
    ensures
        alu_spec(AluOp::Xor, a, a) == 0,
        alu_spec(AluOp::Or, a, a) == a,
        alu_spec(AluOp::And, a, a) == a,
        alu_spec(AluOp::And, a, 0) == 0,
        alu_spec(AluOp::Or, a, 0) == a,
        alu_spec(AluOp::Xor, a, 0) == a,
        alu_spec(AluOp::Xor, a, b) == alu_spec(AluOp::Or, a, b) - alu_spec(AluOp::And, a, b),
        alu_spec(AluOp::And, a, b) <= alu_spec(AluOp::Or, a, b),
{
    assert(a ^ a == 0 && a | a == a && a & a == a && a & 0 == 0 && a | 0 == a && a ^ 0 == a) by (bit_vector);
    assert(a ^ b == (a | b) - (a & b) && a & b <= a | b) by (bit_vector);
}

/// The shifts use only the low five bits of the amount; a shift by zero
/// changes nothing; a logical right shift by `s` is division by 2^s and a
/// left shift by `s` of a small enough word is multiplication by 2^s; the
/// arithmetic right shift equals the logical one on a word whose sign bit is
/// clear and, on a word whose sign bit is set, is the complement of the
/// logical shift of the complement.
pub proof fn law_shifts(a: u32, b: u32)
    ensures
        alu_spec(AluOp::Sll, a, b) == alu_spec(AluOp::Sll, a, b % 32),
        alu_spec(AluOp::Srl, a, b) == alu_spec(AluOp::Srl, a, b % 32),
        alu_spec(AluOp::Sra, a, b) == alu_spec(AluOp::Sra, a, b % 32),
        alu_spec(AluOp::Sll, a, 0) == a,
        alu_spec(AluOp::Srl, a, 0) == a,
        alu_spec(AluOp::Sra, a, 0) == a,
        alu_spec(AluOp::Srl, a, b) as nat == a as nat / pow2((b % 32) as nat),
        alu_spec(AluOp::Srl, a, b) <= a,
        a * pow2((b % 32) as nat) <= u32::MAX ==> alu_spec(AluOp::Sll, a, b) == a * pow2((b % 32) as nat),
        a < 0x8000_0000 ==> alu_spec(AluOp::Sra, a, b) == alu_spec(AluOp::Srl, a, b),
        a >= 0x8000_0000 ==> alu_spec(AluOp::Sra, a, b)
            == 0xffff_ffff - alu_spec(AluOp::Srl, (0xffff_ffff - a) as u32, b),
{
    let s = (b % 32) as nat;
    vstd::bits::lemma_u32_pow2_no_overflow(s);
    vstd::arithmetic::power2::lemma2_to64();
    let p = pow2(s) as int;
    assert((b % 32) % 32 == b % 32);
    vstd::arithmetic::div_mod::lemma_div_is_ordered_by_denominator(a as int, 1, p);
    assert(pow2(0) == 1);
    assert(a * pow2(0) == a);
    assert(as_signed(a) / 1 == as_signed(a));
    if a >= 0x8000_0000 {
        vstd::arithmetic::div_mod::lemma_mod_add_multiples_vanish(as_signed(a), 0x1_0000_0000);
    }
    if a >= 0x8000_0000 {
        let n = 0xffff_ffff - a;
        vstd::arithmetic::div_mod::lemma_fundamental_div_mod(n, p);
        vstd::arithmetic::div_mod::lemma_div_is_ordered_by_denominator(n, 1, p);
        assert(as_signed(a) == (-(n / p) - 1) * p + (p - 1 - n % p)) by (nonlinear_arith)
            requires n == p * (n / p) + n % p, as_signed(a) == -n - 1;
        vstd::arithmetic::div_mod::lemma_fundamental_div_mod_converse(
            as_signed(a), p, -(n / p) - 1, p - 1 - n % p);
    }
}

/// The comparisons of a conditional branch: BNE, BGE and BGEU take the
/// branch exactly when BEQ, BLT and BLTU on the same operands do not; BEQ
/// compares for equality, BLTU as unsigned numbers and BLT as two's
/// complement numbers, agreeing with the ALU's Sltu and Slt.
pub proof fn law_branch_comparisons(a: u32, b: u32)
    ensures
        branch_spec(BranchKind::Beq, a, b) == (a == b),
        branch_spec(BranchKind::Bne, a, b) == !branch_spec(BranchKind::Beq, a, b),
        branch_spec(BranchKind::Bge, a, b) == !branch_spec(BranchKind::Blt, a, b),
        branch_spec(BranchKind::Bgeu, a, b) == !branch_spec(BranchKind::Bltu, a, b),
        branch_spec(BranchKind::Bltu, a, b) == (a < b),
        branch_spec(BranchKind::Blt, a, b) == (as_signed(a) < as_signed(b)),
        branch_spec(BranchKind::Bltu, a, b) == (alu_spec(AluOp::Sltu, a, b) == 1),
        branch_spec(BranchKind::Blt, a, b) == (alu_spec(AluOp::Slt, a, b) == 1),
        branch_spec(BranchKind::Beq, a, a),
        branch_spec(BranchKind::Bge, a, a),
        branch_spec(BranchKind::Bgeu, a, a),
        !branch_spec(BranchKind::Blt, a, a),
        !branch_spec(BranchKind::Bltu, a, a),
{
}

/// The hazard unit, stated over its inputs: it stalls IF and ID and flushes
/// EX, with no redirect, exactly when the instruction in EX is a load whose
/// destination is not `x0` and is one of the two registers the instruction
/// in ID reads; otherwise a taken branch redirects to the branch target, or
/// else a jump to the jump target, each flushing EX; with none of these every
/// signal is off.
pub proof fn law_hazard_outputs(
    id_rs1: u8,
    id_rs2: u8,
    ex_rd: u8,
    ex_mem_read: bool,
    branch_taken: bool,
    jump: bool,
)
    ensures
        ({
            let p = hazard_spec(id_rs1, id_rs2, ex_rd, ex_mem_read, branch_taken, jump);
            let stall = ex_mem_read && ex_rd != 0 && (ex_rd == id_rs1 || ex_rd == id_rs2);
            &&& (ex_mem_read && ex_rd != 0 && ex_rd == id_rs1) ==> p == (PipeCtrl {
                stall_if: true, stall_id: true, flush_ex: true, pc_sel: None })
            &&& (ex_mem_read && ex_rd != 0 && ex_rd == id_rs2) ==> p == (PipeCtrl {
                stall_if: true, stall_id: true, flush_ex: true, pc_sel: None })
            &&& p.stall_if == stall
            &&& p.stall_id == stall
            &&& (!stall && branch_taken) == (p.pc_sel == Some(PcSel::BranchTarget))
            &&& (!stall && !branch_taken && jump) == (p.pc_sel == Some(PcSel::JumpTarget))
            &&& p.flush_ex == (stall || branch_taken || jump)
            &&& !stall && !branch_taken && !jump ==> p == (PipeCtrl {
                stall_if: false, stall_id: false, flush_ex: false, pc_sel: None })
        }),
{
}

} // verus!
