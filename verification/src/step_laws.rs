//! What one instruction does to the processor state, stated per RV32I
//! instruction over the fields of the instruction word.
use vstd::prelude::*;
use vstd::arithmetic::power2::pow2;
use crate::isa::{
    as_signed, wrap, opcode_of, rd_of, rs1_of, rs2_of, funct3_of, funct7_of, i_imm_of, s_imm_of,
    b_imm_of, u_imm_of, j_imm_of, lemma_sign_extend_field,
};
use crate::cpu::execute;

verus! {

/// The immediates as signed numbers, read straight off the instruction bits:
/// bit 31 is the sign, worth minus 2^11 (I, S), 2^12 (B) or 2^20 (J); the B
/// and J offsets are even; the U immediate is the word with its low twelve
/// bits cleared.
pub proof fn law_immediates(inst: u32)
    ensures
        as_signed(i_imm_of(inst)) == (inst / 0x10_0000) as int - (inst / 0x8000_0000) * 0x1000,
        as_signed(s_imm_of(inst)) == (inst / 0x200_0000) * 0x20 + (inst / 0x80) % 0x20
            - (inst / 0x8000_0000) * 0x1000,
        as_signed(b_imm_of(inst)) == ((inst / 0x80) % 2) * 0x800 + ((inst / 0x200_0000) % 0x40) * 0x20
            + ((inst / 0x100) % 0x10) * 2 - (inst / 0x8000_0000) * 0x1000,
        as_signed(j_imm_of(inst)) == ((inst / 0x1000) % 0x100) * 0x1000 + ((inst / 0x10_0000) % 2) * 0x800
            + ((inst / 0x20_0000) % 0x400) * 2 - (inst / 0x8000_0000) * 0x10_0000,
        as_signed(b_imm_of(inst)) % 2 == 0,
        as_signed(j_imm_of(inst)) % 2 == 0,
        u_imm_of(inst) == inst - inst % 0x1000,
        i_imm_of(inst) % 32 == rs2_of(inst),
{
    vstd::arithmetic::power2::lemma2_to64();
    let top = inst / 0x8000_0000;
    assert(top == 0 || top == 1);
    let xi = (inst / 0x10_0000) as int;
    lemma_sign_extend_field(xi, 12);
    let xs = (inst / 0x200_0000) * 0x20 + (inst / 0x80) % 0x20;
    lemma_sign_extend_field(xs, 12);
    let xb = (inst / 0x8000_0000) * 0x1000 + ((inst / 0x80) % 2) * 0x800
        + ((inst / 0x200_0000) % 0x40) * 0x20 + ((inst / 0x100) % 0x10) * 2;
    lemma_sign_extend_field(xb, 13);
    let xj = (inst / 0x8000_0000) * 0x10_0000 + ((inst / 0x1000) % 0x100) * 0x1000
        + ((inst / 0x10_0000) % 2) * 0x800 + ((inst / 0x20_0000) % 0x400) * 2;
    lemma_sign_extend_field(xj, 21);
    assert((inst / 0x10_0000) / 0x800 == top) by (bit_vector)
        requires top == inst / 0x8000_0000;
    assert((inst / 0x10_0000) % 32 == (inst / 0x10_0000) % 0x20);
    assert(xi % 32 == rs2_of(inst) as int);
}

/// The six fields of an instruction word put back together give the word:
/// funct7 in bits [31:25], rs2 in [24:20], rs1 in [19:15], funct3 in
/// [14:12], rd in [11:7] and the opcode in [6:0], each within its width.
pub proof fn law_fields_reassemble(inst: u32)
    ensures
        inst == funct7_of(inst) * 0x200_0000 + rs2_of(inst) * 0x10_0000 + rs1_of(inst) * 0x8000
            + funct3_of(inst) * 0x1000 + rd_of(inst) * 0x80 + opcode_of(inst),
        funct7_of(inst) < 0x80,
        rs2_of(inst) < 32,
        rs1_of(inst) < 32,
        funct3_of(inst) < 8,
        rd_of(inst) < 32,
        opcode_of(inst) < 0x80,
{
    assert(inst == (inst / 0x200_0000) * 0x200_0000 + ((inst / 0x10_0000) % 0x20) * 0x10_0000
        + ((inst / 0x8000) % 0x20) * 0x8000 + ((inst / 0x1000) % 0x8) * 0x1000
        + ((inst / 0x80) % 0x20) * 0x80 + inst % 0x80 && inst / 0x200_0000 < 0x80) by (bit_vector);
}

/// OP (register-register): `rd` receives the result the RV32I operation
/// selected by funct3 and funct7 gives on `rs1` and `rs2`; shifts use the low
/// five bits of `rs2`. Undefined funct3/funct7 pairs change no register.
/// Nothing else changes and the PC moves to the next word.
pub proof fn law_step_op(pc: u32, regs: Seq<u32>, dmem: Seq<u8>, inst: u32)
    requires
        regs.len() == 32,
        opcode_of(inst) == 0x33,
    ensures
        ({
            let r = execute(pc, regs, dmem, inst);
            let x1 = regs[rs1_of(inst) as int];
            let x2 = regs[rs2_of(inst) as int];
            let rd = rd_of(inst) as int;
            let f3 = funct3_of(inst);
            let f7 = funct7_of(inst);
            let p = pow2((x2 % 32) as nat) as int;
            &&& r.0 == wrap(pc + 4)
            &&& r.2 == dmem
            &&& rd != 0 ==> {
                &&& (f3 == 0 && f7 == 0 ==> r.1[rd] == wrap(x1 + x2))
                &&& (f3 == 0 && f7 == 0x20 ==> r.1[rd] == wrap(x1 - x2))
                &&& (f3 == 1 && f7 == 0 ==> r.1[rd] == wrap(x1 * p))
                &&& (f3 == 2 && f7 == 0 ==> r.1[rd] == if as_signed(x1) < as_signed(x2) { 1u32 } else { 0u32 })
                &&& (f3 == 3 && f7 == 0 ==> r.1[rd] == if x1 < x2 { 1u32 } else { 0u32 })
                &&& (f3 == 4 && f7 == 0 ==> r.1[rd] == x1 ^ x2)
                &&& (f3 == 5 && f7 == 0 ==> r.1[rd] == x1 as int / p)
                &&& (f3 == 5 && f7 == 0x20 ==> r.1[rd] == wrap(as_signed(x1) / p))
                &&& (f3 == 6 && f7 == 0 ==> r.1[rd] == x1 | x2)
                &&& (f3 == 7 && f7 == 0 ==> r.1[rd] == x1 & x2)
            }
            &&& (f7 != 0 && f7 != 0x20) ==> r.1 == regs
            &&& (f7 == 0x20 && f3 != 0 && f3 != 5) ==> r.1 == regs
        }),
{
    crate::unit_laws::law_decode_arith_table(inst);
    let c = crate::control::decode_spec(inst);
    let x1 = regs[rs1_of(inst) as int];
    let x2 = regs[rs2_of(inst) as int];
    vstd::arithmetic::power2::lemma_pow2_pos((x2 % 32) as nat);
    vstd::arithmetic::div_mod::lemma_div_is_ordered_by_denominator(x1 as int, 1, pow2((x2 % 32) as nat) as int);
    assert(execute(pc, regs, dmem, inst) == crate::cpu::execute_arith(pc, regs, dmem, inst));
    match c.alu_op {
        Some(o) => {
            assert(execute(pc, regs, dmem, inst).1 == crate::cpu::write_reg(regs, rd_of(inst),
                crate::control::alu_spec(o, x1, x2)));
        },
        None => {},
    }
}

/// OP-IMM (register-immediate): `rd` receives the RV32I operation selected
/// by funct3 (and, for shifts, funct7) on `rs1` and the sign-extended
/// immediate; shifts by the five-bit amount in bits [24:20], logical for
/// funct7 0 and arithmetic for funct7 0x20. Nothing else changes and the PC
/// moves to the next word.
pub proof fn law_step_op_imm(pc: u32, regs: Seq<u32>, dmem: Seq<u8>, inst: u32)
    requires
        regs.len() == 32,
        opcode_of(inst) == 0x13,
    ensures
        ({
            let r = execute(pc, regs, dmem, inst);
            let x1 = regs[rs1_of(inst) as int];
            let imm = as_signed(i_imm_of(inst));
            let rd = rd_of(inst) as int;
            let f3 = funct3_of(inst);
            let f7 = funct7_of(inst);
            let p = pow2(rs2_of(inst) as nat) as int;
            &&& r.0 == wrap(pc + 4)
            &&& r.2 == dmem
            &&& rd != 0 ==> {
                &&& (f3 == 0 ==> r.1[rd] == wrap(x1 + imm))
                &&& (f3 == 2 ==> r.1[rd] == if as_signed(x1) < imm { 1u32 } else { 0u32 })
                &&& (f3 == 3 ==> r.1[rd] == if x1 < i_imm_of(inst) { 1u32 } else { 0u32 })
                &&& (f3 == 4 ==> r.1[rd] == x1 ^ i_imm_of(inst))
                &&& (f3 == 6 ==> r.1[rd] == x1 | i_imm_of(inst))
                &&& (f3 == 7 ==> r.1[rd] == x1 & i_imm_of(inst))
                &&& (f3 == 1 && f7 == 0 ==> r.1[rd] == wrap(x1 * p))
                &&& (f3 == 5 && f7 == 0 ==> r.1[rd] == x1 as int / p)
                &&& (f3 == 5 && f7 == 0x20 ==> r.1[rd] == wrap(as_signed(x1) / p))
            }
        }),
{
    law_immediates(inst);
    crate::unit_laws::law_decode_arith_table(inst);
    let c = crate::control::decode_spec(inst);
    let x1 = regs[rs1_of(inst) as int];
    crate::laws::law_wrapping_offset_is_signed(x1, i_imm_of(inst));
    assert(i_imm_of(inst) % 32 == rs2_of(inst));
    vstd::arithmetic::power2::lemma_pow2_pos(rs2_of(inst) as nat);
    vstd::arithmetic::div_mod::lemma_div_is_ordered_by_denominator(x1 as int, 1, pow2(rs2_of(inst) as nat) as int);
    assert(execute(pc, regs, dmem, inst) == crate::cpu::execute_arith(pc, regs, dmem, inst));
    match c.alu_op {
        Some(o) => {
            assert(execute(pc, regs, dmem, inst).1 == crate::cpu::write_reg(regs, rd_of(inst),
                crate::control::alu_spec(o, x1, i_imm_of(inst))));
        },
        None => {},
    }
}

/// BRANCH: the branch is taken when funct3 selects BEQ and `rs1 == rs2`,
/// BNE and they differ, BLT / BGE and `rs1` is below / not below `rs2` as
/// signed numbers, BLTU / BGEU the same as unsigned numbers; a taken branch
/// moves the PC by the signed B-type offset, otherwise (and for an
/// undefined funct3) the PC moves to the next word. No register and no
/// memory changes.
pub proof fn law_step_branch(pc: u32, regs: Seq<u32>, dmem: Seq<u8>, inst: u32)
    requires
        regs.len() == 32,
        opcode_of(inst) == 0x63,
    ensures
        ({
            let r = execute(pc, regs, dmem, inst);
            let x1 = regs[rs1_of(inst) as int];
            let x2 = regs[rs2_of(inst) as int];
            let f3 = funct3_of(inst);
            let taken = (f3 == 0 && x1 == x2) || (f3 == 1 && x1 != x2)
                || (f3 == 4 && as_signed(x1) < as_signed(x2))
                || (f3 == 5 && as_signed(x1) >= as_signed(x2)) || (f3 == 6 && x1 < x2)
                || (f3 == 7 && x1 >= x2);
            &&& r.0 == if taken { wrap(pc + as_signed(b_imm_of(inst))) } else { wrap(pc + 4) }
            &&& r.1 == regs
            &&& r.2 == dmem
        }),
{
    crate::laws::law_wrapping_offset_is_signed(pc, b_imm_of(inst));
}

/// JAL: the PC moves by the signed J-type offset, `rd` (unless `x0`)
/// receives the address of the next word, and memory is unchanged.
pub proof fn law_step_jal(pc: u32, regs: Seq<u32>, dmem: Seq<u8>, inst: u32)
    requires
        regs.len() == 32,
        opcode_of(inst) == 0x6f,
    ensures
        ({
            let r = execute(pc, regs, dmem, inst);
            &&& r.0 == wrap(pc + as_signed(j_imm_of(inst)))
            &&& rd_of(inst) != 0 ==> r.1[rd_of(inst) as int] == wrap(pc + 4)
            &&& r.2 == dmem
        }),
{
    crate::laws::law_wrapping_offset_is_signed(pc, j_imm_of(inst));
}

/// JALR with funct3 0: the PC moves to `rs1` plus the signed I-type
/// immediate, modulo 2^32, with bit 0 cleared, and `rd` (unless `x0`)
/// receives the address of the next word; the target is computed from
/// `rs1` before `rd` is written. With another funct3 the instruction is not
/// JALR and only the PC moves to the next word.
pub proof fn law_step_jalr(pc: u32, regs: Seq<u32>, dmem: Seq<u8>, inst: u32)
    requires
        regs.len() == 32,
        opcode_of(inst) == 0x67,
    ensures
        ({
            let r = execute(pc, regs, dmem, inst);
            let t = wrap(regs[rs1_of(inst) as int] + as_signed(i_imm_of(inst)));
            &&& funct3_of(inst) == 0 ==> {
                &&& r.0 == t - t % 2
                &&& rd_of(inst) != 0 ==> r.1[rd_of(inst) as int] == wrap(pc + 4)
                &&& r.2 == dmem
            }
            &&& funct3_of(inst) != 0 ==> r == (wrap(pc + 4), regs, dmem)
        }),
{
    crate::laws::law_wrapping_offset_is_signed(regs[rs1_of(inst) as int], i_imm_of(inst));
}

/// LUI writes the upper twenty bits of the instruction, low bits zero, to
/// `rd`; AUIPC writes the PC plus that value, modulo 2^32. Both move the PC
/// to the next word and leave memory alone.
pub proof fn law_step_upper(pc: u32, regs: Seq<u32>, dmem: Seq<u8>, inst: u32)
    requires
        regs.len() == 32,
        opcode_of(inst) == 0x37 || opcode_of(inst) == 0x17,
    ensures
        ({
            let r = execute(pc, regs, dmem, inst);
            let upper = inst - inst % 0x1000;
            &&& r.0 == wrap(pc + 4)
            &&& r.2 == dmem
            &&& rd_of(inst) != 0 && opcode_of(inst) == 0x37 ==> r.1[rd_of(inst) as int] == upper
            &&& rd_of(inst) != 0 && opcode_of(inst) == 0x17 ==> r.1[rd_of(inst) as int] == wrap(pc + upper)
        }),
{
    law_immediates(inst);
}

/// A word whose major opcode is none of RV32I's supported ones only moves
/// the PC to the next word.
pub proof fn law_step_unsupported(pc: u32, regs: Seq<u32>, dmem: Seq<u8>, inst: u32)
    requires
        !(opcode_of(inst) == 0x33 || opcode_of(inst) == 0x13 || opcode_of(inst) == 0x03
            || opcode_of(inst) == 0x23 || opcode_of(inst) == 0x63 || opcode_of(inst) == 0x6f
            || opcode_of(inst) == 0x67 || opcode_of(inst) == 0x37 || opcode_of(inst) == 0x17),
    ensures
        execute(pc, regs, dmem, inst) == (wrap(pc + 4), regs, dmem),
{
}

} // verus!
