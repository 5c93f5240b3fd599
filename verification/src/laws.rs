//! Properties that hold across the units and across steps of the processor.
use vstd::prelude::*;
use crate::isa::{
    as_signed, wrap, word_modulus, rd_of, rs1_of, rs2_of, opcode_of, funct3_of, sign_extend, s_imm_of,
    i_imm_of,
};
use crate::control::{
    AluOp, LoadKind, Storekind, alu_spec, decode_spec, nop_ctrl, load_spec, store_spec,
    hazard_spec, is_load_use, PipeCtrl, load_width, store_width,
};
use crate::cpu::execute;

verus! {

/// A word stored with SW is read back by LW at the same address.
pub proof fn law_sw_then_lw(mem: Seq<u8>, addr: u32, val: u32)
    requires
        store_spec(Storekind::SW, mem, addr, val) is Some,
    ensures
        load_spec(LoadKind::Lw, store_spec(Storekind::SW, mem, addr, val)->0, addr) == Some(val),
{
    let m = store_spec(Storekind::SW, mem, addr, val)->0;
    let a = addr as int;
    assert(m[a] == val % 0x100);
    assert(m[a + 1] == (val / 0x100) % 0x100);
    assert(m[a + 2] == (val / 0x1_0000) % 0x100);
    assert(m[a + 3] == val / 0x100_0000);
    assert(val == val % 0x100 + 0x100 * ((val / 0x100) % 0x100) + 0x1_0000 * ((val / 0x1_0000) % 0x100)
        + 0x100_0000 * (val / 0x100_0000)) by (bit_vector);
}

/// What a store writes is what a load of the same width reads back at the
/// same address: SB then LBU gives the low byte and LB its sign extension,
/// SH then LHU gives the low halfword and LH its sign extension, SW then LW
/// gives the word.
pub proof fn law_store_then_load(kind: Storekind, mem: Seq<u8>, addr: u32, val: u32)
    requires
        store_spec(kind, mem, addr, val) is Some,
    ensures
        ({
            let m = store_spec(kind, mem, addr, val)->0;
            match kind {
                Storekind::SB => {
                    &&& load_spec(LoadKind::Lbu, m, addr) == Some((val % 0x100) as u32)
                    &&& load_spec(LoadKind::Lb, m, addr) == Some(sign_extend((val % 0x100) as int, 8))
                },
                Storekind::SH => {
                    &&& load_spec(LoadKind::Lhu, m, addr) == Some((val % 0x1_0000) as u32)
                    &&& load_spec(LoadKind::Lh, m, addr) == Some(sign_extend((val % 0x1_0000) as int, 16))
                },
                Storekind::SW => load_spec(LoadKind::Lw, m, addr) == Some(val),
            }
        }),
{
    let m = store_spec(kind, mem, addr, val)->0;
    let a = addr as int;
    match kind {
        Storekind::SB => {
            assert(m[a] == val % 0x100);
        },
        Storekind::SH => {
            assert(m[a] == val % 0x100);
            assert(m[a + 1] == (val / 0x100) % 0x100);
            assert(val % 0x1_0000 == val % 0x100 + 0x100 * ((val / 0x100) % 0x100)) by (bit_vector);
        },
        Storekind::SW => {
            law_sw_then_lw(mem, addr, val);
        },
    }
}

/// A store changes no byte outside the ones it writes, so a load whose bytes
/// do not overlap them reads what it read before.
pub proof fn law_store_frames_disjoint_load(
    skind: Storekind,
    lkind: LoadKind,
    mem: Seq<u8>,
    saddr: u32,
    val: u32,
    laddr: u32,
)
    requires
        store_spec(skind, mem, saddr, val) is Some,
        laddr + load_width(lkind) <= saddr || saddr + store_width(skind) <= laddr,
    ensures
        load_spec(lkind, store_spec(skind, mem, saddr, val)->0, laddr) == load_spec(lkind, mem, laddr),
{
    let m = store_spec(skind, mem, saddr, val)->0;
    let b = laddr as int;
    assert(m.len() == mem.len());
    if b + load_width(lkind) <= mem.len() {
        assert(m[b] == mem[b]);
        if load_width(lkind) >= 2 {
            assert(m[b + 1] == mem[b + 1]);
        }
        if load_width(lkind) == 4 {
            assert(m[b + 2] == mem[b + 2]);
            assert(m[b + 3] == mem[b + 3]);
        }
    }
}

/// Executing an instruction changes no register other than its `rd`, never
/// changes the number of registers, and never changes the size of data
/// memory.
pub proof fn law_execute_writes_only_rd(pc: u32, regs: Seq<u32>, dmem: Seq<u8>, inst: u32, i: int)
    requires
        regs.len() == 32,
        0 <= i < 32,
        i != rd_of(inst),
    ensures
        execute(pc, regs, dmem, inst).1[i] == regs[i],
        execute(pc, regs, dmem, inst).1.len() == 32,
        execute(pc, regs, dmem, inst).2.len() == dmem.len(),
{
}

/// The control word is consistent: a load and only a load reads memory and
/// names a load kind, a store and only a store writes memory and names a
/// store kind, only a conditional branch names a comparison,
/// no instruction both reads and writes memory, and every major opcode
/// outside RV32I's OP, OP-IMM, LOAD, STORE, BRANCH, JAL, JALR, LUI and AUIPC
/// decodes to the control word with every signal off.
pub proof fn law_decode_consistent(inst: u32)
    ensures
        ({
            let c = decode_spec(inst);
            &&& (c.load_kind is Some) == c.mem_read
            &&& (c.store_kind is Some) == c.mem_write
            &&& c.branch_kind is Some ==> c.branch
            &&& !(c.mem_read && c.mem_write)
            &&& c.mem_read ==> c.reg_write
            &&& !(c.branch && c.jump)
        }),
        !(opcode_of(inst) == 0x33 || opcode_of(inst) == 0x13 || opcode_of(inst) == 0x03
            || opcode_of(inst) == 0x23 || opcode_of(inst) == 0x63 || opcode_of(inst) == 0x6f
            || opcode_of(inst) == 0x67 || opcode_of(inst) == 0x37 || opcode_of(inst) == 0x17)
            ==> decode_spec(inst) == nop_ctrl(),
{
}

/// A load-use hazard wins over a taken branch and over a jump: the pipeline
/// stalls and the PC is not redirected, whatever the other inputs say. The
/// two stall signals always agree, and a stall never comes with a redirect.
pub proof fn law_hazard_priority(
    id_rs1: u8,
    id_rs2: u8,
    ex_rd: u8,
    ex_mem_read: bool,
    branch_taken: bool,
    jump: bool,
)
    ensures
        is_load_use(id_rs1, id_rs2, ex_rd, ex_mem_read) ==> hazard_spec(
            id_rs1,
            id_rs2,
            ex_rd,
            ex_mem_read,
            branch_taken,
            jump,
        ) == (PipeCtrl { stall_if: true, stall_id: true, flush_ex: true, pc_sel: None }),
        ({
            let p = hazard_spec(id_rs1, id_rs2, ex_rd, ex_mem_read, branch_taken, jump);
            &&& p.stall_if == p.stall_id
            &&& p.stall_if ==> p.pc_sel is None
            &&& (p.pc_sel is Some || p.stall_if) == p.flush_ex
        }),
{
}

/// Subtracting what was added gives back the original word, modulo 2^32.
pub proof fn law_sub_undoes_add(a: u32, b: u32)
    ensures
        alu_spec(AluOp::Sub, alu_spec(AluOp::Add, a, b), b) == a,
{
    let s = alu_spec(AluOp::Add, a, b);
    assert(s as int == (a + b) % word_modulus());
    vstd::arithmetic::div_mod::lemma_fundamental_div_mod(a + b, word_modulus());
    vstd::arithmetic::div_mod::lemma_fundamental_div_mod_converse(
        s - b, word_modulus(), (-((a + b) / word_modulus())) as int, a as int);
}

/// Adding an immediate word modulo 2^32 is adding the signed number it
/// stands for: PC-relative targets move backwards for negative offsets.
pub proof fn law_wrapping_offset_is_signed(x: u32, imm: u32)
    ensures
        wrap(x + imm) == wrap(x + as_signed(imm)),
{
    if imm >= 0x8000_0000 {
        vstd::arithmetic::div_mod::lemma_mod_add_multiples_vanish(x + as_signed(imm), word_modulus());
    }
}

/// On the processor, a store word followed by a load word from the same
/// effective address puts the stored register's value in the load's
/// destination register.
pub proof fn law_sw_then_lw_roundtrip(pc: u32, regs: Seq<u32>, dmem: Seq<u8>, sw: u32, lw: u32)
    requires
        regs.len() == 32,
        regs[0] == 0,
        opcode_of(sw) == 0x23,
        funct3_of(sw) == 2,
        opcode_of(lw) == 0x03,
        funct3_of(lw) == 2,
        rd_of(lw) != 0,
        wrap(regs[rs1_of(sw) as int] + s_imm_of(sw)) == wrap(regs[rs1_of(lw) as int] + i_imm_of(lw)),
        wrap(regs[rs1_of(sw) as int] + s_imm_of(sw)) + 4 <= dmem.len(),
    ensures
        ({
            let first = execute(pc, regs, dmem, sw);
            let second = execute(first.0, first.1.update(0, 0), first.2, lw);
            second.1[rd_of(lw) as int] == regs[rs2_of(sw) as int]
        }),
{
    let addr = wrap(regs[rs1_of(sw) as int] + s_imm_of(sw));
    let first = execute(pc, regs, dmem, sw);
    assert(first.1.update(0, 0) =~= regs);
    law_sw_then_lw(dmem, addr, regs[rs2_of(sw) as int]);
}

/// What each load reads, stated on the bytes: it succeeds exactly when the
/// 1, 2 or 4 bytes from `addr` lie in memory; LBU and LHU give the byte or
/// the little-endian halfword, LB and LH give the same with the top bit of
/// the byte or halfword copied into all higher bits, and LW gives the
/// little-endian word.
pub proof fn law_load_values(mem: Seq<u8>, addr: u32)
    ensures
        ({
            let a = addr as int;
            let b0 = mem[a] as int;
            let h = mem[a] + 0x100 * mem[a + 1];
            &&& (load_spec(LoadKind::Lb, mem, addr) is Some) == (a + 1 <= mem.len())
            &&& (load_spec(LoadKind::Lbu, mem, addr) is Some) == (a + 1 <= mem.len())
            &&& (load_spec(LoadKind::Lh, mem, addr) is Some) == (a + 2 <= mem.len())
            &&& (load_spec(LoadKind::Lhu, mem, addr) is Some) == (a + 2 <= mem.len())
            &&& (load_spec(LoadKind::Lw, mem, addr) is Some) == (a + 4 <= mem.len())
            &&& a + 1 <= mem.len() ==> {
                &&& load_spec(LoadKind::Lbu, mem, addr) == Some(b0 as u32)
                &&& load_spec(LoadKind::Lb, mem, addr)
                    == Some((if b0 < 0x80 { b0 } else { b0 + 0xffff_ff00 }) as u32)
            }
            &&& a + 2 <= mem.len() ==> {
                &&& load_spec(LoadKind::Lhu, mem, addr) == Some(h as u32)
                &&& load_spec(LoadKind::Lh, mem, addr)
                    == Some((if h < 0x8000 { h } else { h + 0xffff_0000 }) as u32)
            }
            &&& a + 4 <= mem.len() ==> load_spec(LoadKind::Lw, mem, addr) == Some(
                (mem[a] + 0x100 * mem[a + 1] + 0x1_0000 * mem[a + 2] + 0x100_0000 * mem[a + 3]) as u32,
            )
        }),
{
    vstd::arithmetic::power2::lemma2_to64();
    let a = addr as int;
    if a + 1 <= mem.len() {
        crate::isa::lemma_sign_extend_field(mem[a] as int, 8);
    }
    if a + 2 <= mem.len() {
        crate::isa::lemma_sign_extend_field(mem[a] + 0x100 * mem[a + 1], 16);
    }
}

/// What each store writes, stated on the bytes: it succeeds exactly when the
/// 1, 2 or 4 bytes from `addr` lie in memory, and then byte `k` from `addr`
/// receives bits [8k+7:8k] of `val` while every other byte keeps its value
/// and memory keeps its size.
pub proof fn law_store_bytes(kind: Storekind, mem: Seq<u8>, addr: u32, val: u32)
    ensures
        ({
            let a = addr as int;
            let w: int = match kind {
                Storekind::SB => 1,
                Storekind::SH => 2,
                Storekind::SW => 4,
            };
            &&& (store_spec(kind, mem, addr, val) is Some) == (a + w <= mem.len())
            &&& a + w <= mem.len() ==> {
                let m = store_spec(kind, mem, addr, val)->0;
                &&& m.len() == mem.len()
                &&& m[a] == val % 0x100
                &&& w >= 2 ==> m[a + 1] == (val / 0x100) % 0x100
                &&& w == 4 ==> m[a + 2] == (val / 0x1_0000) % 0x100
                &&& w == 4 ==> m[a + 3] == val / 0x100_0000
                &&& forall|i: int| 0 <= i < mem.len() && !(a <= i < a + w) ==> m[i] == mem[i]
            }
        }),
{
}

} // verus!
