//! A single-cycle RV32I processor: program counter, register file,
//! word-indexed instruction memory and byte-addressed data memory.
use vstd::prelude::*;
use crate::isa::{
    wrap, opcode_of, rd_of, rs1_of, rs2_of, s_imm_of, b_imm_of, i_imm_of, u_imm_of,
    j_imm_of, lemma_sign_extend_field,
};
use crate::control::{
    CtrlWord, decode, decode_spec, lemma_fields, exec_alu, alu_spec, exec_auipc, exec_branch, branch_spec, exec_jal,
    exec_jalr, exec_load, load_spec, exec_lui, exec_store, store_spec, inst_i_imm, inst_jal_imm,
    inst_jalr_imm, inst_rd, inst_rs1, inst_rs2, inst_u_imm,
};

verus! {

/// The processor state.
pub struct Cpu {
    /// The program counter, a byte address.
    pub pc: u32,
    /// The 32 general-purpose registers; `x0` reads as zero after every step.
    pub regs: [u32; 32],
    /// Instruction memory, one instruction per word; the instruction at byte
    /// address `pc` is `imem[pc / 4]`.
    pub imem: Vec<u32>,
    /// Byte-addressed data memory.
    pub dmem: Vec<u8>,
}

/// The instruction at byte address `pc`, or `None` when it lies past the end
/// of instruction memory.
pub open spec fn fetch(pc: u32, imem: Seq<u32>) -> Option<u32> {
    if (pc / 4) < imem.len() {
        Some(imem[(pc / 4) as int])
    } else {
        None
    }
}

/// The register file after `rd` is given the value `v`; a write to `x0`
/// is dropped.
pub open spec fn write_reg(regs: Seq<u32>, rd: u32, v: u32) -> Seq<u32> {
    if rd == 0 {
        regs
    } else {
        regs.update(rd as int, v)
    }
}

/// An OP or OP-IMM instruction: `rd` gets the ALU result of `rs1` and
/// `rs2` (OP) or the I-type immediate (OP-IMM).
pub open spec fn execute_arith(pc: u32, regs: Seq<u32>, dmem: Seq<u8>, inst: u32) -> (u32, Seq<u32>, Seq<u8>) {
    let x1 = regs[rs1_of(inst) as int];
    let b = if opcode_of(inst) == 0x33 { regs[rs2_of(inst) as int] } else { i_imm_of(inst) };
    match decode_spec(inst).alu_op {
        Some(o) => (wrap(pc + 4), write_reg(regs, rd_of(inst), alu_spec(o, x1, b)), dmem),
        None => (wrap(pc + 4), regs, dmem),
    }
}

/// A LOAD: `rd` gets the value at `rs1 + imm`; when the access is out of
/// range `rd` keeps its value.
pub open spec fn execute_load(pc: u32, regs: Seq<u32>, dmem: Seq<u8>, inst: u32) -> (u32, Seq<u32>, Seq<u8>) {
    let addr = wrap(regs[rs1_of(inst) as int] + i_imm_of(inst));
    match decode_spec(inst).load_kind {
        Some(k) => match load_spec(k, dmem, addr) {
            Some(v) => (wrap(pc + 4), write_reg(regs, rd_of(inst), v), dmem),
            None => (wrap(pc + 4), regs, dmem),
        },
        None => (wrap(pc + 4), regs, dmem),
    }
}

/// A STORE: `rs2` is written to `rs1 + imm`; when the access is out of
/// range memory keeps its contents.
pub open spec fn execute_store(pc: u32, regs: Seq<u32>, dmem: Seq<u8>, inst: u32) -> (u32, Seq<u32>, Seq<u8>) {
    let addr = wrap(regs[rs1_of(inst) as int] + s_imm_of(inst));
    match decode_spec(inst).store_kind {
        Some(k) => match store_spec(k, dmem, addr, regs[rs2_of(inst) as int]) {
            Some(m) => (wrap(pc + 4), regs, m),
            None => (wrap(pc + 4), regs, dmem),
        },
        None => (wrap(pc + 4), regs, dmem),
    }
}

/// A BRANCH: the PC moves to `pc + imm` when the comparison holds.
pub open spec fn execute_branch(pc: u32, regs: Seq<u32>, dmem: Seq<u8>, inst: u32) -> (u32, Seq<u32>, Seq<u8>) {
    match decode_spec(inst).branch_kind {
        Some(k) => if branch_spec(k, regs[rs1_of(inst) as int], regs[rs2_of(inst) as int]) {
            (wrap(pc + b_imm_of(inst)), regs, dmem)
        } else {
            (wrap(pc + 4), regs, dmem)
        },
        None => (wrap(pc + 4), regs, dmem),
    }
}

/// LUI, AUIPC, JAL and JALR.
pub open spec fn execute_upper_jump(pc: u32, regs: Seq<u32>, dmem: Seq<u8>, inst: u32) -> (u32, Seq<u32>, Seq<u8>) {
    let op = opcode_of(inst);
    let rd = rd_of(inst);
    let next = wrap(pc + 4);
    if op == 0x37 {
        (next, write_reg(regs, rd, u_imm_of(inst)), dmem)
    } else if op == 0x17 {
        (next, write_reg(regs, rd, wrap(pc + u_imm_of(inst))), dmem)
    } else if op == 0x6f {
        (wrap(pc + j_imm_of(inst)), write_reg(regs, rd, next), dmem)
    } else if decode_spec(inst).jump {
        (
            (wrap(regs[rs1_of(inst) as int] + i_imm_of(inst)) / 2 * 2) as u32,
            write_reg(regs, rd, next),
            dmem,
        )
    } else {
        (next, regs, dmem)
    }
}

/// The effect of executing `inst` at `pc` with register file `regs` and data
/// memory `dmem`: the next PC, and the register file and data memory after
/// it (before `x0` is reset). Encodings that are not supported RV32I
/// instructions only advance the PC.
pub open spec fn execute(pc: u32, regs: Seq<u32>, dmem: Seq<u8>, inst: u32) -> (u32, Seq<u32>, Seq<u8>) {
    let op = opcode_of(inst);
    if op == 0x33 || op == 0x13 {
        execute_arith(pc, regs, dmem, inst)
    } else if op == 0x03 {
        execute_load(pc, regs, dmem, inst)
    } else if op == 0x23 {
        execute_store(pc, regs, dmem, inst)
    } else if op == 0x63 {
        execute_branch(pc, regs, dmem, inst)
    } else if op == 0x37 || op == 0x17 || op == 0x6f || op == 0x67 {
        execute_upper_jump(pc, regs, dmem, inst)
    } else {
        (wrap(pc + 4), regs, dmem)
    }
}

impl Cpu {
    /// A processor with the PC at 0, every register zero, the given
    /// instruction memory and `dmem_size` bytes of zeroed data memory.
    pub fn new(imem: Vec<u32>, dmem_size: usize) -> (cpu: Self)
        ensures
            cpu.pc == 0,
            cpu.regs@ == Seq::new(32, |i: int| 0u32),
            cpu.imem@ == imem@,
            cpu.dmem@ == Seq::new(dmem_size as nat, |i: int| 0u8),
    {
        let dmem = vec![0u8; dmem_size];
        let cpu = Cpu { pc: 0, regs: [0u32; 32], imem, dmem };
        assert(cpu.regs@ =~= Seq::new(32, |i: int| 0u32));
        assert(cpu.dmem@ =~= Seq::new(dmem_size as nat, |i: int| 0u8));
        cpu
    }

    /// Executes the instruction at the PC. When the PC lies past the end of
    /// instruction memory the processor is halted and nothing changes.
    /// Otherwise the instruction's effect is committed, the PC moves on, and
    /// `x0` is reset to zero.
    pub fn step(&mut self)
        ensures
            final(self).imem@ == old(self).imem@,
            final(self).dmem.len() == old(self).dmem.len(),
            fetch(old(self).pc, old(self).imem@) is Some ==> final(self).regs[0] == 0,
            match fetch(old(self).pc, old(self).imem@) {
                None => {
                    &&& final(self).pc == old(self).pc
                    &&& final(self).regs@ == old(self).regs@
                    &&& final(self).dmem@ == old(self).dmem@
                },
                Some(inst) => {
                    let (pc2, regs2, dmem2) = execute(old(self).pc, old(self).regs@, old(self).dmem@, inst);
                    &&& final(self).pc == pc2
                    &&& final(self).regs@ == regs2.update(0, 0)
                    &&& final(self).dmem@ == dmem2
                },
            },
    {
        let idx = (self.pc / 4) as usize;
        if idx >= self.imem.len() {
            return;
        }
        let inst = self.imem[idx];
        let c = decode(inst);
        let opcode = inst & 0x7f;
        proof {
            lemma_fields(inst);
        }
        let ghost pc0 = self.pc;
        let ghost regs0 = self.regs@;
        let ghost dmem0 = self.dmem@;
        let next_pc = match opcode {
            0x33 | 0x13 => self.run_arith(inst, c),
            0x03 => self.run_load(inst, c),
            0x23 => self.run_store(inst, c),
            0x63 => self.run_branch(inst, c),
            0x37 | 0x17 | 0x6f | 0x67 => self.run_upper_jump(inst, c),
            _ => self.pc.wrapping_add(4),
        };
        proof {
            assert((next_pc, self.regs@, self.dmem@) == execute(pc0, regs0, dmem0, inst));
        }
        self.pc = next_pc;
        self.regs[0] = 0;
        proof {
            assert(self.regs@ =~= execute(pc0, regs0, dmem0, inst).1.update(0, 0));
        }
    }

    /// Runs an OP or OP-IMM instruction; returns the next PC.
    fn run_arith(&mut self, inst: u32, c: CtrlWord) -> (next: u32)
        requires
            c == decode_spec(inst),
            opcode_of(inst) == 0x33 || opcode_of(inst) == 0x13,
        ensures
            (next, final(self).regs@, final(self).dmem@)
                == execute_arith(old(self).pc, old(self).regs@, old(self).dmem@, inst),
            final(self).pc == old(self).pc,
            final(self).imem == old(self).imem,
    {
        let rs1 = inst_rs1(inst) as usize;
        let rs2 = inst_rs2(inst) as usize;
        let rd = inst_rd(inst) as usize;
        let opcode = inst & 0x7f;
        proof {
            lemma_fields(inst);
        }
        if let Some(op) = c.alu_op {
            let b = if opcode == 0x33 { self.regs[rs2] } else { inst_i_imm(inst) };
            let out = exec_alu(op, self.regs[rs1], b);
            if c.reg_write && rd != 0 {
                self.regs[rd] = out;
            }
        }
        proof {
            assert(self.regs@ =~= execute_arith(old(self).pc, old(self).regs@, old(self).dmem@, inst).1);
        }
        self.pc.wrapping_add(4)
    }

    /// Runs a LOAD instruction; returns the next PC.
    fn run_load(&mut self, inst: u32, c: CtrlWord) -> (next: u32)
        requires
            c == decode_spec(inst),
            opcode_of(inst) == 0x03,
        ensures
            (next, final(self).regs@, final(self).dmem@)
                == execute_load(old(self).pc, old(self).regs@, old(self).dmem@, inst),
            final(self).pc == old(self).pc,
            final(self).imem == old(self).imem,
    {
        let rs1 = inst_rs1(inst) as usize;
        let rd = inst_rd(inst) as usize;
        if let Some(kind) = c.load_kind {
            let addr = self.regs[rs1].wrapping_add(inst_i_imm(inst));
            if rd != 0 {
                if let Some(val) = exec_load(kind, self.dmem.as_slice(), addr) {
                    self.regs[rd] = val;
                }
            }
        }
        proof {
            assert(self.regs@ =~= execute_load(old(self).pc, old(self).regs@, old(self).dmem@, inst).1);
        }
        self.pc.wrapping_add(4)
    }

    /// Runs a STORE instruction; returns the next PC.
    fn run_store(&mut self, inst: u32, c: CtrlWord) -> (next: u32)
        requires
            c == decode_spec(inst),
            opcode_of(inst) == 0x23,
        ensures
            (next, final(self).regs@, final(self).dmem@)
                == execute_store(old(self).pc, old(self).regs@, old(self).dmem@, inst),
            final(self).pc == old(self).pc,
            final(self).imem == old(self).imem,
    {
        let rs1 = inst_rs1(inst) as usize;
        let rs2 = inst_rs2(inst) as usize;
        if let Some(kind) = c.store_kind {
            let imm = inst_s_imm(inst);
            let addr = self.regs[rs1].wrapping_add(imm);
            let val = self.regs[rs2];
            let _ = exec_store(kind, self.dmem.as_mut_slice(), addr, val);
        }
        self.pc.wrapping_add(4)
    }

    /// Runs a BRANCH instruction; returns the next PC.
    fn run_branch(&mut self, inst: u32, c: CtrlWord) -> (next: u32)
        requires
            c == decode_spec(inst),
            opcode_of(inst) == 0x63,
        ensures
            (next, final(self).regs@, final(self).dmem@)
                == execute_branch(old(self).pc, old(self).regs@, old(self).dmem@, inst),
            final(self).pc == old(self).pc,
            final(self).imem == old(self).imem,
    {
        let rs1 = inst_rs1(inst) as usize;
        let rs2 = inst_rs2(inst) as usize;
        if let Some(kind) = c.branch_kind {
            let taken = exec_branch(kind, self.regs[rs1], self.regs[rs2]);
            if taken {
                return self.pc.wrapping_add(inst_b_imm(inst));
            }
        }
        self.pc.wrapping_add(4)
    }

    /// Runs LUI, AUIPC, JAL or JALR; returns the next PC.
    fn run_upper_jump(&mut self, inst: u32, c: CtrlWord) -> (next: u32)
        requires
            c == decode_spec(inst),
            opcode_of(inst) == 0x37 || opcode_of(inst) == 0x17 || opcode_of(inst) == 0x6f
                || opcode_of(inst) == 0x67,
        ensures
            (next, final(self).regs@, final(self).dmem@)
                == execute_upper_jump(old(self).pc, old(self).regs@, old(self).dmem@, inst),
            final(self).pc == old(self).pc,
            final(self).imem == old(self).imem,
    {
        let rd = inst_rd(inst) as usize;
        let rs1 = inst_rs1(inst) as usize;
        let opcode = inst & 0x7f;
        proof {
            lemma_fields(inst);
        }
        let mut next_pc = self.pc.wrapping_add(4);
        if opcode == 0x37 {
            if c.reg_write && rd != 0 {
                let imm = inst_u_imm(inst);
                self.regs[rd] = exec_lui(imm);
            }
        } else if opcode == 0x17 {
            if c.reg_write && rd != 0 {
                let imm = inst_u_imm(inst);
                self.regs[rd] = exec_auipc(self.pc, imm);
            }
        } else if opcode == 0x6f {
            let imm = inst_jal_imm(inst);
            let (target, ret) = exec_jal(self.pc, imm);
            if c.reg_write && rd != 0 {
                self.regs[rd] = ret;
            }
            next_pc = target;
        } else if c.jump {
            let imm = inst_jalr_imm(inst);
            let (target, ret) = exec_jalr(self.regs[rs1], imm, self.pc);
            if c.reg_write && rd != 0 {
                self.regs[rd] = ret;
            }
            next_pc = target;
        }
        proof {
            assert(self.regs@ =~= execute_upper_jump(old(self).pc, old(self).regs@, old(self).dmem@, inst).1);
        }
        next_pc
    }
}

/// Extracts the S-type immediate, sign-extended to 32 bits.
pub fn inst_s_imm(inst: u32) -> (r: u32)
    ensures
        r == s_imm_of(inst),
{
    let hi = (inst >> 25) & 0x7f;
    let lo = (inst >> 7) & 0x1f;
    let raw = (hi << 5) | lo;
    let r = ((raw as i32) << 20 >> 20) as u32;
    proof {
        let x = (inst / 0x200_0000) * 0x20 + (inst / 0x80) % 0x20;
        assert(raw == (inst / 0x200_0000) * 0x20 + (inst / 0x80) % 0x20 && raw < 0x1000) by (bit_vector)
            requires raw == (((inst >> 25) & 0x7f) << 5) | ((inst >> 7) & 0x1f);
        assert(r == if raw < 0x800 { raw } else { (raw + 0xffff_f000) as u32 }) by (bit_vector)
            requires raw < 0x1000, r == ((raw as i32) << 20 >> 20) as u32;
        vstd::arithmetic::power2::lemma2_to64();
        lemma_sign_extend_field(x, 12);
    }
    r
}

/// Extracts the B-type immediate, sign-extended to 32 bits; it is always
/// even.
pub fn inst_b_imm(inst: u32) -> (r: u32)
    ensures
        r == b_imm_of(inst),
        r % 2 == 0,
{
    let imm12 = (inst >> 31) & 0x1;
    let imm11 = (inst >> 7) & 0x1;
    let imm10_5 = (inst >> 25) & 0x3f;
    let imm4_1 = (inst >> 8) & 0x0f;
    let raw = (imm12 << 12) | (imm11 << 11) | (imm10_5 << 5) | (imm4_1 << 1);
    let r = ((raw as i32) << 19 >> 19) as u32;
    proof {
        let x = (inst / 0x8000_0000) * 0x1000 + ((inst / 0x80) % 2) * 0x800
            + ((inst / 0x200_0000) % 0x40) * 0x20 + ((inst / 0x100) % 0x10) * 2;
        assert(raw == (inst / 0x8000_0000) * 0x1000 + ((inst / 0x80) % 2) * 0x800
            + ((inst / 0x200_0000) % 0x40) * 0x20 + ((inst / 0x100) % 0x10) * 2) by (bit_vector)
            requires raw == (((inst >> 31) & 0x1) << 12) | (((inst >> 7) & 0x1) << 11)
                | (((inst >> 25) & 0x3f) << 5) | (((inst >> 8) & 0x0f) << 1);
        assert(raw < 0x2000 && raw % 2 == 0) by (bit_vector)
            requires raw == (((inst >> 31) & 0x1) << 12) | (((inst >> 7) & 0x1) << 11)
                | (((inst >> 25) & 0x3f) << 5) | (((inst >> 8) & 0x0f) << 1);
        assert(r == if raw < 0x1000 { raw } else { (raw + 0xffff_e000) as u32 }) by (bit_vector)
            requires raw < 0x2000, r == ((raw as i32) << 19 >> 19) as u32;
        vstd::arithmetic::power2::lemma2_to64();
        lemma_sign_extend_field(x, 13);
    }
    r
}

} // verus!
