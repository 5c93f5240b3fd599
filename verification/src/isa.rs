//! Mathematical meaning of RV32I machine words: two's complement
//! interpretation, wrapping arithmetic, instruction fields and immediates.
use vstd::prelude::*;
use vstd::arithmetic::power2::pow2;

verus! {

/// 2^32, the number of distinct 32-bit words.
pub open spec fn word_modulus() -> int {
    0x1_0000_0000
}

/// The integer that a 32-bit word stands for in two's complement.
pub open spec fn as_signed(x: u32) -> int {
    if x < 0x8000_0000 {
        x as int
    } else {
        x as int - word_modulus()
    }
}

/// The 32-bit word that holds the integer `x` modulo 2^32.
pub open spec fn wrap(x: int) -> u32 {
    (x % word_modulus()) as u32
}

/// Bits [6:0]: the major opcode.
pub open spec fn opcode_of(inst: u32) -> u32 {
    inst % 0x80
}

/// Bits [11:7]: the destination register.
pub open spec fn rd_of(inst: u32) -> u32 {
    (inst / 0x80) % 0x20
}

/// Bits [14:12]: the minor opcode `funct3`.
pub open spec fn funct3_of(inst: u32) -> u32 {
    (inst / 0x1000) % 0x8
}

/// Bits [19:15]: the first source register.
pub open spec fn rs1_of(inst: u32) -> u32 {
    (inst / 0x8000) % 0x20
}

/// Bits [24:20]: the second source register.
pub open spec fn rs2_of(inst: u32) -> u32 {
    (inst / 0x10_0000) % 0x20
}

/// Bits [31:25]: the minor opcode `funct7`.
pub open spec fn funct7_of(inst: u32) -> u32 {
    inst / 0x200_0000
}

/// The word holding `x`, read as a `width`-bit two's complement number,
/// extended to 32 bits.
pub open spec fn sign_extend(x: int, width: nat) -> u32 {
    if x < pow2((width - 1) as nat) {
        wrap(x)
    } else {
        wrap(x - pow2(width))
    }
}

/// The I-type immediate: bits [31:20], sign-extended.
pub open spec fn i_imm_of(inst: u32) -> u32 {
    sign_extend((inst / 0x10_0000) as int, 12)
}

/// The S-type immediate: bits [31:25] then [11:7], sign-extended.
pub open spec fn s_imm_of(inst: u32) -> u32 {
    sign_extend(funct7_of(inst) * 0x20 + rd_of(inst), 12)
}

/// The B-type immediate: bit 31 gives imm[12], bit 7 imm[11], bits [30:25]
/// imm[10:5] and bits [11:8] imm[4:1]; imm[0] is zero. Sign-extended.
pub open spec fn b_imm_of(inst: u32) -> u32 {
    sign_extend(
        (inst / 0x8000_0000) * 0x1000 + ((inst / 0x80) % 2) * 0x800
            + ((inst / 0x200_0000) % 0x40) * 0x20 + ((inst / 0x100) % 0x10) * 2,
        13,
    )
}

/// The U-type immediate: bits [31:12] in place, low twelve bits zero.
pub open spec fn u_imm_of(inst: u32) -> u32 {
    ((inst / 0x1000) * 0x1000) as u32
}

/// The J-type immediate: bit 31 gives imm[20], bits [19:12] imm[19:12],
/// bit 20 imm[11] and bits [30:21] imm[10:1]; imm[0] is zero. Sign-extended.
pub open spec fn j_imm_of(inst: u32) -> u32 {
    sign_extend(
        (inst / 0x8000_0000) * 0x10_0000 + ((inst / 0x1000) % 0x100) * 0x1000
            + ((inst / 0x10_0000) % 2) * 0x800 + ((inst / 0x20_0000) % 0x400) * 2,
        21,
    )
}

/// For a `width`-bit field value `x`, the sign-extended word is `x` itself
/// when the top bit is clear and `x + 2^32 - 2^width` when it is set.
pub proof fn lemma_sign_extend_field(x: int, width: nat)
    requires
        1 <= width <= 32,
        0 <= x < pow2(width),
    ensures
        x < pow2((width - 1) as nat) ==> sign_extend(x, width) == x,
        x >= pow2((width - 1) as nat) ==> sign_extend(x, width) == x + word_modulus() - pow2(width),
{
    if width == 32 {
        vstd::arithmetic::power2::lemma2_to64();
    } else {
        vstd::arithmetic::power2::lemma_pow2_strictly_increases(width, 32);
        vstd::arithmetic::power2::lemma2_to64();
    }
    vstd::arithmetic::power2::lemma_pow2_pos((width - 1) as nat);
    vstd::arithmetic::power2::lemma_pow2_unfold(width);
}

} // verus!
