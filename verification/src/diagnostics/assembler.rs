//! A small assembler for the programs of the checks.
//!
//! Each function gives the word of one instruction of the main CPU. [`assemble`]
//! lays a program out as a boot ROM: the program counter at byte 0, the stack
//! pointer at byte 4, and the code from [`CODE_BASE`] on, highest byte first.

use vstd::prelude::*;
use crate::memory::{
    byte16, byte32, folded16, folded32, join16_split, join32_split,
};

verus! {

/// Where code starts.
pub const CODE_BASE: u32 = 0x20;

/// The stack pointer that programs start with.
pub const STACK: u32 = 0x0601_0000;

pub const NOP: u16 = 0x0009;

/// `CLRMAC`: clears the accumulator.
pub const CLRMAC: u16 = 0x0028;

/// `MOV #imm, Rn`, sign-extended.
#[verifier::allow_in_spec]
pub fn mov_imm(rn: u16, imm: i8) -> u16
    returns
        0xE000u16 | (rn << 8) | (imm as u8 as u16),
{
    0xE000u16 | (rn << 8) | (imm as u8 as u16)
}

/// `ADD #imm, Rn`, sign-extended.
#[verifier::allow_in_spec]
pub fn add_imm(rn: u16, imm: i8) -> u16
    returns
        0x7000u16 | (rn << 8) | (imm as u8 as u16),
{
    0x7000u16 | (rn << 8) | (imm as u8 as u16)
}

/// `ADD Rm, Rn`.
#[verifier::allow_in_spec]
pub fn add(rn: u16, rm: u16) -> u16
    returns
        0x300Cu16 | (rn << 8) | (rm << 4),
{
    0x300Cu16 | (rn << 8) | (rm << 4)
}

/// `SUB Rm, Rn`.
#[verifier::allow_in_spec]
pub fn sub(rn: u16, rm: u16) -> u16
    returns
        0x3008u16 | (rn << 8) | (rm << 4),
{
    0x3008u16 | (rn << 8) | (rm << 4)
}

/// `MUL.L Rm, Rn`: the low 32 bits of the product go to MACL.
#[verifier::allow_in_spec]
pub fn mul_l(rn: u16, rm: u16) -> u16
    returns
        0x0007u16 | (rn << 8) | (rm << 4),
{
    0x0007u16 | (rn << 8) | (rm << 4)
}

/// `MAC.L @Rm+, @Rn+`: adds the product to the accumulator.
#[verifier::allow_in_spec]
pub fn mac_l(rn: u16, rm: u16) -> u16
    returns
        0x000Fu16 | (rn << 8) | (rm << 4),
{
    0x000Fu16 | (rn << 8) | (rm << 4)
}

/// `STS MACL, Rn`.
#[verifier::allow_in_spec]
pub fn sts_macl(rn: u16) -> u16
    returns
        0x001Au16 | (rn << 8),
{
    0x001Au16 | (rn << 8)
}

/// `CMP/EQ Rm, Rn`.
#[verifier::allow_in_spec]
pub fn cmp_eq(rn: u16, rm: u16) -> u16
    returns
        0x3000u16 | (rn << 8) | (rm << 4),
{
    0x3000u16 | (rn << 8) | (rm << 4)
}

/// `MOV.L Rm, @Rn`.
#[verifier::allow_in_spec]
pub fn movl_store(addr_rn: u16, src_rm: u16) -> u16
    returns
        0x2002u16 | (addr_rn << 8) | (src_rm << 4),
{
    0x2002u16 | (addr_rn << 8) | (src_rm << 4)
}

/// `MOV.L @Rm, Rn`.
#[verifier::allow_in_spec]
pub fn movl_load(dst_rn: u16, addr_rm: u16) -> u16
    returns
        0x6002u16 | (dst_rn << 8) | (addr_rm << 4),
{
    0x6002u16 | (dst_rn << 8) | (addr_rm << 4)
}

/// `MOV.W Rm, @Rn`.
#[verifier::allow_in_spec]
pub fn movw_store(addr_rn: u16, src_rm: u16) -> u16
    returns
        0x2001u16 | (addr_rn << 8) | (src_rm << 4),
{
    0x2001u16 | (addr_rn << 8) | (src_rm << 4)
}

/// `MOV.W @Rm, Rn`, sign-extended.
#[verifier::allow_in_spec]
pub fn movw_load(dst_rn: u16, addr_rm: u16) -> u16
    returns
        0x6001u16 | (dst_rn << 8) | (addr_rm << 4),
{
    0x6001u16 | (dst_rn << 8) | (addr_rm << 4)
}

/// `AND Rm, Rn`.
#[verifier::allow_in_spec]
pub fn and_(rn: u16, rm: u16) -> u16
    returns
        0x2009u16 | (rn << 8) | (rm << 4),
{
    0x2009u16 | (rn << 8) | (rm << 4)
}

/// `OR Rm, Rn`.
#[verifier::allow_in_spec]
pub fn or_(rn: u16, rm: u16) -> u16
    returns
        0x200Bu16 | (rn << 8) | (rm << 4),
{
    0x200Bu16 | (rn << 8) | (rm << 4)
}

/// `XOR Rm, Rn`.
#[verifier::allow_in_spec]
pub fn xor_(rn: u16, rm: u16) -> u16
    returns
        0x200Au16 | (rn << 8) | (rm << 4),
{
    0x200Au16 | (rn << 8) | (rm << 4)
}

/// `SHLL Rn`: one bit to the left.
#[verifier::allow_in_spec]
pub fn shll(rn: u16) -> u16
    returns
        0x4000u16 | (rn << 8),
{
    0x4000u16 | (rn << 8)
}

/// `SHLR Rn`: one bit to the right.
#[verifier::allow_in_spec]
pub fn shlr(rn: u16) -> u16
    returns
        0x4001u16 | (rn << 8),
{
    0x4001u16 | (rn << 8)
}

/// `SHLL8 Rn`.
#[verifier::allow_in_spec]
pub fn shll8(rn: u16) -> u16
    returns
        0x4018u16 | (rn << 8),
{
    0x4018u16 | (rn << 8)
}

/// `SHLL16 Rn`.
#[verifier::allow_in_spec]
pub fn shll16(rn: u16) -> u16
    returns
        0x4028u16 | (rn << 8),
{
    0x4028u16 | (rn << 8)
}

/// `BT disp`: branches if T is set, without a delay slot.
#[verifier::allow_in_spec]
pub fn bt(disp: i8) -> u16
    returns
        0x8900u16 | (disp as u8 as u16),
{
    0x8900u16 | (disp as u8 as u16)
}

/// `BRA disp`, with a delay slot.
#[verifier::allow_in_spec]
pub fn asm_bra(disp: i16) -> u16
    returns
        0xA000u16 | (disp as u16 & 0x0FFF),
{
    0xA000u16 | (disp as u16 & 0x0FFF)
}

/// `BRA .`: with a [`NOP`] in its delay slot it parks the CPU.
#[verifier::allow_in_spec]
pub fn bra_self() -> u16
    returns
        0xAFFEu16,
{
    0xAFFEu16
}

/// The boot ROM of a program.
pub open spec fn image(code: Seq<u16>) -> Seq<u8> {
    Seq::new(
        CODE_BASE as nat + code.len() * 2,
        |i: int|
            if i < 4 {
                byte32(CODE_BASE, i)
            } else if i < 8 {
                byte32(STACK, i - 4)
            } else if i < CODE_BASE {
                0
            } else {
                byte16(code[(i - CODE_BASE) / 2], (i - CODE_BASE) % 2)
            },
    )
}

/// The boot ROM of a program, which starts at [`CODE_BASE`].
pub fn assemble(code: &[u16]) -> (r: Vec<u8>)
    ensures
        r@ == image(code@),
{
    let mut out: Vec<u8> = vec![
        (CODE_BASE >> 24) as u8,
        (CODE_BASE >> 16) as u8,
        (CODE_BASE >> 8) as u8,
        CODE_BASE as u8,
        (STACK >> 24) as u8,
        (STACK >> 16) as u8,
        (STACK >> 8) as u8,
        STACK as u8,
    ];
    while out.len() < CODE_BASE as usize
        invariant
            8 <= out@.len() <= CODE_BASE,
            forall|i: int| 0 <= i < out@.len() ==> out@[i] == image(code@)[i],
        decreases CODE_BASE - out@.len(),
    {
        out.push(0);
    }
    let mut k: usize = 0;
    while k < code.len()
        invariant
            k <= code@.len(),
            out@.len() == CODE_BASE + k * 2,
            forall|i: int| 0 <= i < out@.len() ==> out@[i] == image(code@)[i],
        decreases code@.len() - k,
    {
        let w: u16 = code[k];
        out.push((w >> 8) as u8);
        out.push(w as u8);
        k += 1;
    }
    assert(out@ =~= image(code@));
    out
}

/// A boot ROM holds the start vectors, and the words of its program in order.
pub proof fn program_is_laid_out(code: Seq<u16>, k: int)
    requires
        0 <= k < code.len(),
        CODE_BASE + code.len() * 2 <= u32::MAX,
    ensures
        folded32(image(code), 0) == CODE_BASE,
        folded32(image(code), 4) == STACK,
        folded16(image(code), (CODE_BASE + k * 2) as u32) == code[k],
{
    join32_split(CODE_BASE);
    join32_split(STACK);
    join16_split(code[k]);
    let b = image(code);
    let o = (CODE_BASE + k * 2) as u32;
    assert forall|i: int| 0 <= i < b.len() implies #[trigger] (i % (b.len() as int)) == i by {
        vstd::arithmetic::div_mod::lemma_small_mod(i as nat, b.len());
    }
    assert((o + 1 - CODE_BASE) / 2 == k && (o + 1 - CODE_BASE) % 2 == 1);
}

} // verus!
