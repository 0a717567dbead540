//! The programs of the checks.

use vstd::prelude::*;
use crate::diagnostics::assembler::{
    add_imm, and_, asm_bra, bra_self, bt, cmp_eq, mac_l, mov_imm, movl_load, movl_store, movw_load,
    movw_store, mul_l, or_, shll, shll16, shll8, shlr, sts_macl, xor_, CLRMAC, NOP,
};

verus! {

/// Builds the address 0x0020_0100 in R1; R2 is changed.
pub open spec fn scratch_code() -> Seq<u16> {
    seq![
        mov_imm(1, 0x20),
        shll16(1),
        mov_imm(2, 1),
        shll8(2),
        crate::diagnostics::assembler::add(1, 2),
    ]
}

/// Builds the value 0x2A2A_2A2A in R0.
pub open spec fn sentinel_code() -> Seq<u16> {
    seq![
        mov_imm(0, 0x2A),
        shll8(0),
        add_imm(0, 0x2A),
        shll8(0),
        add_imm(0, 0x2A),
        shll8(0),
        add_imm(0, 0x2A),
    ]
}

/// Spins for ever.
pub open spec fn park_code() -> Seq<u16> {
    seq![
        bra_self(),
        NOP,
    ]
}

/// Stores R0 at the address in R1, and spins.
pub open spec fn store_code() -> Seq<u16> {
    seq![
        movl_store(1, 0),
        bra_self(),
        NOP,
    ]
}

/// Stores R0 at 0x0020_0200, which R2 then holds, and has 0x0020_0300 in R3;
/// R4 is changed.
pub open spec fn aim_code() -> Seq<u16> {
    seq![
        mov_imm(2, 0x20),
        shll16(2),
        mov_imm(4, 2),
        shll8(4),
        crate::diagnostics::assembler::add(2, 4),
        movl_store(2, 0),
        mov_imm(3, 0x20),
        shll16(3),
        mov_imm(4, 3),
        shll8(4),
        crate::diagnostics::assembler::add(3, 4),
    ]
}

/// Has the SCU copy 4 bytes from the address in R2 to the one in R3: the pointers,
/// the count, a step of 4 and 2 bytes, the mode (both pointers updated, started by
/// hand), and the start.
pub open spec fn copy_code() -> Seq<u16> {
    seq![
        mov_imm(1, 6),
        shll8(1),
        add_imm(1, (-2) as i8),
        shll16(1),
        movl_store(1, 2),
        mov_imm(4, 0x04),
        crate::diagnostics::assembler::add(4, 1),
        movl_store(4, 3),
        mov_imm(4, 0x08),
        crate::diagnostics::assembler::add(4, 1),
        mov_imm(5, 4),
        movl_store(4, 5),
        mov_imm(5, 1),
        shll8(5),
        add_imm(5, 1),
        mov_imm(4, 0x0C),
        crate::diagnostics::assembler::add(4, 1),
        movl_store(4, 5),
        mov_imm(5, 1),
        shll16(5),
        mov_imm(6, 1),
        shll8(6),
        crate::diagnostics::assembler::add(5, 6),
        add_imm(5, 7),
        mov_imm(4, 0x14),
        crate::diagnostics::assembler::add(4, 1),
        movl_store(4, 5),
        mov_imm(5, 1),
        shll8(5),
        mov_imm(4, 0x10),
        crate::diagnostics::assembler::add(4, 1),
        movl_store(4, 5),
    ]
}

/// `ADD #imm`: 0 + 10 + 32.
pub open spec fn cpu_add_imm_code() -> Seq<u16> {
    seq![
        mov_imm(0, 0),
        add_imm(0, 10),
        add_imm(0, 32),
    ] + scratch_code() + store_code()
}

/// `ADD` and `SUB` of registers: 0 + 100 - 58.
pub open spec fn cpu_sub_reg_code() -> Seq<u16> {
    seq![
        mov_imm(4, 100),
        mov_imm(5, 58),
        mov_imm(0, 0),
        crate::diagnostics::assembler::add(0, 4),
        crate::diagnostics::assembler::sub(0, 5),
    ] + scratch_code() + store_code()
}

/// `MUL.L` and `STS MACL`: 6 times 7.
pub open spec fn cpu_mull_macl_code() -> Seq<u16> {
    seq![
        mov_imm(4, 6),
        mov_imm(5, 7),
        mul_l(4, 5),
        sts_macl(0),
    ] + scratch_code() + store_code()
}

/// A `BRA` that is taken: its delay slot runs, what it skips does not.
pub open spec fn branch_delay_slot_code() -> Seq<u16> {
    seq![
        mov_imm(0, 1),
        asm_bra(1),
        add_imm(0, 41),
        mov_imm(0, 99),
    ] + scratch_code() + store_code()
}

/// A value stored in low work RAM, and what is read back stored behind it.
pub open spec fn mem_roundtrip_low_code() -> Seq<u16> {
    sentinel_code() + scratch_code() + seq![
        movl_store(1, 0),
        mov_imm(0, 0),
        movl_load(0, 1),
        mov_imm(3, 4),
        crate::diagnostics::assembler::add(3, 1),
        movl_store(3, 0),
    ] + park_code()
}

/// A value stored in high work RAM, and what is read back stored behind it.
pub open spec fn mem_roundtrip_high_code() -> Seq<u16> {
    sentinel_code() + seq![
        mov_imm(1, 6),
        shll16(1),
        shll8(1),
        mov_imm(2, 1),
        shll8(2),
        crate::diagnostics::assembler::add(1, 2),
    ] + seq![
        movl_store(1, 0),
        mov_imm(0, 0),
        movl_load(0, 1),
        mov_imm(3, 4),
        crate::diagnostics::assembler::add(3, 1),
        movl_store(3, 0),
    ] + park_code()
}

/// The divider of the CPU: 126 by 3.
pub open spec fn divu_divide_code() -> Seq<u16> {
    seq![
        mov_imm(1, (-1) as i8),
        shll8(1),
        mov_imm(2, 4),
        crate::diagnostics::assembler::add(2, 1),
        mov_imm(3, 3),
        movl_store(1, 3),
        mov_imm(4, 126),
        movl_store(2, 4),
        movl_load(0, 2),
        mov_imm(1, 0x20),
        shll16(1),
        mov_imm(5, 1),
        shll8(5),
        crate::diagnostics::assembler::add(1, 5),
    ] + store_code()
}

/// Two readings of the free-running timer of the CPU.
pub open spec fn timer_frc_advances_code() -> Seq<u16> {
    seq![
        mov_imm(1, (-2) as i8),
        shll8(1),
        mov_imm(2, 0x12),
        crate::diagnostics::assembler::add(1, 2),
        mov_imm(5, 0x20),
        shll16(5),
        mov_imm(6, 1),
        shll8(6),
        crate::diagnostics::assembler::add(5, 6),
        movw_load(3, 1),
        movl_store(5, 3),
    ] + Seq::new(16, |i: int| NOP) + seq![
        movw_load(4, 1),
        mov_imm(6, 4),
        crate::diagnostics::assembler::add(6, 5),
        movl_store(6, 4),
    ] + park_code()
}

/// `OR`, `XOR` and `AND`.
pub open spec fn cpu_logic_ops_code() -> Seq<u16> {
    seq![
        mov_imm(0, 0x0F),
        mov_imm(2, 0x30),
        or_(0, 2),
        mov_imm(2, 0x15),
        xor_(0, 2),
        mov_imm(2, 0x2F),
        and_(0, 2),
    ] + scratch_code() + store_code()
}

/// `SHLR` and `SHLL`.
pub open spec fn cpu_shift_ops_code() -> Seq<u16> {
    seq![
        mov_imm(0, 0x2A),
        shlr(0),
        shll(0),
    ] + scratch_code() + store_code()
}

/// A copy by the SCU.
pub open spec fn scu_dma_copy_code() -> Seq<u16> {
    sentinel_code() + aim_code() + copy_code() + park_code()
}

/// A copy by the DMA controller of the CPU.
pub open spec fn dmac_transfer_code() -> Seq<u16> {
    sentinel_code() + aim_code() + seq![
        mov_imm(1, (-128) as i8),
        movl_store(1, 2),
        mov_imm(4, 0x04),
        crate::diagnostics::assembler::add(4, 1),
        movl_store(4, 3),
        mov_imm(4, 0x08),
        crate::diagnostics::assembler::add(4, 1),
        mov_imm(5, 1),
        movl_store(4, 5),
        mov_imm(5, 0x5C),
        shll8(5),
        add_imm(5, 1),
        mov_imm(4, 0x0C),
        crate::diagnostics::assembler::add(4, 1),
        movl_store(4, 5),
        mov_imm(5, 1),
        mov_imm(4, 0x30),
        crate::diagnostics::assembler::add(4, 1),
        movl_store(4, 5),
    ] + park_code()
}

/// `MAC.L` over two arrays: 3 times 10 and 4 times 3.
pub open spec fn cpu_mac_l_code() -> Seq<u16> {
    seq![
        mov_imm(1, 0x20),
        shll16(1),
        mov_imm(4, 2),
        shll8(4),
        crate::diagnostics::assembler::add(1, 4),
        mov_imm(5, 3),
        movl_store(1, 5),
        mov_imm(4, 4),
        crate::diagnostics::assembler::add(4, 1),
        mov_imm(5, 4),
        movl_store(4, 5),
        mov_imm(4, 0x10),
        crate::diagnostics::assembler::add(4, 1),
        mov_imm(5, 10),
        movl_store(4, 5),
        mov_imm(4, 0x14),
        crate::diagnostics::assembler::add(4, 1),
        mov_imm(5, 3),
        movl_store(4, 5),
    ] + seq![
        mov_imm(2, 0x20),
        shll16(2),
        mov_imm(4, 2),
        shll8(4),
        crate::diagnostics::assembler::add(2, 4),
        mov_imm(3, 0x20),
        shll16(3),
        mov_imm(4, 2),
        shll8(4),
        crate::diagnostics::assembler::add(3, 4),
        mov_imm(4, 0x10),
        crate::diagnostics::assembler::add(3, 4),
        CLRMAC,
        mac_l(2, 3),
        mac_l(2, 3),
        sts_macl(0),
    ] + scratch_code() + store_code()
}

/// `CMP/EQ` and a `BT` that is taken.
pub open spec fn cpu_cmp_branch_code() -> Seq<u16> {
    seq![
        mov_imm(1, 5),
        mov_imm(2, 5),
        cmp_eq(2, 1),
        bt(0),
        mov_imm(0, 7),
        mov_imm(0, 42),
    ] + scratch_code() + store_code()
}

/// A copy by the SCU, to a cache-through address.
pub open spec fn scu_dma_alias_fold_code() -> Seq<u16> {
    sentinel_code() + aim_code() + seq![
        mov_imm(4, 0x20),
        shll8(4),
        shll8(4),
        shll8(4),
        crate::diagnostics::assembler::add(3, 4),
    ] + copy_code() + park_code()
}

/// A line of the cache: a read after a write behind it, and one after its purge.
pub open spec fn cache_purge_coherency_code() -> Seq<u16> {
    sentinel_code() + seq![
        mov_imm(1, (-2) as i8),
        shll8(1),
        mov_imm(2, 0x49),
        shll(2),
        crate::diagnostics::assembler::add(1, 2),
        mov_imm(3, 1),
        movw_store(1, 3),
        mov_imm(4, 0x20),
        shll16(4),
        mov_imm(5, 2),
        shll8(5),
        crate::diagnostics::assembler::add(4, 5),
        movl_store(4, 0),
        movl_load(6, 4),
        mov_imm(7, 0x55),
        mov_imm(8, 0x20),
        shll8(8),
        shll8(8),
        shll8(8),
        crate::diagnostics::assembler::add(8, 4),
        movl_store(8, 7),
        movl_load(9, 4),
    ] + scratch_code() + seq![
        movl_store(1, 9),
        mov_imm(10, 0x40),
        shll8(10),
        shll8(10),
        shll8(10),
        crate::diagnostics::assembler::add(10, 4),
        movl_load(11, 10),
        movl_load(12, 4),
        add_imm(1, 4),
        movl_store(1, 12),
    ] + park_code()
}

/// Builds the address 0x0020_0100 in R1; R2 is changed.
pub fn build_low_scratch_addr() -> (r: Vec<u16>)
    ensures
        r@ == scratch_code(),
{
    let r: Vec<u16> = vec![
        mov_imm(1, 0x20),
        shll16(1),
        mov_imm(2, 1),
        shll8(2),
        crate::diagnostics::assembler::add(1, 2),
    ];
    assert(r@ =~= scratch_code());
    r
}

/// Builds the value 0x2A2A_2A2A in R0.
pub fn sentinel_r0() -> (r: Vec<u16>)
    ensures
        r@ == sentinel_code(),
{
    let r: Vec<u16> = vec![
        mov_imm(0, 0x2A),
        shll8(0),
        add_imm(0, 0x2A),
        shll8(0),
        add_imm(0, 0x2A),
        shll8(0),
        add_imm(0, 0x2A),
    ];
    assert(r@ =~= sentinel_code());
    r
}

/// Spins for ever.
pub fn park() -> (r: Vec<u16>)
    ensures
        r@ == park_code(),
{
    let r: Vec<u16> = vec![
        bra_self(),
        NOP,
    ];
    assert(r@ =~= park_code());
    r
}

/// Stores R0 at the address in R1, and spins.
pub fn store_and_park() -> (r: Vec<u16>)
    ensures
        r@ == store_code(),
{
    let r: Vec<u16> = vec![
        movl_store(1, 0),
        bra_self(),
        NOP,
    ];
    assert(r@ =~= store_code());
    r
}

/// Stores R0 at 0x0020_0200, which R2 then holds, and has 0x0020_0300 in R3;
/// R4 is changed.
pub fn plant_and_aim() -> (r: Vec<u16>)
    ensures
        r@ == aim_code(),
{
    let r: Vec<u16> = vec![
        mov_imm(2, 0x20),
        shll16(2),
        mov_imm(4, 2),
        shll8(4),
        crate::diagnostics::assembler::add(2, 4),
        movl_store(2, 0),
        mov_imm(3, 0x20),
        shll16(3),
        mov_imm(4, 3),
        shll8(4),
        crate::diagnostics::assembler::add(3, 4),
    ];
    assert(r@ =~= aim_code());
    r
}

/// Has the SCU copy 4 bytes from the address in R2 to the one in R3: the pointers,
/// the count, a step of 4 and 2 bytes, the mode (both pointers updated, started by
/// hand), and the start.
pub fn scu_copy() -> (r: Vec<u16>)
    ensures
        r@ == copy_code(),
{
    let r: Vec<u16> = vec![
        mov_imm(1, 6),
        shll8(1),
        add_imm(1, -2),
        shll16(1),
        movl_store(1, 2),
        mov_imm(4, 0x04),
        crate::diagnostics::assembler::add(4, 1),
        movl_store(4, 3),
        mov_imm(4, 0x08),
        crate::diagnostics::assembler::add(4, 1),
        mov_imm(5, 4),
        movl_store(4, 5),
        mov_imm(5, 1),
        shll8(5),
        add_imm(5, 1),
        mov_imm(4, 0x0C),
        crate::diagnostics::assembler::add(4, 1),
        movl_store(4, 5),
        mov_imm(5, 1),
        shll16(5),
        mov_imm(6, 1),
        shll8(6),
        crate::diagnostics::assembler::add(5, 6),
        add_imm(5, 7),
        mov_imm(4, 0x14),
        crate::diagnostics::assembler::add(4, 1),
        movl_store(4, 5),
        mov_imm(5, 1),
        shll8(5),
        mov_imm(4, 0x10),
        crate::diagnostics::assembler::add(4, 1),
        movl_store(4, 5),
    ];
    assert(r@ =~= copy_code());
    r
}

/// `ADD #imm`: 0 + 10 + 32.
pub fn cpu_add_imm() -> (r: Vec<u16>)
    ensures
        r@ == cpu_add_imm_code(),
{
    let mut r: Vec<u16> = vec![
        mov_imm(0, 0),
        add_imm(0, 10),
        add_imm(0, 32),
    ];
    let mut part: Vec<u16> = build_low_scratch_addr();
    r.append(&mut part);
    let mut part: Vec<u16> = store_and_park();
    r.append(&mut part);
    assert(r@ =~= cpu_add_imm_code());
    r
}

/// `ADD` and `SUB` of registers: 0 + 100 - 58.
pub fn cpu_sub_reg() -> (r: Vec<u16>)
    ensures
        r@ == cpu_sub_reg_code(),
{
    let mut r: Vec<u16> = vec![
        mov_imm(4, 100),
        mov_imm(5, 58),
        mov_imm(0, 0),
        crate::diagnostics::assembler::add(0, 4),
        crate::diagnostics::assembler::sub(0, 5),
    ];
    let mut part: Vec<u16> = build_low_scratch_addr();
    r.append(&mut part);
    let mut part: Vec<u16> = store_and_park();
    r.append(&mut part);
    assert(r@ =~= cpu_sub_reg_code());
    r
}

/// `MUL.L` and `STS MACL`: 6 times 7.
pub fn cpu_mull_macl() -> (r: Vec<u16>)
    ensures
        r@ == cpu_mull_macl_code(),
{
    let mut r: Vec<u16> = vec![
        mov_imm(4, 6),
        mov_imm(5, 7),
        mul_l(4, 5),
        sts_macl(0),
    ];
    let mut part: Vec<u16> = build_low_scratch_addr();
    r.append(&mut part);
    let mut part: Vec<u16> = store_and_park();
    r.append(&mut part);
    assert(r@ =~= cpu_mull_macl_code());
    r
}

/// A `BRA` that is taken: its delay slot runs, what it skips does not.
pub fn branch_delay_slot() -> (r: Vec<u16>)
    ensures
        r@ == branch_delay_slot_code(),
{
    let mut r: Vec<u16> = vec![
        mov_imm(0, 1),
        asm_bra(1),
        add_imm(0, 41),
        mov_imm(0, 99),
    ];
    let mut part: Vec<u16> = build_low_scratch_addr();
    r.append(&mut part);
    let mut part: Vec<u16> = store_and_park();
    r.append(&mut part);
    assert(r@ =~= branch_delay_slot_code());
    r
}

/// A value stored in low work RAM, and what is read back stored behind it.
pub fn mem_roundtrip_low() -> (r: Vec<u16>)
    ensures
        r@ == mem_roundtrip_low_code(),
{
    let mut r: Vec<u16> = sentinel_r0();
    let mut part: Vec<u16> = build_low_scratch_addr();
    r.append(&mut part);
    let mut part: Vec<u16> = vec![
        movl_store(1, 0),
        mov_imm(0, 0),
        movl_load(0, 1),
        mov_imm(3, 4),
        crate::diagnostics::assembler::add(3, 1),
        movl_store(3, 0),
    ];
    r.append(&mut part);
    let mut part: Vec<u16> = park();
    r.append(&mut part);
    assert(r@ =~= mem_roundtrip_low_code());
    r
}

/// A value stored in high work RAM, and what is read back stored behind it.
pub fn mem_roundtrip_high() -> (r: Vec<u16>)
    ensures
        r@ == mem_roundtrip_high_code(),
{
    let mut r: Vec<u16> = sentinel_r0();
    let mut part: Vec<u16> = vec![
        mov_imm(1, 6),
        shll16(1),
        shll8(1),
        mov_imm(2, 1),
        shll8(2),
        crate::diagnostics::assembler::add(1, 2),
    ];
    r.append(&mut part);
    let mut part: Vec<u16> = vec![
        movl_store(1, 0),
        mov_imm(0, 0),
        movl_load(0, 1),
        mov_imm(3, 4),
        crate::diagnostics::assembler::add(3, 1),
        movl_store(3, 0),
    ];
    r.append(&mut part);
    let mut part: Vec<u16> = park();
    r.append(&mut part);
    assert(r@ =~= mem_roundtrip_high_code());
    r
}

/// The divider of the CPU: 126 by 3.
pub fn divu_divide() -> (r: Vec<u16>)
    ensures
        r@ == divu_divide_code(),
{
    let mut r: Vec<u16> = vec![
        mov_imm(1, -1),
        shll8(1),
        mov_imm(2, 4),
        crate::diagnostics::assembler::add(2, 1),
        mov_imm(3, 3),
        movl_store(1, 3),
        mov_imm(4, 126),
        movl_store(2, 4),
        movl_load(0, 2),
        mov_imm(1, 0x20),
        shll16(1),
        mov_imm(5, 1),
        shll8(5),
        crate::diagnostics::assembler::add(1, 5),
    ];
    let mut part: Vec<u16> = store_and_park();
    r.append(&mut part);
    assert(r@ =~= divu_divide_code());
    r
}

/// Two readings of the free-running timer of the CPU.
pub fn timer_frc_advances() -> (r: Vec<u16>)
    ensures
        r@ == timer_frc_advances_code(),
{
    let mut r: Vec<u16> = vec![
        mov_imm(1, -2),
        shll8(1),
        mov_imm(2, 0x12),
        crate::diagnostics::assembler::add(1, 2),
        mov_imm(5, 0x20),
        shll16(5),
        mov_imm(6, 1),
        shll8(6),
        crate::diagnostics::assembler::add(5, 6),
        movw_load(3, 1),
        movl_store(5, 3),
    ];
    let mut part: Vec<u16> = vec![NOP; 16];
    r.append(&mut part);
    let mut part: Vec<u16> = vec![
        movw_load(4, 1),
        mov_imm(6, 4),
        crate::diagnostics::assembler::add(6, 5),
        movl_store(6, 4),
    ];
    r.append(&mut part);
    let mut part: Vec<u16> = park();
    r.append(&mut part);
    assert(r@ =~= timer_frc_advances_code());
    r
}

/// `OR`, `XOR` and `AND`.
pub fn cpu_logic_ops() -> (r: Vec<u16>)
    ensures
        r@ == cpu_logic_ops_code(),
{
    let mut r: Vec<u16> = vec![
        mov_imm(0, 0x0F),
        mov_imm(2, 0x30),
        or_(0, 2),
        mov_imm(2, 0x15),
        xor_(0, 2),
        mov_imm(2, 0x2F),
        and_(0, 2),
    ];
    let mut part: Vec<u16> = build_low_scratch_addr();
    r.append(&mut part);
    let mut part: Vec<u16> = store_and_park();
    r.append(&mut part);
    assert(r@ =~= cpu_logic_ops_code());
    r
}

/// `SHLR` and `SHLL`.
pub fn cpu_shift_ops() -> (r: Vec<u16>)
    ensures
        r@ == cpu_shift_ops_code(),
{
    let mut r: Vec<u16> = vec![
        mov_imm(0, 0x2A),
        shlr(0),
        shll(0),
    ];
    let mut part: Vec<u16> = build_low_scratch_addr();
    r.append(&mut part);
    let mut part: Vec<u16> = store_and_park();
    r.append(&mut part);
    assert(r@ =~= cpu_shift_ops_code());
    r
}

/// A copy by the SCU.
pub fn scu_dma_copy() -> (r: Vec<u16>)
    ensures
        r@ == scu_dma_copy_code(),
{
    let mut r: Vec<u16> = sentinel_r0();
    let mut part: Vec<u16> = plant_and_aim();
    r.append(&mut part);
    let mut part: Vec<u16> = scu_copy();
    r.append(&mut part);
    let mut part: Vec<u16> = park();
    r.append(&mut part);
    assert(r@ =~= scu_dma_copy_code());
    r
}

/// A copy by the DMA controller of the CPU.
pub fn dmac_transfer() -> (r: Vec<u16>)
    ensures
        r@ == dmac_transfer_code(),
{
    let mut r: Vec<u16> = sentinel_r0();
    let mut part: Vec<u16> = plant_and_aim();
    r.append(&mut part);
    let mut part: Vec<u16> = vec![
        mov_imm(1, -128),
        movl_store(1, 2),
        mov_imm(4, 0x04),
        crate::diagnostics::assembler::add(4, 1),
        movl_store(4, 3),
        mov_imm(4, 0x08),
        crate::diagnostics::assembler::add(4, 1),
        mov_imm(5, 1),
        movl_store(4, 5),
        mov_imm(5, 0x5C),
        shll8(5),
        add_imm(5, 1),
        mov_imm(4, 0x0C),
        crate::diagnostics::assembler::add(4, 1),
        movl_store(4, 5),
        mov_imm(5, 1),
        mov_imm(4, 0x30),
        crate::diagnostics::assembler::add(4, 1),
        movl_store(4, 5),
    ];
    r.append(&mut part);
    let mut part: Vec<u16> = park();
    r.append(&mut part);
    assert(r@ =~= dmac_transfer_code());
    r
}

/// `MAC.L` over two arrays: 3 times 10 and 4 times 3.
pub fn cpu_mac_l() -> (r: Vec<u16>)
    ensures
        r@ == cpu_mac_l_code(),
{
    let mut r: Vec<u16> = vec![
        mov_imm(1, 0x20),
        shll16(1),
        mov_imm(4, 2),
        shll8(4),
        crate::diagnostics::assembler::add(1, 4),
        mov_imm(5, 3),
        movl_store(1, 5),
        mov_imm(4, 4),
        crate::diagnostics::assembler::add(4, 1),
        mov_imm(5, 4),
        movl_store(4, 5),
        mov_imm(4, 0x10),
        crate::diagnostics::assembler::add(4, 1),
        mov_imm(5, 10),
        movl_store(4, 5),
        mov_imm(4, 0x14),
        crate::diagnostics::assembler::add(4, 1),
        mov_imm(5, 3),
        movl_store(4, 5),
    ];
    let mut part: Vec<u16> = vec![
        mov_imm(2, 0x20),
        shll16(2),
        mov_imm(4, 2),
        shll8(4),
        crate::diagnostics::assembler::add(2, 4),
        mov_imm(3, 0x20),
        shll16(3),
        mov_imm(4, 2),
        shll8(4),
        crate::diagnostics::assembler::add(3, 4),
        mov_imm(4, 0x10),
        crate::diagnostics::assembler::add(3, 4),
        CLRMAC,
        mac_l(2, 3),
        mac_l(2, 3),
        sts_macl(0),
    ];
    r.append(&mut part);
    let mut part: Vec<u16> = build_low_scratch_addr();
    r.append(&mut part);
    let mut part: Vec<u16> = store_and_park();
    r.append(&mut part);
    assert(r@ =~= cpu_mac_l_code());
    r
}

/// `CMP/EQ` and a `BT` that is taken.
pub fn cpu_cmp_branch() -> (r: Vec<u16>)
    ensures
        r@ == cpu_cmp_branch_code(),
{
    let mut r: Vec<u16> = vec![
        mov_imm(1, 5),
        mov_imm(2, 5),
        cmp_eq(2, 1),
        bt(0),
        mov_imm(0, 7),
        mov_imm(0, 42),
    ];
    let mut part: Vec<u16> = build_low_scratch_addr();
    r.append(&mut part);
    let mut part: Vec<u16> = store_and_park();
    r.append(&mut part);
    assert(r@ =~= cpu_cmp_branch_code());
    r
}

/// A copy by the SCU, to a cache-through address.
pub fn scu_dma_alias_fold() -> (r: Vec<u16>)
    ensures
        r@ == scu_dma_alias_fold_code(),
{
    let mut r: Vec<u16> = sentinel_r0();
    let mut part: Vec<u16> = plant_and_aim();
    r.append(&mut part);
    let mut part: Vec<u16> = vec![
        mov_imm(4, 0x20),
        shll8(4),
        shll8(4),
        shll8(4),
        crate::diagnostics::assembler::add(3, 4),
    ];
    r.append(&mut part);
    let mut part: Vec<u16> = scu_copy();
    r.append(&mut part);
    let mut part: Vec<u16> = park();
    r.append(&mut part);
    assert(r@ =~= scu_dma_alias_fold_code());
    r
}

/// A line of the cache: a read after a write behind it, and one after its purge.
pub fn cache_purge_coherency() -> (r: Vec<u16>)
    ensures
        r@ == cache_purge_coherency_code(),
{
    let mut r: Vec<u16> = sentinel_r0();
    let mut part: Vec<u16> = vec![
        mov_imm(1, -2),
        shll8(1),
        mov_imm(2, 0x49),
        shll(2),
        crate::diagnostics::assembler::add(1, 2),
        mov_imm(3, 1),
        movw_store(1, 3),
        mov_imm(4, 0x20),
        shll16(4),
        mov_imm(5, 2),
        shll8(5),
        crate::diagnostics::assembler::add(4, 5),
        movl_store(4, 0),
        movl_load(6, 4),
        mov_imm(7, 0x55),
        mov_imm(8, 0x20),
        shll8(8),
        shll8(8),
        shll8(8),
        crate::diagnostics::assembler::add(8, 4),
        movl_store(8, 7),
        movl_load(9, 4),
    ];
    r.append(&mut part);
    let mut part: Vec<u16> = build_low_scratch_addr();
    r.append(&mut part);
    let mut part: Vec<u16> = vec![
        movl_store(1, 9),
        mov_imm(10, 0x40),
        shll8(10),
        shll8(10),
        shll8(10),
        crate::diagnostics::assembler::add(10, 4),
        movl_load(11, 10),
        movl_load(12, 4),
        add_imm(1, 4),
        movl_store(1, 12),
    ];
    r.append(&mut part);
    let mut part: Vec<u16> = park();
    r.append(&mut part);
    assert(r@ =~= cache_purge_coherency_code());
    r
}

} // verus!
