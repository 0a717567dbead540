//! Facts about bits.

use vstd::prelude::*;

verus! {

/// A masked number is at most the mask, and at most the number.
pub proof fn masks_bound()
    by (bit_vector)
    ensures
        forall|x: u8, m: u8| #[trigger] (x & m) <= m,
        forall|x: u16, m: u16| #[trigger] (x & m) <= m,
        forall|x: u32, m: u32| #[trigger] (x & m) <= m && x & m <= x,
        forall|x: usize, m: usize| #[trigger] (x & m) <= m,
        forall|x: i32, m: i32| 0 <= m ==> 0 <= #[trigger] (x & m) <= m,
{
}

/// Setting a flag twice is setting it once.
pub proof fn flags_settle(x: u8, m: u8, y: u16, n: u16)
    by (bit_vector)
    ensures
        (x | m) | m == x | m,
        (y | n) | n == y | n,
{
}

/// The low bits of a number are its remainder, and a right shift is the quotient.
pub proof fn low_bits()
    by (bit_vector)
    ensures
        forall|x: u8| (x >> 1) * 0x2 + #[trigger] (x & 0x1) == x && 0 <= x & 0x1 < 0x2,
        forall|x: u8| (x >> 2) * 0x4 + #[trigger] (x & 0x3) == x && 0 <= x & 0x3 < 0x4,
        forall|x: u8| (x >> 3) * 0x8 + #[trigger] (x & 0x7) == x && 0 <= x & 0x7 < 0x8,
        forall|x: u8| (x >> 4) * 0x10 + #[trigger] (x & 0xF) == x && 0 <= x & 0xF < 0x10,
        forall|x: u8| (x >> 5) * 0x20 + #[trigger] (x & 0x1F) == x && 0 <= x & 0x1F < 0x20,
        forall|x: u8| (x >> 6) * 0x40 + #[trigger] (x & 0x3F) == x && 0 <= x & 0x3F < 0x40,
        forall|x: u8| (x >> 7) * 0x80 + #[trigger] (x & 0x7F) == x && 0 <= x & 0x7F < 0x80,
        forall|x: u16| (x >> 1) * 0x2 + #[trigger] (x & 0x1) == x && 0 <= x & 0x1 < 0x2,
        forall|x: u16| (x >> 2) * 0x4 + #[trigger] (x & 0x3) == x && 0 <= x & 0x3 < 0x4,
        forall|x: u16| (x >> 3) * 0x8 + #[trigger] (x & 0x7) == x && 0 <= x & 0x7 < 0x8,
        forall|x: u16| (x >> 4) * 0x10 + #[trigger] (x & 0xF) == x && 0 <= x & 0xF < 0x10,
        forall|x: u16| (x >> 5) * 0x20 + #[trigger] (x & 0x1F) == x && 0 <= x & 0x1F < 0x20,
        forall|x: u16| (x >> 6) * 0x40 + #[trigger] (x & 0x3F) == x && 0 <= x & 0x3F < 0x40,
        forall|x: u16| (x >> 7) * 0x80 + #[trigger] (x & 0x7F) == x && 0 <= x & 0x7F < 0x80,
        forall|x: u16| (x >> 8) * 0x100 + #[trigger] (x & 0xFF) == x && 0 <= x & 0xFF < 0x100,
        forall|x: u16| (x >> 9) * 0x200 + #[trigger] (x & 0x1FF) == x && 0 <= x & 0x1FF < 0x200,
        forall|x: u16| (x >> 10) * 0x400 + #[trigger] (x & 0x3FF) == x && 0 <= x & 0x3FF < 0x400,
        forall|x: u16| (x >> 11) * 0x800 + #[trigger] (x & 0x7FF) == x && 0 <= x & 0x7FF < 0x800,
        forall|x: u16| (x >> 12) * 0x1000 + #[trigger] (x & 0xFFF) == x && 0 <= x & 0xFFF < 0x1000,
        forall|x: u32| (x >> 1) * 0x2 + #[trigger] (x & 0x1) == x && 0 <= x & 0x1 < 0x2,
        forall|x: u32| (x >> 2) * 0x4 + #[trigger] (x & 0x3) == x && 0 <= x & 0x3 < 0x4,
        forall|x: u32| (x >> 3) * 0x8 + #[trigger] (x & 0x7) == x && 0 <= x & 0x7 < 0x8,
        forall|x: u32| (x >> 4) * 0x10 + #[trigger] (x & 0xF) == x && 0 <= x & 0xF < 0x10,
        forall|x: u32| (x >> 5) * 0x20 + #[trigger] (x & 0x1F) == x && 0 <= x & 0x1F < 0x20,
        forall|x: u32| (x >> 6) * 0x40 + #[trigger] (x & 0x3F) == x && 0 <= x & 0x3F < 0x40,
        forall|x: u32| (x >> 7) * 0x80 + #[trigger] (x & 0x7F) == x && 0 <= x & 0x7F < 0x80,
        forall|x: u32| (x >> 8) * 0x100 + #[trigger] (x & 0xFF) == x && 0 <= x & 0xFF < 0x100,
        forall|x: u32| (x >> 9) * 0x200 + #[trigger] (x & 0x1FF) == x && 0 <= x & 0x1FF < 0x200,
        forall|x: u32| (x >> 10) * 0x400 + #[trigger] (x & 0x3FF) == x && 0 <= x & 0x3FF < 0x400,
        forall|x: u32| (x >> 11) * 0x800 + #[trigger] (x & 0x7FF) == x && 0 <= x & 0x7FF < 0x800,
        forall|x: u32| (x >> 12) * 0x1000 + #[trigger] (x & 0xFFF) == x && 0 <= x & 0xFFF < 0x1000,
        forall|x: u32| (x >> 13) * 0x2000 + #[trigger] (x & 0x1FFF) == x && 0 <= x & 0x1FFF < 0x2000,
        forall|x: u32| (x >> 14) * 0x4000 + #[trigger] (x & 0x3FFF) == x && 0 <= x & 0x3FFF < 0x4000,
        forall|x: u32| (x >> 15) * 0x8000 + #[trigger] (x & 0x7FFF) == x && 0 <= x & 0x7FFF < 0x8000,
        forall|x: u32| (x >> 16) * 0x1_0000 + #[trigger] (x & 0xFFFF) == x && 0 <= x & 0xFFFF < 0x1_0000,
        forall|x: u32| (x >> 19) * 0x8_0000 + #[trigger] (x & 0x7_FFFF) == x && 0 <= x & 0x7_FFFF < 0x8_0000,
        forall|x: u32| (x >> 20) * 0x10_0000 + #[trigger] (x & 0xF_FFFF) == x && 0 <= x & 0xF_FFFF < 0x10_0000,
        forall|x: u32| (x >> 24) * 0x100_0000 + #[trigger] (x & 0xFF_FFFF) == x && 0 <= x & 0xFF_FFFF < 0x100_0000,
        forall|x: i32| (x >> 8) * 0x100 + #[trigger] (x & 0xFF) == x && 0 <= x & 0xFF < 0x100,
        forall|x: i32| (x >> 12) * 0x1000 + #[trigger] (x & 0xFFF) == x && 0 <= x & 0xFFF < 0x1000,
        forall|x: i32| (x >> 13) * 0x2000 + #[trigger] (x & 0x1FFF) == x && 0 <= x & 0x1FFF < 0x2000,
        forall|x: i32| (x >> 20) * 0x10_0000 + #[trigger] (x & 0xF_FFFF) == x && 0 <= x & 0xF_FFFF < 0x10_0000,
        forall|x: i32| (x >> 24) * 0x100_0000 + #[trigger] (x & 0xFF_FFFF) == x && 0 <= x & 0xFF_FFFF < 0x100_0000,
        forall|x: i32| (x >> 26) * 0x400_0000 + #[trigger] (x & 0x3FF_FFFF) == x && 0 <= x & 0x3FF_FFFF < 0x400_0000,
{
}

/// A right shift is a division that rounds down.
pub proof fn right_shifts()
    by (bit_vector)
    ensures
        forall|x: u8| #[trigger] (x >> 1) * 0x2 <= x < (x >> 1) * 0x2 + 0x2,
        forall|x: u8| #[trigger] (x >> 2) * 0x4 <= x < (x >> 2) * 0x4 + 0x4,
        forall|x: u8| #[trigger] (x >> 3) * 0x8 <= x < (x >> 3) * 0x8 + 0x8,
        forall|x: u8| #[trigger] (x >> 4) * 0x10 <= x < (x >> 4) * 0x10 + 0x10,
        forall|x: u8| #[trigger] (x >> 5) * 0x20 <= x < (x >> 5) * 0x20 + 0x20,
        forall|x: u8| #[trigger] (x >> 6) * 0x40 <= x < (x >> 6) * 0x40 + 0x40,
        forall|x: u8| #[trigger] (x >> 7) * 0x80 <= x < (x >> 7) * 0x80 + 0x80,
        forall|x: u16| #[trigger] (x >> 1) * 0x2 <= x < (x >> 1) * 0x2 + 0x2,
        forall|x: u16| #[trigger] (x >> 2) * 0x4 <= x < (x >> 2) * 0x4 + 0x4,
        forall|x: u16| #[trigger] (x >> 3) * 0x8 <= x < (x >> 3) * 0x8 + 0x8,
        forall|x: u16| #[trigger] (x >> 4) * 0x10 <= x < (x >> 4) * 0x10 + 0x10,
        forall|x: u16| #[trigger] (x >> 5) * 0x20 <= x < (x >> 5) * 0x20 + 0x20,
        forall|x: u16| #[trigger] (x >> 6) * 0x40 <= x < (x >> 6) * 0x40 + 0x40,
        forall|x: u16| #[trigger] (x >> 7) * 0x80 <= x < (x >> 7) * 0x80 + 0x80,
        forall|x: u16| #[trigger] (x >> 8) * 0x100 <= x < (x >> 8) * 0x100 + 0x100,
        forall|x: u16| #[trigger] (x >> 9) * 0x200 <= x < (x >> 9) * 0x200 + 0x200,
        forall|x: u16| #[trigger] (x >> 10) * 0x400 <= x < (x >> 10) * 0x400 + 0x400,
        forall|x: u16| #[trigger] (x >> 11) * 0x800 <= x < (x >> 11) * 0x800 + 0x800,
        forall|x: u16| #[trigger] (x >> 12) * 0x1000 <= x < (x >> 12) * 0x1000 + 0x1000,
        forall|x: u16| #[trigger] (x >> 13) * 0x2000 <= x < (x >> 13) * 0x2000 + 0x2000,
        forall|x: u16| #[trigger] (x >> 14) * 0x4000 <= x < (x >> 14) * 0x4000 + 0x4000,
        forall|x: u16| #[trigger] (x >> 15) * 0x8000 <= x < (x >> 15) * 0x8000 + 0x8000,
        forall|x: u32| #[trigger] (x >> 1) * 0x2 <= x < (x >> 1) * 0x2 + 0x2,
        forall|x: u32| #[trigger] (x >> 2) * 0x4 <= x < (x >> 2) * 0x4 + 0x4,
        forall|x: u32| #[trigger] (x >> 3) * 0x8 <= x < (x >> 3) * 0x8 + 0x8,
        forall|x: u32| #[trigger] (x >> 4) * 0x10 <= x < (x >> 4) * 0x10 + 0x10,
        forall|x: u32| #[trigger] (x >> 5) * 0x20 <= x < (x >> 5) * 0x20 + 0x20,
        forall|x: u32| #[trigger] (x >> 6) * 0x40 <= x < (x >> 6) * 0x40 + 0x40,
        forall|x: u32| #[trigger] (x >> 7) * 0x80 <= x < (x >> 7) * 0x80 + 0x80,
        forall|x: u32| #[trigger] (x >> 8) * 0x100 <= x < (x >> 8) * 0x100 + 0x100,
        forall|x: u32| #[trigger] (x >> 9) * 0x200 <= x < (x >> 9) * 0x200 + 0x200,
        forall|x: u32| #[trigger] (x >> 10) * 0x400 <= x < (x >> 10) * 0x400 + 0x400,
        forall|x: u32| #[trigger] (x >> 11) * 0x800 <= x < (x >> 11) * 0x800 + 0x800,
        forall|x: u32| #[trigger] (x >> 12) * 0x1000 <= x < (x >> 12) * 0x1000 + 0x1000,
        forall|x: u32| #[trigger] (x >> 13) * 0x2000 <= x < (x >> 13) * 0x2000 + 0x2000,
        forall|x: u32| #[trigger] (x >> 14) * 0x4000 <= x < (x >> 14) * 0x4000 + 0x4000,
        forall|x: u32| #[trigger] (x >> 15) * 0x8000 <= x < (x >> 15) * 0x8000 + 0x8000,
        forall|x: u32| #[trigger] (x >> 16) * 0x1_0000 <= x < (x >> 16) * 0x1_0000 + 0x1_0000,
        forall|x: u32| #[trigger] (x >> 17) * 0x2_0000 <= x < (x >> 17) * 0x2_0000 + 0x2_0000,
        forall|x: u32| #[trigger] (x >> 18) * 0x4_0000 <= x < (x >> 18) * 0x4_0000 + 0x4_0000,
        forall|x: u32| #[trigger] (x >> 19) * 0x8_0000 <= x < (x >> 19) * 0x8_0000 + 0x8_0000,
        forall|x: u32| #[trigger] (x >> 20) * 0x10_0000 <= x < (x >> 20) * 0x10_0000 + 0x10_0000,
        forall|x: u32| #[trigger] (x >> 21) * 0x20_0000 <= x < (x >> 21) * 0x20_0000 + 0x20_0000,
        forall|x: u32| #[trigger] (x >> 22) * 0x40_0000 <= x < (x >> 22) * 0x40_0000 + 0x40_0000,
        forall|x: u32| #[trigger] (x >> 23) * 0x80_0000 <= x < (x >> 23) * 0x80_0000 + 0x80_0000,
        forall|x: u32| #[trigger] (x >> 24) * 0x100_0000 <= x < (x >> 24) * 0x100_0000 + 0x100_0000,
        forall|x: i32| #[trigger] (x >> 1) * 0x2 <= x < (x >> 1) * 0x2 + 0x2,
        forall|x: i32| #[trigger] (x >> 2) * 0x4 <= x < (x >> 2) * 0x4 + 0x4,
        forall|x: i32| #[trigger] (x >> 3) * 0x8 <= x < (x >> 3) * 0x8 + 0x8,
        forall|x: i32| #[trigger] (x >> 4) * 0x10 <= x < (x >> 4) * 0x10 + 0x10,
        forall|x: i32| #[trigger] (x >> 5) * 0x20 <= x < (x >> 5) * 0x20 + 0x20,
        forall|x: i32| #[trigger] (x >> 6) * 0x40 <= x < (x >> 6) * 0x40 + 0x40,
        forall|x: i32| #[trigger] (x >> 8) * 0x100 <= x < (x >> 8) * 0x100 + 0x100,
        forall|x: i32| #[trigger] (x >> 11) * 0x800 <= x < (x >> 11) * 0x800 + 0x800,
        forall|x: i32| #[trigger] (x >> 12) * 0x1000 <= x < (x >> 12) * 0x1000 + 0x1000,
        forall|x: i32| #[trigger] (x >> 13) * 0x2000 <= x < (x >> 13) * 0x2000 + 0x2000,
        forall|x: i32| #[trigger] (x >> 16) * 0x1_0000 <= x < (x >> 16) * 0x1_0000 + 0x1_0000,
        forall|x: i32| #[trigger] (x >> 20) * 0x10_0000 <= x < (x >> 20) * 0x10_0000 + 0x10_0000,
        forall|x: i32| #[trigger] (x >> 24) * 0x100_0000 <= x < (x >> 24) * 0x100_0000 + 0x100_0000,
        forall|x: i64| #[trigger] (x >> 12) * 0x1000 <= x < (x >> 12) * 0x1000 + 0x1000,
{
}

/// Casts between signs and widths.
pub proof fn casts()
    by (bit_vector)
    ensures
        forall|x: i32| #[trigger] (x as u32) == (if x < 0 { x + 0x1_0000_0000 } else { x + 0 }),
        forall|x: u32| #[trigger] (x as i32) == (if x > 0x7FFF_FFFF { x - 0x1_0000_0000 } else { x - 0 }),
        forall|x: u16| #[trigger] (x as i16) == (if x > 0x7FFF { x - 0x1_0000 } else { x - 0 }),
        forall|x: u8| #[trigger] (x as i8) == (if x > 0x7F { x - 0x100 } else { x - 0 }),
        forall|x: u32| #[trigger] (x as u16) == x & 0xFFFF,
        forall|x: u32| #[trigger] (x as u8) == x & 0xFF,
        forall|x: u16| #[trigger] (x as u8) == x & 0xFF,
{
}

} // verus!
