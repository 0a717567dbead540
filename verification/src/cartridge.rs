//! The cartridge slot.
//!
//! ```text
//!   0x0200_0000..0x023F_FFFF   game ROM
//!   0x0240_0000..0x025F_FFFF   extension DRAM, bank 0
//!   0x0260_0000..0x027F_FFFF   extension DRAM, bank 1
//!   0x0400_0000..0x047F_FFFF   battery-backed RAM
//!   0x04FF_FFFF                cartridge ID
//! ```
//!
//! An empty slot reads all ones. Each DRAM bank mirrors across its window.
//! Battery-backed RAM holds two data bytes in each 32-bit word, in bits 23..16
//! and 7..0; the other bits read 0.

use vstd::prelude::*;
use vstd::arithmetic::div_mod::lemma_small_mod;
use crate::bits::low_bits;
use crate::memory::{
    be16, be32, byte16, byte32, folded, formatted, join16, join32, make_formatted, Ram,
};

verus! {

pub const CART_BASE: u32 = 0x0200_0000;

pub const CART_END: u32 = 0x04FF_FFFF;

pub const CART_ROM_BASE: u32 = 0x0200_0000;

pub const CART_ROM_END: u32 = 0x023F_FFFF;

pub const CART_DRAM0_BASE: u32 = 0x0240_0000;

pub const CART_DRAM0_END: u32 = 0x025F_FFFF;

pub const CART_DRAM1_BASE: u32 = 0x0260_0000;

pub const CART_DRAM1_END: u32 = 0x027F_FFFF;

pub const CART_BRAM_BASE: u32 = 0x0400_0000;

pub const CART_BRAM_END: u32 = 0x047F_FFFF;

pub const CART_ID_ADDR: u32 = 0x04FF_FFFF;

/// ID of an empty slot and of a game ROM.
pub const ID_NONE: u8 = 0xFF;

/// ID of 1 MiB of extension DRAM.
pub const ID_DRAM_1MB: u8 = 0x5A;

/// ID of 4 MiB of extension DRAM.
pub const ID_DRAM_4MB: u8 = 0x5C;

/// ID of 512 KiB of battery-backed RAM.
pub const ID_BRAM_4MBIT: u8 = 0x21;

/// ID of 1 MiB of battery-backed RAM.
pub const ID_BRAM_8MBIT: u8 = 0x22;

/// ID of 2 MiB of battery-backed RAM.
pub const ID_BRAM_16MBIT: u8 = 0x23;

/// ID of 4 MiB of battery-backed RAM.
pub const ID_BRAM_32MBIT: u8 = 0x24;

/// What is plugged into the slot.
#[derive(Clone, Debug)]
pub enum Cartridge {
    /// Nothing.
    Empty,
    /// Extension DRAM of two banks.
    Dram { bank0: Ram, bank1: Ram, id: u8 },
    /// Battery-backed RAM; its data bytes in order.
    Bram { bytes: Vec<u8>, id: u8 },
    /// A game ROM.
    Rom { bytes: Vec<u8> },
}

/// The contents of a [`Cartridge`].
pub enum Cart {
    Empty,
    Dram { bank0: Seq<u8>, bank1: Seq<u8>, id: u8 },
    Bram { bytes: Seq<u8>, id: u8 },
    Rom { bytes: Seq<u8> },
}

impl View for Cartridge {
    type V = Cart;

    open spec fn view(&self) -> Cart {
        match *self {
            Cartridge::Empty => Cart::Empty,
            Cartridge::Dram { bank0, bank1, id } => Cart::Dram {
                bank0: bank0@,
                bank1: bank1@,
                id,
            },
            Cartridge::Bram { bytes, id } => Cart::Bram { bytes: bytes@, id },
            Cartridge::Rom { bytes } => Cart::Rom { bytes: bytes@ },
        }
    }
}

/// The ID of battery-backed RAM of `size` bytes.
pub open spec fn bram_id(size: int) -> u8 {
    if size == 0x0008_0000 {
        ID_BRAM_4MBIT
    } else if size == 0x0010_0000 {
        ID_BRAM_8MBIT
    } else if size == 0x0020_0000 {
        ID_BRAM_16MBIT
    } else if size == 0x0040_0000 {
        ID_BRAM_32MBIT
    } else {
        ID_NONE
    }
}

/// 32-bit words of battery-backed RAM of `len` bytes.
pub open spec fn bram_words(len: nat) -> u32 {
    (len / 2) as u32
}

/// The data byte at an offset of battery-backed RAM of `len` bytes; `None` where
/// the offset reads 0.
pub open spec fn bram_index(len: nat, off: u32) -> Option<int> {
    let w = (off / 4) as int % bram_words(len) as int;
    if off & 3 == 1 {
        Some(w * 2)
    } else if off & 3 == 3 {
        Some(w * 2 + 1)
    } else {
        None
    }
}

impl Cart {
    /// Memory that is there has a size that can be addressed.
    pub open spec fn wf(self) -> bool {
        match self {
            Cart::Dram { bank0, bank1, .. } => bank0.len() > 0 && bank1.len() > 0,
            Cart::Bram { bytes, .. } => bytes.len() == 0 || (bram_words(bytes.len()) > 0
                && bram_words(bytes.len()) * 2 <= bytes.len()),
            _ => true,
        }
    }

    /// The ID byte.
    pub open spec fn id(self) -> u8 {
        match self {
            Cart::Dram { id, .. } => id,
            Cart::Bram { id, .. } => id,
            _ => ID_NONE,
        }
    }

    /// The byte at an offset of the battery-backed RAM.
    pub open spec fn bram_at(self, off: u32) -> u8 {
        match self {
            Cart::Bram { bytes, .. } => if bytes.len() == 0 {
                0xFF
            } else {
                match bram_index(bytes.len(), off) {
                    Some(i) => bytes[i],
                    None => 0,
                }
            },
            _ => 0xFF,
        }
    }

    /// The byte at an address.
    pub open spec fn at(self, addr: u32) -> u8 {
        if CART_ROM_BASE <= addr <= CART_ROM_END {
            match self {
                Cart::Rom { bytes } => if bytes.len() > 0 {
                    folded(bytes, (addr - CART_ROM_BASE) as u32)
                } else {
                    0xFF
                },
                _ => 0xFF,
            }
        } else if CART_DRAM0_BASE <= addr <= CART_DRAM0_END {
            match self {
                Cart::Dram { bank0, .. } => folded(bank0, (addr - CART_DRAM0_BASE) as u32),
                _ => 0xFF,
            }
        } else if CART_DRAM1_BASE <= addr <= CART_DRAM1_END {
            match self {
                Cart::Dram { bank1, .. } => folded(bank1, (addr - CART_DRAM1_BASE) as u32),
                _ => 0xFF,
            }
        } else if CART_BRAM_BASE <= addr <= CART_BRAM_END {
            self.bram_at((addr - CART_BRAM_BASE) as u32)
        } else if addr == CART_ID_ADDR {
            self.id()
        } else {
            0xFF
        }
    }

    /// The 16-bit word at an address.
    pub open spec fn at16(self, addr: u32) -> u16 {
        be16(self.at(addr), self.at(addr.wrapping_add(1)))
    }

    /// The 32-bit word at an address.
    pub open spec fn at32(self, addr: u32) -> u32 {
        be32(
            self.at(addr),
            self.at(addr.wrapping_add(1)),
            self.at(addr.wrapping_add(2)),
            self.at(addr.wrapping_add(3)),
        )
    }

    /// The cartridge with a byte written at an address. Only DRAM and the data
    /// bytes of battery-backed RAM can be written.
    pub open spec fn with(self, addr: u32, v: u8) -> Cart {
        match self {
            Cart::Dram { bank0, bank1, id } => if CART_DRAM0_BASE <= addr <= CART_DRAM0_END {
                Cart::Dram {
                    bank0: bank0.update((addr - CART_DRAM0_BASE) % bank0.len() as int, v),
                    bank1,
                    id,
                }
            } else if CART_DRAM1_BASE <= addr <= CART_DRAM1_END {
                Cart::Dram {
                    bank0,
                    bank1: bank1.update((addr - CART_DRAM1_BASE) % bank1.len() as int, v),
                    id,
                }
            } else {
                self
            },
            Cart::Bram { bytes, id } => if CART_BRAM_BASE <= addr <= CART_BRAM_END && bytes.len()
                > 0 {
                match bram_index(bytes.len(), (addr - CART_BRAM_BASE) as u32) {
                    Some(i) => Cart::Bram { bytes: bytes.update(i, v), id },
                    None => self,
                }
            } else {
                self
            },
            _ => self,
        }
    }

    /// The cartridge with a 16-bit word written.
    pub open spec fn with16(self, addr: u32, v: u16) -> Cart {
        self.with(addr, byte16(v, 0)).with(addr.wrapping_add(1), byte16(v, 1))
    }

    /// The cartridge with a 32-bit word written.
    pub open spec fn with32(self, addr: u32, v: u32) -> Cart {
        self.with(addr, byte32(v, 0)).with(addr.wrapping_add(1), byte32(v, 1)).with(
            addr.wrapping_add(2),
            byte32(v, 2),
        ).with(addr.wrapping_add(3), byte32(v, 3))
    }
}

impl Default for Cartridge {
    fn default() -> (r: Cartridge)
        ensures
            r@ == Cart::Empty,
    {
        Cartridge::Empty
    }
}

/// A word of battery-backed RAM lies within it.
proof fn word_within(off: u32, words: u32, len: nat)
    requires
        words > 0,
        words * 2 <= len,
    ensures
        0 <= (off / 4) as int % words as int * 2,
        (off / 4) as int % words as int * 2 + 1 < len,
{
    let w = (off / 4) as int % words as int;
    assert(0 <= w < words);
}

impl Cartridge {
    /// 1 MiB of extension DRAM: two banks of 512 KiB.
    pub fn ext_ram_1mb() -> (r: Cartridge)
        ensures
            r@ == (Cart::Dram {
                bank0: Seq::new(0x8_0000, |i: int| 0u8),
                bank1: Seq::new(0x8_0000, |i: int| 0u8),
                id: ID_DRAM_1MB,
            }),
            r@.wf(),
    {
        Cartridge::Dram { bank0: Ram::new(0x8_0000), bank1: Ram::new(0x8_0000), id: ID_DRAM_1MB }
    }

    /// 4 MiB of extension DRAM: two banks of 2 MiB.
    pub fn ext_ram_4mb() -> (r: Cartridge)
        ensures
            r@ == (Cart::Dram {
                bank0: Seq::new(0x20_0000, |i: int| 0u8),
                bank1: Seq::new(0x20_0000, |i: int| 0u8),
                id: ID_DRAM_4MB,
            }),
            r@.wf(),
    {
        Cartridge::Dram { bank0: Ram::new(0x20_0000), bank1: Ram::new(0x20_0000), id: ID_DRAM_4MB }
    }

    /// Formatted battery-backed RAM of `size` bytes.
    pub fn backup_ram(size: usize) -> (r: Cartridge)
        ensures
            r@ == (Cart::Bram { bytes: formatted(size as nat, 32), id: bram_id(size as int) }),
            size == 0 || 2 <= size <= 0x1_FFFF_FFFE ==> r@.wf(),
    {
        let id: u8 = if size == 0x0008_0000 {
            ID_BRAM_4MBIT
        } else if size == 0x0010_0000 {
            ID_BRAM_8MBIT
        } else if size == 0x0020_0000 {
            ID_BRAM_16MBIT
        } else if size == 0x0040_0000 {
            ID_BRAM_32MBIT
        } else {
            ID_NONE
        };
        Cartridge::Bram { bytes: make_formatted(size, 32), id }
    }

    /// A game ROM.
    pub fn rom(bytes: Vec<u8>) -> (r: Cartridge)
        ensures
            r@ == (Cart::Rom { bytes: bytes@ }),
            r@.wf(),
    {
        Cartridge::Rom { bytes }
    }

    /// Whether an address lies in the slot's window.
    pub fn owns(addr: u32) -> (r: bool)
        ensures
            r == (CART_BASE <= addr <= CART_END),
    {
        CART_BASE <= addr && addr <= CART_END
    }

    /// The ID byte.
    pub fn cart_id(&self) -> (r: u8)
        ensures
            r == self@.id(),
    {
        match self {
            Cartridge::Empty => ID_NONE,
            Cartridge::Rom { .. } => ID_NONE,
            Cartridge::Dram { id, .. } => *id,
            Cartridge::Bram { id, .. } => *id,
        }
    }

    fn bram_read8(&self, off: u32) -> (r: u8)
        requires
            self@.wf(),
        ensures
            r == self@.bram_at(off),
    {
        match self {
            Cartridge::Bram { bytes, .. } => {
                if bytes.len() == 0 {
                    return 0xFF;
                }
                let words: u32 = (bytes.len() / 2) as u32;
                let w: usize = (off / 4 % words) as usize;
                proof {
                    word_within(off, words, bytes@.len());
                }
                let lane: u32 = off & 3;
                if lane == 1 {
                    bytes[w * 2]
                } else if lane == 3 {
                    bytes[w * 2 + 1]
                } else {
                    0
                }
            },
            _ => 0xFF,
        }
    }

    fn bram_write8(&mut self, off: u32, val: u8)
        requires
            old(self)@.wf(),
            off <= CART_BRAM_END - CART_BRAM_BASE,
        ensures
            final(self)@ == old(self)@.with((CART_BRAM_BASE + off) as u32, val),
            final(self)@.wf(),
    {
        match self {
            Cartridge::Bram { bytes, .. } => {
                if bytes.len() == 0 {
                    return ;
                }
                let words: u32 = (bytes.len() / 2) as u32;
                let w: usize = (off / 4 % words) as usize;
                proof {
                    word_within(off, words, bytes@.len());
                }
                let lane: u32 = off & 3;
                if lane == 1 {
                    bytes[w * 2] = val;
                } else if lane == 3 {
                    bytes[w * 2 + 1] = val;
                }
            },
            _ => {},
        }
    }

    /// Reads a byte.
    pub fn read8(&self, addr: u32) -> (r: u8)
        requires
            self@.wf(),
        ensures
            r == self@.at(addr),
    {
        if CART_ROM_BASE <= addr && addr <= CART_ROM_END {
            match self {
                Cartridge::Rom { bytes } => {
                    if bytes.len() > 0 {
                        bytes[(addr - CART_ROM_BASE) as usize % bytes.len()]
                    } else {
                        0xFF
                    }
                },
                _ => 0xFF,
            }
        } else if CART_DRAM0_BASE <= addr && addr <= CART_DRAM0_END {
            match self {
                Cartridge::Dram { bank0, .. } => bank0.read8(addr - CART_DRAM0_BASE),
                _ => 0xFF,
            }
        } else if CART_DRAM1_BASE <= addr && addr <= CART_DRAM1_END {
            match self {
                Cartridge::Dram { bank1, .. } => bank1.read8(addr - CART_DRAM1_BASE),
                _ => 0xFF,
            }
        } else if CART_BRAM_BASE <= addr && addr <= CART_BRAM_END {
            self.bram_read8(addr - CART_BRAM_BASE)
        } else if addr == CART_ID_ADDR {
            self.cart_id()
        } else {
            0xFF
        }
    }

    /// Reads a 16-bit word.
    pub fn read16(&self, addr: u32) -> (r: u16)
        requires
            self@.wf(),
        ensures
            r == self@.at16(addr),
    {
        join16(self.read8(addr), self.read8(addr.wrapping_add(1)))
    }

    /// Reads a 32-bit word.
    pub fn read32(&self, addr: u32) -> (r: u32)
        requires
            self@.wf(),
        ensures
            r == self@.at32(addr),
    {
        join32(
            self.read8(addr),
            self.read8(addr.wrapping_add(1)),
            self.read8(addr.wrapping_add(2)),
            self.read8(addr.wrapping_add(3)),
        )
    }

    /// Writes a byte.
    pub fn write8(&mut self, addr: u32, val: u8)
        requires
            old(self)@.wf(),
        ensures
            final(self)@ == old(self)@.with(addr, val),
            final(self)@.wf(),
    {
        if CART_DRAM0_BASE <= addr && addr <= CART_DRAM0_END {
            if let Cartridge::Dram { bank0, .. } = self {
                bank0.write8(addr - CART_DRAM0_BASE, val);
            }
        } else if CART_DRAM1_BASE <= addr && addr <= CART_DRAM1_END {
            if let Cartridge::Dram { bank1, .. } = self {
                bank1.write8(addr - CART_DRAM1_BASE, val);
            }
        } else if CART_BRAM_BASE <= addr && addr <= CART_BRAM_END {
            self.bram_write8(addr - CART_BRAM_BASE, val);
        }
    }

    /// Writes a 16-bit word.
    pub fn write16(&mut self, addr: u32, val: u16)
        requires
            old(self)@.wf(),
        ensures
            final(self)@ == old(self)@.with16(addr, val),
            final(self)@.wf(),
    {
        self.write8(addr, (val >> 8) as u8);
        self.write8(addr.wrapping_add(1), val as u8);
    }

    /// Writes a 32-bit word.
    pub fn write32(&mut self, addr: u32, val: u32)
        requires
            old(self)@.wf(),
        ensures
            final(self)@ == old(self)@.with32(addr, val),
            final(self)@.wf(),
    {
        self.write8(addr, (val >> 24) as u8);
        self.write8(addr.wrapping_add(1), (val >> 16) as u8);
        self.write8(addr.wrapping_add(2), (val >> 8) as u8);
        self.write8(addr.wrapping_add(3), val as u8);
    }
}

// ---- laws -------------------------------------------------------------------

/// A byte of extension DRAM, and a data byte of battery-backed RAM, is read back
/// where it was written.
pub proof fn cartridge_memory_is_read_back(c: Cart, addr: u32, v: u8)
    requires
        c.wf(),
        match c {
            Cart::Dram { .. } => CART_DRAM0_BASE <= addr <= CART_DRAM1_END,
            Cart::Bram { bytes, .. } => bytes.len() > 0 && CART_BRAM_BASE <= addr <= CART_BRAM_END
                && addr & 1 == 1,
            _ => false,
        },
    ensures
        c.with(addr, v).at(addr) == v,
        c.with(addr, v).wf(),
{
    let off = (addr - CART_BRAM_BASE) as u32;
    match c {
        Cart::Bram { bytes, .. } => {
            word_within(off, bram_words(bytes.len()), bytes.len());
            assert(addr & 1 == 1 && addr >= 0x0400_0000 && off == addr - 0x0400_0000 ==> off & 3
                == 1 || off & 3 == 3) by (bit_vector);
        },
        _ => {},
    }
}

/// No write changes what a ROM, an empty slot or the ID byte reads.
pub proof fn rom_and_id_cannot_be_written(c: Cart, addr: u32, v: u8, other: u32)
    requires
        c.wf(),
    ensures
        c.with(addr, v).id() == c.id(),
        c is Rom || c is Empty ==> c.with(addr, v).at(other) == c.at(other),
{
}

/// Half of the bytes of battery-backed RAM's window read 0 whatever is written.
pub proof fn unwired_lanes_read_zero(c: Cart, addr: u32)
    requires
        c is Bram,
        c->Bram_bytes.len() > 0,
        CART_BRAM_BASE <= addr <= CART_BRAM_END,
        addr & 1 == 0,
    ensures
        c.at(addr) == 0,
{
    let off = (addr - CART_BRAM_BASE) as u32;
    assert(addr & 1 == 0 && addr >= 0x0400_0000 && off == addr - 0x0400_0000 ==> off & 3 != 1
        && off & 3 != 3) by (bit_vector);
}

/// The memory of a cartridge is where it is expected: a ROM from the start of its window
/// on, two banks of DRAM behind it, and data byte `n` of battery-backed RAM in the odd
/// byte `2n + 1` of its own.
pub proof fn cartridge_memory_is_in_its_window(c: Cart, n: int)
    requires
        c.wf(),
        0 <= n,
    ensures
        c matches Cart::Rom { bytes } ==> (n < bytes.len() && n < 0x40_0000 ==> c.at(
            (0x0200_0000 + n) as u32,
        ) == bytes[n]),
        c matches Cart::Dram { bank0, bank1, .. } ==> (n < bank0.len() && n < 0x20_0000 ==> c.at(
            (0x0240_0000 + n) as u32,
        ) == bank0[n]) && (n < bank1.len() && n < 0x20_0000 ==> c.at((0x0260_0000 + n) as u32)
            == bank1[n]),
        c matches Cart::Bram { bytes, .. } ==> (n < bytes.len() && bytes.len() % 2 == 0 && n
            < 0x40_0000 && bytes.len() <= 0x1000_0000 ==> c.at((0x0400_0000 + 2 * n + 1) as u32)
            == bytes[n]),
{
    if let Cart::Rom { bytes } = c {
        if n < bytes.len() {
            lemma_small_mod(n as nat, bytes.len());
        }
    }
    if let Cart::Dram { bank0, bank1, .. } = c {
        if n < bank0.len() {
            lemma_small_mod(n as nat, bank0.len());
        }
        if n < bank1.len() {
            lemma_small_mod(n as nat, bank1.len());
        }
    }
    if let Cart::Bram { bytes, .. } = c {
        if n < bytes.len() && bytes.len() % 2 == 0 && n < 0x40_0000 && bytes.len() <= 0x1000_0000 {
            let off = (2 * n + 1) as u32;
            assert(off & 3 == off as int % 4) by {
                low_bits();
            }
            let w = bram_words(bytes.len()) as int;
            assert((off / 4) as int == n / 2);
            assert(w == bytes.len() / 2 && n / 2 < w);
            assert((n / 2) % w == n / 2) by {
                lemma_small_mod((n / 2) as nat, w as nat);
            }
        }
    }
}

/// Battery-backed RAM of twice the size has the next ID.
pub proof fn ids_go_by_the_size(size: int)
    requires
        size == 0x8_0000 || size == 0x10_0000 || size == 0x20_0000,
    ensures
        bram_id(2 * size) == bram_id(size) + 1,
        bram_id(0x8_0000) == 0x21,
{
}

} // verus!
