//! Memory regions: BIOS ROM, RAM, battery-backed RAM.
//!
//! Each region is addressed by a local offset, which is folded modulo its size,
//! so that it mirrors. Words are big-endian throughout.

use vstd::prelude::*;
use vstd::arithmetic::div_mod::{
    lemma_add_mod_noop_right, lemma_fundamental_div_mod, lemma_mod_bound,
    lemma_mod_multiples_vanish, lemma_small_mod,
};

verus! {

/// A 16-bit word of two bytes, high byte first.
pub open spec fn be16(b0: u8, b1: u8) -> u16 {
    ((b0 as u16) << 8) | b1 as u16
}

/// A 32-bit word of four bytes, high byte first.
pub open spec fn be32(b0: u8, b1: u8, b2: u8, b3: u8) -> u32 {
    ((b0 as u32) << 24) | ((b1 as u32) << 16) | ((b2 as u32) << 8) | b3 as u32
}

/// Byte `i` of a 16-bit word, the highest first.
pub open spec fn byte16(v: u16, i: int) -> u8 {
    if i == 0 {
        (v >> 8) as u8
    } else {
        v as u8
    }
}

/// Byte `i` of a 32-bit word, the highest first.
pub open spec fn byte32(v: u32, i: int) -> u8 {
    if i == 0 {
        (v >> 24) as u8
    } else if i == 1 {
        (v >> 16) as u8
    } else if i == 2 {
        (v >> 8) as u8
    } else {
        v as u8
    }
}

/// Joins two bytes to a word.
pub fn join16(b0: u8, b1: u8) -> (r: u16)
    ensures
        r == be16(b0, b1),
{
    ((b0 as u16) << 8) | b1 as u16
}

/// Joins four bytes to a word.
pub fn join32(b0: u8, b1: u8, b2: u8, b3: u8) -> (r: u32)
    ensures
        r == be32(b0, b1, b2, b3),
{
    ((b0 as u32) << 24) | ((b1 as u32) << 16) | ((b2 as u32) << 8) | b3 as u32
}

/// Taking a 16-bit word apart and joining its bytes gives it back.
pub proof fn join16_split(v: u16)
    ensures
        be16(byte16(v, 0), byte16(v, 1)) == v,
{
    assert((((v >> 8) as u8) as u16) << 8 | (v as u8) as u16 == v) by (bit_vector);
}

/// Taking a 32-bit word apart and joining its bytes gives it back.
pub proof fn join32_split(v: u32)
    ensures
        be32(byte32(v, 0), byte32(v, 1), byte32(v, 2), byte32(v, 3)) == v,
{
    assert((((v >> 24) as u8) as u32) << 24 | (((v >> 16) as u8) as u32) << 16 | (((v >> 8)
        as u8) as u32) << 8 | (v as u8) as u32 == v) by (bit_vector);
}

/// The byte that a folded offset addresses.
pub open spec fn folded(b: Seq<u8>, offset: u32) -> u8 {
    b[offset as int % b.len() as int]
}

/// The 16-bit word at a folded offset.
pub open spec fn folded16(b: Seq<u8>, offset: u32) -> u16 {
    be16(folded(b, offset), folded(b, offset.wrapping_add(1)))
}

/// The 32-bit word at a folded offset.
pub open spec fn folded32(b: Seq<u8>, offset: u32) -> u32 {
    be32(
        folded(b, offset),
        folded(b, offset.wrapping_add(1)),
        folded(b, offset.wrapping_add(2)),
        folded(b, offset.wrapping_add(3)),
    )
}

/// Memory with `v` put at byte `k` behind a folded offset.
pub open spec fn put(b: Seq<u8>, offset: u32, k: int, v: u8) -> Seq<u8> {
    b.update((offset as int % b.len() as int + k) % b.len() as int, v)
}

/// Memory with a 16-bit word put at a folded offset.
pub open spec fn put16(b: Seq<u8>, offset: u32, v: u16) -> Seq<u8> {
    put(put(b, offset, 0, byte16(v, 0)), offset, 1, byte16(v, 1))
}

/// Memory with a 32-bit word put at a folded offset.
pub open spec fn put32(b: Seq<u8>, offset: u32, v: u32) -> Seq<u8> {
    put(
        put(put(put(b, offset, 0, byte32(v, 0)), offset, 1, byte32(v, 1)), offset, 2, byte32(v, 2)),
        offset,
        3,
        byte32(v, 3),
    )
}

// ---- BIOS ROM -----------------------------------------------------------------

/// Read-only BIOS ROM. The image mirrors to fill its window.
#[derive(Debug)]
pub struct BiosRom {
    rom: Vec<u8>,
}

impl View for BiosRom {
    type V = Seq<u8>;

    closed spec fn view(&self) -> Seq<u8> {
        self.rom@
    }
}

impl Clone for BiosRom {
    fn clone(&self) -> (r: BiosRom)
        ensures
            r@ == self@,
    {
        proof {
            use_type_invariant(self);
        }
        let rom = self.rom.clone();
        assert(rom@ =~= self.rom@);
        BiosRom { rom }
    }
}

impl BiosRom {
    #[verifier::type_invariant]
    closed spec fn inv(&self) -> bool {
        self@.len() > 0
    }

    /// A ROM with the given image.
    pub fn new(image: Vec<u8>) -> (r: BiosRom)
        requires
            image@.len() > 0,
        ensures
            r@ == image@,
    {
        BiosRom { rom: image }
    }

    /// Bytes of the image.
    pub fn len(&self) -> (r: usize)
        ensures
            r == self@.len(),
            r > 0,
    {
        proof {
            use_type_invariant(self);
        }
        self.rom.len()
    }

    /// Whether the image is empty; it never is.
    pub fn is_empty(&self) -> (r: bool)
        ensures
            r == (self@.len() == 0),
            !r,
    {
        proof {
            use_type_invariant(self);
        }
        self.rom.len() == 0
    }

    /// The bytes of the image.
    pub fn image(&self) -> (r: &[u8])
        ensures
            r@ == self@,
    {
        self.rom.as_slice()
    }

    /// Reads a byte.
    pub fn read8(&self, offset: u32) -> (r: u8)
        ensures
            r == folded(self@, offset),
    {
        proof {
            use_type_invariant(self);
        }
        self.rom[offset as usize % self.rom.len()]
    }

    /// Reads a 16-bit word.
    pub fn read16(&self, offset: u32) -> (r: u16)
        ensures
            r == folded16(self@, offset),
    {
        join16(self.read8(offset), self.read8(offset.wrapping_add(1)))
    }

    /// Reads a 32-bit word.
    pub fn read32(&self, offset: u32) -> (r: u32)
        ensures
            r == folded32(self@, offset),
    {
        join32(
            self.read8(offset),
            self.read8(offset.wrapping_add(1)),
            self.read8(offset.wrapping_add(2)),
            self.read8(offset.wrapping_add(3)),
        )
    }

    /// A write to ROM: nothing happens.
    pub fn write_ignored(&self) {
    }
}

// ---- RAM ------------------------------------------------------------------------

/// Byte-addressable RAM. Offsets fold modulo its size.
#[derive(Debug)]
pub struct Ram {
    bytes: Vec<u8>,
}

impl View for Ram {
    type V = Seq<u8>;

    closed spec fn view(&self) -> Seq<u8> {
        self.bytes@
    }
}

impl Clone for Ram {
    fn clone(&self) -> (r: Ram)
        ensures
            r@ == self@,
    {
        let bytes = self.bytes.clone();
        assert(bytes@ =~= self.bytes@);
        Ram { bytes }
    }
}

impl Ram {
    /// RAM of `size` bytes, all zero.
    pub fn new(size: usize) -> (r: Ram)
        ensures
            r@ == Seq::new(size as nat, |i: int| 0u8),
    {
        let bytes = vec![0u8; size];
        assert(bytes@ =~= Seq::new(size as nat, |i: int| 0u8));
        Ram { bytes }
    }

    /// Size in bytes.
    pub fn len(&self) -> (r: usize)
        ensures
            r == self@.len(),
    {
        self.bytes.len()
    }

    /// Whether the size is 0.
    pub fn is_empty(&self) -> (r: bool)
        ensures
            r == (self@.len() == 0),
    {
        self.bytes.len() == 0
    }

    /// The bytes.
    pub fn as_slice(&self) -> (r: &[u8])
        ensures
            r@ == self@,
    {
        self.bytes.as_slice()
    }

    /// The bytes, for changing.
    pub fn as_mut_slice(&mut self) -> (r: &mut [u8])
        ensures
            r@ == old(self)@,
            final(self)@ == final(r)@,
    {
        self.bytes.as_mut_slice()
    }

    /// Index of the byte that an offset addresses.
    pub fn idx(&self, offset: u32) -> (r: usize)
        requires
            self@.len() > 0,
        ensures
            r == offset as int % self@.len() as int,
            r < self@.len(),
    {
        offset as usize % self.bytes.len()
    }

    /// Reads a byte.
    pub fn read8(&self, offset: u32) -> (r: u8)
        requires
            self@.len() > 0,
        ensures
            r == folded(self@, offset),
    {
        self.bytes[self.idx(offset)]
    }

    /// Reads a 16-bit word.
    pub fn read16(&self, offset: u32) -> (r: u16)
        requires
            self@.len() > 0,
        ensures
            r == folded16(self@, offset),
    {
        join16(self.read8(offset), self.read8(offset.wrapping_add(1)))
    }

    /// Reads a 32-bit word.
    pub fn read32(&self, offset: u32) -> (r: u32)
        requires
            self@.len() > 0,
        ensures
            r == folded32(self@, offset),
    {
        join32(
            self.read8(offset),
            self.read8(offset.wrapping_add(1)),
            self.read8(offset.wrapping_add(2)),
            self.read8(offset.wrapping_add(3)),
        )
    }

    /// Puts `v` at byte `k` behind an offset.
    fn set(&mut self, offset: u32, k: u8, v: u8)
        requires
            old(self)@.len() > 0,
        ensures
            final(self)@ == put(old(self)@, offset, k as int, v),
    {
        let n: usize = self.bytes.len();
        let i: usize = self.idx(offset);
        let j: usize = ((i as u128 + k as u128) % n as u128) as usize;
        self.bytes[j] = v;
    }

    /// Writes a byte.
    pub fn write8(&mut self, offset: u32, val: u8)
        requires
            old(self)@.len() > 0,
        ensures
            final(self)@ == old(self)@.update(offset as int % old(self)@.len() as int, val),
    {
        let i: usize = self.idx(offset);
        self.bytes[i] = val;
    }

    /// Writes a 16-bit word.
    pub fn write16(&mut self, offset: u32, val: u16)
        requires
            old(self)@.len() > 0,
        ensures
            final(self)@ == put16(old(self)@, offset, val),
    {
        self.set(offset, 0, (val >> 8) as u8);
        self.set(offset, 1, val as u8);
    }

    /// Writes a 32-bit word.
    pub fn write32(&mut self, offset: u32, val: u32)
        requires
            old(self)@.len() > 0,
        ensures
            final(self)@ == put32(old(self)@, offset, val),
    {
        self.set(offset, 0, (val >> 24) as u8);
        self.set(offset, 1, (val >> 16) as u8);
        self.set(offset, 2, (val >> 8) as u8);
        self.set(offset, 3, val as u8);
    }
}

// ---- battery-backed RAM -------------------------------------------------------------

/// Bytes that the internal backup RAM holds. Its window is twice as large.
pub const INTERNAL_BACKUP_BYTES: usize = 32768;

/// The format signature, `BackUpRam Format`.
pub const FORMAT_TAG: [u8; 16] = [
    0x42,
    0x61,
    0x63,
    0x6B,
    0x55,
    0x70,
    0x52,
    0x61,
    0x6D,
    0x20,
    0x46,
    0x6F,
    0x72,
    0x6D,
    0x61,
    0x74,
];

/// Backup memory of `size` bytes as it comes formatted: the signature `times`
/// times, as far as it reaches, then zeros.
pub open spec fn formatted(size: nat, times: int) -> Seq<u8> {
    Seq::new(
        size,
        |i: int|
            if i < 16 * times {
                FORMAT_TAG@[i % 16]
            } else {
                0u8
            },
    )
}

/// Makes formatted backup memory.
pub fn make_formatted(size: usize, times: usize) -> (r: Vec<u8>)
    requires
        times <= 64,
    ensures
        r@ == formatted(size as nat, times as int),
{
    let mut v: Vec<u8> = Vec::new();
    let mut i: usize = 0;
    while i < size
        invariant
            i <= size,
            times <= 64,
            v@ == formatted(size as nat, times as int).take(i as int),
        decreases size - i,
    {
        let b: u8 = if i < 16 * times {
            FORMAT_TAG[i % 16]
        } else {
            0
        };
        v.push(b);
        i += 1;
        assert(v@ =~= formatted(size as nat, times as int).take(i as int));
    }
    assert(v@ =~= formatted(size as nat, times as int));
    v
}

/// The byte at an offset of odd-packed memory: data byte `n` is at offset
/// `2n + 1`, an even offset reads 0.
pub open spec fn packed(d: Seq<u8>, offset: u32) -> u8 {
    if offset & 1 == 0 {
        0
    } else {
        d[(offset >> 1) as int % d.len() as int]
    }
}

/// Odd-packed memory with a byte written; a write to an even offset is lost.
pub open spec fn pack(d: Seq<u8>, offset: u32, v: u8) -> Seq<u8> {
    if offset & 1 == 1 {
        d.update((offset >> 1) as int % d.len() as int, v)
    } else {
        d
    }
}

/// The internal battery-backed RAM: 32 KiB, each byte in the low half of a 16-bit
/// word whose high half reads 0.
#[derive(Debug)]
pub struct BackupRam {
    data: Vec<u8>,
}

impl View for BackupRam {
    type V = Seq<u8>;

    closed spec fn view(&self) -> Seq<u8> {
        self.data@
    }
}

impl Clone for BackupRam {
    fn clone(&self) -> (r: BackupRam)
        ensures
            r@ == self@,
    {
        proof {
            use_type_invariant(self);
        }
        let data = self.data.clone();
        assert(data@ =~= self.data@);
        BackupRam { data }
    }
}

impl Default for BackupRam {
    fn default() -> (r: BackupRam)
        ensures
            r@ == formatted(INTERNAL_BACKUP_BYTES as nat, 4),
    {
        BackupRam::new()
    }
}

impl BackupRam {
    #[verifier::type_invariant]
    closed spec fn inv(&self) -> bool {
        self@.len() == INTERNAL_BACKUP_BYTES
    }

    /// Formatted backup RAM.
    pub fn new() -> (r: BackupRam)
        ensures
            r@ == formatted(INTERNAL_BACKUP_BYTES as nat, 4),
    {
        BackupRam { data: make_formatted(INTERNAL_BACKUP_BYTES, 4) }
    }

    /// The data bytes.
    pub fn bytes(&self) -> (r: &[u8])
        ensures
            r@ == self@,
            r@.len() == INTERNAL_BACKUP_BYTES,
    {
        proof {
            use_type_invariant(self);
        }
        self.data.as_slice()
    }

    /// Replaces the first bytes by those of `src`, as far as they fit.
    pub fn load(&mut self, src: &[u8])
        ensures
            final(self)@ == Seq::new(
                INTERNAL_BACKUP_BYTES as nat,
                |i: int|
                    if i < src@.len() {
                        src@[i]
                    } else {
                        old(self)@[i]
                    },
            ),
    {
        proof {
            use_type_invariant(&*self);
        }
        let mut data: Vec<u8> = Vec::new();
        let mut i: usize = 0;
        while i < INTERNAL_BACKUP_BYTES
            invariant
                i <= INTERNAL_BACKUP_BYTES,
                self@ == old(self)@,
                self.data@.len() == INTERNAL_BACKUP_BYTES,
                data@.len() == i,
                forall|k: int|
                    0 <= k < i ==> #[trigger] data@[k] == if k < src@.len() {
                        src@[k]
                    } else {
                        old(self)@[k]
                    },
            decreases INTERNAL_BACKUP_BYTES - i,
        {
            if i < src.len() {
                data.push(src[i]);
            } else {
                data.push(self.data[i]);
            }
            i += 1;
        }
        self.data = data;
    }

    /// Reads a byte.
    pub fn read8(&self, offset: u32) -> (r: u8)
        ensures
            r == packed(self@, offset),
    {
        proof {
            use_type_invariant(self);
        }
        if offset & 1 == 0 {
            0
        } else {
            self.data[(offset >> 1) as usize % self.data.len()]
        }
    }

    /// Reads a 16-bit word.
    pub fn read16(&self, offset: u32) -> (r: u16)
        ensures
            r == be16(packed(self@, offset), packed(self@, offset.wrapping_add(1))),
    {
        join16(self.read8(offset), self.read8(offset.wrapping_add(1)))
    }

    /// Reads a 32-bit word.
    pub fn read32(&self, offset: u32) -> (r: u32)
        ensures
            r == be32(
                packed(self@, offset),
                packed(self@, offset.wrapping_add(1)),
                packed(self@, offset.wrapping_add(2)),
                packed(self@, offset.wrapping_add(3)),
            ),
    {
        join32(
            self.read8(offset),
            self.read8(offset.wrapping_add(1)),
            self.read8(offset.wrapping_add(2)),
            self.read8(offset.wrapping_add(3)),
        )
    }

    /// Writes a byte.
    pub fn write8(&mut self, offset: u32, val: u8)
        ensures
            final(self)@ == pack(old(self)@, offset, val),
    {
        proof {
            use_type_invariant(&*self);
        }
        if offset & 1 == 1 {
            let i: usize = (offset >> 1) as usize % self.data.len();
            self.data[i] = val;
        }
    }

    /// Writes a 16-bit word.
    pub fn write16(&mut self, offset: u32, val: u16)
        ensures
            final(self)@ == pack(
                pack(old(self)@, offset, byte16(val, 0)),
                offset.wrapping_add(1),
                byte16(val, 1),
            ),
    {
        self.write8(offset, (val >> 8) as u8);
        self.write8(offset.wrapping_add(1), val as u8);
    }

    /// Writes a 32-bit word.
    pub fn write32(&mut self, offset: u32, val: u32)
        ensures
            final(self)@ == pack(
                pack(
                    pack(
                        pack(old(self)@, offset, byte32(val, 0)),
                        offset.wrapping_add(1),
                        byte32(val, 1),
                    ),
                    offset.wrapping_add(2),
                    byte32(val, 2),
                ),
                offset.wrapping_add(3),
                byte32(val, 3),
            ),
    {
        self.write8(offset, (val >> 24) as u8);
        self.write8(offset.wrapping_add(1), (val >> 16) as u8);
        self.write8(offset.wrapping_add(2), (val >> 8) as u8);
        self.write8(offset.wrapping_add(3), val as u8);
    }
}

// ---- registers that are not there ------------------------------------------------------

/// A bank of registers that are not there: reads give 0, writes are lost.
#[derive(Clone, Debug)]
pub struct StubRegisterBank {
    name: &'static str,
}

impl StubRegisterBank {
    pub closed spec fn spec_name(self) -> Seq<char> {
        self.name@
    }

    /// A bank with a name.
    pub fn new(name: &'static str) -> (r: StubRegisterBank)
        ensures
            r.spec_name() == name@,
    {
        StubRegisterBank { name }
    }

    /// The bank's name.
    pub fn name(&self) -> (r: &'static str)
        ensures
            r@ == self.spec_name(),
    {
        self.name
    }

    pub fn read8(&self, _offset: u32) -> (r: u8)
        ensures
            r == 0,
    {
        0
    }

    pub fn read16(&self, _offset: u32) -> (r: u16)
        ensures
            r == 0,
    {
        0
    }

    pub fn read32(&self, _offset: u32) -> (r: u32)
        ensures
            r == 0,
    {
        0
    }

    pub fn write8(&mut self, _offset: u32, _val: u8)
        ensures
            *final(self) == *old(self),
    {
    }

    pub fn write16(&mut self, _offset: u32, _val: u16)
        ensures
            *final(self) == *old(self),
    {
    }

    pub fn write32(&mut self, _offset: u32, _val: u32)
        ensures
            *final(self) == *old(self),
    {
    }
}

// ---- laws -----------------------------------------------------------------------------

/// Offsets a whole number of sizes apart address one byte.
pub proof fn memory_mirrors(b: Seq<u8>, offset: u32, k: int)
    requires
        b.len() > 0,
        0 <= k,
        offset + k * b.len() <= u32::MAX,
    ensures
        folded(b, (offset + k * b.len()) as u32) == folded(b, offset),
{
    let (o, n) = (offset as int, b.len() as int);
    lemma_mod_multiples_vanish(k, o, n);
    assert(n * k == k * n) by (nonlinear_arith);
    assert(0 <= k * n) by (nonlinear_arith)
        requires
            0 <= k,
            n > 0,
    ;
}

/// Index of byte `k` behind an offset, counted from the offset or from where it
/// folds to.
proof fn fold_ahead(offset: u32, k: u32, n: int)
    requires
        n > 0,
        offset + k <= u32::MAX || 0x1_0000_0000int % n == 0,
        k < 4,
    ensures
        offset.wrapping_add(k) as int % n == (offset as int % n + k) % n,
{
    let (o, j) = (offset as int, k as int);
    let q = 0x1_0000_0000int / n;
    lemma_add_mod_noop_right(j, o, n);
    if o + j > u32::MAX {
        lemma_fundamental_div_mod(0x1_0000_0000, n);
        lemma_mod_multiples_vanish(-q, o + j, n);
        assert(n * (-q) == -(n * q)) by (nonlinear_arith);
    }
}

/// Four bytes in a row of memory that has at least four lie apart.
proof fn fold_apart(o: int, i: int, j: int, n: int)
    requires
        n > 0,
        0 <= i < j < n,
        0 <= o,
    ensures
        (o % n + i) % n != (o % n + j) % n,
{
    let a = o % n;
    lemma_mod_bound(o, n);
    if a + j < n {
        lemma_small_mod((a + i) as nat, n as nat);
        lemma_small_mod((a + j) as nat, n as nat);
    } else {
        lemma_mod_multiples_vanish(1, a + j - n, n);
        lemma_small_mod((a + j - n) as nat, n as nat);
        if a + i < n {
            lemma_small_mod((a + i) as nat, n as nat);
        } else {
            lemma_mod_multiples_vanish(1, a + i - n, n);
            lemma_small_mod((a + i - n) as nat, n as nat);
        }
    }
}

/// A 16-bit word is read back where it was written, in memory of at least two
/// bytes, where the word does not straddle the end of the address space (or the
/// size divides it).
pub proof fn word_is_read_back(b: Seq<u8>, offset: u32, v: u16)
    requires
        b.len() >= 2,
        offset < u32::MAX || 0x1_0000_0000int % (b.len() as int) == 0,
    ensures
        folded16(put16(b, offset, v), offset) == v,
{
    let n = b.len() as int;
    fold_ahead(offset, 0, n);
    fold_ahead(offset, 1, n);
    fold_apart(offset as int, 0, 1, n);
    join16_split(v);
}

/// A 32-bit word is read back where it was written, in memory of at least four
/// bytes, where the word does not straddle the end of the address space (or the
/// size divides it).
pub proof fn long_is_read_back(b: Seq<u8>, offset: u32, v: u32)
    requires
        b.len() >= 4,
        offset <= u32::MAX - 3 || 0x1_0000_0000int % (b.len() as int) == 0,
    ensures
        folded32(put32(b, offset, v), offset) == v,
{
    let n = b.len() as int;
    let o = offset as int;
    fold_ahead(offset, 0, n);
    fold_ahead(offset, 1, n);
    fold_ahead(offset, 2, n);
    fold_ahead(offset, 3, n);
    fold_apart(o, 0, 1, n);
    fold_apart(o, 0, 2, n);
    fold_apart(o, 0, 3, n);
    fold_apart(o, 1, 2, n);
    fold_apart(o, 1, 3, n);
    fold_apart(o, 2, 3, n);
    join32_split(v);
}

/// Battery-backed memory gives back at an odd offset what was written there; its
/// even offsets always read 0.
pub proof fn packed_byte_is_read_back(d: Seq<u8>, offset: u32, v: u8)
    requires
        d.len() > 0,
    ensures
        offset & 1 == 1 ==> packed(pack(d, offset, v), offset) == v,
        offset & 1 == 0 ==> pack(d, offset, v) == d && packed(d, offset) == 0,
{
}

} // verus!
