//! Physical and virtual addresses, page numbers, and the Sv39 paging mode:
//! frame-size constants, per-level index decomposition, page-table-entry
//! encoding, and the satp register layout. Machine words are `u64`.

use vstd::prelude::*;
use vstd::arithmetic::div_mod::{
    lemma_fundamental_div_mod, lemma_mod_breakdown, lemma_small_mod,
};

verus! {

/// Sv39: 4 KiB frames.
pub const FRAME_SIZE_BITS: u64 = 12;

/// Bytes per frame, `1 << FRAME_SIZE_BITS`.
pub const PAGE_SIZE: u64 = 4096;

/// Sv39 walks three levels of tables.
pub const PAGE_LEVELS: usize = 3;

/// Each level consumes nine bits of the virtual page number.
pub const INDEX_BITS: u64 = 9;

/// Entries per table, `1 << INDEX_BITS`.
pub const TABLE_ENTRIES: usize = 512;

/// Pages covered by one leaf-level table, `TABLE_ENTRIES * TABLE_ENTRIES`.
pub const TABLE_SPAN_MID: u64 = 262144;

/// Virtual page numbers are decoded from their low 27 bits (3 levels * 9).
pub const VPN_LIMIT: u64 = 0x800_0000;

/// Physical page numbers carry 44 bits.
pub const PPN_LIMIT: u64 = 0x1000_0000_000;

/// Page-table-entry flag bits, low byte of the entry.
pub const FLAG_V: u8 = 0x01;

pub const FLAG_R: u8 = 0x02;

pub const FLAG_W: u8 = 0x04;

pub const FLAG_X: u8 = 0x08;

pub const FLAG_U: u8 = 0x10;

pub const FLAG_G: u8 = 0x20;

pub const FLAG_A: u8 = 0x40;

pub const FLAG_D: u8 = 0x80;

/// Mask of the three access bits; a leaf entry must set at least one.
pub const FLAG_RWX: u8 = 0x0e;

/// A physical address: one machine word, constructed explicitly.
#[derive(Clone, Copy, PartialEq, Eq, Structural, Debug)]
pub struct PhysAddr(pub u64);

/// A virtual address: one machine word, constructed explicitly.
#[derive(Clone, Copy, PartialEq, Eq, Structural, Debug)]
pub struct VirtAddr(pub u64);

/// A physical page number: a physical address with the frame bits dropped.
#[derive(Clone, Copy, PartialEq, Eq, Structural, Debug)]
pub struct PhysPageNum(pub u64);

/// A virtual page number: a virtual address with the frame bits dropped.
#[derive(Clone, Copy, PartialEq, Eq, Structural, Debug)]
pub struct VirtPageNum(pub u64);

/// Tag for the Sv39 paging mode: 39-bit virtual addresses, three levels,
/// 4 KiB pages.
#[derive(Clone, Copy, Debug)]
pub struct Sv39;

/// Sv39 page-table-entry flags, a bitset over the `FLAG_*` bits.
#[derive(Clone, Copy, PartialEq, Eq, Structural, Debug)]
pub struct Sv39Flags {
    pub bits: u8,
}

impl Sv39Flags {
    /// True when any bit of `mask` is set.
    pub open spec fn has(self, mask: u8) -> bool {
        self.bits & mask != 0
    }

    pub fn new(bits: u8) -> (r: Self)
        ensures
            r.bits == bits,
    {
        Sv39Flags { bits }
    }

    /// The same flags with the valid bit set, as written into a leaf entry.
    pub fn mark_valid(self) -> (r: Self)
        ensures
            r.bits == self.bits | FLAG_V,
    {
        Sv39Flags { bits: self.bits | FLAG_V }
    }

    /// Whether any bit of `mask` is set.
    pub fn contains_any(self, mask: u8) -> (r: bool)
        ensures
            r == self.has(mask),
    {
        self.bits & mask != 0
    }
}

impl PhysAddr {
    /// Truncates the address to its page number.
    pub fn page_number(self) -> (r: PhysPageNum)
        ensures
            r.0 == self.0 / PAGE_SIZE,
    {
        PhysPageNum(self.0 / PAGE_SIZE)
    }
}

impl VirtAddr {
    /// Truncates the address to its page number.
    pub fn page_number(self) -> (r: VirtPageNum)
        ensures
            r.0 == self.0 / PAGE_SIZE,
    {
        VirtPageNum(self.0 / PAGE_SIZE)
    }
}

impl PhysPageNum {
    /// First address of the frame, the page number shifted up by the frame
    /// bits.
    pub fn addr_begin(self) -> (r: PhysAddr)
        requires
            self.0 * PAGE_SIZE <= u64::MAX,
        ensures
            r.0 == self.0 * PAGE_SIZE,
    {
        PhysAddr(self.0 * PAGE_SIZE)
    }
}

impl VirtPageNum {
    /// First address of the page, the page number shifted up by the frame
    /// bits.
    pub fn addr_begin(self) -> (r: VirtAddr)
        requires
            self.0 * PAGE_SIZE <= u64::MAX,
        ensures
            r.0 == self.0 * PAGE_SIZE,
    {
        VirtAddr(self.0 * PAGE_SIZE)
    }
}

/// The table key of a virtual page number: its low 27 bits, the part the
/// three-level walk decodes. Canonical high-half pages (the trampoline) and
/// low-half pages meet the tables through this key.
pub open spec fn vpn_key(vpn: nat) -> nat {
    vpn % (VPN_LIMIT as nat)
}

/// Root-level index of a table key.
pub open spec fn idx2_of(key: nat) -> nat {
    key / (TABLE_SPAN_MID as nat)
}

/// Middle-level index of a table key.
pub open spec fn idx1_of(key: nat) -> nat {
    (key / (TABLE_ENTRIES as nat)) % (TABLE_ENTRIES as nat)
}

/// Leaf-level index of a table key.
pub open spec fn idx0_of(key: nat) -> nat {
    key % (TABLE_ENTRIES as nat)
}

/// A table key splits into its three level indices and is rebuilt from them;
/// in particular two distinct keys differ in at least one index.
pub proof fn lemma_key_decompose(key: nat)
    requires
        key < VPN_LIMIT,
    ensures
        idx2_of(key) < TABLE_ENTRIES,
        idx1_of(key) < TABLE_ENTRIES,
        idx0_of(key) < TABLE_ENTRIES,
        key == idx2_of(key) * TABLE_SPAN_MID + idx1_of(key) * TABLE_ENTRIES + idx0_of(key),
{
    lemma_fundamental_div_mod(key as int, TABLE_SPAN_MID as int);
    lemma_mod_breakdown(key as int, TABLE_ENTRIES as int, TABLE_ENTRIES as int);
    assert(key % (TABLE_SPAN_MID as nat) == key % ((TABLE_ENTRIES * TABLE_ENTRIES) as nat));
    assert(key / (TABLE_SPAN_MID as nat) < 512) by {
        assert(key < 512 * 262144);
    };
}

/// Exec computation of the table key.
pub fn page_key(vpn: VirtPageNum) -> (r: u64)
    ensures
        r == vpn_key(vpn.0 as nat),
        r < VPN_LIMIT,
{
    vpn.0 % VPN_LIMIT
}

/// Index of a virtual page number at one level of the walk, level 0 being the
/// leaf level: nine bits starting at `level * INDEX_BITS`.
pub fn vpn_index(vpn: VirtPageNum, level: usize) -> (r: usize)
    requires
        level < PAGE_LEVELS,
    ensures
        level == 0 ==> r == idx0_of(vpn_key(vpn.0 as nat)),
        level == 1 ==> r == idx1_of(vpn_key(vpn.0 as nat)),
        level == 2 ==> r == idx2_of(vpn_key(vpn.0 as nat)),
        r < TABLE_ENTRIES,
{
    let key = vpn.0 % VPN_LIMIT;
    proof {
        lemma_key_decompose(key as nat);
    }
    if level == 0 {
        (key % (TABLE_ENTRIES as u64)) as usize
    } else if level == 1 {
        ((key / (TABLE_ENTRIES as u64)) % (TABLE_ENTRIES as u64)) as usize
    } else {
        (key / TABLE_SPAN_MID) as usize
    }
}

/// Encodes a leaf or pointer entry: the page number in bits 10 and up, the
/// flag byte at the bottom, the two reserved bits in between clear.
pub fn pte_encode(ppn: PhysPageNum, flags: Sv39Flags) -> (r: u64)
    requires
        ppn.0 < PPN_LIMIT,
    ensures
        r == ppn.0 * 1024 + flags.bits,
{
    proof {
        let p = ppn.0;
        let b = flags.bits;
        assert((p << 10u64) | (b as u64) == p * 1024 + b && p * 1024 + b <= u64::MAX)
            by (bit_vector)
            requires
                p < 0x1000_0000_000u64,
        ;
    }
    (ppn.0 << 10u64) | (flags.bits as u64)
}

/// Decodes an entry into its page number (44 bits) and flag byte.
pub fn pte_decode(pte: u64) -> (r: (PhysPageNum, Sv39Flags))
    ensures
        r.0.0 == (pte / 1024) % PPN_LIMIT,
        r.1.bits == pte % 256,
{
    proof {
        assert((pte & 0xff) == pte % 256u64 && pte & 0xff <= 0xffu64) by (bit_vector);
    }
    (PhysPageNum((pte / 1024) % PPN_LIMIT), Sv39Flags { bits: (pte & 0xff) as u8 })
}

/// Encoding then decoding an entry gives back the page number and flags.
pub proof fn lemma_pte_roundtrip(ppn: nat, bits: u8)
    requires
        ppn < PPN_LIMIT,
    ensures
        ((ppn * 1024 + bits) / 1024) % (PPN_LIMIT as int) == ppn,
        (ppn * 1024 + bits) % 256 == bits,
{
    let pte = ppn * 1024 + bits;
    lemma_fundamental_div_mod(pte as int, 1024);
    assert(pte / 1024 == ppn) by (nonlinear_arith)
        requires
            pte == ppn * 1024 + bits,
            bits < 1024,
    ;
    lemma_small_mod(ppn, PPN_LIMIT as nat);
    assert(pte % 256 == bits) by (nonlinear_arith)
        requires
            pte == ppn * 1024 + bits,
            bits < 256,
    ;
}

/// The satp register value for Sv39: mode 8 in the top nibble, the address
/// space identifier in bits 44..60, the root table's page number below.
/// Writing the register and issuing the fence is the machine's part.
pub fn get_satp_sv39(asid: u64, root_ppn: PhysPageNum) -> (r: u64)
    requires
        asid < 0x10000,
        root_ppn.0 < PPN_LIMIT,
    ensures
        r == 8 * 0x1000_0000_0000_0000u64 + asid * 0x1000_0000_0000 + root_ppn.0,
{
    proof {
        let a = asid;
        let p = root_ppn.0;
        assert((8u64 << 60u64) | (a << 44u64) | p == 8 * 0x1000_0000_0000_0000u64 + a
            * 0x1000_0000_0000 + p && 8 * 0x1000_0000_0000_0000u64 + a * 0x1000_0000_0000 + p
            <= u64::MAX) by (bit_vector)
            requires
                a < 0x10000u64,
                p < 0x1000_0000_000u64,
        ;
    }
    (8u64 << 60u64) | (asid << 44u64) | root_ppn.0
}

} // verus!
