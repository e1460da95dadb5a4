//! Paged address spaces: a root table, the intermediate tables it owns, and
//! the leaf mappings, with `allocate_map` to create mappings and `translate`
//! to walk them.
//!
//! Each table occupies one frame drawn from the shared frame allocator; the
//! space records every frame it owns and returns them all in `release`, which
//! plays the part of dropping the space.

use vstd::prelude::*;
use crate::addr::{
    idx0_of, idx1_of, idx2_of, lemma_key_decompose, vpn_key, PhysPageNum, Sv39, Sv39Flags,
    VirtPageNum, FLAG_RWX, FLAG_V, PPN_LIMIT, TABLE_ENTRIES, TABLE_SPAN_MID, VPN_LIMIT,
};
use crate::frame::{frame_state_eq, StackFrameAllocator};

verus! {

/// Errors of the paging subsystem.
#[derive(Clone, Copy, PartialEq, Eq, Structural, Debug)]
pub enum SpaceError {
    /// The frame allocator is exhausted.
    OutOfFrames,
    /// A leaf entry for the page is already valid.
    AlreadyMapped,
    /// A virtual range is unmapped or lacks the required access.
    BadAddress,
}

/// A valid leaf mapping: target frame and flags (valid bit included).
#[derive(Clone, Copy, PartialEq, Eq, Structural, Debug)]
pub struct LeafEntry {
    pub ppn: u64,
    pub flags: Sv39Flags,
}

/// A leaf-level table: 512 slots of leaf entries.
pub struct PageTableLeaf {
    table_ppn: u64,
    slots: Vec<Option<LeafEntry>>,
}

/// A middle-level table: 512 slots pointing at leaf tables.
pub struct PageTableMid {
    table_ppn: u64,
    slots: Vec<Option<PageTableLeaf>>,
}

impl PageTableLeaf {
    pub closed spec fn wf(self) -> bool {
        &&& self.slots@.len() == TABLE_ENTRIES
        &&& forall|i: int|
            0 <= i < self.slots@.len() && self.slots@[i] is Some ==> (#[trigger] self.slots@[i])
                .unwrap().ppn < PPN_LIMIT
    }
}

impl PageTableMid {
    pub closed spec fn wf(self) -> bool {
        &&& self.slots@.len() == TABLE_ENTRIES
        &&& forall|i: int|
            0 <= i < self.slots@.len() && self.slots@[i] is Some ==> (#[trigger] self.slots@[i])
                .unwrap().wf()
    }
}

/// An address space: the root table's frame, the table tree, and the list of
/// every table frame the space has drawn from the allocator (the root first).
pub struct PagedAddrSpace {
    mode: Sv39,
    root_ppn: u64,
    root_slots: Vec<Option<PageTableMid>>,
    frames: Vec<u64>,
}

impl PagedAddrSpace {
    /// Frame of the root table, what satp is programmed with.
    pub closed spec fn root_ppn_spec(self) -> u64 {
        self.root_ppn
    }

    /// The space owns this table frame.
    pub closed spec fn owns(self, f: u64) -> bool {
        self.frames@.contains(f)
    }

    /// How many table frames the space owns.
    pub closed spec fn frame_count(self) -> nat {
        self.frames@.len()
    }

    /// Structural invariant: full tables, and no table frame recorded twice.
    pub closed spec fn wf(self) -> bool {
        &&& self.root_slots@.len() == TABLE_ENTRIES
        &&& forall|i: int|
            0 <= i < self.root_slots@.len() && self.root_slots@[i] is Some ==> (
            #[trigger] self.root_slots@[i]).unwrap().wf()
        &&& forall|i: int, j: int|
            0 <= i < j < self.frames@.len() ==> #[trigger] self.frames@[i]
                != #[trigger] self.frames@[j]
    }

    /// Every owned table frame is outstanding in the allocator.
    pub closed spec fn owned_by(self, a: StackFrameAllocator) -> bool {
        forall|i: int| 0 <= i < self.frames@.len() ==> a.outstanding(#[trigger] self.frames@[i])
    }

    /// The mapping the tables encode: the walk of a table key, `None` at any
    /// invalid entry.
    pub closed spec fn lookup(self, key: nat) -> Option<LeafEntry> {
        match self.root_slots@[idx2_of(key) as int] {
            Some(mid) => match mid.slots@[idx1_of(key) as int] {
                Some(leaf) => leaf.slots@[idx0_of(key) as int],
                None => None,
            },
            None => None,
        }
    }

    /// Allocates one zeroed frame for the root table. In the frame model a
    /// zeroed table is one whose slots are all invalid.
    pub fn try_new_in(mode: Sv39, alloc: &mut StackFrameAllocator) -> (r: Result<
        PagedAddrSpace,
        SpaceError,
    >)
        requires
            old(alloc).wf(),
        ensures
            final(alloc).wf(),
            final(alloc).region_first() == old(alloc).region_first(),
            final(alloc).region_end() == old(alloc).region_end(),
            r is Err <==> old(alloc).available() == 0,
            match r {
                Ok(s) => {
                    &&& s.wf()
                    &&& s.owned_by(*final(alloc))
                    &&& s.frame_count() == 1
                    &&& forall|f: u64| s.owns(f) <==> f == s.root_ppn_spec()
                    &&& crate::frame::frame_alloc_ok(*old(alloc), *final(alloc), s.root_ppn_spec())
                    &&& forall|k: nat| k < VPN_LIMIT ==> s.lookup(k) is None
                },
                Err(e) => e == SpaceError::OutOfFrames && frame_state_eq(*old(alloc), *final(alloc)),
            },
    {
        let f = match alloc.allocate_frame() {
            Ok(p) => p,
            Err(_) => {
                return Err(SpaceError::OutOfFrames);
            },
        };
        let mut frames: Vec<u64> = Vec::new();
        frames.push(f.0);
        let s = PagedAddrSpace { mode, root_ppn: f.0, root_slots: none_slots(), frames };
        proof {
            assert(s.frames@ == Seq::<u64>::empty().push(f.0));
            assert forall|g: u64| s.owns(g) <==> g == f.0 by {
                if s.frames@.contains(g) {
                    let i = choose|i: int| 0 <= i < s.frames@.len() && s.frames@[i] == g;
                    assert(i == 0);
                }
                assert(s.frames@[0] == f.0);
            }
            assert forall|k: nat| k < VPN_LIMIT implies s.lookup(k) is None by {
                lemma_key_decompose(k);
            }
        }
        Ok(s)
    }

    /// Frame of the root table, for programming satp.
    pub fn root_page_number(&self) -> (r: PhysPageNum)
        ensures
            r.0 == self.root_ppn_spec(),
    {
        PhysPageNum(self.root_ppn)
    }

    /// Walks the tables for one page.
    pub fn translate(&self, vpn: VirtPageNum) -> (r: Option<(PhysPageNum, Sv39Flags)>)
        requires
            self.wf(),
        ensures
            r == match self.lookup(vpn_key(vpn.0 as nat)) {
                Some(e) => Some((PhysPageNum(e.ppn), e.flags)),
                None => None::<(PhysPageNum, Sv39Flags)>,
            },
    {
        let key = vpn.0 % VPN_LIMIT;
        proof {
            lemma_key_decompose(key as nat);
        }
        let i2 = (key / TABLE_SPAN_MID) as usize;
        let i1 = ((key / (TABLE_ENTRIES as u64)) % (TABLE_ENTRIES as u64)) as usize;
        let i0 = (key % (TABLE_ENTRIES as u64)) as usize;
        match &self.root_slots[i2] {
            Some(mid) => match &mid.slots[i1] {
                Some(leaf) => match leaf.slots[i0] {
                    Some(e) => Some((PhysPageNum(e.ppn), e.flags)),
                    None => None,
                },
                None => None,
            },
            None => None,
        }
    }

    /// Creates the leaf mapping for a single table key, allocating the
    /// intermediate tables on the way as needed.
    fn map_one(
        &mut self,
        alloc: &mut StackFrameAllocator,
        key: u64,
        p: u64,
        flags: Sv39Flags,
    ) -> (r: Result<(), SpaceError>)
        requires
            old(self).wf(),
            old(alloc).wf(),
            old(self).owned_by(*old(alloc)),
            key < VPN_LIMIT,
            p < PPN_LIMIT,
        ensures
            final(self).wf(),
            final(alloc).wf(),
            final(self).owned_by(*final(alloc)),
            final(alloc).region_first() == old(alloc).region_first(),
            final(alloc).region_end() == old(alloc).region_end(),
            final(self).root_ppn_spec() == old(self).root_ppn_spec(),
            final(self).frame_count() <= old(self).frame_count() + 2,
            final(alloc).available() + final(self).frame_count() == old(alloc).available() + old(
                self,
            ).frame_count(),
            forall|f: u64| old(self).owns(f) ==> final(self).owns(f),
            forall|f: u64|
                final(alloc).outstanding(f) <==> (old(alloc).outstanding(f) || (final(self).owns(f)
                    && !old(self).owns(f))),
            forall|f: u64|
                final(self).owns(f) && !old(self).owns(f) ==> !old(alloc).outstanding(f),
            match r {
                Ok(()) => {
                    &&& old(self).lookup(key as nat) is None
                    &&& final(self).lookup(key as nat) == Some(
                        LeafEntry { ppn: p, flags: Sv39Flags { bits: flags.bits | FLAG_V } },
                    )
                    &&& forall|k: nat|
                        k < VPN_LIMIT && k != key ==> final(self).lookup(k) == old(self).lookup(k)
                },
                Err(e) => {
                    &&& (e == SpaceError::AlreadyMapped || e == SpaceError::OutOfFrames)
                    &&& forall|k: nat| k < VPN_LIMIT ==> final(self).lookup(k) == old(self).lookup(k)
                    &&& (e == SpaceError::AlreadyMapped ==> old(self).lookup(key as nat) is Some
                        && final(self).frame_count() == old(self).frame_count())
                    &&& (e == SpaceError::OutOfFrames ==> final(alloc).available() == 0)
                },
            },
    {
        proof {
            lemma_key_decompose(key as nat);
        }
        let i2 = (key / TABLE_SPAN_MID) as usize;
        let i1 = ((key / (TABLE_ENTRIES as u64)) % (TABLE_ENTRIES as u64)) as usize;
        let i0 = (key % (TABLE_ENTRIES as u64)) as usize;
        // Level 2: make sure the middle table exists.
        if self.root_slots[i2].is_none() {
            let ghost pre = *self;
            let ghost apre = *alloc;
            let f = match alloc.allocate_frame() {
                Ok(q) => q,
                Err(_) => {
                    return Err(SpaceError::OutOfFrames);
                },
            };
            let mid = PageTableMid { table_ppn: f.0, slots: none_slots() };
            self.root_slots.set(i2, Some(mid));
            self.frames.push(f.0);
            proof {
                lemma_owned_push(pre.frames@, f.0, apre, *alloc);
                assert forall|k: nat| k < VPN_LIMIT implies self.lookup(k) == pre.lookup(k) by {
                    lemma_key_decompose(k);
                }
            }
        }
        // Level 1: make sure the leaf table exists.
        let need_leaf = match &self.root_slots[i2] {
            Some(mid) => mid.slots[i1].is_none(),
            None => true,
        };
        if need_leaf {
            let ghost pre = *self;
            let ghost apre = *alloc;
            let f = match alloc.allocate_frame() {
                Ok(q) => q,
                Err(_) => {
                    return Err(SpaceError::OutOfFrames);
                },
            };
            let leaf = PageTableLeaf { table_ppn: f.0, slots: none_slots() };
            let mut taken: Option<PageTableMid> = None;
            self.root_slots.set_and_swap(i2, &mut taken);
            let mut mid = taken.unwrap();
            mid.slots.set(i1, Some(leaf));
            self.root_slots.set(i2, Some(mid));
            self.frames.push(f.0);
            proof {
                lemma_owned_push(pre.frames@, f.0, apre, *alloc);
                assert forall|k: nat| k < VPN_LIMIT implies self.lookup(k) == pre.lookup(k) by {
                    lemma_key_decompose(k);
                }
            }
        }
        // Level 0: refuse a page that is already mapped, else write the leaf.
        let occupied = match &self.root_slots[i2] {
            Some(mid) => match &mid.slots[i1] {
                Some(leaf) => leaf.slots[i0].is_some(),
                None => false,
            },
            None => false,
        };
        if occupied {
            return Err(SpaceError::AlreadyMapped);
        }
        let ghost pre = *self;
        let mut taken: Option<PageTableMid> = None;
        self.root_slots.set_and_swap(i2, &mut taken);
        let mut mid = taken.unwrap();
        let mut taken_leaf: Option<PageTableLeaf> = None;
        mid.slots.set_and_swap(i1, &mut taken_leaf);
        let mut leaf = taken_leaf.unwrap();
        leaf.slots.set(i0, Some(LeafEntry { ppn: p, flags: flags.mark_valid() }));
        mid.slots.set(i1, Some(leaf));
        self.root_slots.set(i2, Some(mid));
        proof {
            assert(self.lookup(key as nat) == Some(
                LeafEntry { ppn: p, flags: Sv39Flags { bits: flags.bits | FLAG_V } },
            ));
            assert forall|k: nat| k < VPN_LIMIT && k != key implies self.lookup(k) == pre.lookup(
                k,
            ) by {
                lemma_key_decompose(k);
                lemma_key_decompose(key as nat);
            }
        }
        Ok(())
    }

    /// Creates leaf mappings for `count` consecutive pages
    /// `vpn + j -> ppn + j` with the given flags (the valid bit is set on
    /// write). Flags must grant at least one of read, write, execute: a leaf
    /// entry without them would be an intermediate pointer. On an error the
    /// pages already written in this call stay mapped; existing mappings and
    /// pages outside the range are never touched.
    pub fn allocate_map(
        &mut self,
        alloc: &mut StackFrameAllocator,
        vpn: VirtPageNum,
        ppn: PhysPageNum,
        count: u64,
        flags: Sv39Flags,
    ) -> (r: Result<(), SpaceError>)
        requires
            old(self).wf(),
            old(alloc).wf(),
            old(self).owned_by(*old(alloc)),
            flags.has(FLAG_RWX),
            vpn_key(vpn.0 as nat) + count <= VPN_LIMIT,
            ppn.0 + count <= PPN_LIMIT,
        ensures
            final(self).wf(),
            final(alloc).wf(),
            final(self).owned_by(*final(alloc)),
            final(alloc).region_first() == old(alloc).region_first(),
            final(alloc).region_end() == old(alloc).region_end(),
            final(self).root_ppn_spec() == old(self).root_ppn_spec(),
            final(self).frame_count() <= old(self).frame_count() + 2 * count,
            final(alloc).available() + final(self).frame_count() == old(alloc).available() + old(
                self,
            ).frame_count(),
            forall|f: u64| old(self).owns(f) ==> final(self).owns(f),
            forall|f: u64|
                final(alloc).outstanding(f) <==> (old(alloc).outstanding(f) || (final(self).owns(f)
                    && !old(self).owns(f))),
            forall|f: u64|
                final(self).owns(f) && !old(self).owns(f) ==> !old(alloc).outstanding(f),
            forall|k: nat|
                k < VPN_LIMIT && old(self).lookup(k) is Some ==> final(self).lookup(k) == old(
                    self,
                ).lookup(k),
            match r {
                Ok(()) => {
                    &&& map_step(
                        *old(self),
                        *final(self),
                        vpn_key(vpn.0 as nat),
                        ppn.0 as nat,
                        count as nat,
                        flags.bits | FLAG_V,
                    )
                    &&& forall|k: nat|
                        k < VPN_LIMIT && !(vpn_key(vpn.0 as nat) <= k < vpn_key(vpn.0 as nat)
                            + count) ==> final(self).lookup(k) == old(self).lookup(k)
                    &&& forall|k: nat|
                        vpn_key(vpn.0 as nat) <= k < vpn_key(vpn.0 as nat) + count ==> old(
                            self,
                        ).lookup(k) is None && final(self).lookup(k) == Some(
                            LeafEntry {
                                ppn: (ppn.0 + k - vpn_key(vpn.0 as nat)) as u64,
                                flags: Sv39Flags { bits: flags.bits | FLAG_V },
                            },
                        )
                },
                Err(e) => {
                    &&& (e == SpaceError::AlreadyMapped || e == SpaceError::OutOfFrames)
                    &&& forall|k: nat|
                        k < VPN_LIMIT && !(vpn_key(vpn.0 as nat) <= k < vpn_key(vpn.0 as nat)
                            + count) ==> final(self).lookup(k) == old(self).lookup(k)
                    &&& (e == SpaceError::AlreadyMapped ==> exists|k: nat|
                        vpn_key(vpn.0 as nat) <= k < vpn_key(vpn.0 as nat) + count && old(
                            self,
                        ).lookup(k) is Some)
                    &&& (e == SpaceError::OutOfFrames ==> final(alloc).available() == 0)
                },
            },
            (old(alloc).available() > 2 * count && (forall|k: nat|
                vpn_key(vpn.0 as nat) <= k < vpn_key(vpn.0 as nat) + count ==> old(self).lookup(k)
                    is None)) ==> r is Ok,
    {
        let key_base: u64 = vpn.0 % VPN_LIMIT;
        let ghost key0 = vpn_key(vpn.0 as nat);
        let mut i: u64 = 0;
        while i < count
            invariant
                i <= count,
                key_base == key0,
                key0 == vpn_key(vpn.0 as nat),
                key0 + count <= VPN_LIMIT,
                ppn.0 + count <= PPN_LIMIT,
                self.wf(),
                alloc.wf(),
                self.owned_by(*alloc),
                alloc.region_first() == old(alloc).region_first(),
                alloc.region_end() == old(alloc).region_end(),
                self.root_ppn_spec() == old(self).root_ppn_spec(),
                self.frame_count() <= old(self).frame_count() + 2 * i,
                alloc.available() + self.frame_count() == old(alloc).available() + old(
                    self,
                ).frame_count(),
                forall|f: u64| old(self).owns(f) ==> self.owns(f),
                forall|f: u64|
                    alloc.outstanding(f) <==> (old(alloc).outstanding(f) || (self.owns(f) && !old(
                        self,
                    ).owns(f))),
                forall|f: u64| self.owns(f) && !old(self).owns(f) ==> !old(alloc).outstanding(f),
                forall|k: nat|
                    k < VPN_LIMIT && !(key0 <= k < key0 + i) ==> self.lookup(k) == old(
                        self,
                    ).lookup(k),
                forall|k: nat|
                    key0 <= k < key0 + i ==> old(self).lookup(k) is None && self.lookup(k) == Some(
                        LeafEntry {
                            ppn: (ppn.0 + k - key0) as u64,
                            flags: Sv39Flags { bits: flags.bits | FLAG_V },
                        },
                    ),
            decreases count - i,
        {
            let ghost mid_self = *self;
            let ghost mid_alloc = *alloc;
            match self.map_one(alloc, key_base + i, ppn.0 + i, flags) {
                Ok(()) => {
                    proof {
                        assert forall|f: u64|
                            alloc.outstanding(f) <==> (old(alloc).outstanding(f) || (self.owns(f)
                                && !old(self).owns(f))) by {
                            assert(alloc.outstanding(f) <==> (mid_alloc.outstanding(f) || (
                            self.owns(f) && !mid_self.owns(f))));
                        }
                        assert forall|f: u64|
                            self.owns(f) && !old(self).owns(f) implies !old(alloc).outstanding(
                            f,
                        ) by {
                            if mid_self.owns(f) {
                            } else {
                                assert(!mid_alloc.outstanding(f));
                            }
                        }
                    }
                    i = i + 1;
                },
                Err(e) => {
                    proof {
                        assert forall|f: u64|
                            alloc.outstanding(f) <==> (old(alloc).outstanding(f) || (self.owns(f)
                                && !old(self).owns(f))) by {
                            assert(alloc.outstanding(f) <==> (mid_alloc.outstanding(f) || (
                            self.owns(f) && !mid_self.owns(f))));
                        }
                        assert forall|f: u64|
                            self.owns(f) && !old(self).owns(f) implies !old(alloc).outstanding(
                            f,
                        ) by {
                            if mid_self.owns(f) {
                            } else {
                                assert(!mid_alloc.outstanding(f));
                            }
                        }
                        assert forall|k: nat| k < VPN_LIMIT && !(key0 <= k < key0 + count) implies
                            self.lookup(k) == old(self).lookup(k) by {
                            assert(self.lookup(k) == mid_self.lookup(k));
                            assert(mid_self.lookup(k) == old(self).lookup(k));
                        }
                        assert forall|k: nat|
                            k < VPN_LIMIT && old(self).lookup(k) is Some implies self.lookup(k)
                                == old(self).lookup(k) by {
                            assert(self.lookup(k) == mid_self.lookup(k));
                            if key0 <= k < key0 + i {
                                assert(old(self).lookup(k) is None);
                            } else {
                                assert(mid_self.lookup(k) == old(self).lookup(k));
                            }
                        }
                        if e == SpaceError::AlreadyMapped {
                            let w = (key_base + i) as nat;
                            assert(mid_self.lookup(w) is Some);
                            assert(!(key0 <= w < key0 + i));
                            assert(old(self).lookup(w) is Some);
                            assert(key0 <= w < key0 + count);
                        }
                        if e == SpaceError::OutOfFrames {
                            assert(alloc.available() == 0);
                            assert(self.frame_count() <= mid_self.frame_count() + 2);
                            assert(mid_self.frame_count() <= old(self).frame_count() + 2 * i);
                            assert(old(alloc).available() + old(self).frame_count()
                                == alloc.available() + self.frame_count());
                            assert(old(alloc).available() <= 2 * count);
                        }
                    }
                    return Err(e);
                },
            }
        }
        Ok(())
    }

    /// Returns every owned table frame to the allocator; plays the part of
    /// dropping the address space. Exactly the frames the space drew come
    /// back: the allocator regains `frame_count` frames.
    pub fn release(self, alloc: &mut StackFrameAllocator)
        requires
            self.wf(),
            old(alloc).wf(),
            self.owned_by(*old(alloc)),
        ensures
            final(alloc).wf(),
            final(alloc).region_first() == old(alloc).region_first(),
            final(alloc).region_end() == old(alloc).region_end(),
            final(alloc).available() == old(alloc).available() + self.frame_count(),
            forall|f: u64|
                final(alloc).outstanding(f) <==> (old(alloc).outstanding(f) && !self.owns(f)),
    {
        let PagedAddrSpace { mode: _, root_ppn: _, root_slots: _, frames } = self;
        let ghost all = frames@;
        let mut i: usize = 0;
        while i < frames.len()
            invariant
                i <= frames.len(),
                frames@ == all,
                all == self.frames@,
                alloc.wf(),
                alloc.region_first() == old(alloc).region_first(),
                alloc.region_end() == old(alloc).region_end(),
                alloc.available() == old(alloc).available() + i,
                forall|a: int, b: int| 0 <= a < b < all.len() ==> all[a] != all[b],
                forall|j: int| i <= j < all.len() ==> alloc.outstanding(#[trigger] all[j]),
                forall|f: u64|
                    alloc.outstanding(f) <==> (old(alloc).outstanding(f) && !all.take(
                        i as int,
                    ).contains(f)),
            decreases frames.len() - i,
        {
            let ghost apre = *alloc;
            let f = frames[i];
            alloc.deallocate_frame(PhysPageNum(f));
            proof {
                assert(all.take(i + 1 as int) =~= all.take(i as int).push(all[i as int]));
                assert forall|g: u64|
                    alloc.outstanding(g) <==> (old(alloc).outstanding(g) && !all.take(
                        i + 1 as int,
                    ).contains(g)) by {
                    lemma_take_push_contains(all, i as int, g);
                }
            }
            i = i + 1;
        }
        proof {
            assert(all.take(all.len() as int) =~= all);
            assert forall|f: u64|
                alloc.outstanding(f) <==> (old(alloc).outstanding(f) && !self.owns(f)) by {
                assert(all.contains(f) == self.owns(f));
            }
        }
    }
}

/// The mapping-level effect of one successful `allocate_map`: the pages of
/// `[key0, key0 + count)` were unmapped and now go linearly to the frames
/// from `ppn0` with exactly these flag bits, and no other page moved.
pub open spec fn map_step(
    pre: PagedAddrSpace,
    post: PagedAddrSpace,
    key0: nat,
    ppn0: nat,
    count: nat,
    bits: u8,
) -> bool {
    &&& forall|k: nat|
        key0 <= k < key0 + count ==> pre.lookup(k) is None && post.lookup(k) == Some(
            LeafEntry { ppn: (ppn0 + (k - key0)) as u64, flags: Sv39Flags { bits } },
        )
    &&& forall|k: nat|
        k < VPN_LIMIT && !(key0 <= k < key0 + count) ==> post.lookup(k) == pre.lookup(k)
}

/// Law: non-overlapping map calls compose. After a second call whose range is
/// disjoint from the first, every page of either range translates to its
/// mapped frame and flags, and every page outside both is as it started — in
/// particular unmapped where the starting space was empty.
pub proof fn lemma_nonoverlapping_maps(
    s0: PagedAddrSpace,
    s1: PagedAddrSpace,
    s2: PagedAddrSpace,
    ka: nat,
    pa: nat,
    ca: nat,
    ba: u8,
    kb: nat,
    pb: nat,
    cb: nat,
    bb: u8,
)
    requires
        map_step(s0, s1, ka, pa, ca, ba),
        map_step(s1, s2, kb, pb, cb, bb),
        ka + ca <= VPN_LIMIT,
        kb + cb <= VPN_LIMIT,
        kb + cb <= ka || ka + ca <= kb,
    ensures
        forall|k: nat|
            ka <= k < ka + ca ==> s2.lookup(k) == Some(
                LeafEntry { ppn: (pa + (k - ka)) as u64, flags: Sv39Flags { bits: ba } },
            ),
        forall|k: nat|
            kb <= k < kb + cb ==> s2.lookup(k) == Some(
                LeafEntry { ppn: (pb + (k - kb)) as u64, flags: Sv39Flags { bits: bb } },
            ),
        forall|k: nat|
            k < VPN_LIMIT && !(ka <= k < ka + ca) && !(kb <= k < kb + cb) ==> s2.lookup(k)
                == s0.lookup(k),
{
}

/// Ownership survives any allocator step that keeps outstanding frames
/// outstanding.
pub proof fn lemma_owned_by_preserved(
    s: PagedAddrSpace,
    a1: StackFrameAllocator,
    a2: StackFrameAllocator,
)
    requires
        s.owned_by(a1),
        forall|g: u64| a1.outstanding(g) ==> a2.outstanding(g),
    ensures
        s.owned_by(a2),
{
}

/// A frame the allocator has not handed out is not a table frame of a space
/// it backs.
pub proof fn lemma_not_owned(s: PagedAddrSpace, a: StackFrameAllocator, f: u64)
    requires
        s.owned_by(a),
        !a.outstanding(f),
    ensures
        !s.owns(f),
{
    if s.owns(f) {
        let i = choose|i: int| 0 <= i < s.frames@.len() && s.frames@[i] == f;
        assert(a.outstanding(s.frames@[i]));
    }
}

/// A mapping read out of a well-formed space targets a representable frame.
pub proof fn lemma_lookup_bounded(s: PagedAddrSpace, key: nat)
    requires
        s.wf(),
        key < VPN_LIMIT,
        s.lookup(key) is Some,
    ensures
        s.lookup(key).unwrap().ppn < PPN_LIMIT,
{
    lemma_key_decompose(key);
}

/// Seq fact used by `release`: after extending the freed prefix by one, a
/// frame is in it iff it was or it is the new one.
proof fn lemma_take_push_contains(s: Seq<u64>, i: int, g: u64)
    requires
        0 <= i < s.len(),
    ensures
        s.take(i + 1).contains(g) <==> (s.take(i).contains(g) || g == s[i]),
{
    let longer = s.take(i + 1);
    let shorter = s.take(i);
    assert(longer =~= shorter.push(s[i]));
    if longer.contains(g) {
        let j = choose|j: int| 0 <= j < longer.len() && longer[j] == g;
        if j < i {
            assert(shorter[j] == g);
        }
    }
    if shorter.contains(g) {
        let j = choose|j: int| 0 <= j < shorter.len() && shorter[j] == g;
        assert(longer[j] == g);
    }
    if g == s[i] {
        assert(longer[i] == g);
    }
}

/// Bookkeeping shared by the two table-allocation steps of `map_one`: after
/// drawing frame `f` and pushing it onto the owned list, ownership and
/// outstanding-ness line up again.
proof fn lemma_owned_push(
    frames0: Seq<u64>,
    f: u64,
    apre: StackFrameAllocator,
    apost: StackFrameAllocator,
)
    requires
        crate::frame::frame_alloc_ok(apre, apost, f),
        forall|i: int| 0 <= i < frames0.len() ==> apre.outstanding(#[trigger] frames0[i]),
    ensures
        !frames0.contains(f),
        forall|i: int| 0 <= i < frames0.push(f).len() ==> apost.outstanding(
            #[trigger] frames0.push(f)[i],
        ),
        forall|a: int, b: int|
            (0 <= a < b < frames0.push(f).len() && (forall|c: int, d: int|
                0 <= c < d < frames0.len() ==> frames0[c] != frames0[d])) ==> frames0.push(f)[a]
                != frames0.push(f)[b],
        forall|g: u64| frames0.push(f).contains(g) <==> (frames0.contains(g) || g == f),
{
    assert(!frames0.contains(f)) by {
        if frames0.contains(f) {
            let i = choose|i: int| 0 <= i < frames0.len() && frames0[i] == f;
            assert(apre.outstanding(frames0[i]));
        }
    }
    assert forall|i: int|
        0 <= i < frames0.push(f).len() implies apost.outstanding(
        #[trigger] frames0.push(f)[i],
    ) by {
        if i < frames0.len() {
            assert(apre.outstanding(frames0[i]));
            assert(frames0[i] != f);
        }
    }
    assert forall|g: u64| frames0.push(f).contains(g) <==> (frames0.contains(g) || g == f) by {
        if frames0.push(f).contains(g) {
            let i = choose|i: int| 0 <= i < frames0.push(f).len() && frames0.push(f)[i] == g;
            if i < frames0.len() {
                assert(frames0[i] == g);
            }
        }
        if frames0.contains(g) {
            let i = choose|i: int| 0 <= i < frames0.len() && frames0[i] == g;
            assert(frames0.push(f)[i] == g);
        }
        if g == f {
            assert(frames0.push(f)[frames0.len() as int] == g);
        }
    }
}

/// A table with 512 invalid slots, the shape a zeroed frame decodes to.
fn none_slots<T>() -> (r: Vec<Option<T>>)
    ensures
        r@.len() == TABLE_ENTRIES,
        forall|i: int| 0 <= i < r@.len() ==> r@[i] is None,
{
    let mut v: Vec<Option<T>> = Vec::new();
    let mut i: usize = 0;
    while i < TABLE_ENTRIES
        invariant
            i <= TABLE_ENTRIES,
            v@.len() == i,
            forall|j: int| 0 <= j < v@.len() ==> v@[j] is None,
        decreases TABLE_ENTRIES - i,
    {
        v.push(None);
        i = i + 1;
    }
    v
}

} // verus!
