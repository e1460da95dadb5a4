//! User-buffer translation and the kernel's view of physical memory.
//!
//! `translate_frame_read` resolves a user virtual range into the physical
//! frame segments that cover it, one segment per maximal run inside a single
//! frame, in ascending virtual-address order. It never touches memory itself.
//! `PhysMemory` is the byte store those segments point into; in the running
//! kernel it is RAM reached through the identity mapping, here it is an
//! explicit value so that reads are checked.

use vstd::prelude::*;
use vstd::arithmetic::div_mod::{
    lemma_div_is_ordered, lemma_fundamental_div_mod, lemma_fundamental_div_mod_converse,
};
use crate::addr::{vpn_key, PhysPageNum, VirtAddr, VirtPageNum, FLAG_R, PAGE_SIZE, PPN_LIMIT};
use crate::space::{lemma_lookup_bounded, PagedAddrSpace, SpaceError};

verus! {

/// One maximal run of bytes inside a single physical frame.
#[derive(Clone, Copy, PartialEq, Eq, Structural, Debug)]
pub struct FrameSegment {
    /// Frame holding the run.
    pub ppn: u64,
    /// First byte of the run within the frame.
    pub offset: u64,
    /// Bytes in the run, at least 1.
    pub len: u64,
}

/// One page of the walk is mapped and readable.
pub open spec fn page_readable(s: PagedAddrSpace, pg: nat) -> bool {
    &&& s.lookup(vpn_key(pg)) is Some
    &&& s.lookup(vpn_key(pg)).unwrap().flags.has(FLAG_R)
}

/// Every page under `[va, va + len)` is mapped with read access.
pub open spec fn user_range_readable(s: PagedAddrSpace, va: nat, len: nat) -> bool {
    len == 0 || forall|pg: nat|
        va / (PAGE_SIZE as nat) <= pg <= (va + len - 1) / (PAGE_SIZE as int)
            ==> #[trigger] page_readable(s, pg)
}

/// The segments covering `[va, va + len)`: a first run to the end of the page
/// (or of the buffer), then the rest.
pub open spec fn read_plan(s: PagedAddrSpace, va: nat, len: nat) -> Seq<FrameSegment>
    decreases len,
{
    if len == 0 {
        Seq::empty()
    } else {
        let off = va % (PAGE_SIZE as nat);
        let in_page = (PAGE_SIZE - off) as nat;
        let step = if in_page < len {
            in_page
        } else {
            len
        };
        let e = s.lookup(vpn_key(va / (PAGE_SIZE as nat)));
        seq![
            FrameSegment { ppn: e.unwrap().ppn, offset: off as u64, len: step as u64 },
        ] + read_plan(s, va + step, (len - step) as nat)
    }
}

/// Virtual address where the `k`-th segment of a plan starts: the range start
/// plus the lengths of the segments before it.
pub open spec fn plan_seg_va(va: nat, plan: Seq<FrameSegment>, k: int) -> int
    decreases k,
{
    if k <= 0 {
        va as int
    } else {
        plan_seg_va(va, plan, k - 1) + plan[k - 1].len
    }
}

/// Law: the plan partitions the range. Its segments are non-empty, stay each
/// within one frame, follow each other in ascending virtual-address order
/// (segment `k` covers the bytes at `plan_seg_va(.., k)` up to its length),
/// their lengths add up to the whole range, and each names the frame the walk
/// maps its page to, at the page offset of its first byte.
pub proof fn lemma_read_plan_covers(s: PagedAddrSpace, va: nat, len: nat)
    requires
        user_range_readable(s, va, len),
        va + len <= u64::MAX,
    ensures
        plan_seg_va(va, read_plan(s, va, len), read_plan(s, va, len).len() as int) == va + len,
        forall|k: int|
            0 <= k < read_plan(s, va, len).len() ==> {
                let seg = #[trigger] read_plan(s, va, len)[k];
                let sva = plan_seg_va(va, read_plan(s, va, len), k);
                &&& seg.len > 0
                &&& seg.offset == sva % (PAGE_SIZE as int)
                &&& seg.offset + seg.len <= PAGE_SIZE
                &&& s.lookup(vpn_key((sva / (PAGE_SIZE as int)) as nat)) is Some
                &&& seg.ppn == s.lookup(vpn_key((sva / (PAGE_SIZE as int)) as nat)).unwrap().ppn
            },
    decreases len,
{
    let plan = read_plan(s, va, len);
    if len == 0 {
    } else {
        let off = va % (PAGE_SIZE as nat);
        let in_page = (PAGE_SIZE - off) as nat;
        let step = if in_page < len {
            in_page
        } else {
            len
        };
        let first = FrameSegment {
            ppn: s.lookup(vpn_key(va / (PAGE_SIZE as nat))).unwrap().ppn,
            offset: off as u64,
            len: step as u64,
        };
        let rest = read_plan(s, va + step, (len - step) as nat);
        assert(plan == seq![first] + rest);
        assert(page_readable(s, va / (PAGE_SIZE as nat)));
        assert(user_range_readable(s, va + step, (len - step) as nat)) by {
            if len - step > 0 {
                assert forall|pg: nat|
                    (va + step) / (PAGE_SIZE as nat) <= pg <= (va + step + (len - step) - 1) / (
                    PAGE_SIZE as int) implies #[trigger] page_readable(s, pg) by {
                    lemma_div_is_ordered(va as int, (va + step) as int, PAGE_SIZE as int);
                }
            }
        }
        lemma_read_plan_covers(s, va + step, (len - step) as nat);
        assert forall|k: int| 1 <= k < plan.len() implies plan_seg_va(va, plan, k) == plan_seg_va(
            (va + step) as nat,
            rest,
            k - 1,
        ) by {
            lemma_seg_va_shift(va, first, rest, k);
        }
        assert(plan_seg_va(va, plan, plan.len() as int) == va + len) by {
            if plan.len() == 1 {
                assert(plan[0] == first);
                assert(plan_seg_va(va, plan, 0) == va);
                assert(plan_seg_va(va, plan, 1) == va + step);
            } else {
                lemma_seg_va_shift(va, first, rest, plan.len() as int);
            }
        }
        assert forall|k: int| 0 <= k < plan.len() implies {
            let seg = #[trigger] plan[k];
            let sva = plan_seg_va(va, plan, k);
            &&& seg.len > 0
            &&& seg.offset == sva % (PAGE_SIZE as int)
            &&& seg.offset + seg.len <= PAGE_SIZE
            &&& s.lookup(vpn_key((sva / (PAGE_SIZE as int)) as nat)) is Some
            &&& seg.ppn == s.lookup(vpn_key((sva / (PAGE_SIZE as int)) as nat)).unwrap().ppn
        } by {
            if k == 0 {
                assert(plan[0] == first);
                lemma_fundamental_div_mod(va as int, PAGE_SIZE as int);
            } else {
                lemma_seg_va_shift(va, first, rest, k);
                assert(plan[k] == rest[k - 1]);
            }
        }
    }
}

/// The step of `plan_seg_va` over the plan's recursive structure.
proof fn lemma_seg_va_shift(va: nat, first: FrameSegment, rest: Seq<FrameSegment>, k: int)
    requires
        1 <= k <= rest.len() + 1,
    ensures
        plan_seg_va(va, seq![first] + rest, k) == plan_seg_va(
            (va + first.len) as nat,
            rest,
            k - 1,
        ),
    decreases k,
{
    let plan = seq![first] + rest;
    if k == 1 {
        assert(plan[0] == first);
        assert(plan_seg_va(va, plan, 0) == va);
        assert(plan_seg_va((va + first.len) as nat, rest, 0) == va + first.len);
    } else {
        lemma_seg_va_shift(va, first, rest, k - 1);
        assert(plan[k - 1] == rest[k - 2]);
    }
}

/// Law: over an identity-mapped range the plan's physical places, each taken
/// as `frame begin + offset`, concatenate back to exactly the virtual range:
/// segment `k` starts at physical address `plan_seg_va(.., k)`.
pub proof fn lemma_read_plan_identity(s: PagedAddrSpace, va: nat, len: nat)
    requires
        user_range_readable(s, va, len),
        va + len <= u64::MAX,
        forall|pg: nat|
            va / (PAGE_SIZE as nat) <= pg <= (va + len - 1) / (PAGE_SIZE as int)
                ==> (#[trigger] s.lookup(vpn_key(pg))).unwrap().ppn == pg,
    ensures
        forall|k: int|
            0 <= k < read_plan(s, va, len).len()
                ==> (#[trigger] read_plan(s, va, len)[k]).ppn * PAGE_SIZE + read_plan(
                s,
                va,
                len,
            )[k].offset == plan_seg_va(va, read_plan(s, va, len), k),
{
    let plan = read_plan(s, va, len);
    lemma_read_plan_covers(s, va, len);
    assert forall|k: int| 0 <= k < plan.len() implies (#[trigger] plan[k]).ppn * PAGE_SIZE
        + plan[k].offset == plan_seg_va(va, plan, k) by {
        let sva = plan_seg_va(va, plan, k);
        let pg = sva / (PAGE_SIZE as int);
        assert(va <= sva && sva < va + len) by {
            lemma_seg_va_bounds(s, va, len, k);
        }
        lemma_div_is_ordered(va as int, sva, PAGE_SIZE as int);
        lemma_div_is_ordered(sva, (va + len - 1) as int, PAGE_SIZE as int);
        assert(s.lookup(vpn_key(pg as nat)).unwrap().ppn == pg as nat);
        lemma_fundamental_div_mod(sva, PAGE_SIZE as int);
    }
}

/// Each segment of a covering plan starts inside the range.
proof fn lemma_seg_va_bounds(s: PagedAddrSpace, va: nat, len: nat, k: int)
    requires
        user_range_readable(s, va, len),
        va + len <= u64::MAX,
        0 <= k < read_plan(s, va, len).len(),
    ensures
        va <= plan_seg_va(va, read_plan(s, va, len), k),
        plan_seg_va(va, read_plan(s, va, len), k) < va + len,
    decreases k,
{
    let plan = read_plan(s, va, len);
    lemma_read_plan_covers(s, va, len);
    if k == 0 {
        assert(plan.len() > 0);
        assert(len > 0) by {
            if len == 0 {
                assert(plan.len() == 0);
            }
        }
    } else {
        lemma_seg_va_bounds(s, va, len, k - 1);
        assert(plan_seg_va(va, plan, k) == plan_seg_va(va, plan, k - 1) + plan[k - 1].len);
        lemma_seg_va_lt_end(s, va, len, k);
    }
}

/// The start of segment `k` plus everything after it still fits in the range:
/// `plan_seg_va(k) + len of segments k.. == va + len`, so in particular the
/// start of a segment that exists is below `va + len`.
proof fn lemma_seg_va_lt_end(s: PagedAddrSpace, va: nat, len: nat, k: int)
    requires
        user_range_readable(s, va, len),
        va + len <= u64::MAX,
        0 <= k < read_plan(s, va, len).len(),
    ensures
        plan_seg_va(va, read_plan(s, va, len), k) < va + len,
    decreases read_plan(s, va, len).len() - k,
{
    let plan = read_plan(s, va, len);
    lemma_read_plan_covers(s, va, len);
    if k == plan.len() - 1 {
        assert(plan_seg_va(va, plan, plan.len() as int) == plan_seg_va(va, plan, k)
            + plan[k].len);
    } else {
        lemma_seg_va_lt_end(s, va, len, k + 1);
        assert(plan_seg_va(va, plan, k + 1) == plan_seg_va(va, plan, k) + plan[k].len);
    }
}

/// Resolves the user range `[start, start + len)` into frame segments, one
/// per maximal run inside a single frame, ascending. Fails with `BadAddress`
/// exactly when some page under the range is unmapped or lacks read access.
/// The caller reaches the bytes through the identity mapping of physical
/// memory; this helper dereferences nothing.
pub fn translate_frame_read(user_as: &PagedAddrSpace, start: VirtAddr, len: u64) -> (r: Result<
    Vec<FrameSegment>,
    SpaceError,
>)
    requires
        user_as.wf(),
        start.0 + len <= u64::MAX,
    ensures
        r is Ok <==> user_range_readable(*user_as, start.0 as nat, len as nat),
        match r {
            Ok(v) => v@ == read_plan(*user_as, start.0 as nat, len as nat),
            Err(e) => e == SpaceError::BadAddress,
        },
{
    let mut segs: Vec<FrameSegment> = Vec::new();
    let mut cur: u64 = start.0;
    let mut remaining: u64 = len;
    while remaining > 0
        invariant
            user_as.wf(),
            start.0 + len <= u64::MAX,
            remaining <= len,
            cur == start.0 + len - remaining,
            remaining > 0 ==> (cur > start.0 ==> forall|pg: nat|
                (start.0 as nat) / (PAGE_SIZE as nat) <= pg <= ((cur - 1) as nat) / (
                PAGE_SIZE as nat) ==> #[trigger] page_readable(*user_as, pg)),
            remaining == 0 ==> user_range_readable(*user_as, start.0 as nat, len as nat),
            segs@ + read_plan(*user_as, cur as nat, remaining as nat) == read_plan(
                *user_as,
                start.0 as nat,
                len as nat,
            ),
        decreases remaining,
    {
        let vpn = cur / PAGE_SIZE;
        let entry = user_as.translate(VirtPageNum(vpn));
        match entry {
            Some((p, fl)) => {
                if !fl.contains_any(FLAG_R) {
                    proof {
                        lemma_bad_page_witness(*user_as, start.0 as nat, len as nat, cur as nat);
                    }
                    return Err(SpaceError::BadAddress);
                }
                let off = cur % PAGE_SIZE;
                let in_page = PAGE_SIZE - off;
                let step = if in_page < remaining {
                    in_page
                } else {
                    remaining
                };
                let seg = FrameSegment { ppn: p.0, offset: off, len: step };
                let ghost segs0 = segs@;
                let ghost cur0 = cur as nat;
                let ghost rem0 = remaining as nat;
                segs.push(seg);
                cur = cur + step;
                remaining = remaining - step;
                proof {
                    assert(read_plan(*user_as, cur0, rem0) == seq![seg] + read_plan(
                        *user_as,
                        cur as nat,
                        remaining as nat,
                    ));
                    assert(segs@ + read_plan(*user_as, cur as nat, remaining as nat) == (segs0
                        + seq![seg]) + read_plan(*user_as, cur as nat, remaining as nat));
                    assert((segs0 + seq![seg]) + read_plan(*user_as, cur as nat, remaining as nat)
                        =~= segs0 + (seq![seg] + read_plan(
                        *user_as,
                        cur as nat,
                        remaining as nat,
                    )));
                    lemma_readable_prefix_extends(
                        *user_as,
                        start.0 as nat,
                        len as nat,
                        cur0,
                        step as nat,
                    );
                }
            },
            None => {
                proof {
                    lemma_bad_page_witness(*user_as, start.0 as nat, len as nat, cur as nat);
                }
                return Err(SpaceError::BadAddress);
            },
        }
    }
    Ok(segs)
}

/// An unreadable page under a byte of the range refutes readability of the
/// whole range.
proof fn lemma_bad_page_witness(s: PagedAddrSpace, va: nat, len: nat, cur: nat)
    requires
        va <= cur < va + len,
        !page_readable(s, cur / (PAGE_SIZE as nat)),
    ensures
        !user_range_readable(s, va, len),
{
    let pg = cur / (PAGE_SIZE as nat);
    lemma_div_is_ordered(va as int, cur as int, PAGE_SIZE as int);
    lemma_div_is_ordered(cur as int, (va + len - 1) as int, PAGE_SIZE as int);
}

/// After consuming one segment the pages behind the new cursor are readable.
proof fn lemma_readable_prefix_extends(s: PagedAddrSpace, va: nat, len: nat, cur: nat, step: nat)
    requires
        va <= cur,
        cur + step <= va + len,
        step > 0,
        step <= PAGE_SIZE - (cur % (PAGE_SIZE as nat)),
        page_readable(s, cur / (PAGE_SIZE as nat)),
        cur > va ==> forall|pg: nat|
            va / (PAGE_SIZE as nat) <= pg <= ((cur - 1) as int) / (PAGE_SIZE as int)
                ==> #[trigger] page_readable(s, pg),
    ensures
        forall|pg: nat|
            va / (PAGE_SIZE as nat) <= pg <= ((cur + step - 1) as int) / (PAGE_SIZE as int)
                ==> #[trigger] page_readable(s, pg),
{
    lemma_fundamental_div_mod(cur as int, PAGE_SIZE as int);
    assert((cur + step - 1) as int / (PAGE_SIZE as int) == cur as int / (PAGE_SIZE as int)) by {
        lemma_fundamental_div_mod_converse(
            (cur + step - 1) as int,
            PAGE_SIZE as int,
            (cur / (PAGE_SIZE as nat)) as int,
            (cur % (PAGE_SIZE as nat) + step - 1) as int,
        );
    }
    assert forall|pg: nat|
        va / (PAGE_SIZE as nat) <= pg <= ((cur + step - 1) as int) / (PAGE_SIZE as int)
            implies #[trigger] page_readable(s, pg) by {
        if pg == cur / (PAGE_SIZE as nat) {
        } else {
            assert(pg < cur / (PAGE_SIZE as nat) || pg > (cur + step - 1) as int / (
            PAGE_SIZE as int));
            if cur > va {
                assert(pg <= ((cur - 1) as int) / (PAGE_SIZE as int)) by {
                    lemma_div_is_ordered((cur - 1) as int, cur as int, PAGE_SIZE as int);
                    assert(pg < cur as nat / (PAGE_SIZE as nat));
                    assert((cur - 1) as int / (PAGE_SIZE as int) >= cur as int / (PAGE_SIZE as int)
                        - 1) by {
                        lemma_fundamental_div_mod_converse(
                            (cur - 1) as int,
                            PAGE_SIZE as int,
                            if cur % (PAGE_SIZE as nat) == 0 {
                                (cur / (PAGE_SIZE as nat) - 1) as int
                            } else {
                                (cur / (PAGE_SIZE as nat)) as int
                            },
                            if cur % (PAGE_SIZE as nat) == 0 {
                                (PAGE_SIZE - 1) as int
                            } else {
                                (cur % (PAGE_SIZE as nat) - 1) as int
                            },
                        );
                    }
                }
            } else {
                assert(cur == va);
                assert(va / (PAGE_SIZE as nat) == cur / (PAGE_SIZE as nat));
                assert(false);
            }
        }
    }
}


/// The kernel-visible byte store behind the physical frames: in the running
/// kernel this is RAM reached through the identity mapping; here it is an
/// explicit value so every access is bounds-checked and specified.
pub struct PhysMemory {
    first_ppn: u64,
    bytes: Vec<u8>,
}

impl PhysMemory {
    /// First physical address backed by this store.
    pub closed spec fn base(self) -> nat {
        (self.first_ppn * PAGE_SIZE) as nat
    }

    /// Bytes backed.
    pub closed spec fn size(self) -> nat {
        self.bytes@.len()
    }

    /// The physical address is backed.
    pub open spec fn contains_pa(self, pa: nat) -> bool {
        self.base() <= pa < self.base() + self.size()
    }

    /// The byte stored at a backed physical address.
    pub closed spec fn byte_at(self, pa: nat) -> u8 {
        self.bytes@[pa - self.base()]
    }

    /// Addresses stay representable.
    pub closed spec fn wf(self) -> bool {
        self.first_ppn * PAGE_SIZE + self.bytes@.len() <= u64::MAX
    }

    /// Memory starting at the given frame holding exactly these bytes.
    pub fn new(first: PhysPageNum, bytes: Vec<u8>) -> (r: Self)
        requires
            first.0 * PAGE_SIZE + bytes@.len() <= u64::MAX,
        ensures
            r.wf(),
            r.base() == first.0 * PAGE_SIZE,
            r.size() == bytes@.len(),
            forall|i: int|
                0 <= i < bytes@.len() ==> r.byte_at((first.0 * PAGE_SIZE + i) as nat) == bytes@[i],
    {
        PhysMemory { first_ppn: first.0, bytes }
    }

    /// Whether the address is backed.
    pub fn contains(&self, pa: u64) -> (r: bool)
        requires
            self.wf(),
        ensures
            r == self.contains_pa(pa as nat),
    {
        let b = self.first_ppn * PAGE_SIZE;
        pa >= b && pa - b < self.bytes.len() as u64
    }

    /// Reads one byte.
    pub fn read_byte(&self, pa: u64) -> (r: u8)
        requires
            self.wf(),
            self.contains_pa(pa as nat),
        ensures
            r == self.byte_at(pa as nat),
    {
        let off = pa - self.first_ppn * PAGE_SIZE;
        let n = self.bytes.len();
        proof {
            assert(off < n);
        }
        let idx = off as usize;
        self.bytes[idx]
    }

    /// Writes one byte.
    pub fn write_byte(&mut self, pa: u64, b: u8)
        requires
            old(self).wf(),
            old(self).contains_pa(pa as nat),
        ensures
            final(self).wf(),
            final(self).base() == old(self).base(),
            final(self).size() == old(self).size(),
            final(self).byte_at(pa as nat) == b,
            forall|q: nat|
                old(self).contains_pa(q) && q != pa ==> final(self).byte_at(q) == old(
                    self,
                ).byte_at(q),
    {
        let off = pa - self.first_ppn * PAGE_SIZE;
        let n = self.bytes.len();
        proof {
            assert(off < n);
        }
        let idx = off as usize;
        self.bytes.set(idx, b);
    }
}

/// Physical address of one user byte: where the walk maps its page, plus the
/// offset within the page.
pub open spec fn user_byte_pa(s: PagedAddrSpace, a: nat) -> nat {
    (s.lookup(vpn_key(a / (PAGE_SIZE as nat))).unwrap().ppn * PAGE_SIZE + a % (PAGE_SIZE as nat)) as nat
}

/// The whole user range is readable and every byte of it is backed.
pub open spec fn user_bytes_ok(s: PagedAddrSpace, mem: PhysMemory, va: nat, len: nat) -> bool {
    &&& user_range_readable(s, va, len)
    &&& forall|a: nat| va <= a < va + len ==> mem.contains_pa(#[trigger] user_byte_pa(s, a))
}

/// The bytes a readable, backed user range holds.
pub open spec fn user_bytes_spec(s: PagedAddrSpace, mem: PhysMemory, va: nat, len: nat) -> Seq<
    u8,
> {
    Seq::new(len, |i: int| mem.byte_at(user_byte_pa(s, (va + i) as nat)))
}

/// Reads the user range `[va, va + len)` through the page tables, walking
/// each byte's page; `None` exactly when some page under the range is
/// unmapped, lacks read access, or points outside the backed memory.
pub fn read_user_bytes(s: &PagedAddrSpace, mem: &PhysMemory, va: u64, len: u64) -> (r: Option<
    Vec<u8>,
>)
    requires
        s.wf(),
        mem.wf(),
        va + len <= u64::MAX,
    ensures
        r is Some <==> user_bytes_ok(*s, *mem, va as nat, len as nat),
        r is Some ==> r.unwrap()@ == user_bytes_spec(*s, *mem, va as nat, len as nat),
{
    let mut out: Vec<u8> = Vec::new();
    let mut i: u64 = 0;
    while i < len
        invariant
            s.wf(),
            mem.wf(),
            va + len <= u64::MAX,
            i <= len,
            out@.len() == i as nat,
            forall|j: int|
                0 <= j < i ==> out@[j] == mem.byte_at(user_byte_pa(*s, (va + j) as nat)),
            i > 0 ==> forall|pg: nat|
                (va as nat) / (PAGE_SIZE as nat) <= pg <= ((va + i - 1) as int) / (
                PAGE_SIZE as int) ==> #[trigger] page_readable(*s, pg),
            forall|a: nat| va <= a < va + i ==> mem.contains_pa(#[trigger] user_byte_pa(*s, a)),
        decreases len - i,
    {
        let a = va + i;
        let vpn = a / PAGE_SIZE;
        match s.translate(VirtPageNum(vpn)) {
            Some((p, fl)) => {
                if !fl.contains_any(FLAG_R) {
                    proof {
                        lemma_bad_page_witness(*s, va as nat, len as nat, a as nat);
                    }
                    return None;
                }
                proof {
                    lemma_lookup_bounded(*s, vpn_key(vpn as nat));
                }
                let pa = p.0 * PAGE_SIZE + a % PAGE_SIZE;
                proof {
                    assert(pa as nat == user_byte_pa(*s, a as nat));
                }
                if !mem.contains(pa) {
                    return None;
                }
                let b = mem.read_byte(pa);
                out.push(b);
                i = i + 1;
                proof {
                    lemma_readable_prefix_extends(*s, va as nat, len as nat, a as nat, 1);
                    assert forall|q: nat| va <= q < va + i implies mem.contains_pa(
                        #[trigger] user_byte_pa(*s, q),
                    ) by {
                        if q == a as nat {
                            assert(user_byte_pa(*s, q) == pa as nat);
                        }
                    }
                }
            },
            None => {
                proof {
                    lemma_bad_page_witness(*s, va as nat, len as nat, a as nat);
                }
                return None;
            },
        }
    }
    proof {
        assert(out@ =~= user_bytes_spec(*s, *mem, va as nat, len as nat));
    }
    Some(out)
}

} // verus!
