//! The address-space-identifier allocator.
//!
//! The hardware's implemented ASID width is discovered by the surrounding
//! program (writing all-ones to the satp field and reading back); the
//! allocator then hands out identifiers in `[1, max_asid]`. Identifier 0 is
//! reserved for global mappings and never allocated.

use vstd::prelude::*;

verus! {

/// Every identifier in `[1, max_asid]` is taken.
#[derive(Clone, Copy, PartialEq, Eq, Structural, Debug)]
pub enum AsidAllocError {
    NoMoreAsids,
}

/// Stack-based allocator of address-space identifiers.
pub struct StackAsidAllocator {
    max_asid: u64,
    next: u64,
    free: Vec<u64>,
}

impl StackAsidAllocator {
    /// The largest identifier this allocator may hand out.
    pub closed spec fn max_asid_spec(self) -> u64 {
        self.max_asid
    }

    /// Structural invariant, mirroring the frame allocator's.
    pub closed spec fn wf(self) -> bool {
        &&& 1 <= self.next <= self.max_asid + 1
        &&& self.max_asid < u64::MAX
        &&& forall|i: int| 0 <= i < self.free@.len() ==> 1 <= #[trigger] self.free@[i] < self.next
        &&& forall|i: int, j: int|
            0 <= i < j < self.free@.len() ==> #[trigger] self.free@[i] != #[trigger] self.free@[j]
    }

    /// An identifier is live until it is deallocated.
    pub closed spec fn outstanding(self, a: u64) -> bool {
        1 <= a < self.next && !self.free@.contains(a)
    }

    /// How many more allocations can succeed.
    pub closed spec fn available(self) -> nat {
        ((self.max_asid + 1 - self.next) + self.free@.len()) as nat
    }

    /// A fresh allocator over `[1, max_asid]`.
    pub fn new(max_asid: u64) -> (r: Self)
        requires
            max_asid < u64::MAX,
        ensures
            r.wf(),
            r.max_asid_spec() == max_asid,
            r.available() == max_asid,
            forall|a: u64| !r.outstanding(a),
    {
        StackAsidAllocator { max_asid, next: 1, free: Vec::new() }
    }

    /// How many more allocations can succeed right now.
    pub fn available_asids(&self) -> (r: u64)
        requires
            self.wf(),
            self.available() <= u64::MAX,
        ensures
            r == self.available(),
    {
        (self.max_asid + 1 - self.next) + self.free.len() as u64
    }

    /// Hands out a fresh identifier, at least 1.
    pub fn allocate_asid(&mut self) -> (r: Result<u64, AsidAllocError>)
        requires
            old(self).wf(),
        ensures
            final(self).wf(),
            r is Err <==> old(self).available() == 0,
            match r {
                Ok(a) => asid_alloc_ok(*old(self), *final(self), a),
                Err(e) => e == AsidAllocError::NoMoreAsids && asid_state_eq(
                    *old(self),
                    *final(self),
                ),
            },
    {
        match self.free.pop() {
            Some(a) => {
                proof {
                    let fr0 = old(self).free@;
                    let fr1 = self.free@;
                    assert(fr0.contains(a)) by {
                        assert(fr0[fr0.len() - 1] == a);
                    }
                    assert(!fr1.contains(a)) by {
                        if fr1.contains(a) {
                            let i = choose|i: int| 0 <= i < fr1.len() && fr1[i] == a;
                            assert(fr0[i] == a && fr0[fr0.len() - 1] == a);
                        }
                    }
                    assert forall|g: u64| g != a implies (self.outstanding(g) == old(
                        self,
                    ).outstanding(g)) by {
                        if fr0.contains(g) {
                            let i = choose|i: int| 0 <= i < fr0.len() && fr0[i] == g;
                            assert(fr1[i] == g);
                        }
                        if fr1.contains(g) {
                            let i = choose|i: int| 0 <= i < fr1.len() && fr1[i] == g;
                            assert(fr0[i] == g);
                        }
                    }
                }
                Ok(a)
            },
            None => {
                if self.next <= self.max_asid {
                    let a = self.next;
                    self.next = self.next + 1;
                    proof {
                        assert(!old(self).free@.contains(a));
                    }
                    Ok(a)
                } else {
                    Err(AsidAllocError::NoMoreAsids)
                }
            },
        }
    }

    /// Returns an identifier so it can be handed out again.
    pub fn deallocate_asid(&mut self, asid: u64)
        requires
            old(self).wf(),
            old(self).outstanding(asid),
        ensures
            final(self).wf(),
            asid_free_ok(*old(self), *final(self), asid),
    {
        proof {
            let fr0 = old(self).free@;
            assert forall|g: u64| g != asid implies (fr0.push(asid).contains(g) == fr0.contains(
                g)) by {
                if fr0.push(asid).contains(g) {
                    let i = choose|i: int| 0 <= i < fr0.push(asid).len() && fr0.push(asid)[i] == g;
                    assert(fr0[i] == g);
                }
                if fr0.contains(g) {
                    let i = choose|i: int| 0 <= i < fr0.len() && fr0[i] == g;
                    assert(fr0.push(asid)[i] == g);
                }
            }
            assert(fr0.push(asid).contains(asid)) by {
                assert(fr0.push(asid)[fr0.len() as int] == asid);
            }
        }
        self.free.push(asid);
    }
}

/// Nothing observable about the allocator changed.
pub open spec fn asid_state_eq(pre: StackAsidAllocator, post: StackAsidAllocator) -> bool {
    &&& post.wf() == pre.wf()
    &&& post.max_asid_spec() == pre.max_asid_spec()
    &&& post.available() == pre.available()
    &&& forall|g: u64| post.outstanding(g) == pre.outstanding(g)
}

/// One successful allocation: the identifier lies in `[1, max_asid]`, was not
/// outstanding before and is after, and nothing else changes.
pub open spec fn asid_alloc_ok(
    pre: StackAsidAllocator,
    post: StackAsidAllocator,
    a: u64,
) -> bool {
    &&& pre.wf() && post.wf()
    &&& post.max_asid_spec() == pre.max_asid_spec()
    &&& 1 <= a <= pre.max_asid_spec()
    &&& !pre.outstanding(a) && post.outstanding(a)
    &&& forall|g: u64| g != a ==> post.outstanding(g) == pre.outstanding(g)
    &&& pre.available() > 0 && post.available() == pre.available() - 1
}

/// One deallocation.
pub open spec fn asid_free_ok(pre: StackAsidAllocator, post: StackAsidAllocator, a: u64) -> bool {
    &&& pre.wf() && post.wf()
    &&& post.max_asid_spec() == pre.max_asid_spec()
    &&& pre.outstanding(a) && !post.outstanding(a)
    &&& forall|g: u64| g != a ==> post.outstanding(g) == pre.outstanding(g)
    &&& post.available() == pre.available() + 1
}

/// Law: successive allocations return distinct identifiers, each in
/// `[1, max_asid]`.
pub proof fn lemma_asids_distinct(
    s0: StackAsidAllocator,
    s1: StackAsidAllocator,
    s2: StackAsidAllocator,
    a1: u64,
    a2: u64,
)
    requires
        asid_alloc_ok(s0, s1, a1),
        asid_alloc_ok(s1, s2, a2),
    ensures
        a1 != a2,
        1 <= a1 <= s0.max_asid_spec(),
        1 <= a2 <= s0.max_asid_spec(),
{
}

} // verus!
