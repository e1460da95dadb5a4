//! The physical frame allocator and the owned frame box.
//!
//! One allocator manages the whole free physical range `[first, end)` as a
//! bump pointer plus a stack of freed frames. Every address space draws from
//! the same allocator; the surrounding program wraps it in a lock and passes
//! it by exclusive reference for each operation.

use vstd::prelude::*;
use crate::addr::PhysPageNum;

verus! {

/// The allocator has run out of physical frames.
#[derive(Clone, Copy, PartialEq, Eq, Structural, Debug)]
pub enum FrameAllocError {
    OutOfFrames,
}

/// Stack-based physical frame allocator over `[first, end)`.
pub struct StackFrameAllocator {
    first: u64,
    current: u64,
    end: u64,
    free: Vec<u64>,
}

impl StackFrameAllocator {
    /// First frame of the managed range.
    pub closed spec fn region_first(self) -> u64 {
        self.first
    }

    /// One past the last frame of the managed range.
    pub closed spec fn region_end(self) -> u64 {
        self.end
    }

    /// Structural invariant: the bump pointer stays in range and the free
    /// stack holds distinct frames that were handed out earlier.
    pub closed spec fn wf(self) -> bool {
        &&& self.first <= self.current <= self.end
        &&& forall|i: int|
            0 <= i < self.free@.len() ==> self.first <= #[trigger] self.free@[i] < self.current
        &&& forall|i: int, j: int|
            0 <= i < j < self.free@.len() ==> #[trigger] self.free@[i] != #[trigger] self.free@[j]
    }

    /// A frame is outstanding when it was allocated and not yet freed.
    /// Freeing a frame that is not outstanding is a caller bug.
    pub closed spec fn outstanding(self, f: u64) -> bool {
        self.first <= f < self.current && !self.free@.contains(f)
    }

    /// How many more allocations can succeed.
    pub closed spec fn available(self) -> nat {
        ((self.end - self.current) + self.free@.len()) as nat
    }

    /// A fresh allocator over `[from, to)`; every frame is available and none
    /// is outstanding.
    pub fn new(from: PhysPageNum, to: PhysPageNum) -> (r: Self)
        requires
            from.0 <= to.0,
        ensures
            r.wf(),
            r.region_first() == from.0,
            r.region_end() == to.0,
            r.available() == to.0 - from.0,
            forall|f: u64| !r.outstanding(f),
    {
        StackFrameAllocator { first: from.0, current: from.0, end: to.0, free: Vec::new() }
    }

    /// How many more allocations can succeed right now.
    pub fn available_frames(&self) -> (r: u64)
        requires
            self.wf(),
            self.available() <= u64::MAX,
        ensures
            r == self.available(),
    {
        (self.end - self.current) + self.free.len() as u64
    }

    /// Pops a previously freed frame if any, else bumps the pointer.
    pub fn allocate_frame(&mut self) -> (r: Result<PhysPageNum, FrameAllocError>)
        requires
            old(self).wf(),
        ensures
            final(self).wf(),
            r is Err <==> old(self).available() == 0,
            match r {
                Ok(p) => frame_alloc_ok(*old(self), *final(self), p.0),
                Err(e) => e == FrameAllocError::OutOfFrames && frame_state_eq(
                    *old(self),
                    *final(self),
                ),
            },
    {
        match self.free.pop() {
            Some(f) => {
                proof {
                    let fr0 = old(self).free@;
                    let fr1 = self.free@;
                    assert(fr0.contains(f)) by {
                        assert(fr0[fr0.len() - 1] == f);
                    }
                    assert(!fr1.contains(f)) by {
                        if fr1.contains(f) {
                            let i = choose|i: int| 0 <= i < fr1.len() && fr1[i] == f;
                            assert(fr0[i] == f && fr0[fr0.len() - 1] == f);
                        }
                    }
                    assert forall|g: u64| g != f implies (self.outstanding(g) == old(
                        self,
                    ).outstanding(g)) by {
                        if fr0.contains(g) {
                            let i = choose|i: int| 0 <= i < fr0.len() && fr0[i] == g;
                            assert(fr1[i] == g);
                        }
                        if fr1.contains(g) {
                            let i = choose|i: int| 0 <= i < fr1.len() && fr1[i] == g;
                            assert(fr0[i] == g);
                        }
                    }
                }
                Ok(PhysPageNum(f))
            },
            None => {
                if self.current < self.end {
                    let f = self.current;
                    self.current = self.current + 1;
                    proof {
                        assert(!old(self).free@.contains(f));
                    }
                    Ok(PhysPageNum(f))
                } else {
                    Err(FrameAllocError::OutOfFrames)
                }
            },
        }
    }

    /// Returns a frame to the free stack.
    pub fn deallocate_frame(&mut self, ppn: PhysPageNum)
        requires
            old(self).wf(),
            old(self).outstanding(ppn.0),
        ensures
            final(self).wf(),
            frame_free_ok(*old(self), *final(self), ppn.0),
    {
        proof {
            let fr0 = old(self).free@;
            assert forall|g: u64| g != ppn.0 implies (fr0.push(ppn.0).contains(g) == fr0.contains(
                g)) by {
                if fr0.push(ppn.0).contains(g) {
                    let i = choose|i: int| 0 <= i < fr0.push(ppn.0).len() && fr0.push(ppn.0)[i]
                        == g;
                    assert(fr0[i] == g);
                }
                if fr0.contains(g) {
                    let i = choose|i: int| 0 <= i < fr0.len() && fr0[i] == g;
                    assert(fr0.push(ppn.0)[i] == g);
                }
            }
            assert(fr0.push(ppn.0).contains(ppn.0)) by {
                assert(fr0.push(ppn.0)[fr0.len() as int] == ppn.0);
            }
        }
        self.free.push(ppn.0);
    }
}

/// Nothing observable about the allocator changed.
pub open spec fn frame_state_eq(pre: StackFrameAllocator, post: StackFrameAllocator) -> bool {
    &&& post.wf() == pre.wf()
    &&& post.region_first() == pre.region_first() && post.region_end() == pre.region_end()
    &&& post.available() == pre.available()
    &&& forall|g: u64| post.outstanding(g) == pre.outstanding(g)
}

/// One successful allocation: the returned frame lies in the managed range,
/// was not outstanding before and is after, nothing else changes, and one
/// fewer frame is available.
pub open spec fn frame_alloc_ok(
    pre: StackFrameAllocator,
    post: StackFrameAllocator,
    f: u64,
) -> bool {
    &&& pre.wf() && post.wf()
    &&& post.region_first() == pre.region_first() && post.region_end() == pre.region_end()
    &&& pre.region_first() <= f < pre.region_end()
    &&& !pre.outstanding(f) && post.outstanding(f)
    &&& forall|g: u64| g != f ==> post.outstanding(g) == pre.outstanding(g)
    &&& pre.available() > 0 && post.available() == pre.available() - 1
}

/// One deallocation: the frame stops being outstanding, nothing else changes,
/// and one more frame is available.
pub open spec fn frame_free_ok(
    pre: StackFrameAllocator,
    post: StackFrameAllocator,
    f: u64,
) -> bool {
    &&& pre.wf() && post.wf()
    &&& post.region_first() == pre.region_first() && post.region_end() == pre.region_end()
    &&& pre.outstanding(f) && !post.outstanding(f)
    &&& forall|g: u64| g != f ==> post.outstanding(g) == pre.outstanding(g)
    &&& post.available() == pre.available() + 1
}

/// Law: freeing an allocated frame restores the allocator exactly — the same
/// number of frames is again available and the same frames are outstanding,
/// so allocation capacity is conserved across any allocate/free round trip.
pub proof fn lemma_alloc_free_round_trip(
    s0: StackFrameAllocator,
    s1: StackFrameAllocator,
    s2: StackFrameAllocator,
    f: u64,
)
    requires
        frame_alloc_ok(s0, s1, f),
        frame_free_ok(s1, s2, f),
    ensures
        s2.available() == s0.available(),
        forall|g: u64| s2.outstanding(g) == s0.outstanding(g),
{
}

/// Law: two allocations with no free in between hand out distinct frames.
pub proof fn lemma_allocations_distinct(
    s0: StackFrameAllocator,
    s1: StackFrameAllocator,
    s2: StackFrameAllocator,
    f1: u64,
    f2: u64,
)
    requires
        frame_alloc_ok(s0, s1, f1),
        frame_alloc_ok(s1, s2, f2),
    ensures
        f1 != f2,
{
}


/// A run of allocations, each step from the state the one before left.
pub open spec fn frame_alloc_trace(states: Seq<StackFrameAllocator>, frames: Seq<u64>) -> bool {
    &&& states.len() == frames.len() + 1
    &&& forall|i: int|
        0 <= i < frames.len() ==> frame_alloc_ok(states[i], states[i + 1], #[trigger] frames[i])
}

/// A run of deallocations.
pub open spec fn frame_free_trace(states: Seq<StackFrameAllocator>, frames: Seq<u64>) -> bool {
    &&& states.len() == frames.len() + 1
    &&& forall|i: int|
        0 <= i < frames.len() ==> frame_free_ok(states[i], states[i + 1], #[trigger] frames[i])
}

/// Law: a run of allocations succeeds at most `available` many times — over
/// `[from, to)` that is at most `to - from` — loses one available frame per
/// step, hands out only frames that were not outstanding at the start, and
/// ends with exactly the handed-out frames added to the outstanding ones.
pub proof fn lemma_alloc_trace_effect(states: Seq<StackFrameAllocator>, frames: Seq<u64>)
    requires
        frame_alloc_trace(states, frames),
    ensures
        frames.len() <= states[0].available(),
        states.last().available() == states[0].available() - frames.len(),
        forall|g: u64| #[trigger]
            states.last().outstanding(g) <==> (states[0].outstanding(g) || frames.contains(g)),
        forall|i: int| 0 <= i < frames.len() ==> !states[0].outstanding(#[trigger] frames[i]),
    decreases frames.len(),
{
    if frames.len() == 0 {
        assert(states.last() == states[0]);
        assert forall|g: u64|
            states.last().outstanding(g) <==> (states[0].outstanding(g) || frames.contains(
                g,
            )) by {
            if frames.contains(g) {
                let i = choose|i: int| 0 <= i < frames.len() && frames[i] == g;
            }
        }
    } else {
        let states2 = states.subrange(1, states.len() as int);
        let frames2 = frames.subrange(1, frames.len() as int);
        assert(frame_alloc_trace(states2, frames2)) by {
            assert forall|i: int| 0 <= i < frames2.len() implies frame_alloc_ok(
                states2[i],
                states2[i + 1],
                #[trigger] frames2[i],
            ) by {
                assert(frame_alloc_ok(states[i + 1], states[i + 2], frames[i + 1]));
            }
        }
        lemma_alloc_trace_effect(states2, frames2);
        assert(frame_alloc_ok(states[0], states[1], frames[0]));
        assert(states2[0] == states[1]);
        assert(states2.last() == states.last());
        assert forall|g: u64|
            states.last().outstanding(g) <==> (states[0].outstanding(g) || frames.contains(
                g,
            )) by {
            assert(states2.last().outstanding(g) <==> (states2[0].outstanding(g)
                || frames2.contains(g)));
            assert(states.last().outstanding(g) <==> (states[1].outstanding(g)
                || frames2.contains(g)));
            if frames.contains(g) {
                let i = choose|i: int| 0 <= i < frames.len() && frames[i] == g;
                if i > 0 {
                    assert(frames2[i - 1] == g);
                }
            }
            if frames2.contains(g) {
                let i = choose|i: int| 0 <= i < frames2.len() && frames2[i] == g;
                assert(frames[i + 1] == g);
            }
            if g == frames[0] {
                assert(frames.contains(g));
            }
        }
        assert forall|i: int| 0 <= i < frames.len() implies !states[0].outstanding(
            #[trigger] frames[i],
        ) by {
            if i > 0 {
                assert(!states2[0].outstanding(frames2[i - 1]));
                assert(states[1].outstanding(frames[0]));
                if frames[i] == frames[0] {
                    assert(states[1].outstanding(frames2[i - 1]));
                }
            }
        }
    }
}

/// Law: a run of deallocations regains one available frame per step and ends
/// with exactly the returned frames removed from the outstanding ones.
pub proof fn lemma_free_trace_effect(states: Seq<StackFrameAllocator>, frames: Seq<u64>)
    requires
        frame_free_trace(states, frames),
    ensures
        states.last().available() == states[0].available() + frames.len(),
        forall|g: u64| #[trigger]
            states.last().outstanding(g) <==> (states[0].outstanding(g) && !frames.contains(g)),
    decreases frames.len(),
{
    if frames.len() == 0 {
        assert(states.last() == states[0]);
        assert forall|g: u64|
            states.last().outstanding(g) <==> (states[0].outstanding(g) && !frames.contains(
                g,
            )) by {
            if frames.contains(g) {
                let i = choose|i: int| 0 <= i < frames.len() && frames[i] == g;
            }
        }
    } else {
        let states2 = states.subrange(1, states.len() as int);
        let frames2 = frames.subrange(1, frames.len() as int);
        assert(frame_free_trace(states2, frames2)) by {
            assert forall|i: int| 0 <= i < frames2.len() implies frame_free_ok(
                states2[i],
                states2[i + 1],
                #[trigger] frames2[i],
            ) by {
                assert(frame_free_ok(states[i + 1], states[i + 2], frames[i + 1]));
            }
        }
        lemma_free_trace_effect(states2, frames2);
        assert(frame_free_ok(states[0], states[1], frames[0]));
        assert(states2[0] == states[1]);
        assert(states2.last() == states.last());
        assert forall|g: u64|
            states.last().outstanding(g) <==> (states[0].outstanding(g) && !frames.contains(
                g,
            )) by {
            assert(states2.last().outstanding(g) <==> (states2[0].outstanding(g)
                && !frames2.contains(g)));
            assert(states.last().outstanding(g) <==> (states[1].outstanding(g)
                && !frames2.contains(g)));
            if frames.contains(g) {
                let i = choose|i: int| 0 <= i < frames.len() && frames[i] == g;
                if i > 0 {
                    assert(frames2[i - 1] == g);
                }
            }
            if frames2.contains(g) {
                let i = choose|i: int| 0 <= i < frames2.len() && frames2[i] == g;
                assert(frames[i + 1] == g);
            }
            if g == frames[0] {
                assert(frames.contains(g));
            }
        }
    }
}

/// Law: allocating any number of frames and then freeing those same frames,
/// in any order, restores the allocator exactly — the same number of frames
/// is available again and the same frames are outstanding.
pub proof fn lemma_allocator_round_trip(
    up: Seq<StackFrameAllocator>,
    down: Seq<StackFrameAllocator>,
    frames_up: Seq<u64>,
    frames_down: Seq<u64>,
)
    requires
        frame_alloc_trace(up, frames_up),
        frame_free_trace(down, frames_down),
        down[0] == up.last(),
        frames_down.len() == frames_up.len(),
        forall|g: u64| frames_down.contains(g) <==> frames_up.contains(g),
    ensures
        down.last().available() == up[0].available(),
        forall|g: u64| down.last().outstanding(g) <==> up[0].outstanding(g),
{
    lemma_alloc_trace_effect(up, frames_up);
    lemma_free_trace_effect(down, frames_down);
    assert forall|g: u64| down.last().outstanding(g) <==> up[0].outstanding(g) by {
        if up[0].outstanding(g) && frames_up.contains(g) {
            let i = choose|i: int| 0 <= i < frames_up.len() && frames_up[i] == g;
            assert(!up[0].outstanding(frames_up[i]));
        }
    }
}

/// Owner of exactly one allocated frame. The real kernel zeroes the frame's
/// bytes on allocation and returns it to the allocator when the box is
/// dropped; here the return is the explicit `release_in`, since the allocator
/// is not reachable from a destructor.
pub struct FrameBox {
    ppn: u64,
}

impl FrameBox {
    /// The owned frame.
    pub closed spec fn ppn_spec(self) -> u64 {
        self.ppn
    }

    /// Allocates one frame and takes ownership of it.
    pub fn try_new_in(alloc: &mut StackFrameAllocator) -> (r: Result<FrameBox, FrameAllocError>)
        requires
            old(alloc).wf(),
        ensures
            final(alloc).wf(),
            r is Err <==> old(alloc).available() == 0,
            match r {
                Ok(b) => frame_alloc_ok(*old(alloc), *final(alloc), b.ppn_spec()),
                Err(e) => e == FrameAllocError::OutOfFrames && frame_state_eq(
                    *old(alloc),
                    *final(alloc),
                ),
            },
    {
        match alloc.allocate_frame() {
            Ok(p) => Ok(FrameBox { ppn: p.0 }),
            Err(e) => Err(e),
        }
    }

    /// The frame's page number, for mapping it somewhere.
    pub fn phys_page_num(&self) -> (r: PhysPageNum)
        ensures
            r.0 == self.ppn_spec(),
    {
        PhysPageNum(self.ppn)
    }

    /// Gives the frame back; plays the part of dropping the box.
    pub fn release_in(self, alloc: &mut StackFrameAllocator)
        requires
            old(alloc).wf(),
            old(alloc).outstanding(self.ppn_spec()),
        ensures
            final(alloc).wf(),
            frame_free_ok(*old(alloc), *final(alloc), self.ppn_spec()),
    {
        alloc.deallocate_frame(PhysPageNum(self.ppn));
    }
}

} // verus!
