//! Bring-up of the two address spaces on the fixed QEMU-virt memory map:
//! identity maps for the kernel, the user program image, the user stack, and
//! the trampoline text and data pages at the top of the virtual space.
//!
//! Reading the trampoline's linker symbols, programming satp and stvec, and
//! the trampoline's own code are the surrounding program's part; here the
//! layouts are computed and the tables built, with the resulting mappings
//! stated exactly.

use vstd::prelude::*;
use vstd::arithmetic::div_mod::{
    lemma_fundamental_div_mod, lemma_fundamental_div_mod_converse, lemma_sub_mod_noop,
};
use crate::addr::{
    vpn_key, PhysAddr, PhysPageNum, Sv39, Sv39Flags, VirtAddr, VirtPageNum, FLAG_R, FLAG_RWX,
    FLAG_U, FLAG_V, FLAG_W, FLAG_X, PAGE_SIZE, PPN_LIMIT, VPN_LIMIT,
};
use crate::frame::{FrameBox, StackFrameAllocator};
use crate::space::{
    lemma_not_owned, lemma_owned_by_preserved, LeafEntry, PagedAddrSpace, SpaceError,
};

verus! {

/// First page of the user program image, physically and virtually.
pub const USER_PROGRAM_VPN: u64 = 0x80400;

/// Pages of the user program image (128 KiB).
pub const USER_PROGRAM_PAGES: u64 = 32;

/// First page of the user stack.
pub const USER_STACK_VPN: u64 = 0x60000;

/// Pages of the user stack; it grows down from the end of the range.
pub const USER_STACK_PAGES: u64 = 5;

/// First page of the free physical area, identity-mapped too.
pub const FREE_AREA_VPN: u64 = 0x80420;

/// Pages of the free physical area below 0x80800000.
pub const FREE_AREA_PAGES: u64 = 992;

/// First page of the kernel's identity map (firmware and kernel image).
pub const KERNEL_BASE_VPN: u64 = 0x80000;

/// Pages of the kernel's identity map (4 MiB).
pub const KERNEL_BASE_PAGES: u64 = 1024;

/// A linear run of pages is mapped: `key0 + k` goes to frame `ppn0 + k` with
/// exactly these flag bits.
pub open spec fn mapped_linear(
    s: PagedAddrSpace,
    key0: nat,
    ppn0: nat,
    count: nat,
    bits: u8,
) -> bool {
    forall|k: nat|
        key0 <= k < key0 + count ==> s.lookup(k) == Some(
            LeafEntry { ppn: (ppn0 + (k - key0)) as u64, flags: Sv39Flags { bits } },
        )
}

/// Page `key0 + i` is mapped to the `i`-th of these owned frames, with
/// exactly these flag bits.
pub open spec fn mapped_frame_list(
    s: PagedAddrSpace,
    key0: nat,
    frames: Seq<FrameBox>,
    bits: u8,
) -> bool {
    forall|i: int|
        0 <= i < frames.len() ==> s.lookup((key0 + i) as nat) == Some(
            LeafEntry { ppn: frames[i].ppn_spec(), flags: Sv39Flags { bits } },
        )
}

/// Where the trampoline text lands: its physical frames sit at the linker
/// symbols handed in, its virtual pages at the very top of the address space.
/// Returns the first virtual page, the first physical frame, and the page
/// count.
pub fn get_trampoline_text_paging_config(trampoline_pa_start: u64, trampoline_pa_end: u64) -> (r: (
    VirtPageNum,
    PhysPageNum,
    u64,
))
    requires
        trampoline_pa_start < trampoline_pa_end,
        trampoline_pa_start % PAGE_SIZE == 0,
        trampoline_pa_end % PAGE_SIZE == 0,
        (trampoline_pa_end - trampoline_pa_start) / (PAGE_SIZE as int) <= VPN_LIMIT,
    ensures
        r.0.0 == (u64::MAX - (trampoline_pa_end - trampoline_pa_start) + 1) / (PAGE_SIZE as int),
        r.1.0 == trampoline_pa_start / PAGE_SIZE,
        r.2 == (trampoline_pa_end - trampoline_pa_start) / (PAGE_SIZE as int),
        1 <= r.2,
        vpn_key(r.0.0 as nat) == VPN_LIMIT - r.2,
{
    let len = trampoline_pa_end - trampoline_pa_start;
    let va_start = u64::MAX - len + 1;
    let vpn = VirtAddr(va_start).page_number();
    let ppn = PhysAddr(trampoline_pa_start).page_number();
    let n = len / PAGE_SIZE;
    proof {
        lemma_sub_mod_noop(
            trampoline_pa_end as int,
            trampoline_pa_start as int,
            PAGE_SIZE as int,
        );
        assert(len % PAGE_SIZE == 0);
        lemma_fundamental_div_mod(len as int, PAGE_SIZE as int);
        assert(len == n * PAGE_SIZE);
        assert(va_start as int == (0x10_0000_0000_0000 - n) * (PAGE_SIZE as int)) by {
            assert(va_start as int == 0x1_0000_0000_0000_0000 - n * (PAGE_SIZE as int));
        }
        lemma_fundamental_div_mod_converse(
            va_start as int,
            PAGE_SIZE as int,
            0x10_0000_0000_0000 - n,
            0,
        );
        assert(vpn.0 == 0x10_0000_0000_0000 - n);
        assert(vpn.0 as int == 0x1ff_ffff * (VPN_LIMIT as int) + (VPN_LIMIT - n));
        lemma_fundamental_div_mod_converse(
            vpn.0 as int,
            VPN_LIMIT as int,
            0x1ff_ffff,
            (VPN_LIMIT - n) as int,
        );
    }
    (vpn, ppn, n)
}

/// Pages the resume context occupies: the size rounded up to whole frames.
pub fn trampoline_data_frame_count(data_len: u64) -> (r: u64)
    requires
        data_len > 0,
    ensures
        r == (data_len - 1) / (PAGE_SIZE as int) + 1,
{
    (data_len - 1) / PAGE_SIZE + 1
}

/// Maps page `start_vpn + i` to the `i`-th frame of the list. The frames stay
/// owned by the caller (they back shared data, not tables); this is how the
/// trampoline data pages get into a second address space.
pub fn map_shared_frames(
    space: &mut PagedAddrSpace,
    alloc: &mut StackFrameAllocator,
    start_vpn: VirtPageNum,
    frames: &Vec<FrameBox>,
    flags: Sv39Flags,
) -> (r: Result<(), SpaceError>)
    requires
        old(space).wf(),
        old(alloc).wf(),
        old(space).owned_by(*old(alloc)),
        flags.has(FLAG_RWX),
        vpn_key(start_vpn.0 as nat) + frames@.len() <= VPN_LIMIT,
        forall|i: int| 0 <= i < frames@.len() ==> (#[trigger] frames@[i].ppn_spec()) < PPN_LIMIT,
        forall|k: nat|
            vpn_key(start_vpn.0 as nat) <= k < vpn_key(start_vpn.0 as nat) + frames@.len() ==> old(
                space,
            ).lookup(k) is None,
    ensures
        final(space).wf(),
        final(alloc).wf(),
        final(space).owned_by(*final(alloc)),
        final(alloc).region_first() == old(alloc).region_first(),
        final(alloc).region_end() == old(alloc).region_end(),
        final(space).root_ppn_spec() == old(space).root_ppn_spec(),
        match r {
            Ok(()) => {
                &&& mapped_frame_list(
                    *final(space),
                    vpn_key(start_vpn.0 as nat),
                    frames@,
                    flags.bits | FLAG_V,
                )
                &&& forall|k: nat|
                    k < VPN_LIMIT && !(vpn_key(start_vpn.0 as nat) <= k < vpn_key(
                        start_vpn.0 as nat,
                    ) + frames@.len()) ==> final(space).lookup(k) == old(space).lookup(k)
            },
            Err(e) => e == SpaceError::OutOfFrames && final(alloc).available() == 0,
        },
{
    let ghost key0 = vpn_key(start_vpn.0 as nat);
    let key_base: u64 = start_vpn.0 % VPN_LIMIT;
    let n = frames.len();
    let mut i: usize = 0;
    while i < n
        invariant
            i <= n,
            n == frames@.len(),
            key_base == key0,
            key0 == vpn_key(start_vpn.0 as nat),
            key0 + n <= VPN_LIMIT,
            space.wf(),
            alloc.wf(),
            space.owned_by(*alloc),
            alloc.region_first() == old(alloc).region_first(),
            alloc.region_end() == old(alloc).region_end(),
            space.root_ppn_spec() == old(space).root_ppn_spec(),
            flags.has(FLAG_RWX),
            forall|j: int| 0 <= j < n ==> (#[trigger] frames@[j].ppn_spec()) < PPN_LIMIT,
            forall|k: nat| key0 <= k < key0 + n ==> old(space).lookup(k) is None,
            forall|k: nat|
                k < VPN_LIMIT && !(key0 <= k < key0 + i) ==> space.lookup(k) == old(space).lookup(
                    k,
                ),
            forall|j: int|
                0 <= j < i ==> space.lookup((key0 + j) as nat) == Some(
                    LeafEntry {
                        ppn: frames@[j].ppn_spec(),
                        flags: Sv39Flags { bits: flags.bits | FLAG_V },
                    },
                ),
        decreases n - i,
    {
        let f = frames[i].phys_page_num();
        let ghost pre = *space;
        match space.allocate_map(alloc, VirtPageNum(key_base + i as u64), f, 1, flags) {
            Ok(()) => {
                proof {
                    assert(vpn_key((key_base + i as u64) as nat) == key0 + i);
                }
            },
            Err(e) => {
                proof {
                    if e == SpaceError::AlreadyMapped {
                        let w = choose|k: nat|
                            vpn_key((key_base + i as u64) as nat) <= k < vpn_key(
                                (key_base + i as u64) as nat,
                            ) + 1 && pre.lookup(k) is Some;
                        assert(pre.lookup(w) == old(space).lookup(w));
                    }
                }
                return Err(SpaceError::OutOfFrames);
            },
        }
        i = i + 1;
    }
    Ok(())
}

/// Builds the user task's address space: trampoline text executable but not
/// user-visible, the program image identity-mapped for the user, a stack of
/// fresh frames below it, and the free area kept identity-mapped during
/// bring-up. Returns the space, the stack's frames, and the
/// user's initial stack pointer (the high end of the stack).
pub fn create_sv39_app_address_space(
    alloc: &mut StackFrameAllocator,
    tramp_vpn: VirtPageNum,
    tramp_ppn: PhysPageNum,
    tramp_pages: u64,
) -> (r: Result<(PagedAddrSpace, Vec<FrameBox>, VirtAddr), SpaceError>)
    requires
        old(alloc).wf(),
        old(alloc).region_first() >= 0x80420,
        old(alloc).region_end() <= 0x80800,
        1 <= tramp_pages,
        vpn_key(tramp_vpn.0 as nat) + tramp_pages == VPN_LIMIT,
        vpn_key(tramp_vpn.0 as nat) > 0x80800,
        tramp_ppn.0 + tramp_pages <= PPN_LIMIT,
    ensures
        final(alloc).wf(),
        final(alloc).region_first() == old(alloc).region_first(),
        final(alloc).region_end() == old(alloc).region_end(),
        match r {
            Ok((s, stack, sp)) => {
                &&& s.wf()
                &&& s.owned_by(*final(alloc))
                &&& mapped_linear(
                    s,
                    vpn_key(tramp_vpn.0 as nat),
                    tramp_ppn.0 as nat,
                    tramp_pages as nat,
                    FLAG_R | FLAG_X | FLAG_V,
                )
                &&& mapped_linear(
                    s,
                    USER_PROGRAM_VPN as nat,
                    USER_PROGRAM_VPN as nat,
                    USER_PROGRAM_PAGES as nat,
                    FLAG_R | FLAG_W | FLAG_X | FLAG_U | FLAG_V,
                )
                &&& stack@.len() == USER_STACK_PAGES
                &&& mapped_frame_list(
                    s,
                    USER_STACK_VPN as nat,
                    stack@,
                    FLAG_R | FLAG_W | FLAG_U | FLAG_V,
                )
                &&& mapped_linear(
                    s,
                    FREE_AREA_VPN as nat,
                    FREE_AREA_VPN as nat,
                    FREE_AREA_PAGES as nat,
                    FLAG_R | FLAG_W | FLAG_X | FLAG_U | FLAG_V,
                )
                &&& forall|i: int|
                    0 <= i < stack@.len() ==> final(alloc).outstanding(
                        #[trigger] stack@[i].ppn_spec(),
                    ) && !s.owns(stack@[i].ppn_spec())
                &&& forall|k: nat|
                    k < VPN_LIMIT && !(vpn_key(tramp_vpn.0 as nat) <= k < VPN_LIMIT) && !(
                    USER_PROGRAM_VPN <= k < USER_PROGRAM_VPN + USER_PROGRAM_PAGES) && !(
                    USER_STACK_VPN <= k < USER_STACK_VPN + USER_STACK_PAGES) && !(FREE_AREA_VPN <= k
                        < FREE_AREA_VPN + FREE_AREA_PAGES) ==> s.lookup(k) is None
                &&& sp.0 == 0x60005000
            },
            Err(e) => e == SpaceError::OutOfFrames && final(alloc).available() == 0,
        },
{
    proof {
        lemma_flag_values();
    }
    let ghost tkey = vpn_key(tramp_vpn.0 as nat);
    let mut addr_space = match PagedAddrSpace::try_new_in(Sv39, alloc) {
        Ok(s) => s,
        Err(_) => {
            return Err(SpaceError::OutOfFrames);
        },
    };
    // Trampoline code pages: executable for the supervisor only; `sret` lands
    // at the user entry point, not here.
    let ghost pre1 = addr_space;
    match addr_space.allocate_map(
        alloc,
        tramp_vpn,
        tramp_ppn,
        tramp_pages,
        Sv39Flags::new(FLAG_R | FLAG_X),
    ) {
        Ok(()) => {},
        Err(e) => {
            proof {
                lemma_no_overlap(pre1, tkey, tramp_pages as nat, e);
            }
            return Err(SpaceError::OutOfFrames);
        },
    }
    // The user program image.
    let ghost pre2 = addr_space;
    match addr_space.allocate_map(
        alloc,
        VirtAddr(0x80400000).page_number(),
        PhysAddr(0x80400000).page_number(),
        USER_PROGRAM_PAGES,
        Sv39Flags::new(FLAG_R | FLAG_W | FLAG_X | FLAG_U),
    ) {
        Ok(()) => {},
        Err(e) => {
            proof {
                lemma_no_overlap(pre2, USER_PROGRAM_VPN as nat, USER_PROGRAM_PAGES as nat, e);
            }
            return Err(SpaceError::OutOfFrames);
        },
    }
    // The user stack, five fresh frames.
    let mut stack_frames: Vec<FrameBox> = Vec::new();
    let mut i: u64 = 0;
    while i < USER_STACK_PAGES
        invariant
            i <= USER_STACK_PAGES,
            stack_frames@.len() == i,
            addr_space.wf(),
            alloc.wf(),
            addr_space.owned_by(*alloc),
            alloc.region_first() == old(alloc).region_first(),
            alloc.region_end() == old(alloc).region_end(),
            old(alloc).region_first() >= 0x80420,
            old(alloc).region_end() <= 0x80800,
            tkey == vpn_key(tramp_vpn.0 as nat),
            tkey + tramp_pages == VPN_LIMIT,
            tkey > 0x80800,
            tramp_ppn.0 + tramp_pages <= PPN_LIMIT,
            mapped_linear(
                addr_space,
                tkey,
                tramp_ppn.0 as nat,
                tramp_pages as nat,
                FLAG_R | FLAG_X | FLAG_V,
            ),
            mapped_linear(
                addr_space,
                USER_PROGRAM_VPN as nat,
                USER_PROGRAM_VPN as nat,
                USER_PROGRAM_PAGES as nat,
                FLAG_R | FLAG_W | FLAG_X | FLAG_U | FLAG_V,
            ),
            mapped_frame_list(
                addr_space,
                USER_STACK_VPN as nat,
                stack_frames@,
                FLAG_R | FLAG_W | FLAG_U | FLAG_V,
            ),
            forall|j: int|
                0 <= j < stack_frames@.len() ==> alloc.outstanding(
                    #[trigger] stack_frames@[j].ppn_spec(),
                ) && !addr_space.owns(stack_frames@[j].ppn_spec()),
            forall|k: nat|
                k < VPN_LIMIT && !(tkey <= k < VPN_LIMIT) && !(USER_PROGRAM_VPN <= k
                    < USER_PROGRAM_VPN + USER_PROGRAM_PAGES) && !(USER_STACK_VPN <= k
                    < USER_STACK_VPN + i) ==> addr_space.lookup(k) is None,
        decreases USER_STACK_PAGES - i,
    {
        proof {
            lemma_flag_values();
        }
        let ghost apre = *alloc;
        let frame_box = match FrameBox::try_new_in(alloc) {
            Ok(b) => b,
            Err(_) => {
                return Err(SpaceError::OutOfFrames);
            },
        };
        proof {
            lemma_owned_by_preserved(addr_space, apre, *alloc);
            lemma_not_owned(addr_space, apre, frame_box.ppn_spec());
            assert forall|j: int| 0 <= j < stack_frames@.len() implies alloc.outstanding(
                #[trigger] stack_frames@[j].ppn_spec(),
            ) by {
                assert(apre.outstanding(stack_frames@[j].ppn_spec()));
            }
        }
        let f = frame_box.phys_page_num();
        let ghost pre = addr_space;
        let ghost apre2 = *alloc;
        match addr_space.allocate_map(
            alloc,
            VirtPageNum(USER_STACK_VPN + i),
            f,
            1,
            Sv39Flags::new(FLAG_R | FLAG_W | FLAG_U),
        ) {
            Ok(()) => {},
            Err(e) => {
                proof {
                    lemma_no_overlap(pre, (USER_STACK_VPN + i) as nat, 1, e);
                }
                return Err(SpaceError::OutOfFrames);
            },
        }
        proof {
            assert(vpn_key((USER_STACK_VPN + i) as nat) == USER_STACK_VPN + i);
            assert forall|j: int| 0 <= j < stack_frames@.len() implies alloc.outstanding(
                #[trigger] stack_frames@[j].ppn_spec(),
            ) && !addr_space.owns(stack_frames@[j].ppn_spec()) by {
                assert(apre2.outstanding(stack_frames@[j].ppn_spec()));
                assert(!pre.owns(stack_frames@[j].ppn_spec()));
            }
            assert(alloc.outstanding(frame_box.ppn_spec()) && !addr_space.owns(
                frame_box.ppn_spec(),
            )) by {
                assert(apre2.outstanding(frame_box.ppn_spec()));
            }
        }
        stack_frames.push(frame_box);
        i = i + 1;
    }
    // The free physical area, kept visible during bring-up.
    let ghost pre3 = addr_space;
    let ghost apre3 = *alloc;
    match addr_space.allocate_map(
        alloc,
        VirtAddr(0x80420000).page_number(),
        PhysAddr(0x80420000).page_number(),
        FREE_AREA_PAGES,
        Sv39Flags::new(FLAG_R | FLAG_W | FLAG_X | FLAG_U),
    ) {
        Ok(()) => {},
        Err(e) => {
            proof {
                lemma_no_overlap(pre3, FREE_AREA_VPN as nat, FREE_AREA_PAGES as nat, e);
            }
            return Err(SpaceError::OutOfFrames);
        },
    }
    proof {
        assert forall|j: int| 0 <= j < stack_frames@.len() implies alloc.outstanding(
            #[trigger] stack_frames@[j].ppn_spec(),
        ) && !addr_space.owns(stack_frames@[j].ppn_spec()) by {
            assert(apre3.outstanding(stack_frames@[j].ppn_spec()));
            assert(!pre3.owns(stack_frames@[j].ppn_spec()));
        }
    }
    let stack_addr = VirtAddr(0x60000000 + USER_STACK_PAGES * 0x1000);
    Ok((addr_space, stack_frames, stack_addr))
}

/// Builds the kernel's address space: the 4 MiB identity map over firmware
/// and kernel image, the identity map of the free area, the trampoline text
/// at the top of the virtual space, and `data_pages` fresh frames for the
/// resume context mapped right below the text. Returns the space, the data
/// frames, and the virtual address of the trampoline data.
pub fn create_sv39_kernel_address_space(
    alloc: &mut StackFrameAllocator,
    tramp_vpn: VirtPageNum,
    tramp_ppn: PhysPageNum,
    tramp_pages: u64,
    data_pages: u64,
) -> (r: Result<(PagedAddrSpace, Vec<FrameBox>, VirtAddr), SpaceError>)
    requires
        old(alloc).wf(),
        old(alloc).region_first() >= 0x80420,
        old(alloc).region_end() <= 0x80800,
        1 <= tramp_pages,
        1 <= data_pages,
        vpn_key(tramp_vpn.0 as nat) == VPN_LIMIT - tramp_pages,
        vpn_key(tramp_vpn.0 as nat) - data_pages > 0x80800,
        tramp_ppn.0 + tramp_pages <= PPN_LIMIT,
    ensures
        final(alloc).wf(),
        final(alloc).region_first() == old(alloc).region_first(),
        final(alloc).region_end() == old(alloc).region_end(),
        match r {
            Ok((s, data, data_addr)) => {
                &&& s.wf()
                &&& s.owned_by(*final(alloc))
                &&& mapped_linear(
                    s,
                    KERNEL_BASE_VPN as nat,
                    KERNEL_BASE_VPN as nat,
                    KERNEL_BASE_PAGES as nat,
                    FLAG_R | FLAG_W | FLAG_X | FLAG_V,
                )
                &&& mapped_linear(
                    s,
                    FREE_AREA_VPN as nat,
                    FREE_AREA_VPN as nat,
                    FREE_AREA_PAGES as nat,
                    FLAG_R | FLAG_W | FLAG_X | FLAG_V,
                )
                &&& mapped_linear(
                    s,
                    vpn_key(tramp_vpn.0 as nat),
                    tramp_ppn.0 as nat,
                    tramp_pages as nat,
                    FLAG_R | FLAG_W | FLAG_X | FLAG_V,
                )
                &&& data@.len() == data_pages
                &&& mapped_frame_list(
                    s,
                    (vpn_key(tramp_vpn.0 as nat) - data_pages) as nat,
                    data@,
                    FLAG_R | FLAG_W | FLAG_V,
                )
                &&& forall|i: int|
                    0 <= i < data@.len() ==> final(alloc).outstanding(
                        #[trigger] data@[i].ppn_spec(),
                    ) && !s.owns(data@[i].ppn_spec())
                &&& forall|k: nat|
                    k < VPN_LIMIT && !(KERNEL_BASE_VPN <= k < KERNEL_BASE_VPN + KERNEL_BASE_PAGES)
                        && !(FREE_AREA_VPN <= k < FREE_AREA_VPN + FREE_AREA_PAGES) && !(vpn_key(
                        tramp_vpn.0 as nat,
                    ) - data_pages <= k < VPN_LIMIT) ==> s.lookup(k) is None
                &&& data_addr.0 == u64::MAX - tramp_pages * PAGE_SIZE - data_pages * PAGE_SIZE + 1
            },
            Err(e) => e == SpaceError::OutOfFrames && final(alloc).available() == 0,
        },
{
    proof {
        lemma_flag_values();
    }
    let ghost tkey = vpn_key(tramp_vpn.0 as nat);
    let mut addr_space = match PagedAddrSpace::try_new_in(Sv39, alloc) {
        Ok(s) => s,
        Err(_) => {
            return Err(SpaceError::OutOfFrames);
        },
    };
    // Identity map of firmware and kernel image.
    let ghost pre1 = addr_space;
    match addr_space.allocate_map(
        alloc,
        VirtAddr(0x80000000).page_number(),
        PhysAddr(0x80000000).page_number(),
        KERNEL_BASE_PAGES,
        Sv39Flags::new(FLAG_R | FLAG_W | FLAG_X),
    ) {
        Ok(()) => {},
        Err(e) => {
            proof {
                lemma_no_overlap(pre1, KERNEL_BASE_VPN as nat, KERNEL_BASE_PAGES as nat, e);
            }
            return Err(SpaceError::OutOfFrames);
        },
    }
    // Identity map of the free area.
    let ghost pre2 = addr_space;
    match addr_space.allocate_map(
        alloc,
        VirtAddr(0x80420000).page_number(),
        PhysAddr(0x80420000).page_number(),
        FREE_AREA_PAGES,
        Sv39Flags::new(FLAG_R | FLAG_W | FLAG_X),
    ) {
        Ok(()) => {},
        Err(e) => {
            proof {
                lemma_no_overlap(pre2, FREE_AREA_VPN as nat, FREE_AREA_PAGES as nat, e);
            }
            return Err(SpaceError::OutOfFrames);
        },
    }
    // Trampoline text at the very top; the kernel enters it on every trap.
    let ghost pre3 = addr_space;
    match addr_space.allocate_map(
        alloc,
        tramp_vpn,
        tramp_ppn,
        tramp_pages,
        Sv39Flags::new(FLAG_R | FLAG_W | FLAG_X),
    ) {
        Ok(()) => {},
        Err(e) => {
            proof {
                lemma_no_overlap(pre3, tkey, tramp_pages as nat, e);
            }
            return Err(SpaceError::OutOfFrames);
        },
    }
    // Trampoline data pages right below the text, one fresh frame each.
    let mut data_frames: Vec<FrameBox> = Vec::new();
    let mut i: u64 = 0;
    while i < data_pages
        invariant
            i <= data_pages,
            data_frames@.len() == i,
            addr_space.wf(),
            alloc.wf(),
            addr_space.owned_by(*alloc),
            alloc.region_first() == old(alloc).region_first(),
            alloc.region_end() == old(alloc).region_end(),
            old(alloc).region_first() >= 0x80420,
            old(alloc).region_end() <= 0x80800,
            tkey == vpn_key(tramp_vpn.0 as nat),
            tkey == VPN_LIMIT - tramp_pages,
            tkey - data_pages > 0x80800,
            1 <= tramp_pages,
            1 <= data_pages,
            tramp_ppn.0 + tramp_pages <= PPN_LIMIT,
            mapped_linear(
                addr_space,
                KERNEL_BASE_VPN as nat,
                KERNEL_BASE_VPN as nat,
                KERNEL_BASE_PAGES as nat,
                FLAG_R | FLAG_W | FLAG_X | FLAG_V,
            ),
            mapped_linear(
                addr_space,
                FREE_AREA_VPN as nat,
                FREE_AREA_VPN as nat,
                FREE_AREA_PAGES as nat,
                FLAG_R | FLAG_W | FLAG_X | FLAG_V,
            ),
            mapped_linear(
                addr_space,
                tkey,
                tramp_ppn.0 as nat,
                tramp_pages as nat,
                FLAG_R | FLAG_W | FLAG_X | FLAG_V,
            ),
            mapped_frame_list(
                addr_space,
                (tkey - data_pages) as nat,
                data_frames@,
                FLAG_R | FLAG_W | FLAG_V,
            ),
            forall|j: int|
                0 <= j < data_frames@.len() ==> alloc.outstanding(
                    #[trigger] data_frames@[j].ppn_spec(),
                ) && !addr_space.owns(data_frames@[j].ppn_spec()),
            forall|k: nat|
                k < VPN_LIMIT && !(KERNEL_BASE_VPN <= k < KERNEL_BASE_VPN + KERNEL_BASE_PAGES)
                    && !(FREE_AREA_VPN <= k < FREE_AREA_VPN + FREE_AREA_PAGES) && !(tkey <= k < tkey
                    + tramp_pages) && !(tkey - data_pages <= k < tkey - data_pages + i)
                    ==> addr_space.lookup(k) is None,
        decreases data_pages - i,
    {
        proof {
            lemma_flag_values();
        }
        let ghost apre = *alloc;
        let frame_box = match FrameBox::try_new_in(alloc) {
            Ok(b) => b,
            Err(_) => {
                return Err(SpaceError::OutOfFrames);
            },
        };
        proof {
            lemma_owned_by_preserved(addr_space, apre, *alloc);
            lemma_not_owned(addr_space, apre, frame_box.ppn_spec());
            assert forall|j: int| 0 <= j < data_frames@.len() implies alloc.outstanding(
                #[trigger] data_frames@[j].ppn_spec(),
            ) by {
                assert(apre.outstanding(data_frames@[j].ppn_spec()));
            }
        }
        let f = frame_box.phys_page_num();
        // The virtual page below the trampoline text, laid out downward
        // from the top of the address space.
        let data_va = u64::MAX - tramp_pages * PAGE_SIZE - data_pages * PAGE_SIZE + i * PAGE_SIZE
            + 1;
        let data_vpn = VirtAddr(data_va).page_number();
        proof {
            lemma_top_page_key(
                (tramp_pages + data_pages - i) as u64,
                data_va,
                data_vpn,
            );
            assert(vpn_key(data_vpn.0 as nat) == tkey - data_pages + i);
        }
        let ghost pre = addr_space;
        let ghost apre2 = *alloc;
        match addr_space.allocate_map(alloc, data_vpn, f, 1, Sv39Flags::new(FLAG_R | FLAG_W)) {
            Ok(()) => {},
            Err(e) => {
                proof {
                    lemma_no_overlap(pre, (tkey - data_pages + i) as nat, 1, e);
                }
                return Err(SpaceError::OutOfFrames);
            },
        }
        proof {
            assert forall|j: int| 0 <= j < data_frames@.len() implies alloc.outstanding(
                #[trigger] data_frames@[j].ppn_spec(),
            ) && !addr_space.owns(data_frames@[j].ppn_spec()) by {
                assert(apre2.outstanding(data_frames@[j].ppn_spec()));
                assert(!pre.owns(data_frames@[j].ppn_spec()));
            }
            assert(alloc.outstanding(frame_box.ppn_spec()) && !addr_space.owns(
                frame_box.ppn_spec(),
            )) by {
                assert(apre2.outstanding(frame_box.ppn_spec()));
            }
        }
        data_frames.push(frame_box);
        i = i + 1;
    }
    let data_addr = VirtAddr(u64::MAX - tramp_pages * PAGE_SIZE - data_pages * PAGE_SIZE + 1);
    Ok((addr_space, data_frames, data_addr))
}

/// An address `back * PAGE_SIZE` bytes below the top of the virtual space
/// (plus one, landing on a page boundary) has table key `VPN_LIMIT - back`.
proof fn lemma_top_page_key(back: u64, va: u64, vpn: VirtPageNum)
    requires
        1 <= back <= VPN_LIMIT,
        va == u64::MAX - back * PAGE_SIZE + 1,
        vpn.0 == va / PAGE_SIZE,
    ensures
        vpn_key(vpn.0 as nat) == VPN_LIMIT - back,
{
    assert(va as int == (0x10_0000_0000_0000 - back) * (PAGE_SIZE as int)) by {
        assert(va as int == 0x1_0000_0000_0000_0000 - back * (PAGE_SIZE as int));
    }
    lemma_fundamental_div_mod_converse(
        va as int,
        PAGE_SIZE as int,
        0x10_0000_0000_0000 - back,
        0,
    );
    assert(vpn.0 == 0x10_0000_0000_0000 - back);
    assert(vpn.0 as int == 0x1ff_ffff * (VPN_LIMIT as int) + (VPN_LIMIT - back));
    lemma_fundamental_div_mod_converse(
        vpn.0 as int,
        VPN_LIMIT as int,
        0x1ff_ffff,
        (VPN_LIMIT - back) as int,
    );
}

/// During bring-up every range is freshly mapped into unmapped pages, so an
/// error from `allocate_map` can only be frame exhaustion.
proof fn lemma_no_overlap(pre: PagedAddrSpace, key0: nat, count: nat, e: SpaceError)
    requires
        e == SpaceError::AlreadyMapped || e == SpaceError::OutOfFrames,
        e == SpaceError::AlreadyMapped ==> exists|k: nat|
            key0 <= k < key0 + count && pre.lookup(k) is Some,
        forall|k: nat| key0 <= k < key0 + count ==> pre.lookup(k) is None,
    ensures
        e == SpaceError::OutOfFrames,
{
    if e == SpaceError::AlreadyMapped {
        let w = choose|k: nat| key0 <= k < key0 + count && pre.lookup(k) is Some;
        assert(pre.lookup(w) is None);
    }
}

/// The flag-byte arithmetic the bring-up flags rely on, settled once.
proof fn lemma_flag_values()
    ensures
        (FLAG_R | FLAG_X) & FLAG_RWX != 0,
        (FLAG_R | FLAG_W | FLAG_X) & FLAG_RWX != 0,
        (FLAG_R | FLAG_W | FLAG_X | FLAG_U) & FLAG_RWX != 0,
        (FLAG_R | FLAG_W | FLAG_U) & FLAG_RWX != 0,
        (FLAG_R | FLAG_W) & FLAG_RWX != 0,
{
    assert((0x02u8 | 0x08u8) & 0x0eu8 != 0 && (0x02u8 | 0x04u8 | 0x08u8) & 0x0eu8 != 0 && (0x02u8
        | 0x04u8 | 0x08u8 | 0x10u8) & 0x0eu8 != 0 && (0x02u8 | 0x04u8 | 0x10u8) & 0x0eu8 != 0 && (
    0x02u8 | 0x04u8) & 0x0eu8 != 0) by (bit_vector);
}

} // verus!
