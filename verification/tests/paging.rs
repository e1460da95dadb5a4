use virt_addr_kernel::addr::{
    get_satp_sv39, pte_decode, pte_encode, vpn_index, PhysAddr, PhysPageNum, Sv39, Sv39Flags,
    VirtAddr, VirtPageNum, FLAG_R, FLAG_U, FLAG_V, FLAG_W, FLAG_X,
};
use virt_addr_kernel::bringup::{
    create_sv39_app_address_space, create_sv39_kernel_address_space,
    get_trampoline_text_paging_config, map_shared_frames, trampoline_data_frame_count,
};
use virt_addr_kernel::frame::StackFrameAllocator;
use virt_addr_kernel::space::{PagedAddrSpace, SpaceError};

fn region() -> StackFrameAllocator {
    StackFrameAllocator::new(PhysPageNum(0x80420), PhysPageNum(0x80800))
}

#[test]
fn page_number_and_addr_begin_conversions() {
    assert_eq!(PhysAddr(0x80421fff).page_number(), PhysPageNum(0x80421));
    assert_eq!(VirtAddr(0x60000000).page_number(), VirtPageNum(0x60000));
    assert_eq!(PhysPageNum(0x80421).addr_begin(), PhysAddr(0x80421000));
    assert_eq!(VirtPageNum(0x60000).addr_begin(), VirtAddr(0x60000000));
}

#[test]
fn vpn_index_decomposition() {
    // vpn = i2 * 512 * 512 + i1 * 512 + i0
    let vpn = VirtPageNum(3 * 262144 + 7 * 512 + 11);
    assert_eq!(vpn_index(vpn, 0), 11);
    assert_eq!(vpn_index(vpn, 1), 7);
    assert_eq!(vpn_index(vpn, 2), 3);
    // the walk reads only the low 27 bits of a canonical high-half page
    let top = VirtAddr(u64::MAX - 0xfff).page_number();
    assert_eq!(vpn_index(top, 0), 511);
    assert_eq!(vpn_index(top, 1), 511);
    assert_eq!(vpn_index(top, 2), 511);
}

#[test]
fn pte_encode_decode_round_trip() {
    let flags = Sv39Flags::new(FLAG_R | FLAG_W | FLAG_X | FLAG_V);
    let pte = pte_encode(PhysPageNum(0x12345), flags);
    assert_eq!(pte, 0x12345 * 1024 + 0x0f);
    assert_eq!(pte, 0x48d140f);
    let (ppn, fl) = pte_decode(pte);
    assert_eq!(ppn, PhysPageNum(0x12345));
    assert_eq!(fl, flags);
}

#[test]
fn satp_value_layout() {
    let satp = get_satp_sv39(3, PhysPageNum(0x80420));
    assert_eq!(satp, 0x8000_3000_0008_0420);
    assert_eq!(satp >> 60, 8);
    assert_eq!((satp >> 44) & 0xffff, 3);
    assert_eq!(satp & 0xfff_ffff_ffff, 0x80420);
}

#[test]
fn map_then_translate_exactly_the_range() {
    let mut a = region();
    let mut s = PagedAddrSpace::try_new_in(Sv39, &mut a).unwrap();
    let rw = Sv39Flags::new(FLAG_R | FLAG_W);
    s.allocate_map(&mut a, VirtPageNum(0x100), PhysPageNum(0x200), 3, rw)
        .unwrap();
    for k in 0..3u64 {
        let (p, fl) = s.translate(VirtPageNum(0x100 + k)).unwrap();
        assert_eq!(p, PhysPageNum(0x200 + k));
        assert_eq!(fl.bits, FLAG_R | FLAG_W | FLAG_V);
    }
    assert!(s.translate(VirtPageNum(0xff)).is_none());
    assert!(s.translate(VirtPageNum(0x103)).is_none());
    assert!(s.translate(VirtPageNum(0x5000)).is_none());
    s.release(&mut a);
}

#[test]
fn overlapping_map_is_refused() {
    let mut a = region();
    let mut s = PagedAddrSpace::try_new_in(Sv39, &mut a).unwrap();
    let rw = Sv39Flags::new(FLAG_R | FLAG_W);
    s.allocate_map(&mut a, VirtPageNum(0x100), PhysPageNum(0x200), 3, rw)
        .unwrap();
    let e = s.allocate_map(&mut a, VirtPageNum(0x102), PhysPageNum(0x300), 2, rw);
    assert_eq!(e, Err(SpaceError::AlreadyMapped));
    // the already-mapped page is untouched
    let (p, _) = s.translate(VirtPageNum(0x102)).unwrap();
    assert_eq!(p, PhysPageNum(0x202));
}

#[test]
fn map_out_of_frames() {
    let mut a = StackFrameAllocator::new(PhysPageNum(0x80420), PhysPageNum(0x80421));
    let mut s = PagedAddrSpace::try_new_in(Sv39, &mut a).unwrap();
    let rw = Sv39Flags::new(FLAG_R | FLAG_W);
    let e = s.allocate_map(&mut a, VirtPageNum(0x100), PhysPageNum(0x200), 1, rw);
    assert_eq!(e, Err(SpaceError::OutOfFrames));
}

#[test]
fn allocator_sharing_conservation() {
    let mut a = region();
    let start = a.available_frames();
    let rwx = Sv39Flags::new(FLAG_R | FLAG_W | FLAG_X);
    let mut s1 = PagedAddrSpace::try_new_in(Sv39, &mut a).unwrap();
    let mut s2 = PagedAddrSpace::try_new_in(Sv39, &mut a).unwrap();
    s1.allocate_map(&mut a, VirtPageNum(0x100), PhysPageNum(0x500), 10, rwx)
        .unwrap();
    s2.allocate_map(&mut a, VirtPageNum(0x200), PhysPageNum(0x600), 10, rwx)
        .unwrap();
    // each space: one root, one middle table, one leaf table
    assert_eq!(a.available_frames(), start - 6);
    s1.release(&mut a);
    s2.release(&mut a);
    assert_eq!(a.available_frames(), start);
}

#[test]
fn released_space_frames_are_reusable() {
    let mut a = region();
    let rwx = Sv39Flags::new(FLAG_R | FLAG_W | FLAG_X);
    let mut s = PagedAddrSpace::try_new_in(Sv39, &mut a).unwrap();
    // a wide mapping spanning two leaf tables
    s.allocate_map(&mut a, VirtPageNum(0x1fe), PhysPageNum(0x500), 4, rwx)
        .unwrap();
    let used = a.available_frames();
    s.release(&mut a);
    assert_eq!(a.available_frames(), used + 4); // root + mid + two leaves
}

#[test]
fn trampoline_config_at_top_of_space() {
    let (vpn, ppn, n) = get_trampoline_text_paging_config(0x8020_0000, 0x8020_2000);
    assert_eq!(n, 2);
    assert_eq!(ppn, PhysPageNum(0x80200));
    assert_eq!(vpn.0, (u64::MAX - 0x2000 + 1) / 4096);
    // its table key sits at the very top of the 27-bit key space
    assert_eq!(vpn.0 % 0x800_0000, 0x800_0000 - 2);
}

#[test]
fn trampoline_data_frames_round_up() {
    assert_eq!(trampoline_data_frame_count(1), 1);
    assert_eq!(trampoline_data_frame_count(4096), 1);
    assert_eq!(trampoline_data_frame_count(4097), 2);
    assert_eq!(trampoline_data_frame_count(312), 1);
}

#[test]
fn kernel_bring_up_identity_map() {
    let mut a = region();
    let (vpn, ppn, n) = get_trampoline_text_paging_config(0x8020_0000, 0x8020_2000);
    let (ks, data, data_addr) =
        create_sv39_kernel_address_space(&mut a, vpn, ppn, n, 1).unwrap();
    for k in 0..1024u64 {
        let (p, fl) = ks.translate(VirtPageNum(0x80000 + k)).unwrap();
        assert_eq!(p, PhysPageNum(0x80000 + k));
        assert_eq!(fl.bits, FLAG_R | FLAG_W | FLAG_X | FLAG_V);
    }
    for k in 0..992u64 {
        let (p, _) = ks.translate(VirtPageNum(0x80420 + k)).unwrap();
        assert_eq!(p, PhysPageNum(0x80420 + k));
    }
    // trampoline text at the top
    let (p, fl) = ks.translate(vpn).unwrap();
    assert_eq!(p, ppn);
    assert_eq!(fl.bits, FLAG_R | FLAG_W | FLAG_X | FLAG_V);
    // one data page right below the text
    assert_eq!(data.len(), 1);
    let (p, fl) = ks
        .translate(VirtAddr(data_addr.0).page_number())
        .unwrap();
    assert_eq!(p, data[0].phys_page_num());
    assert_eq!(fl.bits, FLAG_R | FLAG_W | FLAG_V);
    assert_eq!(data_addr.0, u64::MAX - 2 * 4096 - 4096 + 1);
    // every other page stays unmapped
    assert!(ks.translate(VirtPageNum(0)).is_none());
    assert!(ks.translate(VirtPageNum(0x7ffff)).is_none());
    assert!(ks.translate(VirtPageNum(0x80400)).is_none());
    assert!(ks.translate(VirtPageNum(0x80800)).is_none());
    // the satp value for this root
    let satp = get_satp_sv39(1, ks.root_page_number());
    assert_eq!(satp >> 60, 8);
    assert_eq!((satp >> 44) & 0xffff, 1);
    assert_eq!(satp & 0xfff_ffff_ffff, ks.root_page_number().0);
}

#[test]
fn app_space_layout_and_shared_data() {
    let mut a = region();
    let (vpn, ppn, n) = get_trampoline_text_paging_config(0x8020_0000, 0x8020_2000);
    let (_ks, data, data_addr) =
        create_sv39_kernel_address_space(&mut a, vpn, ppn, n, 1).unwrap();
    let (mut us, stack, sp) = create_sv39_app_address_space(&mut a, vpn, ppn, n).unwrap();
    assert_eq!(sp, VirtAddr(0x60005000));
    assert_eq!(stack.len(), 5);
    // program image, user flags
    let (p, fl) = us.translate(VirtPageNum(0x80400)).unwrap();
    assert_eq!(p, PhysPageNum(0x80400));
    assert_eq!(fl.bits, FLAG_R | FLAG_W | FLAG_X | FLAG_U | FLAG_V);
    // trampoline text without the user bit
    let (p, fl) = us.translate(vpn).unwrap();
    assert_eq!(p, ppn);
    assert_eq!(fl.bits, FLAG_R | FLAG_X | FLAG_V);
    // stack pages go to the fresh frames
    for (k, b) in stack.iter().enumerate() {
        let (p, fl) = us.translate(VirtPageNum(0x60000 + k as u64)).unwrap();
        assert_eq!(p, b.phys_page_num());
        assert_eq!(fl.bits, FLAG_R | FLAG_W | FLAG_U | FLAG_V);
    }
    // the kernel's own text is not visible to the user task
    assert!(us.translate(VirtPageNum(0x80000)).is_none());
    // the kernel's trampoline data pages, shared into the user space
    map_shared_frames(
        &mut us,
        &mut a,
        VirtAddr(data_addr.0).page_number(),
        &data,
        Sv39Flags::new(FLAG_R | FLAG_W),
    )
    .unwrap();
    let (p, fl) = us
        .translate(VirtAddr(data_addr.0).page_number())
        .unwrap();
    assert_eq!(p, data[0].phys_page_num());
    assert_eq!(fl.bits, FLAG_R | FLAG_W | FLAG_V);
}
