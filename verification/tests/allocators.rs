use virt_addr_kernel::addr::PhysPageNum;
use virt_addr_kernel::asid::{AsidAllocError, StackAsidAllocator};
use virt_addr_kernel::frame::{FrameAllocError, FrameBox, StackFrameAllocator};

#[test]
fn frame_allocator_capacity_and_round_trip() {
    let mut a = StackFrameAllocator::new(PhysPageNum(10), PhysPageNum(13));
    assert_eq!(a.available_frames(), 3);
    let f1 = a.allocate_frame().unwrap();
    let f2 = a.allocate_frame().unwrap();
    let f3 = a.allocate_frame().unwrap();
    assert!(f1 != f2 && f2 != f3 && f1 != f3);
    for f in [f1, f2, f3] {
        assert!(10 <= f.0 && f.0 < 13);
    }
    assert_eq!(a.allocate_frame(), Err(FrameAllocError::OutOfFrames));
    a.deallocate_frame(f2);
    a.deallocate_frame(f1);
    a.deallocate_frame(f3);
    assert_eq!(a.available_frames(), 3);
    let g1 = a.allocate_frame().unwrap();
    let g2 = a.allocate_frame().unwrap();
    let g3 = a.allocate_frame().unwrap();
    assert!(g1 != g2 && g2 != g3 && g1 != g3);
    assert_eq!(a.allocate_frame(), Err(FrameAllocError::OutOfFrames));
}

#[test]
fn frame_allocator_reuses_freed_frame() {
    let mut a = StackFrameAllocator::new(PhysPageNum(100), PhysPageNum(104));
    let f1 = a.allocate_frame().unwrap();
    let before = a.available_frames();
    a.deallocate_frame(f1);
    assert_eq!(a.available_frames(), before + 1);
    let f2 = a.allocate_frame().unwrap();
    assert_eq!(f1, f2);
}

#[test]
fn frame_box_owns_one_frame() {
    let mut a = StackFrameAllocator::new(PhysPageNum(20), PhysPageNum(22));
    let b = FrameBox::try_new_in(&mut a).unwrap();
    let p = b.phys_page_num();
    assert!(20 <= p.0 && p.0 < 22);
    assert_eq!(a.available_frames(), 1);
    b.release_in(&mut a);
    assert_eq!(a.available_frames(), 2);
}

#[test]
fn frame_box_out_of_frames() {
    let mut a = StackFrameAllocator::new(PhysPageNum(20), PhysPageNum(20));
    assert_eq!(
        FrameBox::try_new_in(&mut a).err(),
        Some(FrameAllocError::OutOfFrames)
    );
}

#[test]
fn asid_allocator_distinct_in_range() {
    let mut a = StackAsidAllocator::new(4);
    let mut seen = Vec::new();
    for _ in 0..4 {
        let id = a.allocate_asid().unwrap();
        assert!(1 <= id && id <= 4);
        assert!(!seen.contains(&id));
        seen.push(id);
    }
    assert_eq!(a.allocate_asid(), Err(AsidAllocError::NoMoreAsids));
}

#[test]
fn asid_allocator_round_trip() {
    let mut a = StackAsidAllocator::new(0xffff);
    assert_eq!(a.available_asids(), 0xffff);
    let id1 = a.allocate_asid().unwrap();
    let id2 = a.allocate_asid().unwrap();
    assert!(id1 != id2);
    a.deallocate_asid(id1);
    let id3 = a.allocate_asid().unwrap();
    assert!(id3 != id2);
    assert!(1 <= id3 && id3 <= 0xffff);
    assert_eq!(a.available_asids(), 0xffff - 2);
}
