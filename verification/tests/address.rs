use swtc::address::{PhysAddr, PhysPageNum, VirtAddr, VirtPageNum};
use swtc::frame_allocator::{round_up, StackFrameAllocator};

#[test]
fn ceil_reaches_the_last_page() {
    let top = usize::MAX - 4095;
    assert_eq!(PhysAddr(top).ceil(), PhysPageNum(top / 4096));
    assert_eq!(VirtAddr(top).ceil(), VirtPageNum(top / 4096));
    assert_eq!(PhysAddr(4097).ceil(), PhysPageNum(2));
    assert_eq!(VirtAddr(4096).ceil(), VirtAddr(4096).floor());
    assert!(VirtAddr(4096).is_aligned());
    assert!(!VirtAddr(4097).is_aligned());
}

#[test]
fn round_up_at_the_top_of_memory() {
    assert_eq!(round_up(usize::MAX - 4095, 4096), usize::MAX - 4095);
    assert_eq!(round_up(1, 4096), 4096);
    assert_eq!(round_up(0, 4096), 0);
}

#[test]
fn allocator_covers_whole_pages() {
    let mut a = StackFrameAllocator::new();
    a.init(0x8020_0001, 0x8030_0000);
    assert_eq!(a.avaliable_frames(), 0xff);
    assert_eq!(a.allocate().map(|f| f.ppn()), Some(0x80201));
}

#[test]
fn page_start_floors_and_ceils_to_itself() {
    let p = PhysPageNum(0x8_0201);
    let a = p.start_pa();
    assert_eq!(a, PhysAddr(0x8020_1000));
    assert!(a.is_aligned());
    assert_eq!(a.floor(), p);
    assert_eq!(a.ceil(), p);
    let top = PhysPageNum(usize::MAX / 4096);
    assert_eq!(top.start_pa().ceil(), top);
}
