use std::collections::BTreeSet;
use std::sync::Arc;
use swtc::vma::{
    align_down, offset_in_file, LinuxError, MmapRegion, PageSize, VirtAddrRange, VmFile,
    VmaManager,
};

#[derive(Clone)]
struct MemFile {
    data: Arc<Vec<u8>>,
    fail_len: bool,
}

impl MemFile {
    fn new(len: usize) -> MemFile {
        let data: Vec<u8> = (0..len).map(|i| (i % 251) as u8).collect();
        MemFile { data: Arc::new(data), fail_len: false }
    }
}

impl VmFile for MemFile {
    fn read_at(&self, buf: &mut [u8], offset: u64) -> Result<usize, LinuxError> {
        let start = offset as usize;
        if start >= self.data.len() {
            return Ok(0);
        }
        let n = buf.len().min(self.data.len() - start);
        buf[..n].copy_from_slice(&self.data[start..start + n]);
        Ok(n)
    }

    fn len(&self) -> Result<u64, LinuxError> {
        if self.fail_len {
            Err(LinuxError::EIO)
        } else {
            Ok(self.data.len() as u64)
        }
    }
}

fn range(start: usize, end: usize) -> VirtAddrRange {
    VirtAddrRange { start, end }
}

fn pages(list: &[usize]) -> BTreeSet<usize> {
    list.iter().copied().collect()
}

fn region(start: usize, end: usize, offset: isize, loaded: &[usize]) -> MmapRegion<MemFile> {
    let mut r = MmapRegion::new(range(start, end), MemFile::new(0x4000), offset, PageSize::Size4K);
    r.populated = pages(loaded);
    r
}

#[test]
fn align_down_rounds_to_the_page() {
    assert_eq!(align_down(0x12345, 0x1000), 0x12000);
    assert_eq!(align_down(0x12000, 0x1000), 0x12000);
    assert_eq!(align_down(0x3fffff, 0x20_0000), 0x20_0000);
    assert_eq!(PageSize::Size1G.size(), 0x4000_0000);
}

#[test]
fn ranges_contain_and_overlap() {
    let r = VirtAddrRange::from_start_size(0x1000, 0x2000);
    assert_eq!(r, range(0x1000, 0x3000));
    assert!(r.contains(0x1000));
    assert!(r.contains(0x2fff));
    assert!(!r.contains(0x3000));
    assert!(r.overlaps(&range(0x2fff, 0x4000)));
    assert!(!r.overlaps(&range(0x3000, 0x4000)));
    assert!(!r.overlaps(&range(0x0, 0x1000)));
}

#[test]
fn offsets_inside_the_file() {
    assert!(offset_in_file(0, 1));
    assert!(!offset_in_file(1, 1));
    assert!(!offset_in_file(-1, 10));
    assert!(!offset_in_file(0, u64::MAX));
}

#[test]
fn split_without_overlap_gives_nothing() {
    let r = region(0x1000, 0x3000, 0, &[0x1000]);
    let (b, o, a) = r.split_at_range(&range(0x3000, 0x5000));
    assert!(b.is_none() && o.is_none() && a.is_none());
}

#[test]
fn split_in_the_middle_gives_three_parts() {
    let r = region(0x1000, 0x5000, 0x100, &[0x1000, 0x2000, 0x4000]);
    let (b, o, a) = r.split_at_range(&range(0x2000, 0x3000));
    let b = b.unwrap();
    let o = o.unwrap();
    let a = a.unwrap();
    assert_eq!(b.range, range(0x1000, 0x2000));
    assert_eq!(b.offset, 0x100);
    assert_eq!(b.populated, pages(&[0x1000]));
    assert_eq!(o.range, range(0x2000, 0x3000));
    assert_eq!(o.offset, 0x1100);
    assert_eq!(o.populated, pages(&[0x2000]));
    assert_eq!(a.range, range(0x3000, 0x5000));
    assert_eq!(a.offset, 0x2100);
    assert_eq!(a.populated, pages(&[0x4000]));
}

#[test]
fn split_covering_the_start_gives_overlap_and_after() {
    let r = region(0x1000, 0x5000, 0, &[0x1000, 0x3000]);
    let (b, o, a) = r.split_at_range(&range(0x0, 0x2000));
    assert!(b.is_none());
    let o = o.unwrap();
    let a = a.unwrap();
    assert_eq!(o.range, range(0x1000, 0x2000));
    assert_eq!(o.offset, 0);
    assert_eq!(o.populated, pages(&[0x1000]));
    assert_eq!(a.range, range(0x2000, 0x5000));
    assert_eq!(a.offset, 0x1000);
    assert_eq!(a.populated, pages(&[0x3000]));
}

#[test]
fn split_covering_everything_gives_only_the_overlap() {
    let r = region(0x1000, 0x3000, 7, &[0x2000]);
    let (b, o, a) = r.split_at_range(&range(0x0, 0x10000));
    assert!(b.is_none() && a.is_none());
    let o = o.unwrap();
    assert_eq!(o.range, range(0x1000, 0x3000));
    assert_eq!(o.offset, 7);
    assert_eq!(o.populated, pages(&[0x2000]));
}

#[test]
fn get_buf_loads_a_page_once() {
    let mut r = MmapRegion::new(range(0x10000, 0x13000), MemFile::new(0x1800), 0, PageSize::Size4K);
    let buf = r.get_buf(0x10010).unwrap();
    assert_eq!(buf.len(), 0x1000);
    assert_eq!(buf[0], 0);
    assert_eq!(buf[300], (300 % 251) as u8);
    assert!(r.populated.contains(&0x10000));
    assert_eq!(r.get_buf(0x10ff0), Err(LinuxError::EEXIST));
}

#[test]
fn get_buf_reads_the_tail_of_the_file() {
    let mut r = MmapRegion::new(range(0x10000, 0x13000), MemFile::new(0x1800), 0, PageSize::Size4K);
    let buf = r.get_buf(0x11234).unwrap();
    assert_eq!(buf.len(), 0x1000);
    assert_eq!(buf[0], (0x1000 % 251) as u8);
    assert_eq!(buf[0x7ff], (0x17ff % 251) as u8);
    assert_eq!(buf[0x800], 0);
}

#[test]
fn get_buf_past_the_file_is_invalid() {
    let mut r = MmapRegion::new(range(0x10000, 0x13000), MemFile::new(0x1800), 0, PageSize::Size4K);
    assert_eq!(r.get_buf(0x12000), Err(LinuxError::EINVAL));
    assert!(r.populated.is_empty());
    let mut before = MmapRegion::new(range(0x10000, 0x13000), MemFile::new(0x1800), -0x1000, PageSize::Size4K);
    assert_eq!(before.get_buf(0x10000), Err(LinuxError::EINVAL));
}

#[test]
fn get_buf_passes_on_file_errors() {
    let mut file = MemFile::new(0x1800);
    file.fail_len = true;
    let mut r = MmapRegion::new(range(0x10000, 0x13000), file, 0, PageSize::Size4K);
    assert_eq!(r.get_buf(0x10000), Err(LinuxError::EIO));
    assert!(r.populated.is_empty());
}

#[test]
fn get_buf_short_last_page() {
    let mut r = MmapRegion::new(range(0x10000, 0x10800), MemFile::new(0x1800), 0, PageSize::Size4K);
    assert_eq!(r.get_buf(0x10400).unwrap().len(), 0x800);
}

#[test]
fn manager_finds_the_first_region() {
    let mut m: VmaManager<MemFile> = VmaManager::new();
    assert!(m.find_region(0x1000).is_none());
    assert_eq!(m.add_region(region(0x1000, 0x3000, 0, &[])), Ok(()));
    assert_eq!(m.add_region(region(0x2000, 0x4000, 0x50, &[])), Ok(()));
    assert_eq!(m.find_region(0x2800).unwrap().offset, 0);
    assert_eq!(m.find_region(0x3800).unwrap().offset, 0x50);
    assert!(m.find_region(0x4000).is_none());
    m.clear();
    assert!(m.find_region(0x2800).is_none());
}

#[test]
fn manager_removes_the_overlapped_parts() {
    let mut m: VmaManager<MemFile> = VmaManager::default();
    m.add_region(region(0x1000, 0x3000, 0, &[0x1000, 0x2000])).unwrap();
    m.add_region(region(0x5000, 0x6000, 0, &[])).unwrap();
    m.add_region(region(0x8000, 0xa000, 0x10, &[0x9000])).unwrap();
    let removed = m.remove_overlapped(range(0x2000, 0x9000));
    assert_eq!(removed.len(), 3);
    assert_eq!(removed[0].range, range(0x2000, 0x3000));
    assert_eq!(removed[0].populated, pages(&[0x2000]));
    assert_eq!(removed[1].range, range(0x5000, 0x6000));
    assert_eq!(removed[2].range, range(0x8000, 0x9000));
    assert_eq!(removed[2].offset, 0x10);
    assert_eq!(m.find_region(0x1800).unwrap().range, range(0x1000, 0x2000));
    assert!(m.find_region(0x2000).is_none());
    assert!(m.find_region(0x5800).is_none());
    let tail = m.find_region(0x9800).unwrap();
    assert_eq!(tail.range, range(0x9000, 0xa000));
    assert_eq!(tail.offset, 0x1010);
    assert_eq!(tail.populated, pages(&[0x9000]));
}

#[test]
fn is_empty_follows_the_length() {
    assert_eq!(MemFile::new(0).is_empty(), Ok(true));
    assert_eq!(MemFile::new(3).is_empty(), Ok(false));
    let mut f = MemFile::new(3);
    f.fail_len = true;
    assert_eq!(f.is_empty(), Err(LinuxError::EIO));
}
