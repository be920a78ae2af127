use std::cell::RefCell;
use std::sync::Mutex;
use swtc::ctypes::PageState;
use swtc::page_cache::{InodeOps, PageCache, PageOps};
use swtc::vma::LinuxError;

static MEMORY: Mutex<Vec<Vec<u8>>> = Mutex::new(Vec::new());

/// Where the test's linear mapping puts physical memory.
const LINEAR_OFFSET: usize = 0x10_0000_0000;

struct Memory;

impl PageOps for Memory {
    fn alloc_page() -> Option<usize> {
        let mut pages = MEMORY.lock().unwrap();
        pages.push(vec![0u8; 4096]);
        Some(pages.len() * 4096)
    }

    fn dealloc_page(_addr: usize) {}

    fn phys_to_virt(paddr: usize) -> usize {
        paddr + LINEAR_OFFSET
    }

    fn read_page(addr: usize, buf: &mut [u8]) -> Result<(), LinuxError> {
        let pages = MEMORY.lock().unwrap();
        let page = &pages[(addr - LINEAR_OFFSET) / 4096 - 1];
        let n = buf.len().min(4096);
        buf[..n].copy_from_slice(&page[..n]);
        Ok(())
    }

    fn write_page(addr: usize, buf: &[u8]) -> Result<(), LinuxError> {
        let mut pages = MEMORY.lock().unwrap();
        let page = &mut pages[(addr - LINEAR_OFFSET) / 4096 - 1];
        page[..buf.len()].copy_from_slice(buf);
        Ok(())
    }
}

struct NoMemory;

impl PageOps for NoMemory {
    fn alloc_page() -> Option<usize> {
        None
    }

    fn dealloc_page(_addr: usize) {}

    fn phys_to_virt(paddr: usize) -> usize {
        paddr
    }

    fn read_page(_addr: usize, _buf: &mut [u8]) -> Result<(), LinuxError> {
        Ok(())
    }

    fn write_page(_addr: usize, _buf: &[u8]) -> Result<(), LinuxError> {
        Ok(())
    }
}

struct File {
    data: RefCell<Vec<u8>>,
    writes: RefCell<usize>,
}

impl File {
    fn new(data: Vec<u8>) -> File {
        File { data: RefCell::new(data), writes: RefCell::new(0) }
    }
}

impl InodeOps for File {
    fn read_at(&self, buf: &mut [u8], offset: u64) -> Result<usize, LinuxError> {
        let data = self.data.borrow();
        let start = offset as usize;
        if start >= data.len() {
            return Ok(0);
        }
        let n = buf.len().min(data.len() - start);
        buf[..n].copy_from_slice(&data[start..start + n]);
        Ok(n)
    }

    fn write_at(&self, buf: &[u8], offset: u64) -> Result<usize, LinuxError> {
        let mut data = self.data.borrow_mut();
        let start = offset as usize;
        if data.len() < start + buf.len() {
            data.resize(start + buf.len(), 0);
        }
        data[start..start + buf.len()].copy_from_slice(buf);
        *self.writes.borrow_mut() += 1;
        Ok(buf.len())
    }

    fn len(&self) -> Result<u64, LinuxError> {
        Ok(self.data.borrow().len() as u64)
    }

    fn set_len(&self, len: u64) -> Result<(), LinuxError> {
        self.data.borrow_mut().resize(len as usize, 0);
        Ok(())
    }
}

fn bytes(n: usize) -> Vec<u8> {
    (0..n).map(|i| (i % 253) as u8).collect()
}

#[test]
fn new_cache_takes_the_file_length() {
    let cache: PageCache<File, Memory> = PageCache::new(File::new(bytes(5000)));
    assert_eq!(cache.get_size(), 5000);
    assert_eq!(cache.cache_size(), 0);
    let failed: PageCache<File, Memory> = PageCache::from_len(File::new(vec![]), Err(LinuxError::EIO));
    assert_eq!(failed.get_size(), 0);
}

#[test]
fn read_through_the_cache() {
    let mut cache: PageCache<File, Memory> = PageCache::new(File::new(bytes(10000)));
    let mut buf = vec![0xffu8; 6000];
    assert_eq!(cache.read_at(&mut buf, 3000), Ok(6000));
    assert_eq!(buf, bytes(10000)[3000..9000].to_vec());
    assert_eq!(cache.cache_size(), 3);
    let mut tail = vec![0xeeu8; 100];
    assert_eq!(cache.read_at(&mut tail, 9950), Ok(50));
    assert_eq!(&tail[..50], &bytes(10000)[9950..10000]);
    assert_eq!(tail[50], 0xee);
    assert_eq!(cache.read_at(&mut tail, 10000), Ok(0));
}

#[test]
fn write_then_read_gives_the_bytes_back() {
    let mut cache: PageCache<File, Memory> = PageCache::new(File::new(bytes(100)));
    let data: Vec<u8> = (0..5000).map(|i| (i % 7) as u8 + 1).collect();
    assert_eq!(cache.write_at(&data, 50), Ok(5000));
    assert_eq!(cache.get_size(), 5050);
    let mut back = vec![0u8; 5050];
    assert_eq!(cache.read_at(&mut back, 0), Ok(5050));
    assert_eq!(&back[..50], &bytes(100)[..50]);
    assert_eq!(&back[50..], &data[..]);
}

#[test]
fn written_pages_are_dirty_until_sync() {
    let mut cache: PageCache<File, Memory> = PageCache::new(File::new(vec![0u8; 8192]));
    assert_eq!(cache.write_at(&[1, 2, 3], 4096), Ok(3));
    assert_eq!(cache.get_size(), 8192);
    assert_eq!(cache.get_page(1).unwrap().state, PageState::Dirty);
    assert_eq!(cache.sync(), Ok(()));
    assert_eq!(cache.get_page(1).unwrap().state, PageState::UpToDate);
    assert_eq!(&cache.host.data.borrow()[4096..4099], &[1, 2, 3]);
    assert_eq!(*cache.host.writes.borrow(), 1);
}

#[test]
fn sync_range_only_writes_its_pages() {
    let mut cache: PageCache<File, Memory> = PageCache::new(File::new(vec![0u8; 3 * 4096]));
    cache.write_at(&[9], 0).unwrap();
    cache.write_at(&[8], 2 * 4096).unwrap();
    assert_eq!(cache.sync_range(0, 100), Ok(()));
    assert_eq!(cache.get_page(0).unwrap().state, PageState::UpToDate);
    assert_eq!(cache.get_page(2).unwrap().state, PageState::Dirty);
    assert_eq!(cache.host.data.borrow()[0], 9);
    assert_eq!(cache.host.data.borrow()[2 * 4096], 0);
}

#[test]
fn evict_lru_takes_the_least_recent() {
    let mut cache: PageCache<File, Memory> = PageCache::new(File::new(vec![0u8; 4 * 4096]));
    cache.load_page(0).unwrap();
    cache.load_page(1).unwrap();
    cache.load_page(2).unwrap();
    cache.get_page(0).unwrap();
    assert_eq!(cache.evict_lru(), Ok(true));
    assert!(cache.get_page(1).is_none());
    assert_eq!(cache.cache_size(), 2);
    assert_eq!(cache.evict_lru_pages(5), Ok(2));
    assert_eq!(cache.cache_size(), 0);
    assert_eq!(cache.evict_lru(), Ok(false));
}

#[test]
fn evict_lru_writes_a_dirty_page_back() {
    let mut cache: PageCache<File, Memory> = PageCache::new(File::new(vec![0u8; 4096]));
    cache.write_at(&[5, 6], 10).unwrap();
    assert_eq!(cache.evict_lru(), Ok(true));
    assert_eq!(&cache.host.data.borrow()[10..12], &[5, 6]);
}

#[test]
fn evict_empties_the_cache() {
    let mut cache: PageCache<File, Memory> = PageCache::new(File::new(vec![0u8; 3 * 4096]));
    cache.write_at(&[1; 9000], 0).unwrap();
    assert_eq!(cache.evict(), Ok(3));
    assert_eq!(cache.cache_size(), 0);
    assert_eq!(cache.host.data.borrow()[8999], 1);
}

#[test]
fn evict_range_and_from_pos() {
    let mut cache: PageCache<File, Memory> = PageCache::new(File::new(vec![0u8; 4 * 4096]));
    for i in 0..4 {
        cache.load_page(i).unwrap();
    }
    assert_eq!(cache.evict_range(4096, 2 * 4096 + 1), Ok(()));
    assert_eq!(cache.cache_size(), 2);
    assert!(cache.get_page(1).is_none());
    assert!(cache.get_page(2).is_none());
    assert_eq!(cache.evict_from_pos(100), Ok(()));
    assert_eq!(cache.cache_size(), 0);
    assert_eq!(cache.get_size(), 100);
}

#[test]
fn load_page_without_memory_fails() {
    let mut cache: PageCache<File, NoMemory> = PageCache::new(File::new(vec![0u8; 4096]));
    assert_eq!(cache.load_page(0), Err(LinuxError::ENOMEM));
    assert_eq!(cache.cache_size(), 0);
    let mut buf = [0u8; 4];
    assert_eq!(cache.read_at(&mut buf, 0), Err(LinuxError::ENOMEM));
}

#[test]
fn set_size_and_is_empty() {
    let mut cache: PageCache<File, Memory> = PageCache::new(File::new(vec![]));
    assert_eq!(cache.host.is_empty(), Ok(true));
    cache.set_size(77);
    assert_eq!(cache.get_size(), 77);
}

#[test]
fn page_extents_stop_at_the_file_size() {
    assert_eq!(swtc::page_cache::page_extent(0, 100), Some((0, 100)));
    assert_eq!(swtc::page_cache::page_extent(1, 5000), Some((4096, 904)));
    assert_eq!(swtc::page_cache::page_extent(1, 1 << 20), Some((4096, 4096)));
    assert_eq!(swtc::page_cache::page_extent(2, 8192), None);
}

#[test]
fn copy_part_places_the_bytes() {
    let mut dst = vec![0u8; 8];
    swtc::page_cache::copy_part(&mut dst, 2, b"abcdef", 3, 3);
    assert_eq!(dst, vec![0, 0, b'd', b'e', b'f', 0, 0, 0]);
}
