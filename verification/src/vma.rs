//! File-backed memory mappings: a region maps a range of virtual addresses onto a file
//! from some offset on, remembers which of its pages were already loaded, and can be
//! cut around another range; a manager keeps a list of such regions.
use std::collections::BTreeSet;
use vstd::std_specs::iter::IteratorSpec;
use vstd::prelude::*;

verus! {

broadcast use {vstd::std_specs::btree::group_btree_axioms, vstd::laws_cmp::group_laws_cmp};

/// The errors of the mapping and page cache code, by their Linux names.
#[derive(Clone, Copy, Debug, PartialEq, Eq, Structural)]
pub enum LinuxError {
    /// The page was loaded already.
    EEXIST,
    /// The page lies outside the file.
    EINVAL,
    /// Reading the file failed.
    EIO,
    /// No memory for another page.
    ENOMEM,
    /// Another error of the file, by its number.
    Other(i32),
}

/// A range `[start, end)` of virtual addresses.
#[derive(Clone, Copy, Debug, PartialEq, Eq, Structural)]
pub struct VirtAddrRange {
    pub start: usize,
    pub end: usize,
}

impl VirtAddrRange {
    /// Whether `addr` lies in the range.
    pub open spec fn has(self, addr: int) -> bool {
        self.start <= addr < self.end
    }

    /// Whether the two ranges share an address.
    pub open spec fn meets(self, other: VirtAddrRange) -> bool {
        self.start < other.end && other.start < self.end
    }

    /// The range from `start` on with `size` bytes; the end must fit in an address.
    pub fn from_start_size(start: usize, size: usize) -> (r: VirtAddrRange)
        requires
            start + size <= usize::MAX,
        ensures
            r == (VirtAddrRange { start, end: (start + size) as usize }),
    {
        VirtAddrRange { start, end: start + size }
    }

    /// Whether `addr` lies in the range.
    pub fn contains(&self, addr: usize) -> (r: bool)
        ensures
            r == self.has(addr as int),
    {
        self.start <= addr && addr < self.end
    }

    /// Whether the two ranges share an address.
    pub fn overlaps(&self, other: &VirtAddrRange) -> (r: bool)
        ensures
            r == self.meets(*other),
    {
        self.start < other.end && other.start < self.end
    }
}

/// The page sizes a mapping can be aligned to.
#[derive(Clone, Copy, Debug, PartialEq, Eq, Structural)]
pub enum PageSize {
    Size4K,
    Size2M,
    Size1G,
}

impl PageSize {
    pub open spec fn bytes(self) -> nat {
        match self {
            PageSize::Size4K => 0x1000,
            PageSize::Size2M => 0x20_0000,
            PageSize::Size1G => 0x4000_0000,
        }
    }

    /// The size in bytes.
    pub fn size(&self) -> (r: usize)
        ensures
            r == self.bytes(),
    {
        match self {
            PageSize::Size4K => 0x1000,
            PageSize::Size2M => 0x20_0000,
            PageSize::Size1G => 0x4000_0000,
        }
    }
}

/// The greatest multiple of `align` that is at most `addr`.
pub open spec fn align_down_spec(addr: int, align: int) -> int {
    addr - addr % align
}

/// The greatest multiple of `align` that is at most `addr`.
pub fn align_down(addr: usize, align: usize) -> (r: usize)
    requires
        align > 0,
    ensures
        r == align_down_spec(addr as int, align as int),
        r <= addr,
        r % align == 0,
        addr - r < align,
{
    proof {
        let q = addr as int / align as int;
        vstd::arithmetic::div_mod::lemma_fundamental_div_mod(addr as int, align as int);
        vstd::arithmetic::div_mod::lemma_mod_multiples_basic(q, align as int);
        vstd::arithmetic::mul::lemma_mul_is_commutative(q, align as int);
    }
    addr - addr % align
}


/// What a mapping needs of the file behind it; the kernel supplies the implementation.
pub trait VmFile: Sized + Clone + Send + Sync {
    /// Reads into `buf` from `offset` on; returns how many bytes were read. A slice keeps
    /// its length.
    fn read_at(&self, buf: &mut [u8], offset: u64) -> (r: Result<usize, LinuxError>)
        ensures
            final(buf)@.len() == old(buf)@.len(),
    ;

    /// The length of the file.
    fn len(&self) -> Result<u64, LinuxError>;

    /// Whether the file is empty.
    fn is_empty(&self) -> (r: Result<bool, LinuxError>) {
        match self.len() {
            Ok(n) => Ok(n == 0),
            Err(e) => Err(e),
        }
    }
}

/// The pages of `pages` that lie in `range`.
pub open spec fn pages_in(pages: Set<usize>, range: VirtAddrRange) -> Set<usize> {
    pages.filter(|p: usize| range.has(p as int))
}

/// Copies the pages of `pages` that lie in `range`.
fn pages_within(pages: &BTreeSet<usize>, range: &VirtAddrRange) -> (r: BTreeSet<usize>)
    ensures
        r@ == pages_in(pages@, *range),
{
    let mut out: BTreeSet<usize> = BTreeSet::new();
    let ghost keys: Seq<usize> = vstd::std_specs::btree::spec_btree_keys_iter(pages).remaining().unref();
    let ghost mut k: int = 0;
    assert(keys.to_set() == pages@);
    for p in it: pages.iter()
        invariant
            it.seq().unref() == keys,
            k == it.index(),
            forall|q: usize|
                out@.contains(q) <==> (range.has(q as int) && exists|j: int|
                    0 <= j < k && keys[j] == q),
    {
        assert(keys[it.index() as int] == *p);
        let ghost before: Set<usize> = out@;
        if range.contains(*p) {
            out.insert(*p);
        }
        proof {
            assert forall|q: usize|
                out@.contains(q) <==> (range.has(q as int) && exists|j: int|
                    0 <= j < k + 1 && keys[j] == q) by {
                assert(before.contains(q) <==> (range.has(q as int) && exists|j: int|
                    0 <= j < k && keys[j] == q));
                if q == *p {
                    assert(keys[k] == q);
                } else {
                    assert(out@.contains(q) == before.contains(q));
                    if exists|j: int| 0 <= j < k + 1 && keys[j] == q {
                        let j = choose|j: int| 0 <= j < k + 1 && keys[j] == q;
                        assert(j != k);
                        assert(0 <= j < k && keys[j] == q);
                    }
                    if exists|j: int| 0 <= j < k && keys[j] == q {
                        let j = choose|j: int| 0 <= j < k && keys[j] == q;
                        assert(0 <= j < k + 1 && keys[j] == q);
                    }
                }
            }
            k = k + 1;
        }
    }
    assert(k == keys.len());
    proof {
        assert forall|q: usize| out@.contains(q) <==> pages_in(pages@, *range).contains(q) by {
            assert(pages_in(pages@, *range).contains(q) <==> pages@.contains(q) && range.has(q as int));
            assert(out@.contains(q) <==> (range.has(q as int) && exists|j: int| 0 <= j < keys.len() && keys[j] == q));
            assert(pages@.contains(q) <==> keys.to_set().contains(q));
            assert(keys.to_set().contains(q) <==> keys.contains(q));
            if pages@.contains(q) {
                assert(keys.to_set().contains(q));
                let j = choose|j: int| 0 <= j < keys.len() && keys[j] == q;
                assert(keys[j] == q);
            }
            if exists|j: int| 0 <= j < keys.len() && keys[j] == q {
                let j = choose|j: int| 0 <= j < keys.len() && keys[j] == q;
                assert(keys.to_set().contains(q));
            }
        }
        assert(out@ =~= pages_in(pages@, *range));
    }
    out
}


/// What a region is, without its file: the range it maps, the file offset of its first
/// byte, the pages already loaded, and its alignment.
pub struct RegionShape {
    pub range: VirtAddrRange,
    pub offset: int,
    pub populated: Set<usize>,
    pub align: PageSize,
}

/// The part of a region `s` that `seg` covers: the file offset moves along with the start,
/// and only the loaded pages inside `seg` stay.
pub open spec fn cut(s: RegionShape, seg: VirtAddrRange) -> RegionShape {
    RegionShape {
        range: seg,
        offset: s.offset + (seg.start - s.range.start),
        populated: pages_in(s.populated, seg),
        align: s.align,
    }
}

/// What cutting the region `s` at `split` gives: the part before `split`, the part inside
/// it and the part after it, each where it is not empty; nothing where they do not meet.
pub open spec fn split_spec(s: RegionShape, split: VirtAddrRange) -> (
    Option<RegionShape>,
    Option<RegionShape>,
    Option<RegionShape>,
) {
    if !s.range.meets(split) {
        (None, None, None)
    } else {
        let lo: usize = if s.range.start < split.start { split.start } else { s.range.start };
        let hi: usize = if split.end < s.range.end { split.end } else { s.range.end };
        (
            if s.range.start < split.start {
                Some(cut(s, VirtAddrRange { start: s.range.start, end: split.start }))
            } else {
                None
            },
            if lo < hi {
                Some(cut(s, VirtAddrRange { start: lo, end: hi }))
            } else {
                None
            },
            if split.end < s.range.end {
                Some(cut(s, VirtAddrRange { start: split.end, end: s.range.end }))
            } else {
                None
            },
        )
    }
}

/// The shape of an optional region.
pub open spec fn shape_of<F: VmFile>(r: Option<MmapRegion<F>>) -> Option<RegionShape> {
    match r {
        Some(m) => Some(m.shape()),
        None => None,
    }
}

/// Whether the optional region `piece` holds a clone of `file`.
pub open spec fn file_cloned<F: VmFile>(file: F, piece: Option<MmapRegion<F>>) -> bool {
    match piece {
        Some(m) => cloned(file, m.file),
        None => true,
    }
}

/// Whether the optional part `p` maps the address `a`.
pub open spec fn part_has(p: Option<RegionShape>, a: int) -> bool {
    match p {
        Some(r) => r.range.has(a),
        None => false,
    }
}

/// The file offset at which the optional part `p` maps `a`, where it maps it.
pub open spec fn part_offset_at(p: Option<RegionShape>, a: int) -> int {
    match p {
        Some(r) => r.offset + (a - r.range.start),
        None => 0,
    }
}

/// Cutting a region at a range loses no address and doubles none: each address of the
/// region lies in exactly one part: before the range, inside it, or after it. Each part
/// maps the address to the file offset the region mapped it to, and keeps the loaded
/// pages of the region that lie in the part. Where the two do not meet, there are no parts.
pub proof fn lemma_split_partitions(s: RegionShape, split: VirtAddrRange, a: int)
    ensures
        !s.range.meets(split) ==> split_spec(s, split) == (
            None::<RegionShape>,
            None::<RegionShape>,
            None::<RegionShape>,
        ),
        s.range.meets(split) && s.range.has(a) ==> {
            let (b, o, f) = split_spec(s, split);
            &&& part_has(b, a) <==> a < split.start
            &&& part_has(o, a) <==> split.has(a)
            &&& part_has(f, a) <==> split.end <= a
            &&& part_has(b, a) ==> part_offset_at(b, a) == s.offset + (a - s.range.start)
            &&& part_has(o, a) ==> part_offset_at(o, a) == s.offset + (a - s.range.start)
            &&& part_has(f, a) ==> part_offset_at(f, a) == s.offset + (a - s.range.start)
        },
        forall|p: RegionShape, q: usize|
            (split_spec(s, split).0 == Some(p) || split_spec(s, split).1 == Some(p)
                || split_spec(s, split).2 == Some(p)) ==> (p.populated.contains(q) <==> (
            s.populated.contains(q) && p.range.has(q as int))),
{
}

/// Whether the file offset `file_offset` lies in a file of `file_len` bytes, whose length
/// must fit in an `isize`.
pub open spec fn offset_in_file_spec(file_offset: int, file_len: int) -> bool {
    0 <= file_offset < file_len && file_len <= isize::MAX
}

/// Whether the file offset `file_offset` lies in a file of `file_len` bytes, whose length
/// must fit in an `isize`.
pub fn offset_in_file(file_offset: isize, file_len: u64) -> (r: bool)
    ensures
        r == offset_in_file_spec(file_offset as int, file_len as int),
{
    if file_offset < 0 || file_len > (isize::MAX as u64) {
        false
    } else {
        (file_offset as u64) < file_len
    }
}

/// A memory mapping backed by a file.
pub struct MmapRegion<F: VmFile> {
    /// The virtual addresses it maps.
    pub range: VirtAddrRange,
    /// The file behind it.
    pub file: F,
    /// The file offset of the first mapped byte.
    pub offset: isize,
    /// The pages already loaded, by their addresses.
    pub populated: BTreeSet<usize>,
    /// The alignment of its pages.
    pub align: PageSize,
}

impl<F: VmFile> MmapRegion<F> {
    pub open spec fn shape(&self) -> RegionShape {
        RegionShape {
            range: self.range,
            offset: self.offset as int,
            populated: self.populated@,
            align: self.align,
        }
    }

    /// Whether every file offset of the region fits in an `isize`.
    pub open spec fn offsets_fit(&self) -> bool {
        &&& self.range.end - self.range.start <= isize::MAX
        &&& self.offset + (self.range.end - self.range.start) <= isize::MAX
    }

    /// A region with no page loaded yet.
    pub fn new(range: VirtAddrRange, file: F, offset: isize, align: PageSize) -> (r: Self)
        ensures
            r.range == range,
            r.file == file,
            r.offset == offset,
            r.populated@ == Set::<usize>::empty(),
            r.align == align,
    {
        MmapRegion { range, file, offset, populated: BTreeSet::new(), align }
    }

    /// Whether the region maps `vaddr`.
    pub fn contains(&self, vaddr: usize) -> (r: bool)
        ensures
            r == self.range.has(vaddr as int),
    {
        self.range.contains(vaddr)
    }

    /// Whether the region shares an address with `range`.
    pub fn overlaps(&self, range: &VirtAddrRange) -> (r: bool)
        ensures
            r == self.range.meets(*range),
    {
        self.range.overlaps(range)
    }

    /// The part of the region over `seg`, which starts within it.
    fn segment(&self, seg: VirtAddrRange) -> (r: Self)
        requires
            self.offsets_fit(),
            self.range.start <= seg.start,
            seg.start - self.range.start <= self.range.end - self.range.start,
        ensures
            r.shape() == cut(self.shape(), seg),
            cloned(self.file, r.file),
    {
        let populated = pages_within(&self.populated, &seg);
        let shift: isize = (seg.start - self.range.start) as isize;
        MmapRegion {
            range: seg,
            file: self.file.clone(),
            offset: self.offset + shift,
            populated,
            align: self.align,
        }
    }

    /// The address of the page that holds `vaddr`.
    pub open spec fn page_of(&self, vaddr: int) -> int {
        align_down_spec(vaddr, self.align.bytes() as int)
    }

    /// The file offset of the address `a`.
    pub open spec fn file_offset_of(&self, a: int) -> int {
        self.offset + (a - self.range.start)
    }

    /// How many bytes of the page at `page` the region maps: a page, or less at its end.
    pub open spec fn page_bytes(&self, page: int) -> int {
        let room = self.range.end - page;
        if self.align.bytes() < room {
            self.align.bytes() as int
        } else {
            room
        }
    }

    /// Loads the page that holds `vaddr`: fails with `EEXIST` when it was loaded already,
    /// with `EINVAL` when its file offset lies outside the file, and with the file's own
    /// error when asking for the file's length or reading fails; otherwise reads the page's
    /// bytes from the file, records the page as loaded and hands them back.
    pub fn get_buf(&mut self, vaddr: usize) -> (r: Result<Vec<u8>, LinuxError>)
        requires
            old(self).offsets_fit(),
            old(self).range.start <= old(self).page_of(vaddr as int) <= old(self).range.end,
        ensures
            final(self).range == old(self).range,
            final(self).file == old(self).file,
            final(self).offset == old(self).offset,
            final(self).align == old(self).align,
            old(self).populated@.contains(old(self).page_of(vaddr as int) as usize) ==> r == Err::<
                Vec<u8>,
                LinuxError,
            >(LinuxError::EEXIST),
            !old(self).populated@.contains(old(self).page_of(vaddr as int) as usize) && old(
                self,
            ).file_offset_of(old(self).page_of(vaddr as int)) < 0 ==> r == Err::<
                Vec<u8>,
                LinuxError,
            >(LinuxError::EINVAL),
            r is Err ==> final(self).populated@ == old(self).populated@,
            r matches Ok(buf) ==> {
                let page = old(self).page_of(vaddr as int);
                &&& !old(self).populated@.contains(page as usize)
                &&& old(self).file_offset_of(page) >= 0
                &&& buf@.len() == old(self).page_bytes(page)
                &&& final(self).populated@ == old(self).populated@.insert(page as usize)
            },
    {
        let size: usize = self.align.size();
        let page_addr: usize = align_down(vaddr, size);
        if self.populated.contains(&page_addr) {
            return Err(LinuxError::EEXIST);
        }
        let page_offset: usize = page_addr - self.range.start;
        let file_offset: isize = self.offset + page_offset as isize;
        if file_offset < 0 {
            return Err(LinuxError::EINVAL);
        }
        let file_len: u64 = match self.file.len() {
            Ok(n) => n,
            Err(e) => return Err(e),
        };
        if !offset_in_file(file_offset, file_len) {
            return Err(LinuxError::EINVAL);
        }
        let room: usize = self.range.end - page_addr;
        let buf_size: usize = if size < room {
            size
        } else {
            room
        };
        let mut buf: Vec<u8> = vec![0u8; buf_size];
        match self.file.read_at(buf.as_mut_slice(), file_offset as u64) {
            Ok(_) => {},
            Err(e) => return Err(e),
        }
        self.populated.insert(page_addr);
        Ok(buf)
    }

    /// Cuts the region at `range` into the parts before it, inside it and after it, each
    /// where it is not empty; gives three `None` where the two do not meet.
    pub fn split_at_range(&self, range: &VirtAddrRange) -> (r: (
        Option<Self>,
        Option<Self>,
        Option<Self>,
    ))
        requires
            self.offsets_fit(),
        ensures
            (shape_of(r.0), shape_of(r.1), shape_of(r.2)) == split_spec(self.shape(), *range),
            file_cloned(self.file, r.0),
            file_cloned(self.file, r.1),
            file_cloned(self.file, r.2),
    {
        if !self.overlaps(range) {
            return (None, None, None);
        }
        let before = if self.range.start < range.start {
            Some(
                self.segment(
                    VirtAddrRange::from_start_size(self.range.start, range.start - self.range.start),
                ),
            )
        } else {
            None
        };
        let after = if range.end < self.range.end {
            Some(
                self.segment(VirtAddrRange::from_start_size(range.end, self.range.end - range.end)),
            )
        } else {
            None
        };
        let lo: usize = if self.range.start < range.start {
            range.start
        } else {
            self.range.start
        };
        let hi: usize = if range.end < self.range.end {
            range.end
        } else {
            self.range.end
        };
        let overlap = if lo < hi {
            Some(self.segment(VirtAddrRange::from_start_size(lo, hi - lo)))
        } else {
            None
        };
        (before, overlap, after)
    }
}


impl<F: VmFile> Clone for MmapRegion<F> {
    /// A region of the same shape over a clone of the file.
    fn clone(&self) -> (r: Self)
        ensures
            r.shape() == self.shape(),
            cloned(self.file, r.file),
    {
        MmapRegion {
            range: self.range,
            file: self.file.clone(),
            offset: self.offset,
            populated: self.populated.clone(),
            align: self.align,
        }
    }
}

/// The shapes of a list of regions.
pub open spec fn shapes<F: VmFile>(rs: Seq<MmapRegion<F>>) -> Seq<RegionShape> {
    Seq::new(rs.len(), |i: int| rs[i].shape())
}

/// The optional shape as a list of none or one.
pub open spec fn opt_seq(p: Option<RegionShape>) -> Seq<RegionShape> {
    match p {
        Some(r) => seq![r],
        None => Seq::empty(),
    }
}

/// What stays of a region when `range` is taken out: the region itself where they do not
/// meet, else its parts before and after the range.
pub open spec fn kept_parts(s: RegionShape, range: VirtAddrRange) -> Seq<RegionShape> {
    if !s.range.meets(range) {
        seq![s]
    } else {
        opt_seq(split_spec(s, range).0) + opt_seq(split_spec(s, range).2)
    }
}

/// What `range` takes out of a region: its part inside the range, if they meet.
pub open spec fn taken_part(s: RegionShape, range: VirtAddrRange) -> Seq<RegionShape> {
    if !s.range.meets(range) {
        Seq::empty()
    } else {
        opt_seq(split_spec(s, range).1)
    }
}

/// What stays of a list of regions when `range` is taken out, in order.
pub open spec fn kept_all(ss: Seq<RegionShape>, range: VirtAddrRange) -> Seq<RegionShape>
    decreases ss.len(),
{
    if ss.len() == 0 {
        Seq::empty()
    } else {
        kept_all(ss.drop_last(), range) + kept_parts(ss.last(), range)
    }
}

/// What `range` takes out of a list of regions, in order.
pub open spec fn taken_all(ss: Seq<RegionShape>, range: VirtAddrRange) -> Seq<RegionShape>
    decreases ss.len(),
{
    if ss.len() == 0 {
        Seq::empty()
    } else {
        taken_all(ss.drop_last(), range) + taken_part(ss.last(), range)
    }
}

/// Taking a range out of a list of regions leaves no region that meets the range, and
/// every part it hands back is a non-empty piece of the range.
pub proof fn lemma_taking_clears_range(ss: Seq<RegionShape>, range: VirtAddrRange)
    ensures
        forall|i: int|
            0 <= i < kept_all(ss, range).len() ==> !(#[trigger] kept_all(ss, range)[i]).range.meets(
                range,
            ),
        forall|i: int|
            0 <= i < taken_all(ss, range).len() ==> {
                let p = #[trigger] taken_all(ss, range)[i];
                range.start <= p.range.start < p.range.end <= range.end
            },
    decreases ss.len(),
{
    if ss.len() > 0 {
        lemma_taking_clears_range(ss.drop_last(), range);
        let k0 = kept_all(ss.drop_last(), range);
        let t0 = taken_all(ss.drop_last(), range);
        let kp = kept_parts(ss.last(), range);
        let tp = taken_part(ss.last(), range);
        assert forall|i: int| 0 <= i < kept_all(ss, range).len() implies !(
        #[trigger] kept_all(ss, range)[i]).range.meets(range) by {
            if i >= k0.len() {
                assert(kept_all(ss, range)[i] == kp[i - k0.len()]);
            } else {
                assert(kept_all(ss, range)[i] == k0[i]);
            }
        }
        assert forall|i: int| 0 <= i < taken_all(ss, range).len() implies {
            let p = #[trigger] taken_all(ss, range)[i];
            range.start <= p.range.start < p.range.end <= range.end
        } by {
            if i >= t0.len() {
                assert(taken_all(ss, range)[i] == tp[i - t0.len()]);
            } else {
                assert(taken_all(ss, range)[i] == t0[i]);
            }
        }
    }
}

/// For each part `kept_all` leaves, the index of the region it comes from.
pub open spec fn kept_sources(ss: Seq<RegionShape>, range: VirtAddrRange) -> Seq<int>
    decreases ss.len(),
{
    if ss.len() == 0 {
        Seq::empty()
    } else {
        kept_sources(ss.drop_last(), range) + Seq::new(kept_parts(ss.last(), range).len(), |i: int| ss.len() - 1)
    }
}

/// For each part `taken_all` hands back, the index of the region it comes from.
pub open spec fn taken_sources(ss: Seq<RegionShape>, range: VirtAddrRange) -> Seq<int>
    decreases ss.len(),
{
    if ss.len() == 0 {
        Seq::empty()
    } else {
        taken_sources(ss.drop_last(), range) + Seq::new(taken_part(ss.last(), range).len(), |i: int| ss.len() - 1)
    }
}

/// Each region of `rs` is a part of the region of `from` that `src` names for it: that
/// region itself, file and all, where it does not meet `range`, else a piece of it that
/// holds a clone of its file.
pub open spec fn parts_from<F: VmFile>(rs: Seq<MmapRegion<F>>, src: Seq<int>, from: Seq<MmapRegion<F>>,
    range: VirtAddrRange) -> bool {
    &&& rs.len() == src.len()
    &&& forall|i: int|
        #![trigger rs[i]]
        0 <= i < rs.len() ==> {
            &&& 0 <= src[i] < from.len()
            &&& if from[src[i]].range.meets(range) {
                cloned(from[src[i]].file, rs[i].file)
            } else {
                rs[i] == from[src[i]]
            }
        }
}

/// The file-backed mappings of an address space, in the order they were added.
pub struct VmaManager<F: VmFile> {
    regions: Vec<MmapRegion<F>>,
}

impl<F: VmFile> VmaManager<F> {
    /// The regions, in order.
    pub closed spec fn regions(&self) -> Seq<MmapRegion<F>> {
        self.regions@
    }

    /// A manager with no region.
    pub fn new() -> (r: Self)
        ensures
            r.regions() == Seq::<MmapRegion<F>>::empty(),
    {
        VmaManager { regions: Vec::new() }
    }

    /// Forgets every region.
    pub fn clear(&mut self)
        ensures
            final(self).regions() == Seq::<MmapRegion<F>>::empty(),
    {
        self.regions.clear();
    }

    /// Adds a region after the others; this cannot fail.
    pub fn add_region(&mut self, region: MmapRegion<F>) -> (r: Result<(), LinuxError>)
        ensures
            r is Ok,
            final(self).regions() == old(self).regions().push(region),
    {
        self.regions.push(region);
        Ok(())
    }

    /// Takes `vaddr_range` out of every region: a region that does not meet it stays as it
    /// is, one that does is cut; its parts before and after the range stay, in place of
    /// it, and its part inside the range is handed back, in the order of the regions.
    pub fn remove_overlapped(&mut self, vaddr_range: VirtAddrRange) -> (removed: Vec<
        MmapRegion<F>,
    >)
        requires
            forall|i: int| 0 <= i < old(self).regions().len() ==> #[trigger] old(self).regions()[i].offsets_fit(),
        ensures
            shapes(final(self).regions()) == kept_all(shapes(old(self).regions()), vaddr_range),
            shapes(removed@) == taken_all(shapes(old(self).regions()), vaddr_range),
            parts_from(final(self).regions(), kept_sources(shapes(old(self).regions()), vaddr_range),
                old(self).regions(), vaddr_range),
            parts_from(removed@, taken_sources(shapes(old(self).regions()), vaddr_range), old(self).regions(),
                vaddr_range),
    {
        let mut drained: Vec<MmapRegion<F>> = Vec::new();
        std::mem::swap(&mut self.regions, &mut drained);
        let ghost orig: Seq<MmapRegion<F>> = drained@;
        assert(orig == old(self).regions());
        assert forall|i: int| 0 <= i < orig.len() implies #[trigger] orig[i].offsets_fit() by {
            assert(old(self).regions()[i].offsets_fit());
        }
        let mut removed: Vec<MmapRegion<F>> = Vec::new();
        let mut retained: Vec<MmapRegion<F>> = Vec::new();
        for region in it: drained.into_iter()
            invariant
                it.seq() == orig,
                forall|i: int| 0 <= i < orig.len() ==> #[trigger] orig[i].offsets_fit(),
                shapes(retained@) == kept_all(shapes(orig.take(it.index() as int)), vaddr_range),
                shapes(removed@) == taken_all(shapes(orig.take(it.index() as int)), vaddr_range),
                parts_from(retained@, kept_sources(shapes(orig.take(it.index() as int)), vaddr_range), orig, vaddr_range),
                parts_from(removed@, taken_sources(shapes(orig.take(it.index() as int)), vaddr_range), orig, vaddr_range),
        {
            let ghost k: int = it.index() as int;
            let ghost kept0 = retained@;
            let ghost taken0 = removed@;
            let ghost ks0 = kept_sources(shapes(orig.take(k)), vaddr_range);
            let ghost ts0 = taken_sources(shapes(orig.take(k)), vaddr_range);
            assert(orig[k] == region);
            assert(shapes(orig.take(k + 1)).drop_last() =~= shapes(orig.take(k)));
            assert(shapes(orig.take(k + 1)).last() == region.shape());
            assert(shapes(orig.take(k + 1)).len() == k + 1);
            let ghost ks1 = kept_sources(shapes(orig.take(k + 1)), vaddr_range);
            let ghost ts1 = taken_sources(shapes(orig.take(k + 1)), vaddr_range);
            assert(ks1 == ks0 + Seq::new(kept_parts(region.shape(), vaddr_range).len(), |i: int| k));
            assert(ts1 == ts0 + Seq::new(taken_part(region.shape(), vaddr_range).len(), |i: int| k));
            if region.overlaps(&vaddr_range) {
                let ghost file = region.file;
                let (before, overlap, after) = region.split_at_range(&vaddr_range);
                if let Some(o) = overlap {
                    removed.push(o);
                }
                if let Some(b) = before {
                    retained.push(b);
                }
                if let Some(a) = after {
                    retained.push(a);
                }
                assert(shapes(retained@) =~= shapes(kept0) + kept_parts(orig[k].shape(), vaddr_range));
                assert(shapes(removed@) =~= shapes(taken0) + taken_part(orig[k].shape(), vaddr_range));
                assert(shapes(retained@).len() == retained@.len());
                assert(shapes(removed@).len() == removed@.len());
                assert forall|i: int| #![trigger retained@[i]] 0 <= i < retained@.len() implies {
                    &&& 0 <= ks1[i] < orig.len()
                    &&& if orig[ks1[i]].range.meets(vaddr_range) {
                        cloned(orig[ks1[i]].file, retained@[i].file)
                    } else {
                        retained@[i] == orig[ks1[i]]
                    }
                } by {
                    if i >= kept0.len() {
                        assert(ks1[i] == k);
                        assert(cloned(orig[k].file, retained@[i].file));
                    } else {
                        assert(retained@[i] == kept0[i]);
                        assert(ks1[i] == ks0[i]);
                    }
                }
                assert forall|i: int| #![trigger removed@[i]] 0 <= i < removed@.len() implies {
                    &&& 0 <= ts1[i] < orig.len()
                    &&& if orig[ts1[i]].range.meets(vaddr_range) {
                        cloned(orig[ts1[i]].file, removed@[i].file)
                    } else {
                        removed@[i] == orig[ts1[i]]
                    }
                } by {
                    if i >= taken0.len() {
                        assert(ts1[i] == k);
                        assert(cloned(orig[k].file, removed@[i].file));
                    } else {
                        assert(removed@[i] == taken0[i]);
                        assert(ts1[i] == ts0[i]);
                    }
                }
            } else {
                retained.push(region);
                assert(shapes(retained@) =~= shapes(kept0) + kept_parts(orig[k].shape(), vaddr_range));
                assert(shapes(removed@) =~= shapes(taken0) + taken_part(orig[k].shape(), vaddr_range));
                assert(shapes(retained@).len() == retained@.len());
                assert(ts1 =~= ts0);
                assert forall|i: int| #![trigger retained@[i]] 0 <= i < retained@.len() implies {
                    &&& 0 <= ks1[i] < orig.len()
                    &&& if orig[ks1[i]].range.meets(vaddr_range) {
                        cloned(orig[ks1[i]].file, retained@[i].file)
                    } else {
                        retained@[i] == orig[ks1[i]]
                    }
                } by {
                    if i >= kept0.len() {
                        assert(ks1[i] == k);
                    } else {
                        assert(retained@[i] == kept0[i]);
                        assert(ks1[i] == ks0[i]);
                    }
                }
            }
        }
        assert(orig.take(orig.len() as int) =~= orig);
        self.regions = retained;
        removed
    }

    /// The first region that maps `vaddr`, if any does.
    pub fn find_region(&self, vaddr: usize) -> (r: Option<&MmapRegion<F>>)
        ensures
            match r {
                Some(m) => exists|i: int|
                    0 <= i < self.regions().len() && *m == self.regions()[i] && m.range.has(
                        vaddr as int,
                    ) && forall|j: int| 0 <= j < i ==> !self.regions()[j].range.has(vaddr as int),
                None => forall|j: int|
                    0 <= j < self.regions().len() ==> !self.regions()[j].range.has(vaddr as int),
            },
    {
        let mut i: usize = 0;
        while i < self.regions.len()
            invariant
                i <= self.regions@.len(),
                forall|j: int| 0 <= j < i ==> !self.regions@[j].range.has(vaddr as int),
            decreases self.regions@.len() - i,
        {
            if self.regions[i].contains(vaddr) {
                return Some(&self.regions[i]);
            }
            i = i + 1;
        }
        None
    }
}

impl<F: VmFile> Default for VmaManager<F> {
    /// A manager with no region.
    fn default() -> (r: Self)
        ensures
            r.regions() == Seq::<MmapRegion<F>>::empty(),
    {
        Self::new()
    }
}

} // verus!
