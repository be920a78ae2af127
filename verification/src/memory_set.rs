//! Address spaces: the kernel's identity mappings, user programs and the
//! copies that fill their pages.
use vstd::prelude::*;
use crate::address::{vpn_indexes, lemma_indexes_determine_vpn, PhysAddr, VirtAddr, VirtPageNum};
use crate::frame_allocator::{StackFrameAllocator, MEMORY_END};
use crate::page_table::{pte_bits, PTEFlags, PageTable, PageTableEntry};
use crate::frame_allocator::{round_down, round_up};
use crate::bytes::{le32, le64, le_u16, le_u32, le_u64};
use crate::loader::{word, elf_phoff, elf_phentsize, elf_phnum, ph_offset, ph_is_load};

verus! {

/// Start of the device registers mapped into every address space.
pub const MMIO_BASE: usize = 0x1000_0000;

/// Size of the device register window.
pub const MMIO_SIZE: usize = 0x9000;

/// Flag bits of the sections: R | X.
pub const FLAGS_RX: u64 = 10;
/// R.
pub const FLAGS_R: u64 = 2;
/// R | X | U.
pub const FLAGS_RXU: u64 = 26;
/// R | W.
pub const FLAGS_RW: u64 = 6;
/// R | W | U.
pub const FLAGS_RWU: u64 = 22;
/// R | W | X | U.
pub const FLAGS_RWXU: u64 = 30;

/// The addresses the linker gives the kernel image, and where the two user stacks lie.
/// The stacks are two distinct statics aligned to 16 bytes, so a layout the linker
/// produced meets `crate::user::stacks_placed`.
#[derive(Clone, Copy, Debug)]
pub struct KernelLayout {
    pub stext: usize,
    pub etext: usize,
    pub srodata: usize,
    pub erodata: usize,
    pub suser_text: usize,
    pub euser_text: usize,
    pub sdata: usize,
    pub edata: usize,
    pub ebss: usize,
    pub suser_stack: usize,
    pub euser_stack: usize,
    pub ekernel: usize,
    pub user_stack0: usize,
    pub user_stack1: usize,
}

/// A range of addresses mapped one to one onto the same physical addresses.
#[derive(Clone, Copy, Debug, PartialEq, Eq, Structural)]
pub struct Section {
    pub start: usize,
    pub end: usize,
    pub flags: u64,
}

/// Page `k` lies in section `s`.
pub open spec fn in_section(s: Section, k: int) -> bool {
    s.start / 4096 <= k < s.end / 4096
}

/// The sections of a kernel address space, in the order `new_kernel` maps them.
pub open spec fn kernel_sections(l: KernelLayout) -> Seq<Section> {
    seq![
        Section { start: l.stext, end: l.etext, flags: FLAGS_RX },
        Section { start: l.srodata, end: l.erodata, flags: FLAGS_R },
        Section { start: l.suser_text, end: l.euser_text, flags: FLAGS_RXU },
        Section { start: l.sdata, end: l.edata, flags: FLAGS_RW },
        Section { start: l.edata, end: l.ebss, flags: FLAGS_RW },
        Section { start: l.suser_stack, end: l.euser_stack, flags: FLAGS_RWU },
        Section { start: l.ekernel, end: MEMORY_END, flags: FLAGS_RW },
        Section { start: MMIO_BASE, end: (MMIO_BASE + MMIO_SIZE) as usize, flags: FLAGS_RW },
    ]
}

/// The sections of a user address space, in the order `new_user` maps them.
pub open spec fn user_sections(l: KernelLayout) -> Seq<Section> {
    seq![
        Section { start: l.stext, end: l.etext, flags: FLAGS_RX },
        Section { start: l.sdata, end: l.edata, flags: FLAGS_RW },
        Section { start: l.srodata, end: l.erodata, flags: FLAGS_R },
        Section { start: l.suser_text, end: l.euser_text, flags: FLAGS_RXU },
        Section { start: l.edata, end: l.ebss, flags: FLAGS_RW },
        Section { start: l.suser_stack, end: l.euser_stack, flags: FLAGS_RWU },
        Section { start: l.ekernel, end: MEMORY_END, flags: FLAGS_RW },
        Section { start: MMIO_BASE, end: (MMIO_BASE + MMIO_SIZE) as usize, flags: FLAGS_RW },
    ]
}

/// Sections that can be mapped together: page aligned, below `MEMORY_END`, and
/// without a page in common.
pub open spec fn sections_ok(secs: Seq<Section>) -> bool {
    &&& forall|i: int| 0 <= i < secs.len() ==> {
        &&& (#[trigger] secs[i]).start % 4096 == 0
        &&& secs[i].end % 4096 == 0
        &&& secs[i].start <= secs[i].end <= MEMORY_END
    }
    &&& forall|i: int, j: int| 0 <= i < secs.len() && 0 <= j < secs.len() && i != j ==>
        #[trigger] secs[i].end <= #[trigger] secs[j].start || secs[j].end <= secs[i].start
}

/// A layout whose sections can be mapped: what `new_kernel` and `new_user` ask of the linker.
pub open spec fn layout_ok(l: KernelLayout) -> bool {
    sections_ok(kernel_sections(l)) && sections_ok(user_sections(l))
}

/// Table frames that mapping the first `n` sections may take.
pub open spec fn sections_budget(secs: Seq<Section>, n: int) -> int
    decreases n,
{
    if n <= 0 {
        0
    } else {
        sections_budget(secs, n - 1) + PageTable::range_frame_budget(
            (secs[n - 1].start / 4096) as int,
            (secs[n - 1].end / 4096) as int,
        )
    }
}

proof fn lemma_budget_nonneg(s: int, e: int)
    requires
        0 <= s,
    ensures
        PageTable::range_frame_budget(s, e) >= 0,
{
    if s < e {
        assert((e - 1) / 512 >= s / 512) by (nonlinear_arith)
            requires e - 1 >= s, s >= 0;
    }
}

proof fn lemma_budget_mono(secs: Seq<Section>, i: int, n: int)
    requires
        0 <= i <= n <= secs.len(),
    ensures
        sections_budget(secs, i) <= sections_budget(secs, n),
    decreases n - i,
{
    if i < n {
        lemma_budget_mono(secs, i, n - 1);
        lemma_budget_nonneg((secs[n - 1].start / 4096) as int, (secs[n - 1].end / 4096) as int);
    }
}

/// Distinct pages below `2^27` have distinct table indexes.
proof fn lemma_distinct_pages(a: int, b: int)
    requires
        0 <= a < 0x800_0000,
        0 <= b < 0x800_0000,
        a != b,
    ensures
        vpn_indexes(a) != vpn_indexes(b),
{
    if vpn_indexes(a) == vpn_indexes(b) {
        lemma_indexes_determine_vpn(a, b);
    }
}

/// Every page of `[start, end)` maps to the same physical page with `flags` and the valid bit.
pub open spec fn identity_mapped(pt: PageTable, start: int, end: int, flags: u64) -> bool {
    forall|k: int| start / 4096 <= k < end / 4096 ==> (#[trigger] pt.walk(k)) is Some
        && pt.walk(k)->0.bits_spec() == pte_bits(k as u64, flags | 1)
}

/// An address space: one page table.
pub struct MemorySet {
    page_table: PageTable,
}

impl MemorySet {
    pub closed spec fn table(&self) -> PageTable {
        self.page_table
    }

    /// The invariant of an address space.
    pub open spec fn wf(&self) -> bool {
        self.table().wf()
    }

    /// Maps `[start, end)` one to one, unless it is empty.
    fn map_identical_range(&mut self, start: usize, end: usize, flags: u64, frames: &mut StackFrameAllocator)
        requires
            old(self).wf(),
            old(self).table().frames_below(old(frames).current_spec()),
            old(frames).end_spec() <= 0x1000_0000_0000,
            old(frames).current_spec() <= old(frames).end_spec(),
            start % 4096 == 0,
            end % 4096 == 0,
            start <= end <= MEMORY_END,
            forall|k: int| start / 4096 <= k < end / 4096 ==> (#[trigger] old(self).table().walk(k)) is None,
            old(frames).available_spec() >= PageTable::range_frame_budget((start / 4096) as int, (end / 4096) as int),
        ensures
            final(self).wf(),
            final(self).table().frames_below(final(frames).current_spec()),
            final(frames).end_spec() == old(frames).end_spec(),
            old(frames).current_spec() <= final(frames).current_spec() <= old(frames).current_spec()
                + PageTable::range_frame_budget((start / 4096) as int, (end / 4096) as int),
            final(self).table().root_ppn_spec() == old(self).table().root_ppn_spec(),
            identity_mapped(final(self).table(), start as int, end as int, flags),
            forall|v: int| 0 <= v < 0x800_0000 && !(start / 4096 <= v < end / 4096)
                ==> #[trigger] final(self).table().walk(v) == old(self).table().walk(v),
    {
        if start == end {
            return;
        }
        let ghost before = self.page_table;
        self.page_table.map_range(VirtAddr(start), VirtAddr(end), PhysAddr(start), PTEFlags::from_bits(flags), frames);
    }

    /// Maps each of `secs` one to one with its flags.
    fn map_sections(&mut self, secs: &Vec<Section>, frames: &mut StackFrameAllocator)
        requires
            old(self).wf(),
            old(self).table().frames_below(old(frames).current_spec()),
            old(frames).end_spec() <= 0x1000_0000_0000,
            old(frames).current_spec() <= old(frames).end_spec(),
            sections_ok(secs@),
            forall|i: int, k: int| 0 <= i < secs@.len() && #[trigger] in_section(secs@[i], k)
                ==> (#[trigger] old(self).table().walk(k)) is None,
            old(frames).available_spec() >= sections_budget(secs@, secs@.len() as int),
        ensures
            final(self).wf(),
            final(self).table().frames_below(final(frames).current_spec()),
            final(frames).end_spec() == old(frames).end_spec(),
            old(frames).current_spec() <= final(frames).current_spec() <= old(frames).current_spec()
                + sections_budget(secs@, secs@.len() as int),
            final(self).table().root_ppn_spec() == old(self).table().root_ppn_spec(),
            forall|i: int| 0 <= i < secs@.len() ==> identity_mapped(final(self).table(),
                (#[trigger] secs@[i]).start as int, secs@[i].end as int, secs@[i].flags),
            forall|v: int| 0 <= v < 0x800_0000 && (forall|i: int| 0 <= i < secs@.len() ==> !in_section(#[trigger] secs@[i], v))
                ==> #[trigger] final(self).table().walk(v) == old(self).table().walk(v),
    {
        let ghost start = self.page_table;
        let ghost c0 = frames.current_spec();
        let n: usize = secs.len();
        let mut i: usize = 0;
        while i < n
            invariant
                n == secs@.len(),
                i <= n,
                sections_ok(secs@),
                self.wf(),
                self.table().frames_below(frames.current_spec()),
                frames.end_spec() == old(frames).end_spec(),
                frames.end_spec() <= 0x1000_0000_0000,
                frames.current_spec() <= frames.end_spec(),
                c0 == old(frames).current_spec(),
                c0 <= frames.current_spec() <= c0 + sections_budget(secs@, i as int),
                old(frames).available_spec() >= sections_budget(secs@, n as int),
                self.table().root_ppn_spec() == start.root_ppn_spec(),
                forall|i: int, k: int| 0 <= i < secs@.len() && #[trigger] in_section(secs@[i], k)
                    ==> (#[trigger] start.walk(k)) is None,
                forall|j: int| 0 <= j < i ==> identity_mapped(self.table(),
                    (#[trigger] secs@[j]).start as int, secs@[j].end as int, secs@[j].flags),
                forall|v: int| 0 <= v < 0x800_0000 && (forall|j: int| 0 <= j < i ==> !in_section(#[trigger] secs@[j], v))
                    ==> #[trigger] self.table().walk(v) == start.walk(v),
            decreases n - i,
        {
            let sec = secs[i];
            let ghost before = self.page_table;
            proof {
                lemma_budget_mono(secs@, i + 1, n as int);
                assert(sec == secs@[i as int]);
                assert(sec.end <= MEMORY_END);
                assert forall|k: int| sec.start / 4096 <= k < sec.end / 4096 implies (#[trigger] before.walk(k)) is None by {
                    assert(in_section(secs@[i as int], k));
                    assert forall|j: int| 0 <= j < i implies !in_section(#[trigger] secs@[j], k) by {
                        assert(secs@[j].end <= secs@[i as int].start || secs@[i as int].end <= secs@[j].start);
                    }
                    assert(k < 0x800_0000);
                }
            }
            self.map_identical_range(sec.start, sec.end, sec.flags, frames);
            proof {
                assert forall|j: int| 0 <= j < i + 1 implies identity_mapped(self.table(),
                    (#[trigger] secs@[j]).start as int, secs@[j].end as int, secs@[j].flags) by {
                    if j < i {
                        assert forall|k: int| secs@[j].start / 4096 <= k < secs@[j].end / 4096 implies
                            (#[trigger] self.table().walk(k)) is Some
                            && self.table().walk(k)->0.bits_spec() == pte_bits(k as u64, secs@[j].flags | 1) by {
                            assert(identity_mapped(before, secs@[j].start as int, secs@[j].end as int, secs@[j].flags));
                            assert(before.walk(k) is Some);
                            assert(secs@[j].end <= secs@[i as int].start || secs@[i as int].end <= secs@[j].start);
                            assert(k < 0x800_0000);
                        }
                    }
                }
                assert forall|v: int| 0 <= v < 0x800_0000 && (forall|j: int| 0 <= j < i + 1 ==> !in_section(#[trigger] secs@[j], v))
                    implies #[trigger] self.table().walk(v) == start.walk(v) by {
                    assert(!in_section(secs@[i as int], v));
                    assert forall|j: int| 0 <= j < i implies !in_section(#[trigger] secs@[j], v) by {
                        assert(0 <= j < i + 1);
                    }
                }
            }
            i = i + 1;
        }
    }
}

/// What the hardware finds for address `va`: a valid entry that points back at `va`'s own
/// page, with the readable, writable and executable bits as given.
pub open spec fn mapping_has(pt: PageTable, va: int, r: bool, w: bool, x: bool) -> bool {
    let e = pt.walk(va / 4096);
    &&& e is Some
    &&& e->0.ppn_spec() as usize == va / 4096
    &&& e->0.has_flag(2) == r
    &&& e->0.has_flag(4) == w
    &&& e->0.has_flag(8) == x
}

/// The checks `self_check` makes of a kernel address space.
pub open spec fn kernel_check(pt: PageTable, l: KernelLayout) -> bool {
    &&& mapping_has(pt, l.stext as int, true, false, true)
    &&& mapping_has(pt, l.srodata as int, true, false, false)
    &&& mapping_has(pt, l.sdata as int, true, true, false)
    &&& mapping_has(pt, l.edata as int, true, true, false)
    &&& mapping_has(pt, l.suser_stack as int, true, true, false)
}

/// `pt` maps exactly `secs`, each one to one with its flags, and nothing else below `2^27` pages.
pub open spec fn maps_exactly(pt: PageTable, secs: Seq<Section>) -> bool {
    &&& forall|i: int| 0 <= i < secs.len() ==> identity_mapped(pt,
        (#[trigger] secs[i]).start as int, secs[i].end as int, secs[i].flags)
    &&& forall|v: int| 0 <= v < 0x800_0000 && (forall|i: int| 0 <= i < secs.len() ==> !in_section(#[trigger] secs[i], v))
        ==> (#[trigger] pt.walk(v)) is None
}

/// The entry a section maps page `k` with: `k` itself, and the section's flags with the valid bit.
proof fn lemma_section_entry(e: PageTableEntry, k: int, flags: u64)
    requires
        0 <= k < 0x800_0000,
        flags < 1024,
        e.bits_spec() == pte_bits(k as u64, flags | 1),
    ensures
        e.ppn_spec() == k,
        e.flags_spec() == flags | 1,
{
    assert(flags | 1 < 1024) by (bit_vector)
        requires flags < 1024;
    crate::page_table::lemma_pte_roundtrip(k as u64, flags | 1);
}

/// The sections of `l` as a vector, in the order `kernel_sections` gives.
fn kernel_section_list(l: &KernelLayout) -> (r: Vec<Section>)
    ensures
        r@ == kernel_sections(*l),
{
    let mut v: Vec<Section> = Vec::new();
    v.push(Section { start: l.stext, end: l.etext, flags: FLAGS_RX });
    v.push(Section { start: l.srodata, end: l.erodata, flags: FLAGS_R });
    v.push(Section { start: l.suser_text, end: l.euser_text, flags: FLAGS_RXU });
    v.push(Section { start: l.sdata, end: l.edata, flags: FLAGS_RW });
    v.push(Section { start: l.edata, end: l.ebss, flags: FLAGS_RW });
    v.push(Section { start: l.suser_stack, end: l.euser_stack, flags: FLAGS_RWU });
    v.push(Section { start: l.ekernel, end: MEMORY_END, flags: FLAGS_RW });
    v.push(Section { start: MMIO_BASE, end: MMIO_BASE + MMIO_SIZE, flags: FLAGS_RW });
    assert(v@ =~= kernel_sections(*l));
    v
}

/// The sections of `l` as a vector, in the order `user_sections` gives.
fn user_section_list(l: &KernelLayout) -> (r: Vec<Section>)
    ensures
        r@ == user_sections(*l),
{
    let mut v: Vec<Section> = Vec::new();
    v.push(Section { start: l.stext, end: l.etext, flags: FLAGS_RX });
    v.push(Section { start: l.sdata, end: l.edata, flags: FLAGS_RW });
    v.push(Section { start: l.srodata, end: l.erodata, flags: FLAGS_R });
    v.push(Section { start: l.suser_text, end: l.euser_text, flags: FLAGS_RXU });
    v.push(Section { start: l.edata, end: l.ebss, flags: FLAGS_RW });
    v.push(Section { start: l.suser_stack, end: l.euser_stack, flags: FLAGS_RWU });
    v.push(Section { start: l.ekernel, end: MEMORY_END, flags: FLAGS_RW });
    v.push(Section { start: MMIO_BASE, end: MMIO_BASE + MMIO_SIZE, flags: FLAGS_RW });
    assert(v@ =~= user_sections(*l));
    v
}

impl MemorySet {
    /// An address space with a fresh root table that maps `secs`, taking frames from `frames`.
    fn with_sections(secs: &Vec<Section>, frames: &mut StackFrameAllocator) -> (r: Self)
        requires
            sections_ok(secs@),
            old(frames).current_spec() < old(frames).end_spec() <= 0x1000_0000_0000,
            old(frames).available_spec() >= 1 + sections_budget(secs@, secs@.len() as int),
        ensures
            r.wf(),
            r.table().frames_below(final(frames).current_spec()),
            final(frames).end_spec() == old(frames).end_spec(),
            old(frames).current_spec() < final(frames).current_spec() <= final(frames).end_spec(),
            final(frames).current_spec() <= old(frames).current_spec() + 1 + sections_budget(secs@, secs@.len() as int),
            maps_exactly(r.table(), secs@),
    {
        let pt = PageTable::new(frames);
        let mut ms = MemorySet { page_table: pt };
        ms.map_sections(secs, frames);
        ms
    }

    /// The kernel's address space: each section of the image, the free memory above it and
    /// the device window, mapped one to one.
    pub fn new_kernel(layout: &KernelLayout, frames: &mut StackFrameAllocator) -> (r: Self)
        requires
            layout_ok(*layout),
            old(frames).current_spec() < old(frames).end_spec() <= 0x1000_0000_0000,
            old(frames).available_spec() >= 1 + sections_budget(kernel_sections(*layout), 8),
        ensures
            r.wf(),
            r.table().frames_below(final(frames).current_spec()),
            final(frames).end_spec() == old(frames).end_spec(),
            old(frames).current_spec() < final(frames).current_spec() <= final(frames).end_spec(),
            final(frames).current_spec() <= old(frames).current_spec() + 1 + sections_budget(kernel_sections(*layout), 8),
            maps_exactly(r.table(), kernel_sections(*layout)),
    {
        let secs = kernel_section_list(layout);
        Self::with_sections(&secs, frames)
    }

    /// The valid leaf entry that maps `va`'s page, if any.
    pub fn translate(&self, va: VirtAddr) -> (r: Option<PageTableEntry>)
        requires
            self.wf(),
        ensures
            r == self.table().walk(va.0 as int / 4096),
    {
        self.page_table.translate(va.floor())
    }

    /// The `satp` value that selects this address space.
    pub fn satp_token(&self) -> (r: u64)
        ensures
            r == (8u64 << 60u64) | (self.table().root_ppn_spec() as u64),
    {
        self.page_table.satp_token()
    }

    /// Whether `va` is mapped to its own page with exactly these readable, writable and
    /// executable bits.
    fn check_kernel_mapping(&self, va: usize, readable: bool, writable: bool, executable: bool) -> (r: bool)
        requires
            self.wf(),
        ensures
            r == mapping_has(self.table(), va as int, readable, writable, executable),
    {
        match self.translate(VirtAddr(va)) {
            None => false,
            Some(pte) => {
                pte.ppn().0 == PhysAddr(va).floor().0 && pte.readable() == readable
                    && pte.writable() == writable && pte.executable() == executable
            },
        }
    }

    /// Checks that text, read-only data, data, bss and the user stacks are mapped to
    /// themselves with the expected permissions.
    pub fn self_check(&self, layout: &KernelLayout) -> (r: bool)
        requires
            self.wf(),
        ensures
            r == kernel_check(self.table(), *layout),
    {
        self.check_kernel_mapping(layout.stext, true, false, true)
            && self.check_kernel_mapping(layout.srodata, true, false, false)
            && self.check_kernel_mapping(layout.sdata, true, true, false)
            && self.check_kernel_mapping(layout.edata, true, true, false)
            && self.check_kernel_mapping(layout.suser_stack, true, true, false)
    }
}

/// A copy of `len` bytes from offset `src` of a program image to offset `dst` of frame `ppn`.
#[derive(Clone, Copy, Debug, PartialEq, Eq, Structural)]
pub struct PageCopy {
    pub ppn: usize,
    pub dst: usize,
    pub src: usize,
    pub len: usize,
}

/// The page that holds `USER_APP_BASE`.
pub open spec fn app_first_page() -> int {
    (crate::loader::USER_APP_BASE / 4096) as int
}

/// The pages a program image of `len` bytes covers.
pub open spec fn app_pages(len: int) -> int {
    (len + 4095) / 4096
}

/// The bytes of page `i` of an image of `len` bytes.
pub open spec fn page_len(len: int, i: int) -> int {
    if len - i * 4096 < 4096 {
        len - i * 4096
    } else {
        4096
    }
}

/// The frames loading an image of `len` bytes at `USER_APP_BASE` may take.
pub open spec fn app_budget(len: int) -> int {
    app_pages(len) + PageTable::range_frame_budget(app_first_page(), app_first_page() + app_pages(len))
}

/// Page `i` of an image is mapped user accessible, readable, writable and executable onto
/// the frame that `copies[i]` fills with the page's bytes.
pub open spec fn app_page_loaded(pt: PageTable, copies: Seq<PageCopy>, len: int, i: int) -> bool {
    &&& pt.walk(app_first_page() + i) is Some
    &&& pt.walk(app_first_page() + i)->0.bits_spec() == pte_bits(copies[i].ppn as u64, FLAGS_RWXU | 1)
    &&& copies[i].ppn < 0x1000_0000_0000
    &&& copies[i].dst == 0
    &&& copies[i].src == i * 4096
    &&& copies[i].len == page_len(len, i)
}

impl MemorySet {
    /// Maps the image `data` at `USER_APP_BASE` page by page onto fresh frames and returns
    /// for each page the copy that fills its frame.
    fn load_user_app(&mut self, data: &[u8], frames: &mut StackFrameAllocator) -> (copies: Vec<PageCopy>)
        requires
            old(self).wf(),
            old(self).table().frames_below(old(frames).current_spec()),
            old(frames).end_spec() <= 0x1000_0000_0000,
            old(frames).current_spec() <= old(frames).end_spec(),
            crate::loader::USER_APP_BASE + data@.len() <= MMIO_BASE,
            forall|k: int| app_first_page() <= k < app_first_page() + app_pages(data@.len() as int)
                ==> (#[trigger] old(self).table().walk(k)) is None,
            old(frames).available_spec() >= app_budget(data@.len() as int),
        ensures
            final(self).wf(),
            final(self).table().frames_below(final(frames).current_spec()),
            final(frames).end_spec() == old(frames).end_spec(),
            old(frames).current_spec() <= final(frames).current_spec() <= old(frames).current_spec()
                + app_budget(data@.len() as int),
            final(self).table().root_ppn_spec() == old(self).table().root_ppn_spec(),
            copies@.len() == app_pages(data@.len() as int),
            forall|i: int| 0 <= i < copies@.len() ==> #[trigger] app_page_loaded(final(self).table(), copies@,
                data@.len() as int, i),
            forall|v: int| 0 <= v < 0x800_0000 && !(app_first_page() <= v < app_first_page()
                + app_pages(data@.len() as int)) ==> #[trigger] final(self).table().walk(v) == old(self).table().walk(v),
    {
        let ghost start = self.page_table;
        let ghost c0 = frames.current_spec();
        let len: usize = data.len();
        let n: usize = (len + 4095) / 4096;
        let first: usize = crate::loader::USER_APP_BASE / 4096;
        let ghost budget = app_budget(len as int);
        let mut copies: Vec<PageCopy> = Vec::new();
        let mut i: usize = 0;
        proof {
            self.page_table.lemma_frames_needed_bound(first as int);
        }
        while i < n
            invariant
                len == data@.len(),
                n == app_pages(len as int),
                first == app_first_page(),
                first + n <= MMIO_BASE / 4096,
                budget == app_budget(len as int),
                i <= n,
                self.wf(),
                self.table().frames_below(frames.current_spec()),
                frames.end_spec() == old(frames).end_spec(),
                frames.end_spec() <= 0x1000_0000_0000,
                frames.current_spec() <= frames.end_spec(),
                c0 == old(frames).current_spec(),
                old(frames).available_spec() >= budget,
                c0 <= frames.current_spec(),
                i < n ==> frames.current_spec() - c0 + (n - i) + self.table().frames_needed(first + i)
                    + 2 * ((first + n - 1) / 512 - (first + i) / 512) <= budget,
                i == n ==> frames.current_spec() - c0 <= budget,
                self.table().root_ppn_spec() == start.root_ppn_spec(),
                copies@.len() == i,
                forall|j: int| 0 <= j < i ==> #[trigger] app_page_loaded(self.table(), copies@, len as int, j),
                forall|k: int| first + i <= k < first + n ==> (#[trigger] self.table().walk(k)) is None,
                forall|v: int| 0 <= v < 0x800_0000 && !(first <= v < first + i)
                    ==> #[trigger] self.table().walk(v) == start.walk(v),
            decreases n - i,
        {
            let ghost before = self.page_table;
            let ghost copies_before = copies@;
            let vpn: usize = first + i;
            let ghost cur = frames.current_spec();
            proof {
                self.page_table.lemma_frames_needed_bound(vpn as int);
                assert(cur < frames.end_spec());
            }
            let frame = frames.allocate();
            let ppn: usize = match frame {
                Some(f) => f.ppn(),
                None => 0,
            };
            proof {
                before.lemma_frames_below_mono(cur, frames.current_spec());
            }
            self.page_table.map(VirtPageNum(vpn), crate::address::PhysPageNum(ppn), PTEFlags::from_bits(FLAGS_RWXU), frames);
            let offset: usize = i * 4096;
            let remaining: usize = len - offset;
            let part: usize = if remaining < 4096 { remaining } else { 4096 };
            copies.push(PageCopy { ppn, dst: 0, src: offset, len: part });
            proof {
                assert(vpn_indexes(vpn as int) == vpn_indexes(vpn as int));
                assert forall|j: int| 0 <= j < i + 1 implies #[trigger] app_page_loaded(self.table(), copies@, len as int, j) by {
                    if j < i {
                        assert(app_page_loaded(before, copies_before, len as int, j));
                        lemma_distinct_pages(first + j, vpn as int);
                        assert(copies@[j] == copies_before[j]);
                    }
                }
                assert forall|k: int| first + i + 1 <= k < first + n implies (#[trigger] self.table().walk(k)) is None by {
                    lemma_distinct_pages(k, vpn as int);
                }
                assert forall|v: int| 0 <= v < 0x800_0000 && !(first <= v < first + i + 1)
                    implies #[trigger] self.table().walk(v) == start.walk(v) by {
                    lemma_distinct_pages(v, vpn as int);
                }
                if i + 1 < n {
                    if (vpn + 1) / 512 == vpn / 512 {
                        self.page_table.lemma_mapped_needs_nothing(vpn as int, (vpn + 1) as int);
                    } else {
                        assert((vpn + 1) / 512 == vpn / 512 + 1);
                        self.page_table.lemma_frames_needed_bound((vpn + 1) as int);
                    }
                }
            }
            i = i + 1;
        }
        copies
    }
}

/// ELF segment flag: executable.
pub const ELF_PF_X: u32 = 1;
/// ELF segment flag: writable.
pub const ELF_PF_W: u32 = 2;
/// ELF segment flag: readable.
pub const ELF_PF_R: u32 = 4;

/// Whether `d` starts with the ELF magic and is long enough for an ELF64 header.
pub open spec fn is_elf_spec(d: Seq<u8>) -> bool {
    d.len() >= 64 && d[0] == 0x7f && d[1] == 0x45 && d[2] == 0x4c && d[3] == 0x46
}

/// Whether `data` is an ELF64 image by its magic and size.
pub fn is_elf(data: &[u8]) -> (r: bool)
    ensures
        r == is_elf_spec(data@),
{
    data.len() >= 64 && data[0] == 0x7f && data[1] == 0x45 && data[2] == 0x4c && data[3] == 0x46
}

/// The entry flags a segment with ELF flags `f` is mapped with: user accessible, readable
/// when readable or writable, writable when writable, executable when executable.
pub open spec fn elf_flags_spec(f: u32) -> u64 {
    let a: u64 = if f & ELF_PF_R != 0 { 16u64 | 2u64 } else { 16u64 };
    let b: u64 = if f & ELF_PF_W != 0 { (a | 2u64) | 4u64 } else { a };
    if f & ELF_PF_X != 0 { b | 8u64 } else { b }
}

/// The page-table flags for a segment with ELF flags `flags`.
fn elf_pte_flags(flags: u32) -> (r: PTEFlags)
    ensures
        r.bits_spec() == elf_flags_spec(flags),
        r.bits_spec() < 32,
{
    let mut pte_flags = PTEFlags::U();
    if flags & ELF_PF_R != 0 {
        pte_flags = pte_flags.union(PTEFlags::R());
    }
    if flags & ELF_PF_W != 0 {
        pte_flags = pte_flags.union(PTEFlags::R()).union(PTEFlags::W());
    }
    if flags & ELF_PF_X != 0 {
        pte_flags = pte_flags.union(PTEFlags::X());
    }
    proof {
        let a: u64 = if flags & ELF_PF_R != 0 { 16u64 | 2u64 } else { 16u64 };
        let b: u64 = if flags & ELF_PF_W != 0 { (a | 2u64) | 4u64 } else { a };
        let c: u64 = if flags & ELF_PF_X != 0 { b | 8u64 } else { b };
        assert(a < 32 && b < 32 && c < 32) by (bit_vector)
            requires
                a == 16u64 || a == (16u64 | 2u64),
                b == a || b == ((a | 2u64) | 4u64),
                c == b || c == (b | 8u64);
    }
    pte_flags
}

/// The ELF flags of the segment whose header starts at `ph`.
pub open spec fn seg_flags(d: Seq<u8>, ph: int) -> u32 {
    le32(d, ph + 4) as u32
}

/// The file offset of the segment whose header starts at `ph`.
pub open spec fn seg_offset(d: Seq<u8>, ph: int) -> int {
    word(le64(d, ph + 8))
}

/// The virtual address of the segment whose header starts at `ph`.
pub open spec fn seg_vaddr(d: Seq<u8>, ph: int) -> int {
    word(le64(d, ph + 16))
}

/// The file size of the segment whose header starts at `ph`.
pub open spec fn seg_filesz(d: Seq<u8>, ph: int) -> int {
    word(le64(d, ph + 32))
}

/// The memory size of the segment whose header starts at `ph`.
pub open spec fn seg_memsz(d: Seq<u8>, ph: int) -> int {
    word(le64(d, ph + 40))
}

/// Every page the segment at `ph` covers is mapped with the segment's entry flags.
pub open spec fn segment_mapped(pt: PageTable, d: Seq<u8>, ph: int) -> bool {
    seg_memsz(d, ph) != 0 ==> forall|k: int|
        seg_vaddr(d, ph) / 4096 <= k < (seg_vaddr(d, ph) + seg_memsz(d, ph) + 4095) / 4096
        ==> (#[trigger] pt.walk(k)) is Some
            && pt.walk(k)->0.flags_spec() == elf_flags_spec(seg_flags(d, ph)) | 1
}

/// Where the file bytes of the segment at `ph` begin within page `k`, as an address.
pub open spec fn page_file_start(d: Seq<u8>, ph: int, k: int) -> int {
    if k * 4096 < seg_vaddr(d, ph) {
        seg_vaddr(d, ph)
    } else {
        k * 4096
    }
}

/// Where the file bytes of the segment at `ph` end within page `k`, as an address.
pub open spec fn page_file_end(d: Seq<u8>, ph: int, k: int) -> int {
    if k * 4096 + 4096 < seg_vaddr(d, ph) + seg_filesz(d, ph) {
        k * 4096 + 4096
    } else {
        seg_vaddr(d, ph) + seg_filesz(d, ph)
    }
}

/// The copy that fills page `k` of the segment at `ph` from the file: onto the frame `pt`
/// maps the page to, at the offset in the page where the segment's file bytes begin, from
/// `p_offset` plus that address less `p_vaddr`, as many bytes as fall in the page.
pub open spec fn seg_page_copy(pt: PageTable, d: Seq<u8>, ph: int, k: int) -> PageCopy {
    PageCopy {
        ppn: pt.walk(k)->0.ppn_spec() as usize,
        dst: (page_file_start(d, ph, k) - k * 4096) as usize,
        src: (seg_offset(d, ph) + page_file_start(d, ph, k) - seg_vaddr(d, ph)) as usize,
        len: (page_file_end(d, ph, k) - page_file_start(d, ph, k)) as usize,
    }
}

/// The copies for the pages of the segment at `ph` below page `k` that hold file bytes,
/// in page order.
pub open spec fn seg_copies_to(pt: PageTable, d: Seq<u8>, ph: int, k: int) -> Seq<PageCopy>
    decreases k - seg_vaddr(d, ph) / 4096,
{
    if k <= seg_vaddr(d, ph) / 4096 {
        Seq::empty()
    } else {
        seg_copies_to(pt, d, ph, k - 1) + if page_file_start(d, ph, k - 1) < page_file_end(d, ph, k - 1) {
            seq![seg_page_copy(pt, d, ph, k - 1)]
        } else {
            Seq::empty()
        }
    }
}

/// The copies that fill the pages of the segment at `ph`: one per page that holds file
/// bytes, none for a segment that takes no memory.
pub open spec fn seg_copies(pt: PageTable, d: Seq<u8>, ph: int) -> Seq<PageCopy> {
    if seg_memsz(d, ph) == 0 {
        Seq::empty()
    } else {
        seg_copies_to(pt, d, ph, (seg_vaddr(d, ph) + seg_memsz(d, ph) + 4095) / 4096)
    }
}

/// The copies that fill the `PT_LOAD` segments among the first `n` program headers of
/// `d`, segment after segment.
pub open spec fn elf_copies(pt: PageTable, d: Seq<u8>, n: int) -> Seq<PageCopy>
    decreases n,
{
    if n <= 0 {
        Seq::empty()
    } else {
        elf_copies(pt, d, n - 1) + if ph_is_load(d, n - 1) {
            seg_copies(pt, d, ph_offset(d, n - 1))
        } else {
            Seq::empty()
        }
    }
}

/// The copies of a segment's pages stay the same while those pages stay mapped.
proof fn lemma_seg_copies_stable(pt1: PageTable, pt2: PageTable, d: Seq<u8>, ph: int, k: int)
    requires
        keeps_mappings(pt1, pt2),
        forall|j: int| seg_vaddr(d, ph) / 4096 <= j < k ==> (#[trigger] pt1.walk(j)) is Some,
    ensures
        seg_copies_to(pt1, d, ph, k) == seg_copies_to(pt2, d, ph, k),
    decreases k - seg_vaddr(d, ph) / 4096,
{
    if k > seg_vaddr(d, ph) / 4096 {
        lemma_seg_copies_stable(pt1, pt2, d, ph, k - 1);
        assert(pt1.walk(k - 1) is Some);
        assert(seg_page_copy(pt1, d, ph, k - 1) == seg_page_copy(pt2, d, ph, k - 1));
    }
}

/// The copies of the first `n` segments stay the same while their pages stay mapped.
proof fn lemma_elf_copies_stable(pt1: PageTable, pt2: PageTable, d: Seq<u8>, n: int)
    requires
        keeps_mappings(pt1, pt2),
        segments_loaded(pt1, d, n),
    ensures
        elf_copies(pt1, d, n) == elf_copies(pt2, d, n),
    decreases n,
{
    if n > 0 {
        assert(segments_loaded(pt1, d, n - 1));
        lemma_elf_copies_stable(pt1, pt2, d, n - 1);
        let ph = ph_offset(d, n - 1);
        if ph_is_load(d, n - 1) && seg_memsz(d, ph) != 0 {
            assert(segment_mapped(pt1, d, ph));
            lemma_seg_copies_stable(pt1, pt2, d, ph, (seg_vaddr(d, ph) + seg_memsz(d, ph) + 4095) / 4096);
        }
    }
}

/// The first page the segment at `ph` covers.
pub open spec fn seg_first(d: Seq<u8>, ph: int) -> int {
    seg_vaddr(d, ph) / 4096
}

/// The page just past those the segment at `ph` covers.
pub open spec fn seg_last(d: Seq<u8>, ph: int) -> int {
    (seg_vaddr(d, ph) + seg_memsz(d, ph) + 4095) / 4096
}

/// A segment the loader can place: its file bytes lie in the file and within its memory
/// size, and its pages lie below 2^27, the pages an Sv39 table reaches, with a page to
/// spare below the top of the address space.
pub open spec fn seg_placeable(d: Seq<u8>, ph: int) -> bool {
    &&& seg_offset(d, ph) + seg_filesz(d, ph) <= d.len()
    &&& seg_filesz(d, ph) <= seg_memsz(d, ph)
    &&& seg_vaddr(d, ph) + seg_memsz(d, ph) + 4095 < 0x80_0000_0000
    &&& seg_vaddr(d, ph) + seg_memsz(d, ph) + 8192 <= usize::MAX
}

/// The frames loading the segment at `ph` may take: per page, its own frame and at most
/// two table frames.
pub open spec fn seg_frames(d: Seq<u8>, ph: int) -> int {
    3 * (seg_last(d, ph) - seg_first(d, ph))
}

/// Whether program header `i` of `d` is a `PT_LOAD` segment that takes memory.
pub open spec fn seg_takes_memory(d: Seq<u8>, i: int) -> bool {
    ph_is_load(d, i) && seg_memsz(d, ph_offset(d, i)) != 0
}

/// The frames loading the segments of the first `n` program headers of `d` may take.
pub open spec fn elf_frames(d: Seq<u8>, n: int) -> int
    decreases n,
{
    if n <= 0 {
        0
    } else {
        elf_frames(d, n - 1) + if seg_takes_memory(d, n - 1) { seg_frames(d, ph_offset(d, n - 1)) } else { 0 }
    }
}

/// An ELF image whose segments the loader can place: ELF64, program headers of full
/// size within the file, every segment that takes memory placeable, and no page shared
/// by two of them.
pub open spec fn elf_shape_ok(d: Seq<u8>) -> bool {
    &&& is_elf_spec(d)
    &&& elf_phentsize(d) >= 56
    &&& forall|i: int| 0 <= i < elf_phnum(d) ==> #[trigger] ph_in_file(d, i)
    &&& forall|i: int| 0 <= i < elf_phnum(d) && #[trigger] seg_takes_memory(d, i) ==> seg_placeable(d, ph_offset(d, i))
    &&& forall|i: int, j: int| 0 <= i < j < elf_phnum(d) && #[trigger] seg_takes_memory(d, i)
        && #[trigger] seg_takes_memory(d, j) ==> seg_last(d, ph_offset(d, i)) <= seg_first(d, ph_offset(d, j))
        || seg_last(d, ph_offset(d, j)) <= seg_first(d, ph_offset(d, i))
}

/// Every page a segment of `d` that takes memory covers is unmapped in `pt`.
pub open spec fn elf_pages_free(pt: PageTable, d: Seq<u8>) -> bool {
    forall|i: int, k: int| 0 <= i < elf_phnum(d) && #[trigger] seg_takes_memory(d, i)
        && seg_first(d, ph_offset(d, i)) <= k < seg_last(d, ph_offset(d, i)) ==> (#[trigger] pt.walk(k)) is None
}

/// No page a segment of `d` that takes memory covers lies in one of `secs`.
pub open spec fn elf_clear_of(secs: Seq<Section>, d: Seq<u8>) -> bool {
    forall|i: int, k: int, s: int| 0 <= i < elf_phnum(d) && #[trigger] seg_takes_memory(d, i)
        && seg_first(d, ph_offset(d, i)) <= k < seg_last(d, ph_offset(d, i)) && 0 <= s < secs.len()
        ==> !#[trigger] in_section(secs[s], k)
}

proof fn lemma_elf_frames_mono(d: Seq<u8>, m: int, n: int)
    requires
        0 <= m <= n,
    ensures
        elf_frames(d, m) <= elf_frames(d, n),
    decreases n - m,
{
    if m < n {
        lemma_elf_frames_mono(d, m, n - 1);
        let ph = ph_offset(d, n - 1);
        assert(seg_first(d, ph) <= seg_last(d, ph)) by (nonlinear_arith)
            requires seg_vaddr(d, ph) >= 0, seg_memsz(d, ph) >= 0,
                seg_first(d, ph) == seg_vaddr(d, ph) / 4096,
                seg_last(d, ph) == (seg_vaddr(d, ph) + seg_memsz(d, ph) + 4095) / 4096;
    }
}

/// Mappings that existed stay as they were.
pub open spec fn keeps_mappings(before: PageTable, after: PageTable) -> bool {
    forall|v: int| (#[trigger] before.walk(v)) is Some ==> after.walk(v) == before.walk(v)
}

/// Mapping page `vpn`, unmapped before, with flags `fl` onto `ppn` extends the run of pages
/// `[first, vpn)` mapped with `fl` by `vpn`, and keeps every earlier mapping.
proof fn lemma_page_added(before: PageTable, after: PageTable, start: PageTable, vpn: int, first: int, fl: u64, ppn: u64)
    requires
        before.walk(vpn) is None,
        fl < 32,
        ppn < 0x1000_0000_0000,
        forall|v: int| vpn_indexes(v) == vpn_indexes(vpn) ==> (#[trigger] after.walk(v)) is Some
            && after.walk(v)->0.bits_spec() == pte_bits(ppn, fl | 1),
        forall|v: int| vpn_indexes(v) != vpn_indexes(vpn) ==> #[trigger] after.walk(v) == before.walk(v),
        forall|k: int| first <= k < vpn ==> (#[trigger] before.walk(k)) is Some
            && before.walk(k)->0.flags_spec() == fl | 1,
        keeps_mappings(start, before),
    ensures
        forall|k: int| first <= k < vpn + 1 ==> (#[trigger] after.walk(k)) is Some
            && after.walk(k)->0.flags_spec() == fl | 1,
        keeps_mappings(start, after),
{
    assert(fl | 1 < 1024) by (bit_vector)
        requires fl < 32;
    crate::page_table::lemma_pte_roundtrip(ppn, fl | 1);
    assert forall|k: int| first <= k < vpn + 1 implies (#[trigger] after.walk(k)) is Some
        && after.walk(k)->0.flags_spec() == fl | 1 by {
        if k < vpn {
            if vpn_indexes(k) == vpn_indexes(vpn) {
                before.lemma_walk_by_indexes(k, vpn);
            }
        } else {
            assert(vpn_indexes(k) == vpn_indexes(vpn));
        }
    }
    assert forall|v: int| (#[trigger] start.walk(v)) is Some implies after.walk(v) == start.walk(v) by {
        if vpn_indexes(v) == vpn_indexes(vpn) {
            before.lemma_walk_by_indexes(v, vpn);
        }
    }
}

impl MemorySet {
    /// Maps the pages of the segment whose program header starts at `ph` onto fresh frames
    /// and appends the copies that fill them from the file. Fails, leaving what it mapped,
    /// when the segment does not fit the file or the address space, when one of its pages is
    /// mapped already, or when the frames run out.
    #[verifier::rlimit(40)]
    fn load_elf_segment(
        &mut self,
        elf: &[u8],
        ph: usize,
        frames: &mut StackFrameAllocator,
        copies: &mut Vec<PageCopy>,
    ) -> (ok: bool)
        requires
            old(self).wf(),
            old(self).table().frames_below(old(frames).current_spec()),
            old(frames).end_spec() <= 0x1000_0000_0000,
            old(frames).current_spec() <= old(frames).end_spec(),
            ph + 56 <= elf@.len(),
        ensures
            final(self).wf(),
            final(self).table().frames_below(final(frames).current_spec()),
            final(frames).end_spec() == old(frames).end_spec(),
            old(frames).current_spec() <= final(frames).current_spec() <= final(frames).end_spec(),
            final(self).table().root_ppn_spec() == old(self).table().root_ppn_spec(),
            keeps_mappings(old(self).table(), final(self).table()),
            ok ==> segment_mapped(final(self).table(), elf@, ph as int),
            seg_memsz(elf@, ph as int) == 0 ==> ok,
            seg_offset(elf@, ph as int) + seg_filesz(elf@, ph as int) > elf@.len()
                && seg_memsz(elf@, ph as int) != 0 ==> !ok,
            forall|i: int| 0 <= i < final(copies)@.len() ==> (#[trigger] final(copies)@[i]).src
                + final(copies)@[i].len <= elf@.len() || i < old(copies)@.len(),
            final(copies)@.len() >= old(copies)@.len(),
            forall|i: int| 0 <= i < old(copies)@.len() ==> #[trigger] final(copies)@[i] == old(copies)@[i],
            seg_memsz(elf@, ph as int) != 0 && seg_placeable(elf@, ph as int) && (forall|k: int|
                seg_first(elf@, ph as int) <= k < seg_last(elf@, ph as int) ==> (#[trigger] old(self).table().walk(k)) is None)
                && old(frames).available_spec() >= seg_frames(elf@, ph as int) ==> ok,
            seg_memsz(elf@, ph as int) != 0 && seg_placeable(elf@, ph as int) ==> final(frames).current_spec()
                <= old(frames).current_spec() + seg_frames(elf@, ph as int),
            seg_memsz(elf@, ph as int) == 0 ==> final(frames).current_spec() == old(frames).current_spec(),
            ok ==> final(copies)@ == old(copies)@ + seg_copies(final(self).table(), elf@, ph as int),
            seg_memsz(elf@, ph as int) == 0 || seg_placeable(elf@, ph as int) ==> forall|v: int| 0 <= v < 0x800_0000
                && !(seg_memsz(elf@, ph as int) != 0 && seg_first(elf@, ph as int) <= v < seg_last(elf@, ph as int))
                ==> #[trigger] final(self).table().walk(v) == old(self).table().walk(v),
    {
        let ghost d = elf@;
        let total: usize = elf.len();
        let ghost start = self.page_table;
        let ghost c0 = frames.current_spec();
        let ghost placeable = seg_placeable(d, ph as int);
        let ghost fits = placeable && (forall|k: int| seg_first(d, ph as int) <= k < seg_last(d, ph as int)
            ==> (#[trigger] start.walk(k)) is None) && old(frames).available_spec() >= seg_frames(d, ph as int);
        let flags = le_u32(elf, ph + 4);
        let file_offset = le_u64(elf, ph + 8) as usize;
        let vaddr = le_u64(elf, ph + 16) as usize;
        let filesz = le_u64(elf, ph + 32) as usize;
        let memsz = le_u64(elf, ph + 40) as usize;
        if memsz == 0 {
            return true;
        }
        if file_offset > elf.len() || filesz > elf.len() - file_offset {
            return false;
        }
        if vaddr > usize::MAX - 8192 || memsz > usize::MAX - 8192 - vaddr || filesz > usize::MAX - vaddr {
            return false;
        }
        let pflags = elf_pte_flags(flags);
        let seg_start = round_down(vaddr, 4096);
        let seg_end = round_up(vaddr + memsz, 4096);
        let mut page_va = seg_start;
        let ghost first = vaddr as int / 4096;
        proof {
            assert(seg_start / 4096 == first) by (nonlinear_arith)
                requires seg_start == (vaddr as int / 4096) * 4096, first == vaddr as int / 4096;
            assert(seg_end / 4096 == (vaddr + memsz + 4095) / 4096) by (nonlinear_arith)
                requires seg_end == ((vaddr + memsz + 4096 - 1) / 4096) * 4096;
        }
        while page_va < seg_end
            invariant
                d == elf@,
                start == old(self).table(),
                flags == seg_flags(d, ph as int),
                memsz as int == seg_memsz(d, ph as int),
                memsz != 0,
                vaddr as int == seg_vaddr(d, ph as int),
                total == elf@.len(),
                pflags.bits_spec() == elf_flags_spec(flags),
                pflags.bits_spec() < 32,
                file_offset + filesz <= elf@.len(),
                vaddr + filesz <= usize::MAX,
                page_va % 4096 == 0,
                seg_end % 4096 == 0,
                first * 4096 <= page_va <= seg_end,
                seg_end <= usize::MAX - 4096,
                self.wf(),
                self.table().frames_below(frames.current_spec()),
                frames.end_spec() == old(frames).end_spec(),
                frames.end_spec() <= 0x1000_0000_0000,
                c0 <= frames.current_spec() <= frames.end_spec(),
                c0 == old(frames).current_spec(),
                self.table().root_ppn_spec() == start.root_ppn_spec(),
                keeps_mappings(start, self.table()),
                forall|k: int| first <= k < page_va / 4096 ==> (#[trigger] self.table().walk(k)) is Some
                    && self.table().walk(k)->0.flags_spec() == pflags.bits_spec() | 1,
                forall|i: int| 0 <= i < copies@.len() ==> (#[trigger] copies@[i]).src + copies@[i].len
                    <= elf@.len() || i < old(copies)@.len(),
                copies@.len() >= old(copies)@.len(),
                forall|i: int| 0 <= i < old(copies)@.len() ==> #[trigger] copies@[i] == old(copies)@[i],
                placeable == seg_placeable(d, ph as int),
                first == seg_first(d, ph as int),
                seg_end as int / 4096 == seg_last(d, ph as int),
                fits ==> placeable,
                fits ==> forall|k: int| seg_first(d, ph as int) <= k < seg_last(d, ph as int)
                    ==> (#[trigger] start.walk(k)) is None,
                fits ==> old(frames).end_spec() - old(frames).current_spec() >= seg_frames(d, ph as int),
                placeable ==> frames.current_spec() <= c0 + 3 * (page_va / 4096 - first),
                placeable ==> forall|v: int| 0 <= v < 0x800_0000 && !(first <= v < page_va / 4096)
                    ==> #[trigger] self.table().walk(v) == start.walk(v),
                file_offset as int == seg_offset(d, ph as int),
                filesz as int == seg_filesz(d, ph as int),
                copies@ == old(copies)@ + seg_copies_to(self.table(), d, ph as int, (page_va / 4096) as int),
            decreases seg_end - page_va,
        {
            let vpn: usize = page_va / 4096;
            proof {
                assert(vpn < seg_end as int / 4096) by (nonlinear_arith)
                    requires vpn == page_va as int / 4096, page_va < seg_end, page_va % 4096 == 0, seg_end % 4096 == 0;
                if placeable {
                    assert(seg_last(d, ph as int) <= 0x800_0000);
                }
                if fits {
                    assert(start.walk(vpn as int) is None);
                    assert(self.table().walk(vpn as int) == start.walk(vpn as int));
                }
            }
            if self.page_table.translate(VirtPageNum(vpn)).is_some() {
                return false;
            }
            let need = self.page_table.needed_frames(VirtPageNum(vpn));
            proof {
                self.page_table.lemma_frames_needed_bound(vpn as int);
            }
            if frames.avaliable_frames() <= need {
                return false;
            }
            let ghost before = self.page_table;
            let ghost cur = frames.current_spec();
            let frame = frames.allocate();
            let ppn: usize = match frame {
                Some(f) => f.ppn(),
                None => 0,
            };
            proof {
                before.lemma_frames_below_mono(cur, frames.current_spec());
            }
            self.page_table.map(VirtPageNum(vpn), crate::address::PhysPageNum(ppn), pflags, frames);
            let ghost copies_before = copies@;
            proof {
                assert(page_va as int == vpn * 4096) by (nonlinear_arith)
                    requires vpn == page_va as int / 4096, page_va % 4096 == 0;
                assert forall|v: int| (#[trigger] before.walk(v)) is Some implies self.table().walk(v) == before.walk(v) by {
                    if vpn_indexes(v) == vpn_indexes(vpn as int) {
                        before.lemma_walk_by_indexes(v, vpn as int);
                    }
                }
                assert forall|j: int| seg_vaddr(d, ph as int) / 4096 <= j < vpn implies (#[trigger] before.walk(j)) is Some by {
                    assert(first <= j < page_va / 4096);
                }
                lemma_seg_copies_stable(before, self.table(), d, ph as int, vpn as int);
                let fb: u64 = pflags.bits_spec();
                assert((fb | 1) < 1024) by (bit_vector)
                    requires fb < 32;
                crate::page_table::lemma_pte_roundtrip(ppn as u64, fb | 1);
                assert(self.table().walk(vpn as int)->0.ppn_spec() == ppn);
            }
            let page_file_start = if page_va < vaddr { vaddr } else { page_va };
            let page_file_end = if page_va + 4096 < vaddr + filesz { page_va + 4096 } else { vaddr + filesz };
            if page_file_start < page_file_end {
                copies.push(PageCopy {
                    ppn,
                    dst: page_file_start - page_va,
                    src: file_offset + (page_file_start - vaddr),
                    len: page_file_end - page_file_start,
                });
            }
            proof {
                let k = vpn as int;
                assert(page_file_start == crate::memory_set::page_file_start(d, ph as int, k));
                assert(page_file_end == crate::memory_set::page_file_end(d, ph as int, k));
                if page_file_start < page_file_end {
                    assert(copies@.last() == seg_page_copy(self.table(), d, ph as int, k));
                }
                assert(copies@ =~= old(copies)@ + seg_copies_to(self.table(), d, ph as int, k + 1));
                assert((page_va + 4096) / 4096 == k + 1) by (nonlinear_arith)
                    requires page_va as int == k * 4096;
                lemma_page_added(before, self.page_table, start, vpn as int, first, pflags.bits_spec(), ppn as u64);
                if placeable {
                    assert forall|v: int| 0 <= v < 0x800_0000 && !(first <= v < (page_va + 4096) / 4096)
                        implies #[trigger] self.table().walk(v) == start.walk(v) by {
                        if vpn_indexes(v) == vpn_indexes(vpn as int) {
                            crate::address::lemma_indexes_determine_vpn(v, vpn as int);
                        }
                        assert(before.walk(v) == start.walk(v));
                    }
                }
            }
            page_va = page_va + 4096;
        }
        proof {
            assert forall|k: int| seg_vaddr(d, ph as int) / 4096 <= k < (seg_vaddr(d, ph as int) + seg_memsz(d, ph as int) + 4095) / 4096
                implies (#[trigger] self.table().walk(k)) is Some
                    && self.table().walk(k)->0.flags_spec() == elf_flags_spec(seg_flags(d, ph as int)) | 1 by {
                assert(page_va / 4096 == (vaddr + memsz + 4095) / 4096);
            }
        }
        true
    }
}

/// A mapped segment stays mapped while every existing mapping is kept.
proof fn lemma_segment_kept(pt: PageTable, pt2: PageTable, d: Seq<u8>, ph: int)
    requires
        segment_mapped(pt, d, ph),
        keeps_mappings(pt, pt2),
    ensures
        segment_mapped(pt2, d, ph),
{
    if seg_memsz(d, ph) != 0 {
        assert forall|k: int| seg_vaddr(d, ph) / 4096 <= k < (seg_vaddr(d, ph) + seg_memsz(d, ph) + 4095) / 4096
            implies (#[trigger] pt2.walk(k)) is Some
                && pt2.walk(k)->0.flags_spec() == elf_flags_spec(seg_flags(d, ph)) | 1 by {
            assert(pt.walk(k) is Some);
        }
    }
}

/// Whether program header `i` of `d` lies in the file.
pub open spec fn ph_in_file(d: Seq<u8>, i: int) -> bool {
    ph_offset(d, i) + 56 <= d.len()
}

/// Whether program header `i` of `d` is a `PT_LOAD` segment that takes memory and whose
/// file bytes reach past the end of the file.
pub open spec fn seg_out_of_file(d: Seq<u8>, i: int) -> bool {
    &&& ph_is_load(d, i)
    &&& seg_memsz(d, ph_offset(d, i)) != 0
    &&& seg_offset(d, ph_offset(d, i)) + seg_filesz(d, ph_offset(d, i)) > d.len()
}

/// Every program header of `d` lies in the file, and each `PT_LOAD` segment among the first
/// `n` is mapped in `pt`.
pub open spec fn segments_loaded(pt: PageTable, d: Seq<u8>, n: int) -> bool {
    &&& forall|i: int| 0 <= i < n ==> #[trigger] ph_offset(d, i) + 56 <= d.len()
    &&& forall|i: int| 0 <= i < n && #[trigger] ph_is_load(d, i) ==> segment_mapped(pt, d, ph_offset(d, i))
}

impl MemorySet {
    /// Maps every `PT_LOAD` segment of the ELF image `data` and returns the copies that fill
    /// its pages. `None` when the image is no ELF64 file, its program headers are too small
    /// or lie outside it, or a segment cannot be loaded.
    #[verifier::rlimit(50)]
    fn load_external_elf(&mut self, data: &[u8], frames: &mut StackFrameAllocator) -> (r: Option<Vec<PageCopy>>)
        requires
            old(self).wf(),
            old(self).table().frames_below(old(frames).current_spec()),
            old(frames).end_spec() <= 0x1000_0000_0000,
            old(frames).current_spec() <= old(frames).end_spec(),
        ensures
            final(self).wf(),
            final(self).table().frames_below(final(frames).current_spec()),
            final(frames).end_spec() == old(frames).end_spec(),
            old(frames).current_spec() <= final(frames).current_spec() <= final(frames).end_spec(),
            final(self).table().root_ppn_spec() == old(self).table().root_ppn_spec(),
            keeps_mappings(old(self).table(), final(self).table()),
            !is_elf_spec(data@) ==> r is None,
            elf_phentsize(data@) < 56 ==> r is None,
            r is Some ==> is_elf_spec(data@) && segments_loaded(final(self).table(), data@, elf_phnum(data@)),
            r is Some ==> forall|i: int| 0 <= i < r->0@.len() ==> (#[trigger] r->0@[i]).src + r->0@[i].len <= data@.len(),
            (exists|i: int| 0 <= i < elf_phnum(data@) && !#[trigger] ph_in_file(data@, i)) ==> r is None,
            (exists|i: int| 0 <= i < elf_phnum(data@) && #[trigger] seg_out_of_file(data@, i)) ==> r is None,
            is_elf_spec(data@) && elf_phentsize(data@) >= 56 && (forall|i: int|
                0 <= i < elf_phnum(data@) ==> #[trigger] ph_in_file(data@, i) && (ph_is_load(data@, i)
                    ==> seg_memsz(data@, ph_offset(data@, i)) == 0)) ==> r is Some,
            is_elf_spec(data@) && elf_phentsize(data@) >= 56 && r is None && (forall|i: int|
                0 <= i < elf_phnum(data@) ==> #[trigger] ph_in_file(data@, i)) ==> exists|i: int|
                0 <= i < elf_phnum(data@) && #[trigger] ph_is_load(data@, i) && seg_memsz(data@, ph_offset(data@, i)) != 0,
            elf_shape_ok(data@) && elf_pages_free(old(self).table(), data@) && old(frames).available_spec()
                >= elf_frames(data@, elf_phnum(data@)) ==> r is Some,
            r matches Some(c) ==> c@ == elf_copies(final(self).table(), data@, elf_phnum(data@)),
    {
        if !is_elf(data) {
            return None;
        }
        let ghost start = self.page_table;
        let total: usize = data.len();
        let phoff = le_u64(data, 32) as usize;
        let phentsize = le_u16(data, 54) as usize;
        let phnum = le_u16(data, 56) as usize;
        if phentsize < 56 {
            return None;
        }
        let mut copies: Vec<PageCopy> = Vec::new();
        let mut index: usize = 0;
        let ghost good = elf_shape_ok(data@) && elf_pages_free(start, data@) && old(frames).available_spec()
            >= elf_frames(data@, elf_phnum(data@));
        while index < phnum
            invariant
                total == data@.len(),
                is_elf_spec(data@),
                phoff as int == elf_phoff(data@),
                phentsize as int == elf_phentsize(data@),
                phnum as int == elf_phnum(data@),
                phentsize < 65536,
                phnum < 65536,
                index <= phnum,
                start == old(self).table(),
                self.wf(),
                self.table().frames_below(frames.current_spec()),
                frames.end_spec() == old(frames).end_spec(),
                frames.end_spec() <= 0x1000_0000_0000,
                old(frames).current_spec() <= frames.current_spec() <= frames.end_spec(),
                self.table().root_ppn_spec() == start.root_ppn_spec(),
                keeps_mappings(start, self.table()),
                segments_loaded(self.table(), data@, index as int),
                forall|j: int| 0 <= j < index ==> !#[trigger] seg_out_of_file(data@, j),
                forall|i: int| 0 <= i < copies@.len() ==> (#[trigger] copies@[i]).src + copies@[i].len <= data@.len(),
                good == (elf_shape_ok(data@) && elf_pages_free(start, data@) && old(frames).available_spec()
                    >= elf_frames(data@, elf_phnum(data@))),
                good ==> frames.current_spec() <= old(frames).current_spec() + elf_frames(data@, index as int),
                good ==> forall|j: int, k: int| index <= j < phnum && #[trigger] seg_takes_memory(data@, j)
                    && seg_first(data@, ph_offset(data@, j)) <= k < seg_last(data@, ph_offset(data@, j))
                    ==> (#[trigger] self.table().walk(k)) is None,
                copies@ == elf_copies(self.table(), data@, index as int),
            decreases phnum - index,
        {
            proof {
                assert(index * phentsize <= 65535 * 65535) by (nonlinear_arith)
                    requires index < 65536, phentsize < 65536;
            }
            let prod: usize = index * phentsize;
            assert(prod as int == index * elf_phentsize(data@));
            if phoff > usize::MAX - 56 - prod {
                assert(!ph_in_file(data@, index as int));
                return None;
            }
            let offset: usize = phoff + prod;
            if offset + 56 > total {
                assert(!ph_in_file(data@, index as int));
                return None;
            }
            assert(ph_in_file(data@, index as int));
            let ghost before = self.page_table;
            let ghost copies_before = copies@;
            let ghost fr_before = frames.current_spec();
            proof {
                if good {
                    lemma_elf_frames_mono(data@, index + 1, phnum as int);
                    assert(offset as int == ph_offset(data@, index as int));
                    if seg_takes_memory(data@, index as int) {
                        assert(seg_placeable(data@, offset as int));
                        assert forall|k: int| seg_first(data@, offset as int) <= k < seg_last(data@, offset as int)
                            implies (#[trigger] self.table().walk(k)) is None by {
                            assert(seg_takes_memory(data@, index as int));
                        }
                    }
                }
            }
            if le_u32(data, offset) == crate::loader::ELF_PT_LOAD {
                let ok = self.load_elf_segment(data, offset, frames, &mut copies);
                if !ok {
                    assert(ph_is_load(data@, index as int));
                    assert(seg_memsz(data@, ph_offset(data@, index as int)) != 0);
                    return None;
                }
                assert(!seg_out_of_file(data@, index as int));
            } else {
                assert(!ph_is_load(data@, index as int));
                assert(!seg_out_of_file(data@, index as int));
            }
            proof {
                assert(offset as int == ph_offset(data@, index as int));
                assert forall|i: int| 0 <= i < index + 1 implies #[trigger] ph_offset(data@, i) + 56 <= data@.len() by {
                }
                assert forall|i: int| 0 <= i < index + 1 && #[trigger] ph_is_load(data@, i)
                    implies segment_mapped(self.table(), data@, ph_offset(data@, i)) by {
                    if i < index {
                        lemma_segment_kept(before, self.table(), data@, ph_offset(data@, i));
                    } else {
                        assert(le32(data@, offset as int) == crate::loader::ELF_PT_LOAD);
                    }
                }
                assert(segments_loaded(self.table(), data@, index + 1));
                assert forall|v: int| (#[trigger] start.walk(v)) is Some implies self.table().walk(v) == start.walk(v) by {
                    assert(before.walk(v) == start.walk(v));
                }
                assert forall|i: int| 0 <= i < copies@.len() implies (#[trigger] copies@[i]).src + copies@[i].len <= data@.len() by {
                    if i < copies_before.len() {
                        assert(copies@[i] == copies_before[i]);
                    }
                }
                assert(copies@ =~= elf_copies(self.table(), data@, index + 1)) by {
                    lemma_elf_copies_stable(before, self.table(), data@, index as int);
                }
                if good {
                    assert(frames.current_spec() <= old(frames).current_spec() + elf_frames(data@, index + 1));
                    assert forall|j: int, k: int| index + 1 <= j < phnum && #[trigger] seg_takes_memory(data@, j)
                        && seg_first(data@, ph_offset(data@, j)) <= k < seg_last(data@, ph_offset(data@, j))
                        implies (#[trigger] self.table().walk(k)) is None by {
                        assert(before.walk(k) is None);
                        assert(seg_placeable(data@, ph_offset(data@, j)));
                        if seg_takes_memory(data@, index as int) {
                            assert(seg_last(data@, ph_offset(data@, index as int)) <= seg_first(data@, ph_offset(data@, j))
                                || seg_last(data@, ph_offset(data@, j)) <= seg_first(data@, ph_offset(data@, index as int)));
                        }
                    }
                }
            }
            index = index + 1;
        }
        Some(copies)
    }
}

/// Whether the pages of an image of `len` bytes at `USER_APP_BASE` stay clear of `secs`.
pub open spec fn app_clear_of(secs: Seq<Section>, len: int) -> bool {
    forall|i: int, k: int| 0 <= i < secs.len() && app_first_page() <= k < app_first_page() + app_pages(len)
        ==> !#[trigger] in_section(secs[i], k)
}

/// `pt` maps each of `secs` one to one with its flags.
pub open spec fn maps_sections(pt: PageTable, secs: Seq<Section>) -> bool {
    forall|i: int| 0 <= i < secs.len() ==> identity_mapped(pt,
        (#[trigger] secs[i]).start as int, secs[i].end as int, secs[i].flags)
}

/// The entry for `va` is valid and has the readable, writable, executable and user bits as given.
pub open spec fn entry_has(pt: PageTable, va: int, r: bool, w: bool, x: bool, u: bool) -> bool {
    let e = pt.walk(va / 4096);
    &&& e is Some
    &&& e->0.has_flag(2) == r
    &&& e->0.has_flag(4) == w
    &&& e->0.has_flag(8) == x
    &&& e->0.has_flag(16) == u
}

/// The checks `self_check_user` makes: kernel text for the kernel only, the program's
/// first page and its stack for the user.
pub open spec fn user_check(pt: PageTable, l: KernelLayout, app_id: int) -> bool {
    let bottom = crate::user::user_stack_range_spec(l, app_id).0;
    &&& pt.walk(l.stext as int / 4096) is Some
    &&& pt.walk(l.stext as int / 4096)->0.has_flag(2)
    &&& pt.walk(l.stext as int / 4096)->0.has_flag(8)
    &&& !pt.walk(l.stext as int / 4096)->0.has_flag(16)
    &&& pt.walk(app_first_page()) is Some
    &&& pt.walk(app_first_page())->0.has_flag(2)
    &&& pt.walk(app_first_page())->0.has_flag(8)
    &&& pt.walk(app_first_page())->0.has_flag(16)
    &&& pt.walk(bottom as int / 4096) is Some
    &&& pt.walk(bottom as int / 4096)->0.has_flag(2)
    &&& pt.walk(bottom as int / 4096)->0.has_flag(4)
    &&& pt.walk(bottom as int / 4096)->0.has_flag(16)
}

impl MemorySet {
    /// The address space of user program `app_id`: the kernel's sections, then the
    /// external ELF program when it is program 0 and one is ready, else the image
    /// `app_image` at `USER_APP_BASE`. Returns it with the copies that fill the program's
    /// pages; `None` when the external program cannot be loaded.
    pub fn new_user(
        app_id: usize,
        layout: &KernelLayout,
        loader: &crate::loader::Loader,
        app_image: &[u8],
        frames: &mut StackFrameAllocator,
    ) -> (r: Option<(MemorySet, Vec<PageCopy>)>)
        requires
            layout_ok(*layout),
            old(frames).current_spec() < old(frames).end_spec() <= 0x1000_0000_0000,
            old(frames).available_spec() >= 1 + sections_budget(user_sections(*layout), 8),
            !(app_id == 0 && loader.ready_spec()) ==> {
                &&& crate::loader::USER_APP_BASE + app_image@.len() <= MMIO_BASE
                &&& app_clear_of(user_sections(*layout), app_image@.len() as int)
                &&& old(frames).available_spec() >= 1 + sections_budget(user_sections(*layout), 8)
                    + app_budget(app_image@.len() as int)
            },
        ensures
            final(frames).end_spec() == old(frames).end_spec(),
            final(frames).current_spec() <= final(frames).end_spec(),
            !(app_id == 0 && loader.ready_spec()) ==> final(frames).current_spec() <= old(frames).current_spec() + 1
                + sections_budget(user_sections(*layout), 8) + app_budget(app_image@.len() as int),
            r is Some ==> r.unwrap().0.wf() && r.unwrap().0.table().frames_below(final(frames).current_spec())
                && maps_sections(r.unwrap().0.table(), user_sections(*layout)),
            !(app_id == 0 && loader.ready_spec()) ==> r is Some && r.unwrap().1@.len() == app_pages(app_image@.len() as int)
                && forall|i: int| 0 <= i < r.unwrap().1@.len() ==> #[trigger] app_page_loaded(r.unwrap().0.table(), r.unwrap().1@,
                    app_image@.len() as int, i),
            app_id == 0 && loader.ready_spec() && !is_elf_spec(loader.app_spec()) ==> r is None,
            app_id == 0 && loader.ready_spec() && elf_shape_ok(loader.app_spec()) && elf_clear_of(user_sections(*layout),
                loader.app_spec()) && old(frames).available_spec() >= 1 + sections_budget(user_sections(*layout), 8)
                + elf_frames(loader.app_spec(), elf_phnum(loader.app_spec())) ==> r is Some,
            app_id == 0 && loader.ready_spec() && r is Some ==> segments_loaded(r.unwrap().0.table(), loader.app_spec(),
                elf_phnum(loader.app_spec())),
            app_id == 0 && loader.ready_spec() && r is Some ==> r.unwrap().1@ == elf_copies(r.unwrap().0.table(),
                loader.app_spec(), elf_phnum(loader.app_spec())),
    {
        let secs = user_section_list(layout);
        let mut ms = Self::with_sections(&secs, frames);
        let ghost mapped = ms.page_table;
        if app_id == 0 && loader.has_external_app() {
            proof {
                let d = loader.app_spec();
                if elf_shape_ok(d) && elf_clear_of(user_sections(*layout), d) {
                    assert forall|i: int, k: int| 0 <= i < elf_phnum(d) && #[trigger] seg_takes_memory(d, i)
                        && seg_first(d, ph_offset(d, i)) <= k < seg_last(d, ph_offset(d, i))
                        implies (#[trigger] ms.table().walk(k)) is None by {
                        assert(seg_placeable(d, ph_offset(d, i)));
                        assert forall|s: int| 0 <= s < secs@.len() implies !in_section(#[trigger] secs@[s], k) by {
                            assert(seg_takes_memory(d, i));
                        }
                    }
                }
            }
            match ms.load_external_elf(loader.external_app_data(), frames) {
                None => None,
                Some(copies) => {
                    proof {
                        assert forall|i: int| 0 <= i < secs@.len() implies identity_mapped(ms.table(),
                            (#[trigger] secs@[i]).start as int, secs@[i].end as int, secs@[i].flags) by {
                            assert(identity_mapped(mapped, secs@[i].start as int, secs@[i].end as int, secs@[i].flags));
                            assert forall|k: int| secs@[i].start / 4096 <= k < secs@[i].end / 4096 implies
                                (#[trigger] ms.table().walk(k)) is Some && ms.table().walk(k)->0.bits_spec()
                                == pte_bits(k as u64, secs@[i].flags | 1) by {
                                assert(mapped.walk(k) is Some);
                            }
                        }
                    }
                    Some((ms, copies))
                },
            }
        } else {
            proof {
                assert forall|k: int| app_first_page() <= k < app_first_page() + app_pages(app_image@.len() as int)
                    implies (#[trigger] mapped.walk(k)) is None by {
                    assert forall|i: int| 0 <= i < secs@.len() implies !in_section(#[trigger] secs@[i], k) by {}
                }
            }
            let copies = ms.load_user_app(app_image, frames);
            proof {
                assert forall|i: int| 0 <= i < secs@.len() implies identity_mapped(ms.table(),
                    (#[trigger] secs@[i]).start as int, secs@[i].end as int, secs@[i].flags) by {
                    assert(identity_mapped(mapped, secs@[i].start as int, secs@[i].end as int, secs@[i].flags));
                    assert forall|k: int| secs@[i].start / 4096 <= k < secs@[i].end / 4096 implies
                        (#[trigger] ms.table().walk(k)) is Some && ms.table().walk(k)->0.bits_spec()
                        == pte_bits(k as u64, secs@[i].flags | 1) by {
                        assert(secs@[i].end <= MEMORY_END);
                        if app_first_page() <= k < app_first_page() + app_pages(app_image@.len() as int) {
                            assert(!in_section(secs@[i], k));
                        }
                    }
                }
            }
            Some((ms, copies))
        }
    }

    /// Checks that the kernel text is mapped for the kernel only, and the program's first
    /// page and its stack for the user.
    pub fn self_check_user(&self, layout: &KernelLayout, app_id: usize) -> (r: bool)
        requires
            self.wf(),
            app_id < crate::loader::APP_NUM,
            layout.user_stack0 + crate::user::USER_STACK_SIZE <= usize::MAX,
            layout.user_stack1 + crate::user::USER_STACK_SIZE <= usize::MAX,
        ensures
            r == user_check(self.table(), *layout, app_id as int),
    {
        let (user_stack_bottom, _) = crate::user::user_stack_range(layout, app_id);
        let kernel_text = match self.translate(VirtAddr(layout.stext)) {
            None => return false,
            Some(e) => e,
        };
        if !(kernel_text.readable() && kernel_text.executable() && !kernel_text.user()) {
            return false;
        }
        let app_entry = match self.translate(VirtAddr(crate::loader::USER_APP_BASE)) {
            None => return false,
            Some(e) => e,
        };
        if !(app_entry.readable() && app_entry.executable() && app_entry.user()) {
            return false;
        }
        let user_stack = match self.translate(VirtAddr(user_stack_bottom)) {
            None => return false,
            Some(e) => e,
        };
        user_stack.readable() && user_stack.writable() && user_stack.user()
    }
}

/// Every address space `new_user` builds for a built-in program passes `self_check_user`,
/// when the kernel text and the image are not empty and the program's stack lies in the
/// user stack section.
pub proof fn lemma_new_user_passes_self_check(pt: PageTable, copies: Seq<PageCopy>, l: KernelLayout, app_id: int, len: int)
    requires
        layout_ok(l),
        maps_sections(pt, user_sections(l)),
        len > 0,
        copies.len() == app_pages(len),
        forall|i: int| 0 <= i < copies.len() ==> #[trigger] app_page_loaded(pt, copies, len, i),
        l.stext < l.etext,
        l.suser_stack <= crate::user::user_stack_range_spec(l, app_id).0 < l.euser_stack,
    ensures
        user_check(pt, l, app_id),
{
    let secs = user_sections(l);
    lemma_section_page(pt, secs[0], l.stext as int);
    let bottom = crate::user::user_stack_range_spec(l, app_id).0;
    lemma_section_page(pt, secs[5], bottom as int);
    assert(app_page_loaded(pt, copies, len, 0));
    crate::page_table::lemma_pte_roundtrip(copies[0].ppn as u64, 31);
    assert(11u64 & 2 == 2 && 11u64 & 8 == 8 && 11u64 & 16 == 0) by (bit_vector);
    assert(31u64 & 2 == 2 && 31u64 & 8 == 8 && 31u64 & 16 == 16) by (bit_vector);
    assert(23u64 & 2 == 2 && 23u64 & 4 == 4 && 23u64 & 16 == 16) by (bit_vector);
    assert((10u64 | 1) == 11 && (22u64 | 1) == 23 && (30u64 | 1) == 31) by (bit_vector);
}

/// Pages mapped since `before` carry the flags `fl` with the valid bit.
pub open spec fn new_pages_have(before: PageTable, after: PageTable, fl: u64) -> bool {
    forall|v: int| (#[trigger] before.walk(v)) is None && after.walk(v) is Some ==> after.walk(v)->0.flags_spec() == fl | 1
}

/// Mapping page `vpn`, unmapped before, with flags `fl` keeps every mapped page of
/// `[first, vpn)` and every earlier mapping, and maps `vpn` with `fl`.
proof fn lemma_zero_page_added(before: PageTable, after: PageTable, start: PageTable, vpn: int, first: int, fl: u64, ppn: u64)
    requires
        before.walk(vpn) is None,
        fl < 32,
        ppn < 0x1000_0000_0000,
        forall|v: int| vpn_indexes(v) == vpn_indexes(vpn) ==> (#[trigger] after.walk(v)) is Some
            && after.walk(v)->0.bits_spec() == pte_bits(ppn, fl | 1),
        forall|v: int| vpn_indexes(v) != vpn_indexes(vpn) ==> #[trigger] after.walk(v) == before.walk(v),
        forall|k: int| first <= k < vpn ==> (#[trigger] before.walk(k)) is Some,
        keeps_mappings(start, before),
        new_pages_have(start, before, fl),
    ensures
        forall|k: int| first <= k < vpn + 1 ==> (#[trigger] after.walk(k)) is Some,
        keeps_mappings(start, after),
        new_pages_have(start, after, fl),
{
    assert(fl | 1 < 1024) by (bit_vector)
        requires fl < 32;
    crate::page_table::lemma_pte_roundtrip(ppn, fl | 1);
    assert forall|k: int| first <= k < vpn + 1 implies (#[trigger] after.walk(k)) is Some by {
        if k < vpn && vpn_indexes(k) == vpn_indexes(vpn) {
            before.lemma_walk_by_indexes(k, vpn);
        }
    }
    assert forall|v: int| (#[trigger] start.walk(v)) is Some implies after.walk(v) == start.walk(v) by {
        if vpn_indexes(v) == vpn_indexes(vpn) {
            before.lemma_walk_by_indexes(v, vpn);
        }
    }
    assert forall|v: int| (#[trigger] start.walk(v)) is None && after.walk(v) is Some implies
        after.walk(v)->0.flags_spec() == fl | 1 by {
        if vpn_indexes(v) != vpn_indexes(vpn) {
            assert(after.walk(v) == before.walk(v));
        }
    }
}

/// Every page mapped in `after` and not in `before` points at a frame numbered from `lo`
/// up to `hi`: one the allocator handed out in between.
pub open spec fn new_pages_from(before: PageTable, after: PageTable, lo: int, hi: int) -> bool {
    forall|v: int| (#[trigger] before.walk(v)) is None && after.walk(v) is Some ==> lo
        <= after.walk(v)->0.ppn_spec() < hi
}

/// Mapping page `vpn`, unmapped before, onto a frame numbered from `lo` up to `hi1` keeps
/// every newly mapped page on such a frame.
proof fn lemma_fresh_page_added(before: PageTable, after: PageTable, start: PageTable, vpn: int, fl: u64, ppn: u64,
    lo: int, hi0: int, hi1: int)
    requires
        before.walk(vpn) is None,
        fl < 32,
        ppn < 0x1000_0000_0000,
        lo <= ppn < hi1,
        hi0 <= hi1,
        forall|v: int| vpn_indexes(v) == vpn_indexes(vpn) ==> (#[trigger] after.walk(v)) is Some
            && after.walk(v)->0.bits_spec() == pte_bits(ppn, fl | 1),
        forall|v: int| vpn_indexes(v) != vpn_indexes(vpn) ==> #[trigger] after.walk(v) == before.walk(v),
        new_pages_from(start, before, lo, hi0),
    ensures
        new_pages_from(start, after, lo, hi1),
{
    assert(fl | 1 < 1024) by (bit_vector)
        requires fl < 32;
    crate::page_table::lemma_pte_roundtrip(ppn, fl | 1);
    assert forall|v: int| (#[trigger] start.walk(v)) is None && after.walk(v) is Some implies lo
        <= after.walk(v)->0.ppn_spec() < hi1 by {
        if vpn_indexes(v) != vpn_indexes(vpn) {
            assert(after.walk(v) == before.walk(v));
        }
    }
}

impl MemorySet {
    /// Makes every page of `[start, end)` present: pages not mapped yet get a fresh frame,
    /// readable, writable and user accessible. `false` when the frames run out first. The
    /// library does not model memory: each page it maps is on a frame taken during the call,
    /// which the caller zeroes.
    pub fn map_user_zero_range(&mut self, start: usize, end: usize, frames: &mut StackFrameAllocator) -> (r: bool)
        requires
            old(self).wf(),
            old(self).table().frames_below(old(frames).current_spec()),
            old(frames).end_spec() <= 0x1000_0000_0000,
            old(frames).current_spec() <= old(frames).end_spec(),
            end <= usize::MAX - 4095,
        ensures
            final(self).wf(),
            final(self).table().frames_below(final(frames).current_spec()),
            final(frames).end_spec() == old(frames).end_spec(),
            old(frames).current_spec() <= final(frames).current_spec() <= final(frames).end_spec(),
            final(self).table().root_ppn_spec() == old(self).table().root_ppn_spec(),
            keeps_mappings(old(self).table(), final(self).table()),
            new_pages_have(old(self).table(), final(self).table(), FLAGS_RWU),
            new_pages_from(old(self).table(), final(self).table(), old(frames).current_spec() as int,
                final(frames).current_spec() as int),
            start >= end ==> r && final(self).table() == old(self).table(),
            r && start < end ==> forall|k: int| start as int / 4096 <= k < (end as int + 4095) / 4096 ==> (#[trigger] final(self).table().walk(k)) is Some,
            !r ==> final(frames).available_spec() <= 2,
    {
        if start >= end {
            return true;
        }
        let ghost origin = self.page_table;
        let mut page_va = round_down(start, 4096);
        let end_va = round_up(end, 4096);
        let ghost first = start as int / 4096;
        proof {
            assert(page_va / 4096 == first) by (nonlinear_arith)
                requires page_va == (start as int / 4096) * 4096, first == start as int / 4096;
            assert(end_va / 4096 == (end + 4095) / 4096) by (nonlinear_arith)
                requires end_va == ((end + 4096 - 1) / 4096) * 4096;
        }
        let fl = PTEFlags::from_bits(FLAGS_RWU);
        while page_va < end_va
            invariant
                origin == old(self).table(),
                fl.bits_spec() == FLAGS_RWU,
                page_va % 4096 == 0,
                end_va % 4096 == 0,
                first * 4096 <= page_va <= end_va,
                start < end,
                end_va / 4096 == (end + 4095) / 4096,
                self.wf(),
                self.table().frames_below(frames.current_spec()),
                frames.end_spec() == old(frames).end_spec(),
                frames.end_spec() <= 0x1000_0000_0000,
                old(frames).current_spec() <= frames.current_spec() <= frames.end_spec(),
                self.table().root_ppn_spec() == origin.root_ppn_spec(),
                keeps_mappings(origin, self.table()),
                new_pages_have(origin, self.table(), FLAGS_RWU),
                new_pages_from(origin, self.table(), old(frames).current_spec() as int, frames.current_spec() as int),
                forall|k: int| first <= k < page_va / 4096 ==> (#[trigger] self.table().walk(k)) is Some,
            decreases end_va - page_va,
        {
            let vpn: usize = page_va / 4096;
            if self.page_table.translate(VirtPageNum(vpn)).is_none() {
                let need = self.page_table.needed_frames(VirtPageNum(vpn));
                if frames.avaliable_frames() <= need {
                    proof {
                        self.page_table.lemma_frames_needed_bound(vpn as int);
                    }
                    return false;
                }
                let ghost before = self.page_table;
                let ghost cur = frames.current_spec();
                let frame = frames.allocate();
                let ppn: usize = match frame {
                    Some(f) => f.ppn(),
                    None => 0,
                };
                proof {
                    before.lemma_frames_below_mono(cur, frames.current_spec());
                }
                self.page_table.map(VirtPageNum(vpn), crate::address::PhysPageNum(ppn), fl, frames);
                proof {
                    lemma_zero_page_added(before, self.page_table, origin, vpn as int, first, FLAGS_RWU, ppn as u64);
                    lemma_fresh_page_added(before, self.page_table, origin, vpn as int, FLAGS_RWU, ppn as u64,
                        old(frames).current_spec() as int, cur as int, frames.current_spec() as int);
                }
            }
            page_va = page_va + 4096;
        }
        proof {
            assert(page_va == end_va);
            assert forall|k: int| start as int / 4096 <= k < (end as int + 4095) / 4096
                implies (#[trigger] self.table().walk(k)) is Some by {
                assert(first <= k < page_va / 4096);
            }
        }
        true
    }
}

/// Frames building the address spaces of programs `from..` takes at most.
pub open spec fn apps_budget(l: KernelLayout, lens: Seq<int>, from: int) -> int
    decreases lens.len() - from,
{
    if from < 0 || from >= lens.len() {
        0
    } else {
        1 + sections_budget(user_sections(l), 8) + app_budget(lens[from]) + apps_budget(l, lens, from + 1)
    }
}

/// The lengths of the images.
pub open spec fn image_lens(images: Seq<Vec<u8>>) -> Seq<int> {
    images.map_values(|v: Vec<u8>| v@.len() as int)
}

/// What `self_check` needs of the layout and the images to be able to pass.
pub open spec fn self_check_passes_when(l: KernelLayout, images: Seq<Vec<u8>>) -> bool {
    &&& l.stext < l.etext
    &&& l.srodata < l.erodata
    &&& l.sdata < l.edata
    &&& l.edata < l.ebss
    &&& l.suser_stack < l.euser_stack
    &&& forall|a: int| 0 <= a < crate::loader::APP_NUM ==> l.suser_stack
        <= (#[trigger] crate::user::user_stack_range_spec(l, a)).0 < l.euser_stack
    &&& forall|a: int| 0 <= a < images.len() ==> (#[trigger] images[a])@.len() > 0
}

proof fn lemma_apps_budget_step(l: KernelLayout, lens: Seq<int>, from: int)
    requires
        0 <= from < lens.len(),
        forall|a: int| 0 <= a < lens.len() ==> #[trigger] lens[a] >= 0,
    ensures
        apps_budget(l, lens, from) == 1 + sections_budget(user_sections(l), 8) + app_budget(lens[from])
            + apps_budget(l, lens, from + 1),
        apps_budget(l, lens, from + 1) >= 0,
    decreases lens.len() - from,
{
    if from + 1 < lens.len() {
        lemma_apps_budget_step(l, lens, from + 1);
        lemma_budget_mono(user_sections(l), 0, 8);
        lemma_budget_nonneg(app_first_page(), app_first_page() + app_pages(lens[from + 1]));
    }
}

/// The table frames `range_frame_budget` allows for the pages `[s, e)`.
fn range_budget(s: usize, e: usize) -> (r: usize)
    requires
        s <= e <= 0x800_0000,
    ensures
        r == PageTable::range_frame_budget(s as int, e as int),
{
    if s >= e {
        0
    } else {
        2 * ((e - 1) / 512 - s / 512 + 1)
    }
}

/// The table frames `sections_budget` allows for all of `secs`.
fn sections_budget_exec(secs: &Vec<Section>) -> (r: usize)
    requires
        sections_ok(secs@),
        secs@.len() <= 8,
    ensures
        r == sections_budget(secs@, secs@.len() as int),
        r <= 0x80000,
{
    let mut total: usize = 0;
    let mut i: usize = 0;
    while i < secs.len()
        invariant
            sections_ok(secs@),
            secs@.len() <= 8,
            i <= secs@.len(),
            total == sections_budget(secs@, i as int),
            total <= i * 0x10000,
        decreases secs@.len() - i,
    {
        let sec = secs[i];
        proof {
            assert(sec == secs@[i as int]);
            assert(sec.end / 4096 <= 0x88000);
        }
        let b = range_budget(sec.start / 4096, sec.end / 4096);
        total = total + b;
        i = i + 1;
    }
    total
}

/// Frames building one program's address space takes at most: a root table, the
/// sections' tables, and the image's pages and tables.
fn user_space_budget(layout: &KernelLayout, len: usize) -> (r: usize)
    requires
        layout_ok(*layout),
        crate::loader::USER_APP_BASE + len <= MMIO_BASE,
    ensures
        r == 1 + sections_budget(user_sections(*layout), 8) + app_budget(len as int),
{
    let secs = user_section_list(layout);
    let sb = sections_budget_exec(&secs);
    let pages: usize = (len + 4095) / 4096;
    let first: usize = crate::loader::USER_APP_BASE / 4096;
    let tables = range_budget(first, first + pages);
    1 + sb + pages + tables
}

/// Frames building the kernel's address space takes at most.
fn kernel_space_budget(layout: &KernelLayout) -> (r: usize)
    requires
        layout_ok(*layout),
    ensures
        r == 1 + sections_budget(kernel_sections(*layout), 8),
{
    let secs = kernel_section_list(layout);
    1 + sections_budget_exec(&secs)
}

/// Builds the kernel's address space and each program's, and checks each as
/// `self_check` and `self_check_user` do. `app_images` holds the built-in programs.
/// `false` when a check fails, an address space cannot be built, or the frames do not
/// suffice to build one.
pub fn self_check(
    layout: &KernelLayout,
    loader: &crate::loader::Loader,
    app_images: &Vec<Vec<u8>>,
    frames: &mut StackFrameAllocator,
) -> (r: bool)
    requires
        layout_ok(*layout),
        app_images@.len() == crate::loader::APP_NUM,
        layout.user_stack0 + crate::user::USER_STACK_SIZE <= usize::MAX,
        layout.user_stack1 + crate::user::USER_STACK_SIZE <= usize::MAX,
        forall|a: int| 0 <= a < app_images@.len() ==> {
            &&& crate::loader::USER_APP_BASE + (#[trigger] app_images@[a])@.len() <= MMIO_BASE
            &&& app_clear_of(user_sections(*layout), app_images@[a]@.len() as int)
        },
        old(frames).current_spec() <= old(frames).end_spec() <= 0x1000_0000_0000,
    ensures
        self_check_passes_when(*layout, app_images@) && !loader.ready_spec()
            && old(frames).available_spec() >= 1 + sections_budget(kernel_sections(*layout), 8)
            + apps_budget(*layout, image_lens(app_images@), 0) ==> r,
{
    let ghost lens = image_lens(app_images@);
    let ghost enough = old(frames).available_spec() >= 1 + sections_budget(kernel_sections(*layout), 8)
        + apps_budget(*layout, lens, 0);
    proof {
        assert forall|a: int| 0 <= a < lens.len() implies #[trigger] lens[a] >= 0 by {}
        lemma_apps_budget_step(*layout, lens, 0);
        lemma_budget_mono(user_sections(*layout), 0, 8);
        lemma_budget_nonneg(app_first_page(), app_first_page() + app_pages(lens[0]));
        assert(apps_budget(*layout, lens, 0) >= 0);
        lemma_budget_mono(kernel_sections(*layout), 0, 8);
    }
    let kernel_need = kernel_space_budget(layout);
    if frames.avaliable_frames() < kernel_need || kernel_need == 0 {
        return false;
    }
    let kernel_space = MemorySet::new_kernel(layout, frames);
    proof {
        if self_check_passes_when(*layout, app_images@) {
            lemma_new_kernel_passes_self_check(kernel_space.table(), *layout);
        }
    }
    let mut ok = kernel_space.self_check(layout);
    let mut app_id: usize = 0;
    while app_id < crate::loader::APP_NUM
        invariant
            lens == image_lens(app_images@),
            lens.len() == crate::loader::APP_NUM,
            app_images@.len() == crate::loader::APP_NUM,
            app_id <= crate::loader::APP_NUM,
            layout_ok(*layout),
            layout.user_stack0 + crate::user::USER_STACK_SIZE <= usize::MAX,
            layout.user_stack1 + crate::user::USER_STACK_SIZE <= usize::MAX,
            forall|a: int| 0 <= a < app_images@.len() ==> {
                &&& crate::loader::USER_APP_BASE + (#[trigger] app_images@[a])@.len() <= MMIO_BASE
                &&& app_clear_of(user_sections(*layout), app_images@[a]@.len() as int)
            },
            frames.end_spec() <= 0x1000_0000_0000,
            frames.current_spec() <= frames.end_spec(),
            enough && !loader.ready_spec() ==> frames.available_spec() >= apps_budget(*layout, lens, app_id as int),
            self_check_passes_when(*layout, app_images@) && !loader.ready_spec() && enough ==> ok,
        decreases crate::loader::APP_NUM - app_id,
    {
        proof {
            assert forall|a: int| 0 <= a < lens.len() implies #[trigger] lens[a] >= 0 by {}
            lemma_apps_budget_step(*layout, lens, app_id as int);
            assert(lens[app_id as int] == app_images@[app_id as int]@.len());
            lemma_budget_mono(user_sections(*layout), 0, 8);
            lemma_budget_nonneg(app_first_page(), app_first_page() + app_pages(lens[app_id as int]));
        }
        let image = &app_images[app_id];
        let need = user_space_budget(layout, image.len());
        if frames.avaliable_frames() < need || frames.avaliable_frames() == 0 {
            ok = false;
        } else {
            match MemorySet::new_user(app_id, layout, loader, image.as_slice(), frames) {
                None => {
                    ok = false;
                },
                Some((user_space, copies)) => {
                    proof {
                        if self_check_passes_when(*layout, app_images@) && !loader.ready_spec() {
                            assert(app_images@[app_id as int]@.len() > 0);
                            assert(app_page_loaded(user_space.table(), copies@, image@.len() as int, 0));
                            assert(crate::user::user_stack_range_spec(*layout, app_id as int).0 < layout.euser_stack);
                            lemma_new_user_passes_self_check(user_space.table(), copies@, *layout, app_id as int,
                                image@.len() as int);
                        }
                    }
                    let passed = user_space.self_check_user(layout, app_id);
                    ok = ok && passed;
                },
            }
        }
        app_id = app_id + 1;
    }
    ok
}

/// A page of a section is mapped to itself with the section's flags.
proof fn lemma_section_page(pt: PageTable, sec: Section, va: int)
    requires
        identity_mapped(pt, sec.start as int, sec.end as int, sec.flags),
        sec.start <= va < sec.end,
        sec.start % 4096 == 0,
        sec.end % 4096 == 0,
        sec.end <= MEMORY_END,
        sec.flags < 1024,
    ensures
        pt.walk(va / 4096) is Some,
        pt.walk(va / 4096)->0.ppn_spec() == va / 4096,
        pt.walk(va / 4096)->0.flags_spec() == sec.flags | 1,
{
    let k = va / 4096;
    assert(sec.start / 4096 <= k < sec.end / 4096);
    lemma_section_entry(pt.walk(k)->0, k, sec.flags);
}

/// Every address space that `new_kernel` builds passes `self_check`, when text, read-only
/// data, data, bss and the user stacks are not empty.
pub proof fn lemma_new_kernel_passes_self_check(pt: PageTable, l: KernelLayout)
    requires
        layout_ok(l),
        maps_exactly(pt, kernel_sections(l)),
        l.stext < l.etext,
        l.srodata < l.erodata,
        l.sdata < l.edata,
        l.edata < l.ebss,
        l.suser_stack < l.euser_stack,
    ensures
        kernel_check(pt, l),
{
    let secs = kernel_sections(l);
    assert(secs[0] == Section { start: l.stext, end: l.etext, flags: FLAGS_RX });
    lemma_section_page(pt, secs[0], l.stext as int);
    lemma_section_page(pt, secs[1], l.srodata as int);
    lemma_section_page(pt, secs[3], l.sdata as int);
    lemma_section_page(pt, secs[4], l.edata as int);
    lemma_section_page(pt, secs[5], l.suser_stack as int);
    assert(11u64 & 2 == 2 && 11u64 & 4 == 0 && 11u64 & 8 == 8) by (bit_vector);
    assert(3u64 & 2 == 2 && 3u64 & 4 == 0 && 3u64 & 8 == 0) by (bit_vector);
    assert(7u64 & 2 == 2 && 7u64 & 4 == 4 && 7u64 & 8 == 0) by (bit_vector);
    assert(23u64 & 2 == 2 && 23u64 & 4 == 4 && 23u64 & 8 == 0) by (bit_vector);
    assert((10u64 | 1) == 11 && (2u64 | 1) == 3 && (6u64 | 1) == 7 && (22u64 | 1) == 23) by (bit_vector);
}

} // verus!
