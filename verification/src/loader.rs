//! The kernel's application loader state: the external ELF picked from the test disk,
//! its test group, its working directory and its arguments, and what its ELF header says.
use vstd::prelude::*;
use crate::bytes::{le_u16, le_u32, le_u64, le16, le32, le64};

verus! {

/// Number of built-in applications.
pub const APP_NUM: usize = 2;
/// Where built-in applications are loaded and start.
pub const USER_APP_BASE: usize = 0x10000;
/// Where the user heap of a built-in application starts.
pub const USER_HEAP_BASE: usize = 0x20000;
/// Size of the user heap.
pub const USER_HEAP_SIZE: usize = 16 * 1024 * 1024;
/// Largest external ELF image.
pub const EXTERNAL_APP_MAX_SIZE: usize = 4 * 1024 * 1024;
/// Longest test-group name kept.
pub const EXTERNAL_GROUP_MAX_LEN: usize = 32;
/// Most arguments kept for an external program.
pub const EXTERNAL_ARG_MAX: usize = 8;
/// Longest working directory kept.
pub const EXTERNAL_CWD_MAX: usize = 128;
/// `PT_LOAD`.
pub const ELF_PT_LOAD: u32 = 1;
/// Size of a 64-bit program header.
pub const ELF_PH_SIZE: usize = 56;
/// Page size used to round the heap start.
pub const USER_PAGE_SIZE: usize = 4096;

/// The external program the loader holds.
pub struct Loader {
    app: Vec<u8>,
    group: Vec<u8>,
    cwd: Vec<u8>,
    args: Vec<Vec<u8>>,
    ready: bool,
}

/// `x` as a machine word, as the kernel's `as usize` casts give it.
pub open spec fn word(x: int) -> int {
    ((x as u64) as usize) as int
}

/// The program-header offset of an ELF image, 0 when the header is too short.
pub open spec fn elf_phoff(d: Seq<u8>) -> int {
    if d.len() < 64 { 0 } else { word(le64(d, 32)) }
}

/// The program-header entry size of an ELF image, 0 when the header is too short.
pub open spec fn elf_phentsize(d: Seq<u8>) -> int {
    if d.len() < 64 { 0 } else { le16(d, 54) }
}

/// The program-header count of an ELF image, 0 when the header is too short.
pub open spec fn elf_phnum(d: Seq<u8>) -> int {
    if d.len() < 64 { 0 } else { le16(d, 56) }
}

/// The entry point of an ELF image, or the built-in base when the header is too short.
pub open spec fn elf_entry(d: Seq<u8>) -> int {
    if d.len() < 32 { USER_APP_BASE as int } else { word(le64(d, 24)) }
}

/// Offset of program header `i`.
pub open spec fn ph_offset(d: Seq<u8>, i: int) -> int {
    elf_phoff(d) + i * elf_phentsize(d)
}

/// Whether program header `i` is `PT_LOAD` (its header must fit).
pub open spec fn ph_is_load(d: Seq<u8>, i: int) -> bool {
    le32(d, ph_offset(d, i)) == ELF_PT_LOAD
}

/// Scanning headers from `i` for the first `PT_LOAD`: the address of the program
/// headers in memory, 0 when none can be found.
pub open spec fn phdr_scan(d: Seq<u8>, i: int) -> int
    decreases elf_phnum(d) - i,
{
    if i >= elf_phnum(d) || i < 0 {
        0
    } else if ph_offset(d, i) + ELF_PH_SIZE > d.len() {
        0
    } else if ph_is_load(d, i) {
        let fo = word(le64(d, ph_offset(d, i) + 8));
        let va = word(le64(d, ph_offset(d, i) + 16));
        if va < fo { 0 } else { va - fo + elf_phoff(d) }
    } else {
        phdr_scan(d, i + 1)
    }
}

/// The scan of `phdr_scan` computes every sum without leaving the machine word.
pub open spec fn phdr_scan_fits(d: Seq<u8>, i: int) -> bool
    decreases elf_phnum(d) - i,
{
    if i >= elf_phnum(d) || i < 0 {
        true
    } else if ph_offset(d, i) + ELF_PH_SIZE > usize::MAX {
        false
    } else if ph_offset(d, i) + ELF_PH_SIZE > d.len() {
        true
    } else if ph_is_load(d, i) {
        let fo = word(le64(d, ph_offset(d, i) + 8));
        let va = word(le64(d, ph_offset(d, i) + 16));
        va < fo || va - fo + elf_phoff(d) <= usize::MAX
    } else {
        phdr_scan_fits(d, i + 1)
    }
}

/// The end of the highest `PT_LOAD` segment among headers `i..`, at least `end`.
pub open spec fn load_end_scan(d: Seq<u8>, i: int, end: int) -> int
    decreases elf_phnum(d) - i,
{
    if i >= elf_phnum(d) || i < 0 {
        end
    } else if ph_offset(d, i) + ELF_PH_SIZE > d.len() {
        end
    } else {
        let next = if ph_is_load(d, i) {
            let va = word(le64(d, ph_offset(d, i) + 16));
            let memsz = word(le64(d, ph_offset(d, i) + 40));
            if va + memsz <= usize::MAX && va + memsz > end { va + memsz } else { end }
        } else {
            end
        };
        load_end_scan(d, i + 1, next)
    }
}

/// Every header offset the segment-end scan computes fits in a machine word.
pub open spec fn load_scan_fits(d: Seq<u8>, i: int) -> bool
    decreases elf_phnum(d) - i,
{
    if i >= elf_phnum(d) || i < 0 {
        true
    } else if ph_offset(d, i) + ELF_PH_SIZE > usize::MAX {
        false
    } else if ph_offset(d, i) + ELF_PH_SIZE > d.len() {
        true
    } else {
        load_scan_fits(d, i + 1)
    }
}

/// `v` rounded up to a whole page.
pub open spec fn page_round_up(v: int) -> int {
    ((v + 4095) / 4096) * 4096
}

/// The start of the heap of an external program: past its highest loaded segment.
pub open spec fn elf_heap_base(d: Seq<u8>) -> int {
    if elf_phoff(d) == 0 || elf_phentsize(d) < ELF_PH_SIZE {
        USER_HEAP_BASE as int
    } else {
        page_round_up(load_end_scan(d, 0, USER_HEAP_BASE as int))
    }
}

impl Loader {
    pub closed spec fn app_spec(&self) -> Seq<u8> {
        self.app@
    }

    pub closed spec fn group_spec(&self) -> Seq<u8> {
        self.group@
    }

    pub closed spec fn cwd_spec(&self) -> Seq<u8> {
        self.cwd@
    }

    pub closed spec fn args_spec(&self) -> Seq<Seq<u8>> {
        self.args@.map_values(|a: Vec<u8>| a@)
    }

    pub closed spec fn ready_spec(&self) -> bool {
        self.ready
    }

    /// A loader that holds no external program.
    pub fn new() -> (r: Self)
        ensures
            r.app_spec() == Seq::<u8>::empty(),
            r.group_spec() == Seq::<u8>::empty(),
            r.cwd_spec() == Seq::<u8>::empty(),
            r.args_spec() == Seq::<Seq<u8>>::empty(),
            !r.ready_spec(),
    {
        let r = Loader { app: Vec::new(), group: Vec::new(), cwd: Vec::new(), args: Vec::new(), ready: false };
        assert(r.args_spec() =~= Seq::<Seq<u8>>::empty());
        r
    }

    /// Takes `data` as the external program; it is ready when it is not empty.
    pub fn set_external_app(&mut self, data: Vec<u8>)
        requires
            data@.len() <= EXTERNAL_APP_MAX_SIZE,
        ensures
            final(self).app_spec() == data@,
            final(self).ready_spec() == (data@.len() > 0),
            final(self).group_spec() == old(self).group_spec(),
            final(self).cwd_spec() == old(self).cwd_spec(),
            final(self).args_spec() == old(self).args_spec(),
    {
        self.ready = data.len() > 0;
        self.app = data;
    }

    /// Records the test group name, cut to its first 32 bytes.
    pub fn set_external_group(&mut self, group: &[u8])
        ensures
            final(self).group_spec() == group@.subrange(0, if group@.len() < 32 { group@.len() as int } else { 32 }),
            final(self).app_spec() == old(self).app_spec(),
            final(self).ready_spec() == old(self).ready_spec(),
            final(self).cwd_spec() == old(self).cwd_spec(),
            final(self).args_spec() == old(self).args_spec(),
    {
        let copy_len = if group.len() < EXTERNAL_GROUP_MAX_LEN { group.len() } else { EXTERNAL_GROUP_MAX_LEN };
        self.group = crate::bytes::copy_range(group, 0, copy_len);
    }

    /// Records the working directory of the external program, cut to 128 bytes.
    pub fn set_external_cwd(&mut self, cwd: &[u8])
        ensures
            final(self).cwd_spec() == cwd@.subrange(0, if cwd@.len() < 128 { cwd@.len() as int } else { 128 }),
            final(self).app_spec() == old(self).app_spec(),
            final(self).ready_spec() == old(self).ready_spec(),
            final(self).group_spec() == old(self).group_spec(),
            final(self).args_spec() == old(self).args_spec(),
    {
        let copy_len = if cwd.len() < EXTERNAL_CWD_MAX { cwd.len() } else { EXTERNAL_CWD_MAX };
        self.cwd = crate::bytes::copy_range(cwd, 0, copy_len);
    }

    /// The working directory of the external program.
    pub fn external_cwd(&self) -> (r: &[u8])
        ensures
            r@ == self.cwd_spec(),
    {
        self.cwd.as_slice()
    }

    /// Forgets the external program's arguments.
    pub fn clear_external_args(&mut self)
        ensures
            final(self).args_spec() == Seq::<Seq<u8>>::empty(),
            final(self).app_spec() == old(self).app_spec(),
            final(self).ready_spec() == old(self).ready_spec(),
            final(self).group_spec() == old(self).group_spec(),
            final(self).cwd_spec() == old(self).cwd_spec(),
    {
        self.args = Vec::new();
        assert(self.args_spec() =~= Seq::<Seq<u8>>::empty());
    }

    /// Appends an argument unless eight are held already; says whether it was kept.
    pub fn push_external_arg(&mut self, arg: &[u8]) -> (r: bool)
        ensures
            r == (old(self).args_spec().len() < EXTERNAL_ARG_MAX),
            r ==> final(self).args_spec() == old(self).args_spec().push(arg@),
            !r ==> final(self).args_spec() == old(self).args_spec(),
            final(self).app_spec() == old(self).app_spec(),
            final(self).ready_spec() == old(self).ready_spec(),
            final(self).group_spec() == old(self).group_spec(),
            final(self).cwd_spec() == old(self).cwd_spec(),
    {
        if self.args.len() >= EXTERNAL_ARG_MAX {
            return false;
        }
        let copy = crate::bytes::copy_range(arg, 0, arg.len());
        assert(copy@ =~= arg@);
        self.args.push(copy);
        assert(self.args_spec() =~= old(self).args_spec().push(arg@));
        true
    }

    /// The external program's arguments.
    pub fn external_args(&self) -> (r: &Vec<Vec<u8>>)
        ensures
            r@.map_values(|a: Vec<u8>| a@) == self.args_spec(),
    {
        &self.args
    }

    /// Whether an external program is ready to run.
    pub fn has_external_app(&self) -> (r: bool)
        ensures
            r == self.ready_spec(),
    {
        self.ready
    }

    /// The external program's image.
    pub fn external_app_data(&self) -> (r: &[u8])
        ensures
            r@ == self.app_spec(),
    {
        self.app.as_slice()
    }

    /// The entry point of the external program.
    pub fn external_app_entry(&self) -> (r: usize)
        ensures
            r == elf_entry(self.app_spec()),
    {
        let data = self.app.as_slice();
        if data.len() < 32 {
            return USER_APP_BASE;
        }
        le_u64(data, 24) as usize
    }

    /// The program-header offset of the external program.
    pub fn external_app_phoff(&self) -> (r: usize)
        ensures
            r == elf_phoff(self.app_spec()),
    {
        let data = self.app.as_slice();
        if data.len() < 64 {
            return 0;
        }
        le_u64(data, 32) as usize
    }

    /// The program-header entry size of the external program.
    pub fn external_app_phentsize(&self) -> (r: usize)
        ensures
            r == elf_phentsize(self.app_spec()),
    {
        let data = self.app.as_slice();
        if data.len() < 64 {
            return 0;
        }
        le_u16(data, 54) as usize
    }

    /// The program-header count of the external program.
    pub fn external_app_phnum(&self) -> (r: usize)
        ensures
            r == elf_phnum(self.app_spec()),
    {
        let data = self.app.as_slice();
        if data.len() < 64 {
            return 0;
        }
        le_u16(data, 56) as usize
    }

    /// Where the program headers of the external program lie in memory: found from its
    /// first `PT_LOAD` segment, 0 when that cannot be worked out.
    pub fn external_app_phdr_vaddr(&self) -> (r: usize)
        requires
            phdr_scan_fits(self.app_spec(), 0),
        ensures
            r == if elf_phoff(self.app_spec()) == 0 || elf_phentsize(self.app_spec()) < ELF_PH_SIZE {
                0
            } else {
                phdr_scan(self.app_spec(), 0)
            },
    {
        let data = self.app.as_slice();
        let phoff = self.external_app_phoff();
        let phentsize = self.external_app_phentsize();
        let phnum = self.external_app_phnum();
        if phoff == 0 || phentsize < ELF_PH_SIZE {
            return 0;
        }
        let ghost d = data@;
        let mut index: usize = 0;
        while index < phnum
            invariant
                d == data@,
                d == self.app_spec(),
                phoff == elf_phoff(d),
                phentsize == elf_phentsize(d),
                phnum == elf_phnum(d),
                phnum <= 0xffff,
                phentsize <= 0xffff,
                phoff != 0,
                phentsize >= ELF_PH_SIZE,
                index <= phnum,
                phdr_scan_fits(d, index as int),
                phdr_scan(d, 0) == phdr_scan(d, index as int),
            decreases phnum - index,
        {
            proof {
                assert(index * phentsize <= 0xffff * 0xffff) by (nonlinear_arith)
                    requires index <= 0xffff, phentsize <= 0xffff;
            }
            assert(phoff + index * phentsize == ph_offset(d, index as int));
            assert(ph_offset(d, index as int) + ELF_PH_SIZE <= usize::MAX);
            let offset = phoff + index * phentsize;
            if offset + ELF_PH_SIZE > data.len() {
                return 0;
            }
            let kind = le_u32(data, offset);
            if kind == ELF_PT_LOAD {
                let fo64 = le_u64(data, offset + 8);
                let va64 = le_u64(data, offset + 16);
                let file_offset = fo64 as usize;
                let vaddr = va64 as usize;
                assert(file_offset == word(le64(d, ph_offset(d, index as int) + 8)));
                assert(vaddr == word(le64(d, ph_offset(d, index as int) + 16)));
                assert(ph_is_load(d, index as int));
                if vaddr < file_offset {
                    return 0;
                }
                assert(phdr_scan(d, index as int) == vaddr - file_offset + phoff);
                return vaddr - file_offset + phoff;
            }
            index = index + 1;
        }
        0
    }

    /// The first heap address of the external program: its highest loaded segment end,
    /// rounded up to a page, and never below the built-in heap base.
    pub fn external_app_heap_base(&self) -> (r: usize)
        requires
            load_scan_fits(self.app_spec(), 0),
            elf_phoff(self.app_spec()) != 0 && elf_phentsize(self.app_spec()) >= ELF_PH_SIZE
                ==> load_end_scan(self.app_spec(), 0, USER_HEAP_BASE as int) + USER_PAGE_SIZE - 1 <= usize::MAX,
        ensures
            r == elf_heap_base(self.app_spec()),
    {
        let data = self.app.as_slice();
        let phoff = self.external_app_phoff();
        let phentsize = self.external_app_phentsize();
        let phnum = self.external_app_phnum();
        let mut end = USER_HEAP_BASE;
        if phoff == 0 || phentsize < ELF_PH_SIZE {
            return end;
        }
        let ghost d = data@;
        let mut index: usize = 0;
        while index < phnum
            invariant
                d == data@,
                d == self.app_spec(),
                phoff == elf_phoff(d),
                phentsize == elf_phentsize(d),
                phnum == elf_phnum(d),
                phnum <= 0xffff,
                phentsize <= 0xffff,
                phoff != 0,
                phentsize >= ELF_PH_SIZE,
                index <= phnum,
                load_scan_fits(d, index as int),
                load_end_scan(d, 0, USER_HEAP_BASE as int) == load_end_scan(d, index as int, end as int),
            decreases phnum - index,
        {
            proof {
                assert(index * phentsize <= 0xffff * 0xffff) by (nonlinear_arith)
                    requires index <= 0xffff, phentsize <= 0xffff;
            }
            assert(phoff + index * phentsize == ph_offset(d, index as int));
            assert(ph_offset(d, index as int) + ELF_PH_SIZE <= usize::MAX);
            let offset = phoff + index * phentsize;
            if offset + ELF_PH_SIZE > data.len() {
                index = phnum;
                continue;
            }
            let kind = le_u32(data, offset);
            if kind == ELF_PT_LOAD {
                let va64 = le_u64(data, offset + 16);
                let ms64 = le_u64(data, offset + 40);
                let vaddr = va64 as usize;
                let memsz = ms64 as usize;
                assert(vaddr == word(le64(d, ph_offset(d, index as int) + 16)));
                assert(memsz == word(le64(d, ph_offset(d, index as int) + 40)));
                match vaddr.checked_add(memsz) {
                    Some(segment_end) => {
                        if segment_end > end {
                            end = segment_end;
                        }
                    },
                    None => {},
                }
            }
            index = index + 1;
        }
        round_up_page(end)
    }

    /// Where application `app_id` starts: the external program's entry for application 0
    /// when one is ready, the built-in base otherwise.
    pub fn app_entry(&self, app_id: usize) -> (r: usize)
        requires
            app_id < APP_NUM,
        ensures
            r == if app_id == 0 && self.ready_spec() { elf_entry(self.app_spec()) } else { USER_APP_BASE as int },
    {
        if app_id == 0 && self.has_external_app() {
            return self.external_app_entry();
        }
        USER_APP_BASE
    }

    /// The end marker line of the current test group, or nothing when no group is set.
    pub fn external_group_end_line(&self) -> (r: Vec<u8>)
        ensures
            self.group_spec().len() == 0 ==> r@.len() == 0,
            self.group_spec().len() > 0 ==> r@ == group_end_line(self.group_spec()),
    {
        let mut line: Vec<u8> = Vec::new();
        if self.group.len() == 0 {
            return line;
        }
        let prefix = crate::text::group_end_prefix();
        crate::bytes::extend_from(&mut line, prefix.as_slice());
        crate::bytes::extend_from(&mut line, self.group.as_slice());
        let suffix = crate::text::marker_tail();
        crate::bytes::extend_from(&mut line, suffix.as_slice());
        line
    }
}

/// The marker printed when a test group ends.
pub open spec fn group_end_line(group: Seq<u8>) -> Seq<u8> {
    crate::text::group_end_prefix_spec() + group + crate::text::marker_tail_spec()
}

/// `value` rounded up to a whole page.
pub fn round_up_page(value: usize) -> (r: usize)
    requires
        value + USER_PAGE_SIZE - 1 <= usize::MAX,
    ensures
        r == page_round_up(value as int),
{
    crate::frame_allocator::round_up(value, USER_PAGE_SIZE)
}

} // verus!
