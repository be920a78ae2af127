//! Sv39 page-table entries and a three-level page table whose table frames
//! come from the frame allocator.
use vstd::prelude::*;
use crate::address::{PhysPageNum, VirtPageNum, VirtAddr, PhysAddr, PAGE_SIZE, vpn_indexes, lemma_same_group,
    lemma_indexes_distinct};
use crate::frame_allocator::{StackFrameAllocator, FrameTracker};

verus! {

/// Bit position of the page number inside an entry.
pub const PTE_PPN_SHIFT: u64 = 10;
/// The low ten flag bits of an entry.
pub const PTE_FLAGS_MASK: u64 = 0x3ff;
/// The 44 page-number bits of an entry.
pub const PTE_PPN_MASK: u64 = 0xfff_ffff_ffff;
/// The Sv39 translation mode in `satp`.
pub const SATP_MODE_SV39: u64 = 8;
/// Entries in one table frame.
pub const PTE_COUNT: usize = 512;
/// Page numbers an entry can hold; table frames must lie below it.
pub const PPN_LIMIT: u64 = 0x1000_0000_0000;

/// The flag bits of a page-table entry.
#[derive(Clone, Copy, Debug, PartialEq, Eq, Structural)]
pub struct PTEFlags {
    bits: u64,
}

#[allow(non_snake_case)]
impl PTEFlags {
    pub closed spec fn bits_spec(self) -> u64 {
        self.bits
    }

    /// Valid.
    pub fn V() -> (r: Self) ensures r.bits_spec() == 1 { Self { bits: 1 } }
    /// Readable.
    pub fn R() -> (r: Self) ensures r.bits_spec() == 2 { Self { bits: 2 } }
    /// Writable.
    pub fn W() -> (r: Self) ensures r.bits_spec() == 4 { Self { bits: 4 } }
    /// Executable.
    pub fn X() -> (r: Self) ensures r.bits_spec() == 8 { Self { bits: 8 } }
    /// Accessible from user mode.
    pub fn U() -> (r: Self) ensures r.bits_spec() == 16 { Self { bits: 16 } }
    /// Global.
    pub fn G() -> (r: Self) ensures r.bits_spec() == 32 { Self { bits: 32 } }
    /// Accessed.
    pub fn A() -> (r: Self) ensures r.bits_spec() == 64 { Self { bits: 64 } }
    /// Dirty.
    pub fn D() -> (r: Self) ensures r.bits_spec() == 128 { Self { bits: 128 } }

    /// No flag set.
    pub fn empty() -> (r: Self)
        ensures
            r.bits_spec() == 0,
    {
        Self { bits: 0 }
    }

    /// The flags with exactly these bits.
    pub fn from_bits(bits: u64) -> (r: Self)
        ensures
            r.bits_spec() == bits,
    {
        Self { bits }
    }

    /// The bits of these flags.
    pub fn bits(self) -> (r: u64)
        ensures
            r == self.bits_spec(),
    {
        self.bits
    }

    /// Whether every bit of `other` is set here.
    pub fn contains(self, other: Self) -> (r: bool)
        ensures
            r == (self.bits_spec() & other.bits_spec() == other.bits_spec()),
    {
        (self.bits & other.bits) == other.bits
    }

    /// The flags set in either.
    pub fn union(self, other: Self) -> (r: Self)
        ensures
            r.bits_spec() == self.bits_spec() | other.bits_spec(),
    {
        Self { bits: self.bits | other.bits }
    }
}

/// One Sv39 page-table entry.
#[derive(Clone, Copy, Debug, PartialEq, Eq, Structural)]
pub struct PageTableEntry {
    bits: u64,
}

/// The bits of an entry that holds `ppn` with `flags`.
pub open spec fn pte_bits(ppn: u64, flags: u64) -> u64 {
    (ppn << 10u64) | flags
}

impl PageTableEntry {
    pub closed spec fn bits_spec(self) -> u64 {
        self.bits
    }

    pub open spec fn ppn_spec(self) -> u64 {
        (self.bits_spec() >> 10u64) & 0xfff_ffff_ffff
    }

    pub open spec fn flags_spec(self) -> u64 {
        self.bits_spec() & 0x3ff
    }

    pub open spec fn valid_spec(self) -> bool {
        self.flags_spec() & 1 == 1
    }

    pub open spec fn has_flag(self, flag: u64) -> bool {
        self.flags_spec() & flag == flag
    }

    /// The entry with all bits clear.
    pub fn empty() -> (r: Self)
        ensures
            r.bits_spec() == 0,
            !r.valid_spec(),
    {
        proof {
            assert((0u64 & 0x3ff) & 1 == 0) by (bit_vector);
        }
        Self { bits: 0 }
    }

    /// The entry that points at page `ppn` with `flags`.
    pub fn new(ppn: PhysPageNum, flags: PTEFlags) -> (r: Self)
        ensures
            r.bits_spec() == pte_bits(ppn.0 as u64, flags.bits_spec()),
    {
        Self { bits: ((ppn.0 as u64) << PTE_PPN_SHIFT) | flags.bits() }
    }

    /// The raw bits.
    pub fn bits(self) -> (r: u64)
        ensures
            r == self.bits_spec(),
    {
        self.bits
    }

    /// The page number this entry points at.
    pub fn ppn(self) -> (r: PhysPageNum)
        ensures
            r.0 == self.ppn_spec() as usize,
    {
        PhysPageNum(((self.bits >> PTE_PPN_SHIFT) & PTE_PPN_MASK) as usize)
    }

    /// The low ten flag bits.
    pub fn flags(self) -> (r: PTEFlags)
        ensures
            r.bits_spec() == self.flags_spec(),
    {
        PTEFlags::from_bits(self.bits & PTE_FLAGS_MASK)
    }

    /// Whether the valid bit is set.
    pub fn is_valid(self) -> (r: bool)
        ensures
            r == self.valid_spec(),
    {
        self.flags().contains(PTEFlags::V())
    }

    /// Whether the readable bit is set.
    pub fn readable(self) -> (r: bool)
        ensures
            r == self.has_flag(2),
    {
        self.flags().contains(PTEFlags::R())
    }

    /// Whether the writable bit is set.
    pub fn writable(self) -> (r: bool)
        ensures
            r == self.has_flag(4),
    {
        self.flags().contains(PTEFlags::W())
    }

    /// Whether the executable bit is set.
    pub fn executable(self) -> (r: bool)
        ensures
            r == self.has_flag(8),
    {
        self.flags().contains(PTEFlags::X())
    }

    /// Whether the user bit is set.
    pub fn user(self) -> (r: bool)
        ensures
            r == self.has_flag(16),
    {
        self.flags().contains(PTEFlags::U())
    }
}

/// An entry built from a page number below 2^44 and flags below 2^10 gives both back.
pub proof fn lemma_pte_roundtrip(ppn: u64, flags: u64)
    requires
        ppn < 0x1000_0000_0000,
        flags < 1024,
    ensures
        ((pte_bits(ppn, flags) >> 10u64) & 0xfff_ffff_ffff) == ppn,
        pte_bits(ppn, flags) & 0x3ff == flags,
{
    assert((((ppn << 10u64) | flags) >> 10u64) & 0xfff_ffff_ffff == ppn) by (bit_vector)
        requires ppn < 0x1000_0000_0000, flags < 1024;
    assert(((ppn << 10u64) | flags) & 0x3ff == flags) by (bit_vector)
        requires ppn < 0x1000_0000_0000, flags < 1024;
}


/// A page-table entry that is valid iff bit 0 of its flags is set, with `flags | V` set.
pub proof fn lemma_pte_valid_with_v(ppn: u64, flags: u64)
    ensures
        (pte_bits(ppn, flags | 1) & 0x3ff) & 1 == 1,
{
    assert(((((ppn << 10u64) | (flags | 1)) & 0x3ff) & 1) == 1) by (bit_vector);
}

/// The all-zero entry is not valid.
pub proof fn lemma_zero_entry_invalid(e: PageTableEntry)
    requires
        e.bits_spec() == 0,
    ensures
        !e.valid_spec(),
{
    assert((0u64 & 0x3ff) & 1 == 0) by (bit_vector);
}

/// A three-level Sv39 page table. Its table frames are held here, frame `k` with page
/// number `frames[k]` owning entries `[512 k, 512 k + 512)`; frame 0 is the root.
pub struct PageTable {
    root_ppn: PhysPageNum,
    frames: Vec<usize>,
    entries: Vec<PageTableEntry>,
    levels: Ghost<Seq<int>>,
}

impl PageTable {
    pub closed spec fn root_ppn_spec(&self) -> usize {
        self.root_ppn.0
    }

    /// The page numbers of the table frames.
    pub closed spec fn frames_spec(&self) -> Seq<usize> {
        self.frames@
    }

    /// Entry `i` of table frame `k`.
    pub closed spec fn ent(&self, k: int, i: int) -> PageTableEntry {
        self.entries@[k * 512 + i]
    }

    /// The level of table frame `k`: 0 for the root, 2 for leaf tables.
    pub closed spec fn level(&self, k: int) -> int {
        self.levels@[k]
    }

    /// The table frame whose page number is `ppn`.
    pub closed spec fn node_of(&self, ppn: u64) -> int {
        choose|m: int| 0 <= m < self.frames@.len() && self.frames@[m] as u64 == ppn
    }

    /// Entry `(k, i)` points at a table frame one level down.
    pub closed spec fn child_ok(&self, k: int, i: int) -> bool {
        exists|m: int|
            #![trigger self.frames@[m]]
            0 <= m < self.frames@.len() && self.frames@[m] as u64 == self.ent(k, i).ppn_spec()
                && self.levels@[m] == self.levels@[k] + 1
    }

    /// Entry `(k, i)` is a valid entry of a non-leaf table.
    pub closed spec fn is_pointer(&self, k: int, i: int) -> bool {
        &&& 0 <= k < self.frames@.len()
        &&& 0 <= i < 512
        &&& self.levels@[k] < 2
        &&& self.ent(k, i).valid_spec()
    }

    /// The invariant of the table.
    pub closed spec fn wf(&self) -> bool {
        let n = self.frames@.len();
        &&& n >= 1
        &&& self.entries@.len() == n * 512
        &&& self.levels@.len() == n
        &&& self.frames@[0] == self.root_ppn.0
        &&& self.levels@[0] == 0
        &&& forall|k: int| 0 <= k < n ==> 0 <= #[trigger] self.levels@[k] <= 2
        &&& forall|k: int| 0 <= k < n ==> (#[trigger] self.frames@[k] as int) < 0x1000_0000_0000
        &&& forall|a: int, b: int|
            0 <= a < n && 0 <= b < n && #[trigger] self.frames@[a] == #[trigger] self.frames@[b] ==> a == b
        &&& forall|k: int, i: int| #[trigger] self.is_pointer(k, i) ==> self.child_ok(k, i)
        &&& forall|k1: int, i1: int, k2: int, i2: int|
            #[trigger] self.is_pointer(k1, i1) && #[trigger] self.is_pointer(k2, i2)
                && self.ent(k1, i1).ppn_spec() == self.ent(k2, i2).ppn_spec() ==> k1 == k2 && i1 == i2
    }

    /// Every table frame lies below page number `bound`.
    pub closed spec fn frames_below(&self, bound: usize) -> bool {
        forall|k: int| 0 <= k < self.frames@.len() ==> #[trigger] self.frames@[k] < bound
    }

    /// The walk of a page depends on its table indexes alone.
    pub proof fn lemma_walk_by_indexes(&self, a: int, b: int)
        requires
            vpn_indexes(a) == vpn_indexes(b),
        ensures
            self.walk(a) == self.walk(b),
    {
    }

    /// A bound on the table frames stays a bound when it grows.
    pub proof fn lemma_frames_below_mono(&self, a: usize, b: usize)
        requires
            self.frames_below(a),
            a <= b,
        ensures
            self.frames_below(b),
    {
    }

    /// What the hardware finds for virtual page `vpn`: the valid leaf entry, if any.
    pub closed spec fn walk(&self, vpn: int) -> Option<PageTableEntry> {
        let ix = vpn_indexes(vpn);
        let e0 = self.ent(0, ix[0]);
        if !e0.valid_spec() {
            None
        } else {
            let e1 = self.ent(self.node_of(e0.ppn_spec()), ix[1]);
            if !e1.valid_spec() {
                None
            } else {
                let e2 = self.ent(self.node_of(e1.ppn_spec()), ix[2]);
                if e2.valid_spec() {
                    Some(e2)
                } else {
                    None
                }
            }
        }
    }

    /// How many table frames mapping `vpn` has to allocate.
    pub closed spec fn frames_needed(&self, vpn: int) -> int {
        let ix = vpn_indexes(vpn);
        let e0 = self.ent(0, ix[0]);
        if !e0.valid_spec() {
            2
        } else if !self.ent(self.node_of(e0.ppn_spec()), ix[1]).valid_spec() {
            1
        } else {
            0
        }
    }

    /// The only table frame with page number `ppn` is `m`.
    proof fn lemma_node_of(&self, m: int, ppn: u64)
        requires
            self.wf(),
            0 <= m < self.frames@.len(),
            self.frames@[m] as u64 == ppn,
        ensures
            self.node_of(ppn) == m,
    {
        let c = self.node_of(ppn);
        assert(0 <= c < self.frames@.len() && self.frames@[c] as u64 == ppn);
        assert(self.frames@[c] == self.frames@[m]);
    }

    /// A walk only passes through pointers to existing frames of the next level.
    proof fn lemma_walk_path(&self, vpn: int)
        requires
            self.wf(),
        ensures
            ({
                let ix = vpn_indexes(vpn);
                let e0 = self.ent(0, ix[0]);
                let n1 = self.node_of(e0.ppn_spec());
                let e1 = self.ent(n1, ix[1]);
                let n2 = self.node_of(e1.ppn_spec());
                &&& 0 <= ix[0] < 512 && 0 <= ix[1] < 512 && 0 <= ix[2] < 512
                &&& e0.valid_spec() ==> self.is_pointer(0, ix[0]) && 0 <= n1 < self.frames@.len()
                    && self.levels@[n1] == 1 && self.frames@[n1] as u64 == e0.ppn_spec()
                &&& e0.valid_spec() && e1.valid_spec() ==> self.is_pointer(n1, ix[1])
                    && 0 <= n2 < self.frames@.len() && self.levels@[n2] == 2
                    && self.frames@[n2] as u64 == e1.ppn_spec()
            }),
    {
        let ix = vpn_indexes(vpn);
        let e0 = self.ent(0, ix[0]);
        if e0.valid_spec() {
            assert(self.is_pointer(0, ix[0]));
            assert(self.child_ok(0, ix[0]));
            let m1 = choose|m: int|
                #![trigger self.frames@[m]]
                0 <= m < self.frames@.len() && self.frames@[m] as u64 == self.ent(0, ix[0]).ppn_spec()
                    && self.levels@[m] == self.levels@[0] + 1;
            self.lemma_node_of(m1, e0.ppn_spec());
            let n1 = m1;
            let e1 = self.ent(n1, ix[1]);
            if e1.valid_spec() {
                assert(self.is_pointer(n1, ix[1]));
                assert(self.child_ok(n1, ix[1]));
                let m2 = choose|m: int|
                    #![trigger self.frames@[m]]
                    0 <= m < self.frames@.len() && self.frames@[m] as u64 == self.ent(n1, ix[1]).ppn_spec()
                        && self.levels@[m] == self.levels@[n1] + 1;
                self.lemma_node_of(m2, e1.ppn_spec());
            }
        }
    }

    /// The page number of the root table.
    pub fn root_ppn(&self) -> (r: PhysPageNum)
        ensures
            r.0 == self.root_ppn_spec(),
    {
        self.root_ppn
    }

    /// The `satp` value that selects this table in Sv39 mode.
    pub fn satp_token(&self) -> (r: u64)
        ensures
            r == (8u64 << 60u64) | (self.root_ppn_spec() as u64),
    {
        (SATP_MODE_SV39 << 60u64) | (self.root_ppn.0 as u64)
    }

    /// A table with an empty root frame taken from `frames`.
    pub fn new(frames: &mut StackFrameAllocator) -> (r: Self)
        requires
            old(frames).current_spec() < old(frames).end_spec(),
            old(frames).end_spec() <= 0x1000_0000_0000,
        ensures
            r.wf(),
            r.root_ppn_spec() == old(frames).current_spec(),
            final(frames).current_spec() == old(frames).current_spec() + 1,
            final(frames).end_spec() == old(frames).end_spec(),
            r.frames_below(final(frames).current_spec()),
            forall|vpn: int| r.walk(vpn) is None,
    {
        let frame = frames.allocate();
        let root = match frame {
            Some(f) => f.ppn(),
            None => 0,
        };
        let mut frames_vec: Vec<usize> = Vec::new();
        frames_vec.push(root);
        let mut entries: Vec<PageTableEntry> = Vec::new();
        let mut i: usize = 0;
        while i < PTE_COUNT
            invariant
                i <= PTE_COUNT,
                entries@.len() == i,
                forall|j: int| 0 <= j < i ==> (#[trigger] entries@[j]).bits_spec() == 0,
            decreases PTE_COUNT - i,
        {
            entries.push(PageTableEntry::empty());
            i = i + 1;
        }
        let ghost lv: Seq<int> = seq![0int];
        let r = PageTable {
            root_ppn: PhysPageNum(root),
            frames: frames_vec,
            entries,
            levels: Ghost(lv),
        };
        proof {
            assert forall|k: int, i: int| #[trigger] r.is_pointer(k, i) implies r.child_ok(k, i) by {
                lemma_zero_entry_invalid(r.ent(k, i));
            }
            assert forall|vpn: int| r.walk(vpn) is None by {
                let ix = vpn_indexes(vpn);
                lemma_zero_entry_invalid(r.ent(0, ix[0]));
            }
        }
        r
    }

    /// The index of the table frame with page number `ppn`.
    fn find_node(&self, ppn: usize) -> (r: usize)
        requires
            self.wf(),
            exists|m: int| 0 <= m < self.frames@.len() && self.frames@[m] as u64 == ppn as u64,
        ensures
            r < self.frames@.len(),
            self.frames@[r as int] == ppn,
            self.node_of(ppn as u64) == r,
    {
        let mut k: usize = 0;
        while k < self.frames.len()
            invariant
                self.wf(),
                k <= self.frames@.len(),
                exists|m: int| k <= m < self.frames@.len() && self.frames@[m] as u64 == ppn as u64,
            decreases self.frames@.len() - k,
        {
            if self.frames[k] == ppn {
                proof {
                    self.lemma_node_of(k as int, ppn as u64);
                }
                return k;
            }
            k = k + 1;
        }
        proof {
            assert(false);
        }
        0
    }

    /// The valid leaf entry for `vpn`, if the walk finds one.
    pub fn translate(&self, vpn: VirtPageNum) -> (r: Option<PageTableEntry>)
        requires
            self.wf(),
        ensures
            r == self.walk(vpn.0 as int),
    {
        let ix = vpn.indexes();
        proof {
            self.lemma_walk_path(vpn.0 as int);
            assert(ix[0] as int == vpn_indexes(vpn.0 as int)[0]);
            assert(ix[1] as int == vpn_indexes(vpn.0 as int)[1]);
            assert(ix[2] as int == vpn_indexes(vpn.0 as int)[2]);
        }
        let total = self.entries.len();
        let e0 = self.entries[ix[0]];
        assert(e0 == self.ent(0, ix[0] as int));
        if !e0.is_valid() {
            return None;
        }
        let n1 = self.find_node(e0.ppn().0);
        proof {
            assert(e0.ppn_spec() as usize as u64 == e0.ppn_spec());
        }
        proof {
            assert(n1 * 512 + ix[1] < total) by (nonlinear_arith)
                requires total == self.entries@.len(), n1 < self.frames@.len(), ix[1] < 512,
                    self.entries@.len() == self.frames@.len() * 512;
        }
        let p1 = n1 * PTE_COUNT + ix[1];
        let e1 = self.entries[p1];
        assert(e1 == self.ent(n1 as int, ix[1] as int));
        if !e1.is_valid() {
            return None;
        }
        let n2 = self.find_node(e1.ppn().0);
        proof {
            assert(n2 * 512 + ix[2] < total) by (nonlinear_arith)
                requires total == self.entries@.len(), n2 < self.frames@.len(), ix[2] < 512,
                    self.entries@.len() == self.frames@.len() * 512;
        }
        let p2 = n2 * PTE_COUNT + ix[2];
        let e2 = self.entries[p2];
        assert(e2 == self.ent(n2 as int, ix[2] as int));
        if e2.is_valid() {
            Some(e2)
        } else {
            None
        }
    }

    /// How many table frames `map` would take for `vpn`.
    pub fn needed_frames(&self, vpn: VirtPageNum) -> (r: usize)
        requires
            self.wf(),
        ensures
            r == self.frames_needed(vpn.0 as int),
    {
        let ix = vpn.indexes();
        proof {
            self.lemma_walk_path(vpn.0 as int);
            assert(ix[0] as int == vpn_indexes(vpn.0 as int)[0]);
            assert(ix[1] as int == vpn_indexes(vpn.0 as int)[1]);
        }
        let total = self.entries.len();
        let e0 = self.entries[ix[0]];
        assert(e0 == self.ent(0, ix[0] as int));
        if !e0.is_valid() {
            return 2;
        }
        let n1 = self.find_node(e0.ppn().0);
        proof {
            assert(e0.ppn_spec() as usize as u64 == e0.ppn_spec());
            assert(n1 * 512 + ix[1] < total) by (nonlinear_arith)
                requires total == self.entries@.len(), n1 < self.frames@.len(), ix[1] < 512,
                    self.entries@.len() == self.frames@.len() * 512;
        }
        let e1 = self.entries[n1 * PTE_COUNT + ix[1]];
        assert(e1 == self.ent(n1 as int, ix[1] as int));
        if !e1.is_valid() {
            1
        } else {
            0
        }
    }

    /// The position of entry `(k, i)` determines `k` and `i`.
    proof fn lemma_slot(a: int, b: int, k: int, i: int)
        requires
            0 <= b < 512,
            0 <= i < 512,
        ensures
            (a * 512 + b == k * 512 + i) <==> (a == k && b == i),
    {
        assert((a * 512 + b == k * 512 + i) ==> (a == k && b == i)) by (nonlinear_arith)
            requires 0 <= b < 512, 0 <= i < 512;
    }

    /// Adding a fresh, empty frame below an invalid entry keeps the invariant and every walk.
    proof fn lemma_grow(old: &Self, new: &Self, k: int, i: int, f: usize)
        requires
            old.wf(),
            0 <= k < old.frames@.len(),
            0 <= i < 512,
            old.levels@[k] < 2,
            !old.ent(k, i).valid_spec(),
            new.frames@ == old.frames@.push(f),
            new.levels@ == old.levels@.push(old.levels@[k] + 1),
            new.root_ppn == old.root_ppn,
            new.entries@.len() == (old.frames@.len() + 1) * 512,
            forall|a: int, b: int|
                0 <= a < old.frames@.len() && 0 <= b < 512 && !(a == k && b == i)
                    ==> #[trigger] new.ent(a, b) == old.ent(a, b),
            new.ent(k, i).valid_spec(),
            new.ent(k, i).ppn_spec() == f as u64,
            forall|b: int| 0 <= b < 512 ==> !(#[trigger] new.ent(old.frames@.len() as int, b)).valid_spec(),
            forall|a: int| 0 <= a < old.frames@.len() ==> #[trigger] old.frames@[a] != f,
            (f as int) < 0x1000_0000_0000,
        ensures
            new.wf(),
            forall|vpn: int| #[trigger] new.walk(vpn) == old.walk(vpn),
    {
        let n = old.frames@.len() as int;
        assert forall|m: int| 0 <= m < n implies #[trigger] new.frames@[m] == old.frames@[m]
            && new.levels@[m] == old.levels@[m] by {}
        assert(new.frames@[n] == f);
        assert forall|a: int, b: int| 0 <= a < n + 1 && 0 <= b < n + 1
            && #[trigger] new.frames@[a] == #[trigger] new.frames@[b] implies a == b by {
            if a < n && b < n {
                assert(old.frames@[a] == old.frames@[b]);
            } else if a < n {
                assert(old.frames@[a] != f);
            } else if b < n {
                assert(old.frames@[b] != f);
            }
        }
        // pointers of the new table are the old ones plus (k, i)
        assert forall|a: int, b: int| #[trigger] new.is_pointer(a, b)
            implies (a == k && b == i) || (old.is_pointer(a, b) && new.ent(a, b) == old.ent(a, b)) by {
            if a == n {
                assert(!new.ent(n, b).valid_spec());
            }
        }
        assert forall|a: int, b: int| #[trigger] new.is_pointer(a, b) implies new.child_ok(a, b) by {
            if a == k && b == i {
                assert(new.frames@[n] as u64 == new.ent(k, i).ppn_spec());
            } else {
                assert(old.child_ok(a, b));
                let m = choose|m: int|
                    #![trigger old.frames@[m]]
                    0 <= m < old.frames@.len() && old.frames@[m] as u64 == old.ent(a, b).ppn_spec()
                        && old.levels@[m] == old.levels@[a] + 1;
                assert(new.frames@[m] as u64 == new.ent(a, b).ppn_spec());
            }
        }
        assert forall|k1: int, i1: int, k2: int, i2: int|
            #[trigger] new.is_pointer(k1, i1) && #[trigger] new.is_pointer(k2, i2)
                && new.ent(k1, i1).ppn_spec() == new.ent(k2, i2).ppn_spec() implies k1 == k2 && i1 == i2 by {
            let p1 = (k1 == k && i1 == i);
            let p2 = (k2 == k && i2 == i);
            if p1 && !p2 {
                assert(old.child_ok(k2, i2));
                let m = choose|m: int|
                    #![trigger old.frames@[m]]
                    0 <= m < old.frames@.len() && old.frames@[m] as u64 == old.ent(k2, i2).ppn_spec()
                        && old.levels@[m] == old.levels@[k2] + 1;
                assert(old.frames@[m] != f);
            } else if p2 && !p1 {
                assert(old.child_ok(k1, i1));
                let m = choose|m: int|
                    #![trigger old.frames@[m]]
                    0 <= m < old.frames@.len() && old.frames@[m] as u64 == old.ent(k1, i1).ppn_spec()
                        && old.levels@[m] == old.levels@[k1] + 1;
                assert(old.frames@[m] != f);
            } else if !p1 && !p2 {
                assert(old.is_pointer(k1, i1) && old.is_pointer(k2, i2));
            }
        }
        assert(new.wf());
        assert forall|vpn: int| #[trigger] new.walk(vpn) == old.walk(vpn) by {
            old.lemma_walk_path(vpn);
            new.lemma_walk_path(vpn);
            let ix = vpn_indexes(vpn);
            let e0 = old.ent(0, ix[0]);
            if k == 0 && i == ix[0] {
                new.lemma_node_of(n, f as u64);
            } else {
                assert(new.ent(0, ix[0]) == e0);
                if e0.valid_spec() {
                    let n1 = old.node_of(e0.ppn_spec());
                    new.lemma_node_of(n1, e0.ppn_spec());
                    let e1 = old.ent(n1, ix[1]);
                    if n1 == k && ix[1] == i {
                        new.lemma_node_of(n, f as u64);
                    } else {
                        assert(new.ent(n1, ix[1]) == e1);
                        if e1.valid_spec() {
                            let n2 = old.node_of(e1.ppn_spec());
                            new.lemma_node_of(n2, e1.ppn_spec());
                            assert(new.ent(n2, ix[2]) == old.ent(n2, ix[2]));
                        }
                    }
                }
            }
        }
    }

    /// Makes entry `i` of table frame `k` point at a table frame one level down, taking a
    /// fresh zeroed frame when the entry is not valid; returns that frame's index.
    fn ensure_child(&mut self, k: usize, i: usize, frames: &mut StackFrameAllocator) -> (child: usize)
        requires
            old(self).wf(),
            k < old(self).frames@.len(),
            i < 512,
            old(self).levels@[k as int] < 2,
            old(self).frames_below(old(frames).current_spec()),
            old(frames).end_spec() <= 0x1000_0000_0000,
            old(frames).current_spec() <= old(frames).end_spec(),
            !old(self).ent(k as int, i as int).valid_spec() ==> old(frames).current_spec() < old(frames).end_spec(),
        ensures
            final(self).wf(),
            final(self).frames_below(final(frames).current_spec()),
            final(frames).end_spec() == old(frames).end_spec(),
            final(frames).current_spec() <= final(frames).end_spec(),
            final(self).root_ppn_spec() == old(self).root_ppn_spec(),
            child < final(self).frames@.len(),
            final(self).levels@[child as int] == old(self).levels@[k as int] + 1,
            final(self).ent(k as int, i as int).valid_spec(),
            final(self).node_of(final(self).ent(k as int, i as int).ppn_spec()) == child,
            final(self).frames@[child as int] as u64 == final(self).ent(k as int, i as int).ppn_spec(),
            old(self).ent(k as int, i as int).valid_spec() ==> *final(self) == *old(self)
                && *final(frames) == *old(frames),
            !old(self).ent(k as int, i as int).valid_spec() ==> final(frames).current_spec()
                == old(frames).current_spec() + 1 && child == old(self).frames@.len()
                && forall|b: int| 0 <= b < 512 ==> !(#[trigger] final(self).ent(child as int, b)).valid_spec(),
            forall|a: int| 0 <= a < old(self).frames@.len() ==> #[trigger] final(self).frames@[a]
                == old(self).frames@[a] && final(self).levels@[a] == old(self).levels@[a],
            forall|a: int, b: int|
                0 <= a < old(self).frames@.len() && 0 <= b < 512 && !(a == k && b == i)
                    ==> #[trigger] final(self).ent(a, b) == old(self).ent(a, b),
            forall|vpn: int| #[trigger] final(self).walk(vpn) == old(self).walk(vpn),
    {
        let total = self.entries.len();
        proof {
            assert(k * 512 + i < total) by (nonlinear_arith)
                requires k < self.frames@.len(), i < 512, total == self.frames@.len() * 512;
        }
        let pos = k * PTE_COUNT + i;
        let e = self.entries[pos];
        if e.is_valid() {
            proof {
                assert forall|m: int| 0 <= m < self.frames@.len() && self.frames@[m] as u64 == e.ppn_spec()
                    && self.levels@[m] == self.levels@[k as int] + 1 implies self.node_of(e.ppn_spec()) == m by {
                    self.lemma_node_of(m, e.ppn_spec());
                }
                assert(self.is_pointer(k as int, i as int));
                assert(self.child_ok(k as int, i as int));
            }
            let c = self.find_node(e.ppn().0);
            proof {
                assert(e.ppn_spec() as usize as u64 == e.ppn_spec());
                let m = choose|m: int|
                    #![trigger self.frames@[m]]
                    0 <= m < self.frames@.len() && self.frames@[m] as u64 == self.ent(k as int, i as int).ppn_spec()
                        && self.levels@[m] == self.levels@[k as int] + 1;
                self.lemma_node_of(m, e.ppn_spec());
            }
            return c;
        }
        let ghost old_self = *self;
        let n = self.frames.len();
        let frame = frames.allocate();
        let fp = match frame {
            Some(t) => t.ppn(),
            None => 0,
        };
        proof {
            lemma_pte_roundtrip(fp as u64, 1);
        }
        self.entries.set(pos, PageTableEntry::new(PhysPageNum(fp), PTEFlags::V()));
        self.frames.push(fp);
        let mut j: usize = 0;
        while j < PTE_COUNT
            invariant
                j <= PTE_COUNT,
                self.entries@.len() == n * 512 + j,
                n == old_self.frames@.len(),
                self.entries@.subrange(0, n * 512) == old_self.entries@.update(pos as int, PageTableEntry { bits: pte_bits(fp as u64, 1) }),
                forall|b: int| 0 <= b < j ==> (#[trigger] self.entries@[n * 512 + b]).bits_spec() == 0,
                self.frames@ == old_self.frames@.push(fp),
                self.levels == old_self.levels,
                self.root_ppn == old_self.root_ppn,
            decreases PTE_COUNT - j,
        {
            proof {
                assert(n * 512 + j + 1 <= n * 512 + 512);
            }
            self.entries.push(PageTableEntry::empty());
            proof {
                assert(self.entries@.subrange(0, n * 512) =~= old_self.entries@.update(pos as int, PageTableEntry { bits: pte_bits(fp as u64, 1) }));
            }
            j = j + 1;
        }
        let ghost lv = self.levels@.push(old_self.levels@[k as int] + 1);
        self.levels = Ghost(lv);
        proof {
            let new = *self;
            assert forall|a: int, b: int|
                0 <= a < n && 0 <= b < 512 && !(a == k && b == i) implies #[trigger] new.ent(a, b) == old_self.ent(a, b) by {
                Self::lemma_slot(a, b, k as int, i as int);
                assert(a * 512 + b < n * 512) by (nonlinear_arith)
                    requires 0 <= a < n, 0 <= b < 512;
                assert(new.entries@[a * 512 + b] == new.entries@.subrange(0, n * 512)[a * 512 + b]);
            }
            assert(new.ent(k as int, i as int) == PageTableEntry { bits: pte_bits(fp as u64, 1) }) by {
                assert(new.entries@[pos as int] == new.entries@.subrange(0, n * 512)[pos as int]);
            }
            assert forall|b: int| 0 <= b < 512 implies !(#[trigger] new.ent(n as int, b)).valid_spec() by {
                lemma_zero_entry_invalid(new.ent(n as int, b));
            }
            assert forall|a: int| 0 <= a < n implies #[trigger] old_self.frames@[a] != fp by {
                assert(old_self.frames@[a] < old(frames).current_spec());
            }
            assert((pte_bits(fp as u64, 1) & 0x3ff) & 1 == 1) by {
                assert(1u64 & 1 == 1) by (bit_vector);
            }
            Self::lemma_grow(&old_self, &new, k as int, i as int, fp);
            new.lemma_node_of(n as int, fp as u64);
            assert forall|m: int| 0 <= m < new.frames@.len() implies #[trigger] new.frames@[m] < final(frames).current_spec() by {
                if m < n {
                    assert(old_self.frames@[m] < old(frames).current_spec());
                }
            }
        }
        n
    }

    /// Writing a valid leaf for `vpn` changes the walk of exactly the pages that share
    /// `vpn`'s three table indexes.
    proof fn lemma_set_leaf(old: &Self, new: &Self, vpn: int, q: PageTableEntry)
        requires
            old.wf(),
            ({
                let ix = vpn_indexes(vpn);
                let e0 = old.ent(0, ix[0]);
                let e1 = old.ent(old.node_of(e0.ppn_spec()), ix[1]);
                let n2 = old.node_of(e1.ppn_spec());
                &&& e0.valid_spec()
                &&& e1.valid_spec()
                &&& new.entries@ == old.entries@.update(n2 * 512 + ix[2], q)
            }),
            new.frames@ == old.frames@,
            new.levels@ == old.levels@,
            new.root_ppn == old.root_ppn,
            q.valid_spec(),
        ensures
            new.wf(),
            forall|v: int| #[trigger] new.walk(v) == if vpn_indexes(v) == vpn_indexes(vpn) {
                Some(q)
            } else {
                old.walk(v)
            },
    {
        old.lemma_walk_path(vpn);
        let ix = vpn_indexes(vpn);
        let e0 = old.ent(0, ix[0]);
        let n1 = old.node_of(e0.ppn_spec());
        let e1 = old.ent(n1, ix[1]);
        let n2 = old.node_of(e1.ppn_spec());
        let n = old.frames@.len() as int;
        assert(n2 * 512 + ix[2] < n * 512) by (nonlinear_arith)
            requires 0 <= n2 < n, 0 <= ix[2] < 512;
        assert forall|a: int, b: int| 0 <= a < n && 0 <= b < 512 && !(a == n2 && b == ix[2])
            implies #[trigger] new.ent(a, b) == old.ent(a, b) by {
            Self::lemma_slot(a, b, n2, ix[2]);
        }
        assert(new.ent(n2, ix[2]) == q);
        assert forall|a: int, b: int| #[trigger] new.is_pointer(a, b) implies old.is_pointer(a, b)
            && new.ent(a, b) == old.ent(a, b) by {
            assert(a != n2);
        }
        assert forall|a: int, b: int| #[trigger] new.is_pointer(a, b) implies new.child_ok(a, b) by {
            assert(old.child_ok(a, b));
            let m = choose|m: int|
                #![trigger old.frames@[m]]
                0 <= m < old.frames@.len() && old.frames@[m] as u64 == old.ent(a, b).ppn_spec()
                    && old.levels@[m] == old.levels@[a] + 1;
            assert(new.frames@[m] as u64 == new.ent(a, b).ppn_spec());
        }
        assert forall|k1: int, i1: int, k2: int, i2: int|
            #[trigger] new.is_pointer(k1, i1) && #[trigger] new.is_pointer(k2, i2)
                && new.ent(k1, i1).ppn_spec() == new.ent(k2, i2).ppn_spec() implies k1 == k2 && i1 == i2 by {
            assert(old.is_pointer(k1, i1) && old.is_pointer(k2, i2));
        }
        assert(new.wf());
        assert forall|v: int| #[trigger] new.walk(v) == if vpn_indexes(v) == vpn_indexes(vpn) {
            Some(q)
        } else {
            old.walk(v)
        } by {
            old.lemma_walk_path(v);
            let jx = vpn_indexes(v);
            let f0 = old.ent(0, jx[0]);
            assert(new.ent(0, jx[0]) == f0);
            if f0.valid_spec() {
                let m1 = old.node_of(f0.ppn_spec());
                new.lemma_node_of(m1, f0.ppn_spec());
                let f1 = old.ent(m1, jx[1]);
                assert(new.ent(m1, jx[1]) == f1);
                if f1.valid_spec() {
                    let m2 = old.node_of(f1.ppn_spec());
                    new.lemma_node_of(m2, f1.ppn_spec());
                    if m2 == n2 && jx[2] == ix[2] {
                        assert(old.is_pointer(m1, jx[1]) && old.is_pointer(n1, ix[1]));
                        assert(f1.ppn_spec() == e1.ppn_spec());
                        assert(m1 == n1 && jx[1] == ix[1]);
                        assert(old.is_pointer(0, jx[0]) && old.is_pointer(0, ix[0]));
                        assert(jx[0] == ix[0]);
                        assert(jx =~= ix);
                    } else {
                        assert(new.ent(m2, jx[2]) == old.ent(m2, jx[2]));
                        if jx == ix {
                            assert(m1 == n1);
                            assert(m2 == n2);
                        }
                    }
                } else {
                    if jx == ix {
                        assert(m1 == n1);
                    }
                }
            }
        }
    }

    /// Maps virtual page `vpn` to physical page `ppn` with `flags` and the valid bit,
    /// taking the missing table frames from `frames`. The page must not be mapped yet.
    pub fn map(&mut self, vpn: VirtPageNum, ppn: PhysPageNum, flags: PTEFlags, frames: &mut StackFrameAllocator)
        requires
            old(self).wf(),
            old(self).frames_below(old(frames).current_spec()),
            old(frames).end_spec() <= 0x1000_0000_0000,
            old(frames).current_spec() <= old(frames).end_spec(),
            old(self).walk(vpn.0 as int) is None,
            old(frames).available_spec() >= old(self).frames_needed(vpn.0 as int),
        ensures
            final(self).wf(),
            final(self).frames_below(final(frames).current_spec()),
            final(frames).end_spec() == old(frames).end_spec(),
            final(frames).current_spec() == old(frames).current_spec() + old(self).frames_needed(vpn.0 as int),
            final(self).root_ppn_spec() == old(self).root_ppn_spec(),
            forall|v: int| vpn_indexes(v) == vpn_indexes(vpn.0 as int) ==> (#[trigger] final(self).walk(v)) is Some
                && final(self).walk(v)->0.bits_spec() == pte_bits(ppn.0 as u64, flags.bits_spec() | 1),
            forall|v: int| vpn_indexes(v) != vpn_indexes(vpn.0 as int) ==> #[trigger] final(self).walk(v)
                == old(self).walk(v),
    {
        let ghost start = *self;
        let ix = vpn.indexes();
        proof {
            start.lemma_walk_path(vpn.0 as int);
            assert(ix[0] as int == vpn_indexes(vpn.0 as int)[0]);
            assert(ix[1] as int == vpn_indexes(vpn.0 as int)[1]);
            assert(ix[2] as int == vpn_indexes(vpn.0 as int)[2]);
        }
        let n1 = self.ensure_child(0, ix[0], frames);
        let ghost mid = *self;
        proof {
            mid.lemma_walk_path(vpn.0 as int);
            assert(mid.node_of(mid.ent(0, ix[0] as int).ppn_spec()) == n1);
            if start.ent(0, ix[0] as int).valid_spec() {
                start.lemma_node_of(n1 as int, start.ent(0, ix[0] as int).ppn_spec());
            }
        }
        let n2 = self.ensure_child(n1, ix[1], frames);
        let ghost pre = *self;
        proof {
            pre.lemma_walk_path(vpn.0 as int);
            assert(pre.ent(0, ix[0] as int) == mid.ent(0, ix[0] as int));
            assert(pre.node_of(pre.ent(0, ix[0] as int).ppn_spec()) == n1) by {
                pre.lemma_node_of(n1 as int, pre.ent(0, ix[0] as int).ppn_spec());
            }
            assert(pre.walk(vpn.0 as int) is None);
        }
        let total = self.entries.len();
        proof {
            assert(n2 * 512 + ix[2] < total) by (nonlinear_arith)
                requires n2 < self.frames@.len(), ix[2] < 512, total == self.frames@.len() * 512;
        }
        let pos = n2 * PTE_COUNT + ix[2];
        let leaf = PageTableEntry::new(ppn, flags.union(PTEFlags::V()));
        self.entries.set(pos, leaf);
        proof {
            lemma_pte_valid_with_v(ppn.0 as u64, flags.bits_spec());
            Self::lemma_set_leaf(&pre, self, vpn.0 as int, leaf);
        }
    }

    /// Table frames that mapping the pages `[s, e)` may take: two for each 512-page group.
    pub open spec fn range_frame_budget(s: int, e: int) -> int {
        if s >= e {
            0
        } else {
            2 * ((e - 1) / 512 - s / 512 + 1)
        }
    }

    /// Mapping a page takes at most two table frames.
    pub proof fn lemma_frames_needed_bound(&self, v: int)
        ensures
            0 <= self.frames_needed(v) <= 2,
    {
    }

    /// A page in the same 512-page group as a mapped page needs no new table frame.
    pub proof fn lemma_mapped_needs_nothing(&self, v: int, w: int)
        requires
            self.wf(),
            self.walk(v) is Some,
            v >= 0,
            w >= 0,
            v / 512 == w / 512,
        ensures
            self.frames_needed(w) == 0,
    {
        lemma_same_group(v, w);
    }

    /// Maps the pages of `[start_va, end_va)` one to one onto the pages from `start_pa`,
    /// with `flags` and the valid bit. None of them may be mapped yet.
    pub fn map_range(
        &mut self,
        start_va: VirtAddr,
        end_va: VirtAddr,
        start_pa: PhysAddr,
        flags: PTEFlags,
        frames: &mut StackFrameAllocator,
    )
        requires
            old(self).wf(),
            old(self).frames_below(old(frames).current_spec()),
            old(frames).end_spec() <= 0x1000_0000_0000,
            old(frames).current_spec() <= old(frames).end_spec(),
            start_va.0 % 4096 == 0,
            end_va.0 % 4096 == 0,
            start_pa.0 % 4096 == 0,
            start_va.0 < end_va.0,
            end_va.0 / 4096 - start_va.0 / 4096 <= 0x800_0000,
            forall|k: int| start_va.0 / 4096 <= k < end_va.0 / 4096 ==> (#[trigger] old(self).walk(k)) is None,
            old(frames).available_spec() >= Self::range_frame_budget((start_va.0 / 4096) as int, (end_va.0 / 4096) as int),
        ensures
            final(self).wf(),
            final(self).frames_below(final(frames).current_spec()),
            final(frames).end_spec() == old(frames).end_spec(),
            final(frames).current_spec() <= final(frames).end_spec(),
            old(frames).current_spec() <= final(frames).current_spec() <= old(frames).current_spec()
                + Self::range_frame_budget((start_va.0 / 4096) as int, (end_va.0 / 4096) as int),
            final(self).root_ppn_spec() == old(self).root_ppn_spec(),
            forall|k: int| start_va.0 / 4096 <= k < end_va.0 / 4096 ==> (#[trigger] final(self).walk(k)) is Some
                && final(self).walk(k)->0.bits_spec() == pte_bits(
                    (start_pa.0 / 4096 + (k - start_va.0 / 4096)) as u64, flags.bits_spec() | 1),
            forall|v: int| (forall|k: int| start_va.0 / 4096 <= k < end_va.0 / 4096
                ==> vpn_indexes(k) != #[trigger] vpn_indexes(v)) ==> #[trigger] final(self).walk(v) == old(self).walk(v),
            end_va.0 / 4096 <= 0x800_0000 ==> forall|v: int| 0 <= v < 0x800_0000 && !(start_va.0 / 4096 <= v < end_va.0 / 4096)
                ==> #[trigger] final(self).walk(v) == old(self).walk(v),
    {
        let ghost start = *self;
        let mut vpn = start_va.floor().0;
        let end_vpn = end_va.floor().0;
        let mut ppn = start_pa.floor().0;
        let ghost s = vpn as int;
        let ghost p0 = ppn as int;
        while vpn < end_vpn
            invariant
                self.wf(),
                self.frames_below(frames.current_spec()),
                frames.end_spec() == old(frames).end_spec(),
                frames.end_spec() <= 0x1000_0000_0000,
                frames.current_spec() <= frames.end_spec(),
                self.root_ppn_spec() == start.root_ppn_spec(),
                s == start_va.0 / 4096,
                end_vpn == end_va.0 / 4096,
                p0 == start_pa.0 / 4096,
                s <= vpn <= end_vpn,
                end_vpn - s <= 0x800_0000,
                ppn == p0 + (vpn - s),
                old(frames).available_spec() >= Self::range_frame_budget(s, end_vpn as int),
                frames.current_spec() >= old(frames).current_spec(),
                vpn < end_vpn ==> frames.current_spec() - old(frames).current_spec() + self.frames_needed(vpn as int)
                    + 2 * ((end_vpn - 1) / 512 - vpn / 512) <= Self::range_frame_budget(s, end_vpn as int),
                vpn == end_vpn ==> frames.current_spec() - old(frames).current_spec()
                    <= Self::range_frame_budget(s, end_vpn as int),
                forall|k: int| s <= k < vpn ==> (#[trigger] self.walk(k)) is Some
                    && self.walk(k)->0.bits_spec() == pte_bits((p0 + (k - s)) as u64, flags.bits_spec() | 1),
                forall|k: int| vpn <= k < end_vpn ==> (#[trigger] self.walk(k)) is None,
                forall|v: int| (forall|k: int| s <= k < vpn ==> vpn_indexes(k) != #[trigger] vpn_indexes(v))
                    ==> #[trigger] self.walk(v) == start.walk(v),
            decreases end_vpn - vpn,
        {
            let ghost before = *self;
            self.map(VirtPageNum(vpn), PhysPageNum(ppn), flags, frames);
            proof {
                assert forall|k: int| s <= k < vpn + 1 implies (#[trigger] self.walk(k)) is Some
                    && self.walk(k)->0.bits_spec() == pte_bits((p0 + (k - s)) as u64, flags.bits_spec() | 1) by {
                    if k < vpn {
                        lemma_indexes_distinct(k, vpn as int);
                    }
                }
                assert forall|k: int| vpn + 1 <= k < end_vpn implies (#[trigger] self.walk(k)) is None by {
                    lemma_indexes_distinct(vpn as int, k);
                }
                assert forall|v: int| (forall|k: int| s <= k < vpn + 1 ==> vpn_indexes(k) != #[trigger] vpn_indexes(v))
                    implies #[trigger] self.walk(v) == start.walk(v) by {
                    assert(vpn_indexes(vpn as int) != vpn_indexes(v));
                    assert forall|k: int| s <= k < vpn implies vpn_indexes(k) != #[trigger] vpn_indexes(v) by {
                        assert(s <= k < vpn + 1);
                    }
                }
                if vpn + 1 < end_vpn {
                    if (vpn + 1) / 512 == vpn / 512 {
                        self.lemma_mapped_needs_nothing(vpn as int, (vpn + 1) as int);
                    } else {
                        assert((vpn + 1) / 512 == vpn / 512 + 1);
                        assert(self.frames_needed(vpn + 1) <= 2);
                    }
                }
            }
            vpn = vpn + 1;
            ppn = ppn + 1;
        }
        proof {
            assert forall|v: int| end_vpn <= 0x800_0000 && 0 <= v < 0x800_0000 && !(s <= v < end_vpn)
                implies #[trigger] self.walk(v) == start.walk(v) by {
                assert forall|k: int| s <= k < vpn implies vpn_indexes(k) != #[trigger] vpn_indexes(v) by {
                    if k < v {
                        lemma_indexes_distinct(k, v);
                    } else {
                        lemma_indexes_distinct(v, k);
                    }
                }
            }
        }
    }
}

} // verus!
