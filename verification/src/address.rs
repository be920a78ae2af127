//! Physical and virtual addresses and page numbers for 4 KiB pages.
use vstd::prelude::*;

verus! {

/// Size of one page in bytes.
pub const PAGE_SIZE: usize = 4096;

/// Number of bits of a page offset.
pub const PAGE_OFFSET_BITS: usize = 12;

/// A physical byte address.
#[derive(Clone, Copy, Debug, PartialEq, Eq, Structural)]
pub struct PhysAddr(pub usize);

/// A virtual byte address.
#[derive(Clone, Copy, Debug, PartialEq, Eq, Structural)]
pub struct VirtAddr(pub usize);

/// A physical page number.
#[derive(Clone, Copy, Debug, PartialEq, Eq, Structural)]
pub struct PhysPageNum(pub usize);

/// A virtual page number.
#[derive(Clone, Copy, Debug, PartialEq, Eq, Structural)]
pub struct VirtPageNum(pub usize);

/// The page number that holds byte `a`.
pub open spec fn page_floor(a: int) -> int {
    a / (PAGE_SIZE as int)
}

/// The number of pages needed to cover `a` bytes from zero.
pub open spec fn page_ceil(a: int) -> int {
    (a + PAGE_SIZE - 1) / (PAGE_SIZE as int)
}

/// The three 9-bit Sv39 table indexes of a virtual page number, highest level first.
pub open spec fn vpn_indexes(vpn: int) -> Seq<int> {
    seq![(vpn / 0x40000) % 512, (vpn / 0x200) % 512, vpn % 512]
}

pub proof fn lemma_low_bits_mod(x: usize)
    ensures
        x & 4095 == x % 4096,
        x & 511 == x % 512,
{
    assert(x & 4095 == x % 4096) by (bit_vector);
    assert(x & 511 == x % 512) by (bit_vector);
}

pub proof fn lemma_shift_left_page(x: usize)
    requires
        x <= usize::MAX / 4096,
    ensures
        x << 12usize == x * 4096,
{
    vstd::arithmetic::power2::lemma2_to64();
    vstd::bits::lemma_usize_shl_is_mul(x, 12);
}

impl PhysAddr {
    /// The page that holds this address.
    pub fn floor(self) -> (r: PhysPageNum)
        ensures
            r.0 == page_floor(self.0 as int),
    {
        PhysPageNum(self.0 / PAGE_SIZE)
    }

    /// The first page at or above this address.
    pub fn ceil(self) -> (r: PhysPageNum)
        requires
            self.0 + PAGE_SIZE - 1 <= usize::MAX,
        ensures
            r.0 == page_ceil(self.0 as int),
    {
        PhysPageNum((self.0 + (PAGE_SIZE - 1)) / PAGE_SIZE)
    }

    /// The offset of this address inside its page.
    pub fn page_offset(self) -> (r: usize)
        ensures
            r == self.0 % PAGE_SIZE,
    {
        proof {
            lemma_low_bits_mod(self.0);
        }
        self.0 & (PAGE_SIZE - 1)
    }

    /// Whether this address is the first byte of a page.
    pub fn is_aligned(self) -> (r: bool)
        ensures
            r == (self.0 % PAGE_SIZE == 0),
    {
        self.page_offset() == 0
    }
}

impl VirtAddr {
    /// The page that holds this address.
    pub fn floor(self) -> (r: VirtPageNum)
        ensures
            r.0 == page_floor(self.0 as int),
    {
        VirtPageNum(self.0 / PAGE_SIZE)
    }

    /// The first page at or above this address.
    pub fn ceil(self) -> (r: VirtPageNum)
        requires
            self.0 + PAGE_SIZE - 1 <= usize::MAX,
        ensures
            r.0 == page_ceil(self.0 as int),
    {
        VirtPageNum((self.0 + (PAGE_SIZE - 1)) / PAGE_SIZE)
    }

    /// The offset of this address inside its page.
    pub fn page_offset(self) -> (r: usize)
        ensures
            r == self.0 % PAGE_SIZE,
    {
        proof {
            lemma_low_bits_mod(self.0);
        }
        self.0 & (PAGE_SIZE - 1)
    }

    /// Whether this address is the first byte of a page.
    pub fn is_aligned(self) -> (r: bool)
        ensures
            r == (self.0 % PAGE_SIZE == 0),
    {
        self.page_offset() == 0
    }
}

impl PhysPageNum {
    /// The first address of this page; the shift drops bits that do not fit.
    pub fn start_pa(self) -> (r: PhysAddr)
        ensures
            r.0 == self.0 << 12usize,
            self.0 <= usize::MAX / PAGE_SIZE ==> r.0 == self.0 * PAGE_SIZE,
            self.0 <= usize::MAX / PAGE_SIZE ==> r.0 % PAGE_SIZE == 0 && page_floor(r.0 as int) == self.0
                && page_ceil(r.0 as int) == self.0 && r.0 + PAGE_SIZE - 1 <= usize::MAX,
    {
        proof {
            if self.0 <= usize::MAX / PAGE_SIZE {
                lemma_shift_left_page(self.0);
                lemma_floor_of_page_start(self.0 as int);
                assert(self.0 * PAGE_SIZE + PAGE_SIZE - 1 <= usize::MAX) by (nonlinear_arith)
                    requires self.0 <= usize::MAX / PAGE_SIZE;
            }
        }
        PhysAddr(self.0 << PAGE_OFFSET_BITS)
    }
}

impl VirtPageNum {
    /// The first address of this page; the shift drops bits that do not fit.
    pub fn start_va(self) -> (r: VirtAddr)
        ensures
            r.0 == self.0 << 12usize,
            self.0 <= usize::MAX / PAGE_SIZE ==> r.0 == self.0 * PAGE_SIZE,
            self.0 <= usize::MAX / PAGE_SIZE ==> r.0 % PAGE_SIZE == 0 && page_floor(r.0 as int) == self.0
                && page_ceil(r.0 as int) == self.0 && r.0 + PAGE_SIZE - 1 <= usize::MAX,
    {
        proof {
            if self.0 <= usize::MAX / PAGE_SIZE {
                lemma_shift_left_page(self.0);
                lemma_floor_of_page_start(self.0 as int);
                assert(self.0 * PAGE_SIZE + PAGE_SIZE - 1 <= usize::MAX) by (nonlinear_arith)
                    requires self.0 <= usize::MAX / PAGE_SIZE;
            }
        }
        VirtAddr(self.0 << PAGE_OFFSET_BITS)
    }

    /// The level-2, level-1 and level-0 table indexes of this page, in walk order.
    pub fn indexes(self) -> (r: [usize; 3])
        ensures
            r@.map_values(|i: usize| i as int) == vpn_indexes(self.0 as int),
    {
        let vpn = self.0;
        let i0 = (vpn >> 18usize) & 511;
        let i1 = (vpn >> 9usize) & 511;
        let i2 = vpn & 511;
        proof {
            assert(((vpn >> 18usize) & 511) == (vpn / 0x40000) % 512) by (bit_vector);
            assert(((vpn >> 9usize) & 511) == (vpn / 0x200) % 512) by (bit_vector);
            assert((vpn & 511) == vpn % 512) by (bit_vector);
        }
        let r = [i0, i1, i2];
        assert(r@.map_values(|i: usize| i as int) =~= vpn_indexes(self.0 as int));
        r
    }
}

/// The page that holds the first byte of a page is that page.
pub proof fn lemma_floor_of_page_start(p: int)
    requires
        p >= 0,
    ensures
        page_floor(p * PAGE_SIZE) == p,
        (p * PAGE_SIZE) % (PAGE_SIZE as int) == 0,
        page_ceil(p * PAGE_SIZE) == p,
{
    assert(page_floor(p * PAGE_SIZE) == p) by (nonlinear_arith);
    assert((p * PAGE_SIZE) % (PAGE_SIZE as int) == 0) by (nonlinear_arith);
    assert(page_ceil(p * PAGE_SIZE) == p) by (nonlinear_arith);
}

/// An address is the first byte of a page exactly when the first page at or above it
/// is the page that holds it.
pub proof fn lemma_aligned_iff_ceil_is_floor(a: int)
    requires
        a >= 0,
    ensures
        (a % (PAGE_SIZE as int) == 0) <==> page_ceil(a) == page_floor(a),
{
    assert((a % (PAGE_SIZE as int) == 0) <==> page_ceil(a) == page_floor(a)) by (nonlinear_arith)
        requires a >= 0;
}

/// The three table indexes determine a page number below 2^27.
pub proof fn lemma_indexes_determine_vpn(a: int, b: int)
    requires
        0 <= a < 0x800_0000,
        0 <= b < 0x800_0000,
        vpn_indexes(a) == vpn_indexes(b),
    ensures
        a == b,
{
    let sa = vpn_indexes(a);
    let sb = vpn_indexes(b);
    assert(sa[0] == sb[0] && sa[1] == sb[1] && sa[2] == sb[2]);
    assert(a == sa[0] * 0x40000 + sa[1] * 0x200 + sa[2]) by (nonlinear_arith)
        requires 0 <= a < 0x800_0000, sa == vpn_indexes(a);
    assert(b == sb[0] * 0x40000 + sb[1] * 0x200 + sb[2]) by (nonlinear_arith)
        requires 0 <= b < 0x800_0000, sb == vpn_indexes(b);
}

/// The three table indexes spell out the page number modulo 2^27.
pub proof fn lemma_vpn_decompose(x: int)
    requires
        x >= 0,
    ensures
        x % 0x800_0000 == vpn_indexes(x)[0] * 0x40000 + vpn_indexes(x)[1] * 0x200 + vpn_indexes(x)[2],
{
    let q = x / 512;
    let r = x % 512;
    vstd::arithmetic::div_mod::lemma_fundamental_div_mod(x, 512);
    vstd::arithmetic::div_mod::lemma_div_denominator(x, 512, 512);
    vstd::arithmetic::div_mod::lemma_fundamental_div_mod(q, 512);
    let q2 = q / 512;
    vstd::arithmetic::div_mod::lemma_fundamental_div_mod(q2, 512);
    vstd::arithmetic::div_mod::lemma_div_denominator(q, 512, 512);
    assert(x / 0x40000 == q2);
    assert(x / 0x200 == q);
    let a = q2 % 512;
    let b = q % 512;
    assert(x == (q2 / 512) * 0x800_0000 + a * 0x40000 + b * 0x200 + r) by (nonlinear_arith)
        requires x == 512 * q + r, q == 512 * q2 + b, q2 == 512 * (q2 / 512) + a;
    vstd::arithmetic::div_mod::lemma_fundamental_div_mod_converse(x, 0x800_0000, q2 / 512, a * 0x40000 + b * 0x200 + r);
}

/// Pages in the same 512-page group share their two upper table indexes.
pub proof fn lemma_same_group(a: int, b: int)
    requires
        a >= 0,
        b >= 0,
        a / 512 == b / 512,
    ensures
        vpn_indexes(a)[0] == vpn_indexes(b)[0],
        vpn_indexes(a)[1] == vpn_indexes(b)[1],
{
    vstd::arithmetic::div_mod::lemma_div_denominator(a, 512, 512);
    vstd::arithmetic::div_mod::lemma_div_denominator(b, 512, 512);
}

/// Distinct pages less than 2^27 apart have distinct table indexes.
pub proof fn lemma_indexes_distinct(a: int, b: int)
    requires
        0 <= a < b,
        b - a < 0x800_0000,
    ensures
        vpn_indexes(a) != vpn_indexes(b),
{
    lemma_vpn_decompose(a);
    lemma_vpn_decompose(b);
    if vpn_indexes(a) == vpn_indexes(b) {
        assert(vpn_indexes(a)[0] == vpn_indexes(b)[0]);
        assert(vpn_indexes(a)[1] == vpn_indexes(b)[1]);
        assert(vpn_indexes(a)[2] == vpn_indexes(b)[2]);
        assert(a % 0x800_0000 == b % 0x800_0000);
        vstd::arithmetic::div_mod::lemma_fundamental_div_mod(a, 0x800_0000);
        vstd::arithmetic::div_mod::lemma_fundamental_div_mod(b, 0x800_0000);
        assert(false) by (nonlinear_arith)
            requires 0 <= a < b, b - a < 0x800_0000, a % 0x800_0000 == b % 0x800_0000,
                a == 0x800_0000 * (a / 0x800_0000) + a % 0x800_0000,
                b == 0x800_0000 * (b / 0x800_0000) + b % 0x800_0000;
    }
}

} // verus!
