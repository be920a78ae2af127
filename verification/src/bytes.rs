//! Little-endian integers in byte buffers, and byte-string helpers.
use vstd::prelude::*;

verus! {

/// The little-endian 16-bit value at `off`.
pub open spec fn le16(s: Seq<u8>, off: int) -> int {
    s[off] + 256 * s[off + 1]
}

/// The little-endian 32-bit value at `off`.
pub open spec fn le32(s: Seq<u8>, off: int) -> int {
    le16(s, off) + 65536 * le16(s, off + 2)
}

/// The little-endian 64-bit value at `off`.
pub open spec fn le64(s: Seq<u8>, off: int) -> int {
    le32(s, off) + 0x1_0000_0000 * le32(s, off + 4)
}

/// Reads the little-endian `u16` at `offset`.
pub fn le_u16(buffer: &[u8], offset: usize) -> (r: u16)
    requires
        offset + 2 <= buffer@.len(),
    ensures
        r as int == le16(buffer@, offset as int),
{
    let total: usize = buffer.len();
    let b0 = buffer[offset];
    let b1 = buffer[offset + 1];
    let r = (b0 as u16) | ((b1 as u16) << 8u16);
    proof {
        assert((b0 as u16) | ((b1 as u16) << 8u16) == b0 as u16 + 256 * (b1 as u16)) by (bit_vector);
    }
    r
}

/// Reads the little-endian `u32` at `offset`.
pub fn le_u32(buffer: &[u8], offset: usize) -> (r: u32)
    requires
        offset + 4 <= buffer@.len(),
    ensures
        r as int == le32(buffer@, offset as int),
{
    let total: usize = buffer.len();
    let lo = le_u16(buffer, offset);
    let hi = le_u16(buffer, offset + 2);
    let r = (lo as u32) | ((hi as u32) << 16u32);
    proof {
        assert((lo as u32) | ((hi as u32) << 16u32) == lo as u32 + 65536 * (hi as u32)) by (bit_vector);
    }
    r
}

/// Reads the little-endian `u64` at `offset`.
pub fn le_u64(buffer: &[u8], offset: usize) -> (r: u64)
    requires
        offset + 8 <= buffer@.len(),
    ensures
        r as int == le64(buffer@, offset as int),
{
    let total: usize = buffer.len();
    let lo = le_u32(buffer, offset);
    let hi = le_u32(buffer, offset + 4);
    let r = (lo as u64) | ((hi as u64) << 32u64);
    proof {
        assert((lo as u64) | ((hi as u64) << 32u64) == lo as u64 + 0x1_0000_0000 * (hi as u64)) by (bit_vector);
    }
    r
}

/// Whether `a` and `b` hold the same bytes.
pub fn bytes_eq(a: &[u8], b: &[u8]) -> (r: bool)
    ensures
        r == (a@ == b@),
{
    if a.len() != b.len() {
        return false;
    }
    let mut i: usize = 0;
    while i < a.len()
        invariant
            a@.len() == b@.len(),
            i <= a@.len(),
            forall|j: int| 0 <= j < i ==> a@[j] == b@[j],
        decreases a@.len() - i,
    {
        if a[i] != b[i] {
            return false;
        }
        i = i + 1;
    }
    assert(a@ =~= b@);
    true
}

/// Whether `s` begins with `p`.
pub open spec fn has_prefix(s: Seq<u8>, p: Seq<u8>) -> bool {
    p.len() <= s.len() && s.subrange(0, p.len() as int) == p
}

/// Whether `s` ends with `p`.
pub open spec fn has_suffix(s: Seq<u8>, p: Seq<u8>) -> bool {
    p.len() <= s.len() && s.subrange(s.len() - p.len(), s.len() as int) == p
}

/// Whether `buffer` holds `pattern` starting at `offset`.
pub fn starts_with_at(buffer: &[u8], offset: usize, pattern: &[u8]) -> (r: bool)
    ensures
        r == (offset + pattern@.len() <= buffer@.len()
            && buffer@.subrange(offset as int, offset + pattern@.len()) == pattern@),
{
    let total: usize = buffer.len();
    if pattern.len() > total || offset > total - pattern.len() {
        return false;
    }
    let mut i: usize = 0;
    while i < pattern.len()
        invariant
            offset + pattern@.len() <= buffer@.len(),
            buffer@.len() <= usize::MAX,
            i <= pattern@.len(),
            forall|j: int| 0 <= j < i ==> buffer@[offset + j] == pattern@[j],
        decreases pattern@.len() - i,
    {
        if buffer[offset + i] != pattern[i] {
            assert(buffer@.subrange(offset as int, offset + pattern@.len())[i as int] != pattern@[i as int]);
            return false;
        }
        i = i + 1;
    }
    assert(buffer@.subrange(offset as int, offset + pattern@.len()) =~= pattern@);
    true
}

/// Whether `s` begins with `p`.
pub fn starts_with(s: &[u8], p: &[u8]) -> (r: bool)
    ensures
        r == has_prefix(s@, p@),
{
    starts_with_at(s, 0, p)
}

/// Whether `s` ends with `p`.
pub fn ends_with(s: &[u8], p: &[u8]) -> (r: bool)
    ensures
        r == has_suffix(s@, p@),
{
    if p.len() > s.len() {
        return false;
    }
    starts_with_at(s, s.len() - p.len(), p)
}

/// Whether `buffer` contains `target`.
pub fn contains_byte(buffer: &[u8], target: u8) -> (r: bool)
    ensures
        r == buffer@.contains(target),
{
    let mut index: usize = 0;
    while index < buffer.len()
        invariant
            index <= buffer@.len(),
            forall|j: int| 0 <= j < index ==> buffer@[j] != target,
        decreases buffer@.len() - index,
    {
        if buffer[index] == target {
            assert(buffer@[index as int] == target);
            return true;
        }
        index = index + 1;
    }
    false
}

/// A copy of `s[start..end]`.
pub fn copy_range(s: &[u8], start: usize, end: usize) -> (r: Vec<u8>)
    requires
        start <= end <= s@.len(),
    ensures
        r@ == s@.subrange(start as int, end as int),
{
    let mut out: Vec<u8> = Vec::new();
    let mut i = start;
    while i < end
        invariant
            start <= i <= end <= s@.len(),
            out@ == s@.subrange(start as int, i as int),
        decreases end - i,
    {
        out.push(s[i]);
        assert(out@ =~= s@.subrange(start as int, i + 1));
        i = i + 1;
    }
    out
}

/// A copy of all of `s`.
pub fn copy_all(s: &[u8]) -> (r: Vec<u8>)
    ensures
        r@ == s@,
{
    let r = copy_range(s, 0, s.len());
    assert(r@ =~= s@);
    r
}

/// Appends the bytes of `s` to `v`.
pub fn extend_from(v: &mut Vec<u8>, s: &[u8])
    ensures
        final(v)@ == old(v)@ + s@,
{
    let mut i: usize = 0;
    while i < s.len()
        invariant
            i <= s@.len(),
            v@ == old(v)@ + s@.subrange(0, i as int),
        decreases s@.len() - i,
    {
        v.push(s[i]);
        assert(v@ =~= old(v)@ + s@.subrange(0, i + 1));
        i = i + 1;
    }
    assert(s@.subrange(0, s@.len() as int) =~= s@);
}

} // verus!
