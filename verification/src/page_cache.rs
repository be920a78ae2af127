//! A page cache over a file: pages of the file are read into memory pages on demand, kept
//! in least-recently-used order, marked dirty when written, and written back on a sync.
//! The memory pages and the file belong to the kernel, behind two traits.
use crate::ctypes::{page_index, page_offset, CachePage, PageState, PAGE_SHIFT};
use crate::vma::LinuxError;
use core::marker::PhantomData;
use lru::LruCache;
use vstd::prelude::*;

verus! {

/// `lru::LruCache`, the least-recently-used map that holds the cached pages.
#[verifier::external_type_specification]
#[verifier::external_body]
#[verifier::reject_recursive_types(K)]
#[verifier::reject_recursive_types(V)]
#[verifier::reject_recursive_types(S)]
pub struct ExLruCache<K, V, S>(LruCache<K, V, S>);

/// What an LRU cache of pages holds, from the least to the most recently used entry:
/// the page's index in the file and the page.
pub uninterp spec fn lru_entries(c: LruCache<u64, CachePage>) -> Seq<(u64, CachePage)>;

/// The capacity an LRU cache of pages was made with.
pub uninterp spec fn lru_cap(c: LruCache<u64, CachePage>) -> nat;

/// Whether no page index occurs twice.
pub open spec fn keys_distinct(s: Seq<(u64, CachePage)>) -> bool {
    forall|i: int, j: int| 0 <= i < j < s.len() ==> s[i].0 != s[j].0
}

/// Where the entry of `k` stands, or -1.
pub open spec fn slot_of(s: Seq<(u64, CachePage)>, k: u64) -> int
    decreases s.len(),
{
    if s.len() == 0 {
        -1
    } else if s.last().0 == k {
        s.len() - 1
    } else {
        slot_of(s.drop_last(), k)
    }
}

/// The entries after the entry at `i` was used: it moves to the most recent end.
pub open spec fn touch(s: Seq<(u64, CachePage)>, i: int) -> Seq<(u64, CachePage)> {
    s.remove(i).push(s[i])
}

/// The entries after `(k, v)` was put into a cache of capacity `cap`: an entry of `k`
/// takes the value and becomes the most recent; otherwise the entry is added as the most
/// recent, after the least recent left where the cache was full.
pub open spec fn put_entries(s: Seq<(u64, CachePage)>, cap: nat, k: u64, v: CachePage) -> Seq<
    (u64, CachePage),
> {
    if slot_of(s, k) >= 0 {
        s.remove(slot_of(s, k)).push((k, v))
    } else if s.len() == cap {
        s.drop_first().push((k, v))
    } else {
        s.push((k, v))
    }
}

/// Where the index `k` stands among distinct indices.
pub proof fn lemma_slot_of_distinct(s: Seq<(u64, CachePage)>, j: int)
    requires
        keys_distinct(s),
        0 <= j < s.len(),
    ensures
        slot_of(s, s[j].0) == j,
    decreases s.len(),
{
    if j < s.len() - 1 {
        assert(s.last().0 != s[j].0);
        assert(keys_distinct(s.drop_last()));
        lemma_slot_of_distinct(s.drop_last(), j);
        assert(s.drop_last()[j] == s[j]);
    }
}

/// Where `k` is not an index of `s`, its slot is -1; where it is one, its slot holds it.
pub proof fn lemma_slot_of_found(s: Seq<(u64, CachePage)>, k: u64)
    ensures
        slot_of(s, k) >= 0 ==> slot_of(s, k) < s.len() && s[slot_of(s, k)].0 == k,
        slot_of(s, k) < 0 ==> slot_of(s, k) == -1 && forall|j: int| 0 <= j < s.len() ==> s[j].0 != k,
    decreases s.len(),
{
    if s.len() > 0 && s.last().0 != k {
        lemma_slot_of_found(s.drop_last(), k);
        assert forall|j: int| 0 <= j < s.len() - 1 implies s[j] == s.drop_last()[j] by {}
    }
}

/// The cached pages by index.
pub open spec fn as_map(s: Seq<(u64, CachePage)>) -> Map<u64, CachePage> {
    Map::new(|k: u64| slot_of(s, k) >= 0, |k: u64| s[slot_of(s, k)].1)
}

/// With distinct indices, the map holds each entry, and only them.
pub proof fn lemma_as_map(s: Seq<(u64, CachePage)>)
    requires
        keys_distinct(s),
    ensures
        forall|j: int|
            0 <= j < s.len() ==> as_map(s).dom().contains((#[trigger] s[j]).0) && as_map(s)[s[j].0]
                == s[j].1,
        forall|k: u64|
            as_map(s).dom().contains(k) ==> exists|j: int| 0 <= j < s.len() && (#[trigger] s[j]).0 == k,
{
    assert forall|j: int| 0 <= j < s.len() implies as_map(s).dom().contains((#[trigger] s[j]).0)
        && as_map(s)[s[j].0] == s[j].1 by {
        lemma_slot_of_distinct(s, j);
    }
    assert forall|k: u64| as_map(s).dom().contains(k) implies exists|j: int|
        0 <= j < s.len() && (#[trigger] s[j]).0 == k by {
        lemma_slot_of_found(s, k);
        assert(s[slot_of(s, k)].0 == k);
    }
}

/// Using an entry keeps the indices distinct and the pages by index the same.
pub proof fn lemma_touch_map(s: Seq<(u64, CachePage)>, i: int)
    requires
        keys_distinct(s),
        0 <= i < s.len(),
    ensures
        keys_distinct(touch(s, i)),
        as_map(touch(s, i)) == as_map(s),
{
    let t = touch(s, i);
    assert forall|a: int, b: int| 0 <= a < b < t.len() implies t[a].0 != t[b].0 by {
        let aa = if a < i { a } else { a + 1 };
        assert(t[a] == s[aa]);
        if b == t.len() - 1 {
            assert(t[b] == s[i]);
        } else {
            let bb = if b < i { b } else { b + 1 };
            assert(t[b] == s[bb]);
        }
    }
    lemma_as_map(s);
    lemma_as_map(t);
    assert forall|k: u64| as_map(t).dom().contains(k) <==> as_map(s).dom().contains(k) by {
        if as_map(s).dom().contains(k) {
            let j = choose|j: int| 0 <= j < s.len() && (#[trigger] s[j]).0 == k;
            if j == i {
                assert(t[t.len() - 1] == s[j]);
            } else if j < i {
                assert(t[j] == s[j]);
            } else {
                assert(t[j - 1] == s[j]);
            }
        }
        if as_map(t).dom().contains(k) {
            let j = choose|j: int| 0 <= j < t.len() && (#[trigger] t[j]).0 == k;
            if j == t.len() - 1 {
                assert(t[j] == s[i]);
            } else if j < i {
                assert(t[j] == s[j]);
            } else {
                assert(t[j] == s[j + 1]);
            }
        }
    }
    assert forall|k: u64| as_map(t).dom().contains(k) implies as_map(t)[k] == as_map(s)[k] by {
        let j = choose|j: int| 0 <= j < t.len() && (#[trigger] t[j]).0 == k;
        if j == t.len() - 1 {
            assert(t[j] == s[i]);
        } else if j < i {
            assert(t[j] == s[j]);
        } else {
            assert(t[j] == s[j + 1]);
        }
    }
    assert(as_map(t) =~= as_map(s));
}

/// Setting the page of a cached index keeps the indices distinct and sets it in the map.
pub proof fn lemma_update_map(s: Seq<(u64, CachePage)>, k: u64, v: CachePage)
    requires
        keys_distinct(s),
        slot_of(s, k) >= 0,
    ensures
        keys_distinct(s.update(slot_of(s, k), (k, v))),
        as_map(s.update(slot_of(s, k), (k, v))) == as_map(s).insert(k, v),
{
    let i = slot_of(s, k);
    lemma_slot_of_found(s, k);
    let t = s.update(i, (k, v));
    assert forall|a: int, b: int| 0 <= a < b < t.len() implies t[a].0 != t[b].0 by {
        assert(t[a].0 == s[a].0 && t[b].0 == s[b].0);
    }
    lemma_as_map(s);
    lemma_as_map(t);
    assert forall|q: u64| as_map(t).dom().contains(q) <==> as_map(s).insert(k, v).dom().contains(q) by {
        if as_map(s).dom().contains(q) {
            let j = choose|j: int| 0 <= j < s.len() && (#[trigger] s[j]).0 == q;
            assert(t[j].0 == q);
        }
        if as_map(t).dom().contains(q) {
            let j = choose|j: int| 0 <= j < t.len() && (#[trigger] t[j]).0 == q;
            assert(s[j].0 == q);
        }
    }
    assert forall|q: u64| as_map(t).dom().contains(q) implies as_map(t)[q] == as_map(s).insert(k, v)[q] by {
        let j = choose|j: int| 0 <= j < t.len() && (#[trigger] t[j]).0 == q;
        if j == i {
        } else {
            assert(t[j] == s[j]);
        }
    }
    assert(as_map(t) =~= as_map(s).insert(k, v));
}

/// Adding the page of an index not cached yet, where the cache is not full, keeps the
/// indices distinct and adds it to the map.
pub proof fn lemma_put_new_map(s: Seq<(u64, CachePage)>, cap: nat, k: u64, v: CachePage)
    requires
        keys_distinct(s),
        slot_of(s, k) < 0,
        s.len() < cap,
    ensures
        put_entries(s, cap, k, v) == s.push((k, v)),
        keys_distinct(s.push((k, v))),
        as_map(s.push((k, v))) == as_map(s).insert(k, v),
{
    lemma_slot_of_found(s, k);
    let t = s.push((k, v));
    assert forall|a: int, b: int| 0 <= a < b < t.len() implies t[a].0 != t[b].0 by {
        assert(t[a] == s[a]);
    }
    lemma_as_map(s);
    lemma_as_map(t);
    assert forall|q: u64| as_map(t).dom().contains(q) <==> as_map(s).insert(k, v).dom().contains(q) by {
        if as_map(s).dom().contains(q) {
            let j = choose|j: int| 0 <= j < s.len() && (#[trigger] s[j]).0 == q;
            assert(t[j].0 == q);
        }
        if as_map(t).dom().contains(q) && q != k {
            let j = choose|j: int| 0 <= j < t.len() && (#[trigger] t[j]).0 == q;
            assert(s[j].0 == q);
        }
        assert(t[s.len() as int].0 == k);
    }
    assert forall|q: u64| as_map(t).dom().contains(q) implies as_map(t)[q] == as_map(s).insert(k, v)[q] by {
        let j = choose|j: int| 0 <= j < t.len() && (#[trigger] t[j]).0 == q;
        if j < s.len() {
            assert(t[j] == s[j]);
        }
    }
    assert(as_map(t) =~= as_map(s).insert(k, v));
}

/// What a successful load does to the pages by index, where the cache was not full: the
/// page of the index is cached, as it was where it was cached already; the list grows by
/// at most one.
pub proof fn lemma_load_map(s: Seq<(u64, CachePage)>, t: Seq<(u64, CachePage)>, k: u64, p: CachePage)
    requires
        keys_distinct(s),
        s.len() < usize::MAX,
        slot_of(s, k) >= 0 ==> t == touch(s, slot_of(s, k)) && p == s[slot_of(s, k)].1,
        slot_of(s, k) < 0 ==> t == put_entries(s, usize::MAX as nat, k, p),
    ensures
        keys_distinct(t),
        as_map(t) == as_map(s).insert(k, p),
        t.len() <= s.len() + 1,
        t.len() > 0 && t.last() == (k, p),
{
    lemma_slot_of_found(s, k);
    if slot_of(s, k) >= 0 {
        lemma_touch_map(s, slot_of(s, k));
        lemma_as_map(s);
        assert(as_map(s).insert(k, p) =~= as_map(s));
    } else {
        lemma_put_new_map(s, usize::MAX as nat, k, p);
    }
}

/// How many bytes a read of `buf_len` bytes at `offset` gets from a file of `size` bytes.
pub open spec fn read_len(offset: int, buf_len: int, size: int) -> int {
    if offset >= size {
        0
    } else if buf_len < size - offset {
        buf_len
    } else {
        size - offset
    }
}

/// How many pages the `n` bytes from `offset` on touch.
pub open spec fn pages_spanned(offset: int, n: int) -> int {
    if n <= 0 {
        0
    } else {
        (offset + n - 1) / 4096 - offset / 4096 + 1
    }
}

/// Whether `cur` keeps every page of `old` unchanged, holds a page of every index from
/// `lo` up to `hi`, and no page of any other index.
pub open spec fn pages_kept_and_loaded(
    old: Map<u64, CachePage>,
    cur: Map<u64, CachePage>,
    lo: int,
    hi: int,
) -> bool {
    &&& forall|k: u64| #[trigger] old.dom().contains(k) ==> cur.dom().contains(k) && cur[k] == old[k]
    &&& forall|k: u64| lo <= k < hi ==> #[trigger] cur.dom().contains(k)
    &&& forall|k: u64| #[trigger] cur.dom().contains(k) ==> old.dom().contains(k) || lo <= k < hi
}

/// One page further: after loading the page of index `hi`, which keeps a cached page as
/// it was, the pages up to `hi + 1` are loaded.
pub proof fn lemma_kept_step(
    m0: Map<u64, CachePage>,
    mb: Map<u64, CachePage>,
    ma: Map<u64, CachePage>,
    lo: int,
    hi: int,
    k: u64,
    p: CachePage,
)
    requires
        pages_kept_and_loaded(m0, mb, lo, hi),
        ma == mb.insert(k, p),
        k == hi,
        lo <= hi,
        mb.dom().contains(k) ==> mb[k] == p,
    ensures
        pages_kept_and_loaded(m0, ma, lo, hi + 1),
{
    assert forall|q: u64| m0.dom().contains(q) implies ma.dom().contains(q) && ma[q] == m0[q] by {
        assert(mb.dom().contains(q) && mb[q] == m0[q]);
    }
    assert forall|q: u64| lo <= q < hi + 1 implies ma.dom().contains(q) by {
        if q < hi {
            assert(mb.dom().contains(q));
        }
    }
    assert forall|q: u64| ma.dom().contains(q) implies m0.dom().contains(q) || lo <= q < hi + 1 by {
        if q != k {
            assert(mb.dom().contains(q));
        }
    }
}

/// Whether `cur` holds every page of `old`, marked dirty where its index lies from `lo` up
/// to `hi` and unchanged elsewhere, holds a dirty page of every index in that range, and
/// no page of any other index.
pub open spec fn pages_written(
    old: Map<u64, CachePage>,
    cur: Map<u64, CachePage>,
    lo: int,
    hi: int,
) -> bool {
    &&& forall|k: u64| #[trigger] old.dom().contains(k) ==> cur.dom().contains(k) && cur[k] == (
    if lo <= k < hi {
        with_state(old[k], PageState::Dirty)
    } else {
        old[k]
    })
    &&& forall|k: u64| lo <= k < hi ==> #[trigger] dirty_at(cur, k)
    &&& forall|k: u64| #[trigger] cur.dom().contains(k) ==> old.dom().contains(k) || lo <= k < hi
}

/// Whether `m` holds a dirty page of index `k`.
pub open spec fn dirty_at(m: Map<u64, CachePage>, k: u64) -> bool {
    m.dom().contains(k) && m[k].state == PageState::Dirty
}

/// One page further: after loading the page of index `hi`, which keeps a cached page as
/// it was, and marking it dirty, the pages up to `hi + 1` are written.
pub proof fn lemma_written_step(
    m0: Map<u64, CachePage>,
    mb: Map<u64, CachePage>,
    ma: Map<u64, CachePage>,
    lo: int,
    hi: int,
    k: u64,
    p: CachePage,
)
    requires
        pages_written(m0, mb, lo, hi),
        ma == mb.insert(k, with_state(p, PageState::Dirty)),
        k == hi,
        lo <= hi,
        mb.dom().contains(k) ==> mb[k] == p,
    ensures
        pages_written(m0, ma, lo, hi + 1),
{
    assert forall|q: u64| #[trigger] m0.dom().contains(q) implies ma.dom().contains(q) && ma[q] == (
    if lo <= q < hi + 1 {
        with_state(m0[q], PageState::Dirty)
    } else {
        m0[q]
    }) by {
        assert(mb.dom().contains(q));
        if q == k {
            assert(mb[q] == m0[q]);
            assert(ma[q] == with_state(p, PageState::Dirty));
        } else {
            assert(ma[q] == mb[q]);
        }
    }
    assert forall|q: u64| lo <= q < hi + 1 implies #[trigger] dirty_at(ma, q) by {
        if q < hi {
            assert(dirty_at(mb, q));
        }
    }
    assert forall|q: u64| #[trigger] ma.dom().contains(q) implies m0.dom().contains(q) || lo <= q < hi + 1 by {
        if q != k {
            assert(mb.dom().contains(q));
        }
    }
}

/// The page arithmetic of one step of a read or a write: a step that copies up to the end
/// of the current page, or to the end of the request, covers one page more.
pub proof fn lemma_spanned_step(offset: int, b: int, c: int, rl: int)
    requires
        0 <= offset,
        0 <= b < rl,
        1 <= c,
        b + c <= rl,
        c <= 4096 - (offset + b) % 4096,
        b + c == rl || c == 4096 - (offset + b) % 4096,
        (offset + b) / 4096 == offset / 4096 + pages_spanned(offset, b),
    ensures
        pages_spanned(offset, b + c) == pages_spanned(offset, b) + 1,
        b + c < rl ==> (offset + b + c) / 4096 == offset / 4096 + pages_spanned(offset, b + c),
        pages_spanned(offset, b + c) <= pages_spanned(offset, rl),
{
    let x = offset + b;
    let q = x / 4096;
    let r = x % 4096;
    assert(x == 4096 * q + r && 0 <= r < 4096) by {
        vstd::arithmetic::div_mod::lemma_fundamental_div_mod(x, 4096);
    }
    assert((offset + b + c - 1) / 4096 == q) by {
        vstd::arithmetic::div_mod::lemma_fundamental_div_mod(offset + b + c - 1, 4096);
    }
    if b + c < rl {
        assert(offset + b + c == 4096 * (q + 1));
        assert((offset + b + c) / 4096 == q + 1) by {
            vstd::arithmetic::div_mod::lemma_fundamental_div_mod(offset + b + c, 4096);
        }
    }
    assert((offset + b + c - 1) / 4096 <= (offset + rl - 1) / 4096) by {
        vstd::arithmetic::div_mod::lemma_div_is_ordered(offset + b + c - 1, offset + rl - 1, 4096);
    }
}

/// Whether the two lists hold the same pages in the same order, whatever their states.
pub open spec fn same_slots(a: Seq<(u64, CachePage)>, b: Seq<(u64, CachePage)>) -> bool {
    &&& a.len() == b.len()
    &&& forall|j: int| 0 <= j < a.len() ==> (#[trigger] a[j]).0 == b[j].0 && a[j].1.addr == b[j].1.addr
}

/// The entry after a write-back: a page due for it is up to date.
pub open spec fn settle(e: (u64, CachePage)) -> (u64, CachePage) {
    if e.1.state == PageState::ToWrite {
        (e.0, with_state(e.1, PageState::UpToDate))
    } else {
        e
    }
}

/// Whether `new_e` is what a write-back that failed may leave of the entry `old_e`: the
/// entry as it was, written back, or, where it was due, marked as being written back.
pub open spec fn partly_settled(old_e: (u64, CachePage), new_e: (u64, CachePage)) -> bool {
    ||| new_e == old_e
    ||| new_e == settle(old_e)
    ||| old_e.1.state == PageState::ToWrite && new_e == (old_e.0, with_state(old_e.1, PageState::WriteBack))
}

/// The entry after a sync: a dirty page or one due for writing back is up to date.
pub open spec fn flush(e: (u64, CachePage)) -> (u64, CachePage) {
    if e.1.state == PageState::ToWrite || e.1.state == PageState::Dirty {
        (e.0, with_state(e.1, PageState::UpToDate))
    } else {
        e
    }
}

/// After a sync, no page is dirty or due for writing back, and every page keeps its index,
/// its place and its memory.
pub proof fn lemma_flush_cleans(s: Seq<(u64, CachePage)>)
    ensures
        forall|j: int|
            0 <= j < s.len() ==> (#[trigger] flush(s[j])).1.state != PageState::Dirty && flush(
                s[j],
            ).1.state != PageState::ToWrite && s.map_values(|e| flush(e))[j] == flush(s[j]),
        same_slots(s.map_values(|e| flush(e)), s),
{
}

/// The entry once marked for writing back where it was dirty.
pub open spec fn mark(e: (u64, CachePage)) -> (u64, CachePage) {
    if e.1.state == PageState::Dirty {
        (e.0, with_state(e.1, PageState::ToWrite))
    } else {
        e
    }
}

/// The entries after the page of `k`, if cached, was used and marked for writing back
/// where it was dirty.
pub open spec fn touch_mark(s: Seq<(u64, CachePage)>, k: u64) -> Seq<(u64, CachePage)> {
    if slot_of(s, k) >= 0 {
        s.remove(slot_of(s, k)).push(mark(s[slot_of(s, k)]))
    } else {
        s
    }
}

/// The entries after `touch_mark` of each index from `lo` to `hi`, in increasing order.
pub open spec fn range_marked(s: Seq<(u64, CachePage)>, lo: int, hi: int) -> Seq<
    (u64, CachePage),
>
    decreases hi - lo + 1,
{
    if hi < lo {
        s
    } else {
        touch_mark(range_marked(s, lo, hi - 1), hi as u64)
    }
}

/// The entries without the one of `k`.
pub open spec fn remove_key(s: Seq<(u64, CachePage)>, k: u64) -> Seq<(u64, CachePage)> {
    if slot_of(s, k) >= 0 {
        s.remove(slot_of(s, k))
    } else {
        s
    }
}

/// The entries without those of the indices from `lo` to `hi`.
pub open spec fn drop_keys(s: Seq<(u64, CachePage)>, lo: int, hi: int) -> Seq<(u64, CachePage)>
    decreases hi - lo + 1,
{
    if hi < lo {
        s
    } else {
        remove_key(drop_keys(s, lo, hi - 1), hi as u64)
    }
}

/// Taking out the pages of a range of indices leaves none of them and keeps every other
/// page; it adds none.
pub proof fn lemma_drop_keys(s: Seq<(u64, CachePage)>, lo: int, hi: int)
    requires
        keys_distinct(s),
        0 <= lo,
        hi <= u64::MAX,
    ensures
        keys_distinct(drop_keys(s, lo, hi)),
        forall|j: int|
            0 <= j < drop_keys(s, lo, hi).len() ==> {
                let e = #[trigger] drop_keys(s, lo, hi)[j];
                !(lo <= e.0 <= hi) && s.contains(e)
            },
        forall|j: int|
            0 <= j < s.len() && !(lo <= (#[trigger] s[j]).0 <= hi) ==> drop_keys(s, lo, hi).contains(s[j]),
    decreases hi - lo + 1,
{
    if hi >= lo {
        lemma_drop_keys(s, lo, hi - 1);
        let t = drop_keys(s, lo, hi - 1);
        let k = hi as u64;
        lemma_slot_of_found(t, k);
        if slot_of(t, k) >= 0 {
            let i = slot_of(t, k);
            let u = t.remove(i);
            assert(drop_keys(s, lo, hi) == u);
            assert forall|a: int, b: int| 0 <= a < b < u.len() implies u[a].0 != u[b].0 by {
                if a < i && b < i {
                } else if a < i {
                    assert(u[b] == t[b + 1]);
                } else {
                    assert(u[a] == t[a + 1] && u[b] == t[b + 1]);
                }
            }
            assert forall|j: int| 0 <= j < u.len() implies {
                let e = #[trigger] u[j];
                !(lo <= e.0 <= hi) && s.contains(e)
            } by {
                let jj = if j < i { j } else { j + 1 };
                assert(u[j] == t[jj]);
                assert(t[jj].0 != t[i].0);
            }
            assert forall|j: int| 0 <= j < s.len() && !(lo <= (#[trigger] s[j]).0 <= hi) implies u.contains(s[j]) by {
                assert(t.contains(s[j]));
                let m = choose|m: int| 0 <= m < t.len() && t[m] == s[j];
                assert(m != i);
                if m < i {
                    assert(u[m] == s[j]);
                } else {
                    assert(u[m - 1] == s[j]);
                }
            }
        } else {
            assert(drop_keys(s, lo, hi) == t);
            assert forall|j: int| 0 <= j < t.len() implies !(lo <= (#[trigger] t[j]).0 <= hi) by {
                assert(t[j].0 != k);
            }
        }
    }
}

/// The page with the state `state`.
pub open spec fn with_state(p: CachePage, state: PageState) -> CachePage {
    CachePage { addr: p.addr, state }
}

/// `LruCache::unbounded`: a cache with no entry, whose capacity is `usize::MAX`.
#[verifier::external_body]
fn lru_unbounded() -> (c: LruCache<u64, CachePage>)
    ensures
        lru_entries(c) == Seq::<(u64, CachePage)>::empty(),
        lru_cap(c) == usize::MAX,
        keys_distinct(lru_entries(c)),
{
    LruCache::unbounded()
}

/// `LruCache::get`: the page of `k`, if there is one, which becomes the most recent.
#[verifier::external_body]
fn lru_get(c: &mut LruCache<u64, CachePage>, k: u64) -> (r: Option<CachePage>)
    ensures
        keys_distinct(lru_entries(*final(c))),
        lru_cap(*final(c)) == lru_cap(*old(c)),
        slot_of(lru_entries(*old(c)), k) >= 0 ==> {
            &&& r == Some(lru_entries(*old(c))[slot_of(lru_entries(*old(c)), k)].1)
            &&& lru_entries(*final(c)) == touch(lru_entries(*old(c)), slot_of(lru_entries(*old(c)), k))
        },
        slot_of(lru_entries(*old(c)), k) < 0 ==> r is None && lru_entries(*final(c)) == lru_entries(*old(c)),
{
    c.get(&k).copied()
}

/// `LruCache::put`: sets the page of `k` and makes it the most recent, as `put_entries`
/// says; hands back the page it replaced for `k`, if any.
#[verifier::external_body]
fn lru_put(c: &mut LruCache<u64, CachePage>, k: u64, v: CachePage) -> (r: Option<CachePage>)
    ensures
        keys_distinct(lru_entries(*final(c))),
        lru_cap(*final(c)) == lru_cap(*old(c)),
        lru_entries(*final(c)) == put_entries(lru_entries(*old(c)), lru_cap(*old(c)), k, v),
        r == (if slot_of(lru_entries(*old(c)), k) >= 0 {
            Some(lru_entries(*old(c))[slot_of(lru_entries(*old(c)), k)].1)
        } else {
            None
        }),
{
    c.put(k, v)
}

/// `LruCache::peek_mut`, written through: sets the page of `k`, if there is one, and
/// leaves the order alone; tells whether there was one.
#[verifier::external_body]
fn lru_set_quiet(c: &mut LruCache<u64, CachePage>, k: u64, v: CachePage) -> (found: bool)
    ensures
        keys_distinct(lru_entries(*final(c))),
        lru_cap(*final(c)) == lru_cap(*old(c)),
        found == (slot_of(lru_entries(*old(c)), k) >= 0),
        found ==> lru_entries(*final(c)) == lru_entries(*old(c)).update(
            slot_of(lru_entries(*old(c)), k),
            (k, v),
        ),
        !found ==> lru_entries(*final(c)) == lru_entries(*old(c)),
{
    match c.peek_mut(&k) {
        Some(slot) => {
            *slot = v;
            true
        },
        None => false,
    }
}

/// `LruCache::pop`: takes out the entry of `k` and hands back its page, if there is one.
#[verifier::external_body]
fn lru_pop(c: &mut LruCache<u64, CachePage>, k: u64) -> (r: Option<CachePage>)
    ensures
        keys_distinct(lru_entries(*final(c))),
        lru_cap(*final(c)) == lru_cap(*old(c)),
        slot_of(lru_entries(*old(c)), k) >= 0 ==> {
            &&& r == Some(lru_entries(*old(c))[slot_of(lru_entries(*old(c)), k)].1)
            &&& lru_entries(*final(c)) == lru_entries(*old(c)).remove(slot_of(lru_entries(*old(c)), k))
        },
        slot_of(lru_entries(*old(c)), k) < 0 ==> r is None && lru_entries(*final(c)) == lru_entries(*old(c)),
{
    c.pop(&k)
}

/// `LruCache::pop_lru`: takes out the least recent entry, if there is one.
#[verifier::external_body]
fn lru_pop_lru(c: &mut LruCache<u64, CachePage>) -> (r: Option<(u64, CachePage)>)
    ensures
        keys_distinct(lru_entries(*final(c))),
        lru_cap(*final(c)) == lru_cap(*old(c)),
        lru_entries(*old(c)).len() > 0 ==> r == Some(lru_entries(*old(c))[0]) && lru_entries(*final(c)) == lru_entries(*old(c)).drop_first(),
        lru_entries(*old(c)).len() == 0 ==> r is None && lru_entries(*final(c)) == lru_entries(*old(c)),
{
    c.pop_lru()
}

/// `LruCache::len`: the number of entries.
#[verifier::external_body]
fn lru_len(c: &LruCache<u64, CachePage>) -> (r: usize)
    ensures
        r == lru_entries(*c).len(),
{
    c.len()
}

/// `LruCache::clear`: takes out every entry.
#[verifier::external_body]
fn lru_clear(c: &mut LruCache<u64, CachePage>)
    ensures
        keys_distinct(lru_entries(*final(c))),
        lru_cap(*final(c)) == lru_cap(*old(c)),
        lru_entries(*final(c)) == Seq::<(u64, CachePage)>::empty(),
{
    c.clear()
}

/// `LruCache::iter`: the entries from the most to the least recent.
#[verifier::external_body]
fn lru_iter(c: &LruCache<u64, CachePage>) -> (r: Vec<(u64, CachePage)>)
    ensures
        r@ == lru_entries(*c).reverse(),
{
    c.iter().map(|(k, v)| (*k, *v)).collect()
}


/// The file behind a page cache; the kernel supplies the implementation.
pub trait InodeOps {
    /// Reads into `buf` from `offset` on; returns how many bytes were read. A slice keeps
    /// its length.
    fn read_at(&self, buf: &mut [u8], offset: u64) -> (r: Result<usize, LinuxError>)
        ensures
            final(buf)@.len() == old(buf)@.len(),
    ;

    /// Writes `buf` at `offset`; returns how many bytes were written.
    fn write_at(&self, buf: &[u8], offset: u64) -> Result<usize, LinuxError>;

    /// The length of the file.
    fn len(&self) -> Result<u64, LinuxError>;

    /// Sets the length of the file.
    fn set_len(&self, len: u64) -> Result<(), LinuxError>;

    /// Whether the file is empty.
    fn is_empty(&self) -> (r: Result<bool, LinuxError>) {
        match self.len() {
            Ok(n) => Ok(n == 0),
            Err(e) => Err(e),
        }
    }
}

/// The memory pages of a page cache, by their physical addresses; the kernel supplies the
/// implementation, which maps an address to where it can reach it.
pub trait PageOps {
    /// A free page, by its physical address, if one is left.
    fn alloc_page() -> Option<usize>;

    /// Gives a page back, by its physical address.
    fn dealloc_page(addr: usize);

    /// The kernel's virtual address of the physical address `paddr`, through its linear
    /// mapping of physical memory.
    fn phys_to_virt(paddr: usize) -> usize;

    /// Copies the page at the kernel virtual address `addr` into `buf`. A slice keeps its
    /// length.
    fn read_page(addr: usize, buf: &mut [u8]) -> (r: Result<(), LinuxError>)
        ensures
            final(buf)@.len() == old(buf)@.len(),
    ;

    /// Copies `buf` into the page at the kernel virtual address `addr`.
    fn write_page(addr: usize, buf: &[u8]) -> Result<(), LinuxError>;
}

/// The part of page `index` that lies within a file of `file_size` bytes: its offset in
/// the file, `index << 12` (wrapping), and how many of its bytes, at most a page; `None`
/// where the page starts at or past the end of the file.
pub open spec fn page_extent_spec(index: u64, file_size: u64) -> Option<(u64, usize)> {
    let offset = index << 12u64;
    if offset < file_size {
        Some((offset, if file_size - offset < 4096 { (file_size - offset) as usize } else { 4096usize }))
    } else {
        None
    }
}

/// The part of page `index` that lies within a file of `file_size` bytes: what loading
/// the page reads of the file and what writing it back writes.
pub fn page_extent(index: u64, file_size: u64) -> (r: Option<(u64, usize)>)
    ensures
        r == page_extent_spec(index, file_size),
        r matches Some(e) ==> 0 < e.1 <= 4096,
{
    let offset: u64 = index << PAGE_SHIFT;
    if offset < file_size {
        let len: usize = if file_size - offset < 4096 { (file_size - offset) as usize } else { 4096 };
        Some((offset, len))
    } else {
        None
    }
}

/// Copies `n` bytes of `src` from `src_off` into `dst` at `dst_off`; the other bytes of
/// `dst` stay.
pub fn copy_part(dst: &mut [u8], dst_off: usize, src: &[u8], src_off: usize, n: usize)
    requires
        dst_off + n <= old(dst)@.len(),
        src_off + n <= src@.len(),
    ensures
        final(dst)@ == old(dst)@.take(dst_off as int) + src@.subrange(src_off as int, src_off + n) + old(dst)@.skip(
            dst_off + n,
        ),
{
    let dst_len: usize = dst.len();
    let src_len: usize = src.len();
    let mut j: usize = 0;
    while j < n
        invariant
            j <= n,
            dst_len == dst@.len(),
            src_len == src@.len(),
            dst_off + n <= dst@.len(),
            src_off + n <= src@.len(),
            dst@.len() == old(dst)@.len(),
            forall|q: int| 0 <= q < dst@.len() ==> #[trigger] dst@[q] == if dst_off <= q < dst_off + j {
                src@[src_off + q - dst_off]
            } else {
                old(dst)@[q]
            },
        decreases n - j,
    {
        dst[dst_off + j] = src[src_off + j];
        j = j + 1;
    }
    assert(dst@ =~= old(dst)@.take(dst_off as int) + src@.subrange(src_off as int, src_off + n) + old(dst)@.skip(
        dst_off + n,
    ));
}

/// A page cache over the file `host`: the cached pages in least-recently-used order, and
/// the file's size as the cache sees it.
pub struct PageCache<N: InodeOps, P: PageOps> {
    /// The file.
    pub host: N,
    pages: LruCache<u64, CachePage>,
    file_size: u64,
    marker: PhantomData<P>,
}

impl<N: InodeOps, P: PageOps> PageCache<N, P> {
    /// The cached pages, from the least to the most recently used: index and page.
    pub closed spec fn entries(&self) -> Seq<(u64, CachePage)> {
        lru_entries(self.pages)
    }

    /// The file.
    pub closed spec fn inode(&self) -> N {
        self.host
    }

    /// The file's size as the cache sees it.
    pub closed spec fn size(&self) -> u64 {
        self.file_size
    }

    /// No page index occurs twice, and the cache has no bound.
    pub closed spec fn wf(&self) -> bool {
        &&& keys_distinct(lru_entries(self.pages))
        &&& lru_cap(self.pages) == usize::MAX
    }

    /// A cache with no page over `host`, with the size that `len`, what the file said of
    /// its length, gives: the length, or 0 where asking failed.
    pub fn from_len(host: N, len: Result<u64, LinuxError>) -> (r: Self)
        ensures
            r.wf(),
            r.inode() == host,
            r.entries() == Seq::<(u64, CachePage)>::empty(),
            r.size() == match len {
                Ok(n) => n,
                Err(_) => 0u64,
            },
    {
        let initial_size: u64 = match len {
            Ok(n) => n,
            Err(_) => 0,
        };
        PageCache { host, pages: lru_unbounded(), file_size: initial_size, marker: PhantomData }
    }

    /// A cache with no page over `host`, sized by what the file says of its length.
    pub fn new(host: N) -> (r: Self)
        ensures
            r.wf(),
            r.entries() == Seq::<(u64, CachePage)>::empty(),
    {
        let len = host.len();
        Self::from_len(host, len)
    }

    /// The cached page of `index`, if there is one; it becomes the most recent.
    pub fn get_page(&mut self, index: u64) -> (r: Option<CachePage>)
        requires
            old(self).wf(),
        ensures
            final(self).wf(),
            final(self).inode() == old(self).inode(),
            final(self).size() == old(self).size(),
            slot_of(old(self).entries(), index) >= 0 ==> {
                &&& r == Some(old(self).entries()[slot_of(old(self).entries(), index)].1)
                &&& final(self).entries() == touch(old(self).entries(), slot_of(old(self).entries(), index))
            },
            slot_of(old(self).entries(), index) < 0 ==> r is None && final(self).entries() == old(self).entries(),
    {
        lru_get(&mut self.pages, index)
    }

    /// The cached page of `index`, read in first where it is not cached: a new page is
    /// filled with the file's bytes from `index << 12` on, as far as the file goes, and
    /// zeros after them, and becomes the most recent entry. Fails with `ENOMEM` when no
    /// page is left, and with the error of the file or of the page where one fails.
    pub fn load_page(&mut self, index: u64) -> (r: Result<CachePage, LinuxError>)
        requires
            old(self).wf(),
        ensures
            final(self).wf(),
            final(self).inode() == old(self).inode(),
            final(self).size() == old(self).size(),
            slot_of(old(self).entries(), index) >= 0 ==> {
                &&& r == Ok::<CachePage, LinuxError>(old(self).entries()[slot_of(old(self).entries(), index)].1)
                &&& final(self).entries() == touch(old(self).entries(), slot_of(old(self).entries(), index))
            },
            r matches Ok(p) ==> final(self).entries().len() > 0 && final(self).entries().last() == (
                index,
                p,
            ),
            slot_of(old(self).entries(), index) < 0 ==> match r {
                Ok(p) => p.state == PageState::UpToDate && final(self).entries() == put_entries(
                    old(self).entries(),
                    usize::MAX as nat,
                    index,
                    p,
                ),
                Err(_) => final(self).entries() == old(self).entries(),
            },
    {
        proof {
            lemma_slot_of_found(self.entries(), index);
        }
        match self.get_page(index) {
            Some(page) => {
                return Ok(page);
            },
            None => {},
        }
        let addr: usize = match P::alloc_page() {
            Some(a) => a,
            None => {
                return Err(LinuxError::ENOMEM);
            },
        };
        let mut page = CachePage::new(addr);
        let mut buf: Vec<u8> = vec![0u8; 4096];
        if let Some((offset, read_size)) = page_extent(index, self.file_size) {
            let (head, _rest) = buf.as_mut_slice().split_at_mut(read_size);
            match self.host.read_at(head, offset) {
                Ok(_) => {},
                Err(e) => {
                    return Err(e);
                },
            }
        }
        match P::write_page(P::phys_to_virt(page.addr), buf.as_slice()) {
            Ok(()) => {},
            Err(e) => {
                return Err(e);
            },
        }
        page.mark_up_to_date();
        lru_put(&mut self.pages, index, page);
        Ok(page)
    }

    /// Writes the page `page` of index `index` back to the file, which it must be due
    /// for: marks it as being written back, copies it out and writes the part of it that
    /// lies within the file's size, as `page_extent` gives it, then marks it up to date. Where the
    /// page or the file fails, that error comes back and the page stays marked as being
    /// written back.
    pub fn write_back_page(&self, index: u64, page: &mut CachePage) -> (r: Result<(), LinuxError>)
        requires
            old(page).state == PageState::ToWrite,
        ensures
            final(page).addr == old(page).addr,
            r is Ok ==> final(page).state == PageState::UpToDate,
            r is Err ==> final(page).state == PageState::WriteBack,
    {
        page.mark_write_back();
        let mut buf: Vec<u8> = vec![0u8; 4096];
        match P::read_page(P::phys_to_virt(page.addr), buf.as_mut_slice()) {
            Ok(()) => {},
            Err(e) => {
                return Err(e);
            },
        }
        if let Some((offset, write_size)) = page_extent(index, self.file_size) {
            let (head, _rest) = buf.as_slice().split_at(write_size);
            match self.host.write_at(head, offset) {
                Ok(_) => {},
                Err(e) => {
                    return Err(e);
                },
            }
        }
        page.mark_up_to_date();
        Ok(())
    }

    /// Sets the file's length to the cache's size, then writes back every cached page due
    /// for it, from the most to the least recent, and marks it up to date; the order of the
    /// pages stays. Stops at the first error, which comes back.
    pub fn write_back(&mut self) -> (r: Result<(), LinuxError>)
        requires
            old(self).wf(),
        ensures
            final(self).wf(),
            final(self).inode() == old(self).inode(),
            final(self).size() == old(self).size(),
            r is Ok ==> final(self).entries() == old(self).entries().map_values(|e| settle(e)),
            same_slots(final(self).entries(), old(self).entries()),
            r is Err ==> forall|j: int|
                0 <= j < old(self).entries().len() ==> partly_settled(
                    old(self).entries()[j],
                    #[trigger] final(self).entries()[j],
                ),
    {
        match self.host.set_len(self.file_size) {
            Ok(()) => {},
            Err(e) => {
                return Err(e);
            },
        }
        let ghost s = self.entries();
        let snapshot = lru_iter(&self.pages);
        let n: usize = snapshot.len();
        let mut i: usize = 0;
        while i < n
            invariant
                self.wf(),
                self.inode() == old(self).inode(),
                self.size() == old(self).size(),
                n == s.len(),
                s == old(self).entries(),
                snapshot@ == s.reverse(),
                i <= n,
                keys_distinct(s),
                self.entries().len() == n,
                forall|j: int|
                    0 <= j < n ==> #[trigger] self.entries()[j] == if j >= n - i {
                        settle(s[j])
                    } else {
                        s[j]
                    },
            decreases n - i,
        {
            let (index, page) = snapshot[i];
            let ghost pos: int = n - 1 - i;
            assert(s[pos] == (index, page));
            if page.is_to_write() {
                let mut p = page;
                let res = self.write_back_page(index, &mut p);
                proof {
                    assert(self.entries()[pos].0 == index);
                    assert(keys_distinct(self.entries()));
                    lemma_slot_of_distinct(self.entries(), pos);
                }
                let ghost before = self.entries();
                lru_set_quiet(&mut self.pages, index, p);
                proof {
                    assert forall|j: int| 0 <= j < n implies (#[trigger] self.entries()[j]).0
                        == s[j].0 && self.entries()[j].1.addr == s[j].1.addr by {
                        if j != pos {
                            assert(self.entries()[j] == before[j]);
                        }
                    }
                }
                proof {
                    if res is Err {
                        assert forall|j: int| 0 <= j < n implies partly_settled(
                            s[j],
                            #[trigger] self.entries()[j],
                        ) by {
                            if j != pos {
                                assert(self.entries()[j] == before[j]);
                            } else {
                                assert(self.entries()[j] == (index, p));
                            }
                        }
                    }
                }
                match res {
                    Ok(()) => {},
                    Err(e) => {
                        return Err(e);
                    },
                }
            }
            i = i + 1;
        }
        assert(self.entries() =~= s.map_values(|e| settle(e)));
        Ok(())
    }

    /// Marks every dirty page as due for writing back; the order stays.
    fn mark_all_dirty(&mut self)
        requires
            old(self).wf(),
        ensures
            final(self).wf(),
            final(self).inode() == old(self).inode(),
            final(self).size() == old(self).size(),
            final(self).entries() == old(self).entries().map_values(|e| mark(e)),
    {
        let ghost s = self.entries();
        let snapshot = lru_iter(&self.pages);
        let n: usize = snapshot.len();
        let mut i: usize = 0;
        while i < n
            invariant
                self.wf(),
                self.inode() == old(self).inode(),
                self.size() == old(self).size(),
                n == s.len(),
                s == old(self).entries(),
                snapshot@ == s.reverse(),
                i <= n,
                self.entries().len() == n,
                forall|j: int|
                    0 <= j < n ==> #[trigger] self.entries()[j] == if j >= n - i {
                        mark(s[j])
                    } else {
                        s[j]
                    },
            decreases n - i,
        {
            let (index, page) = snapshot[i];
            let ghost pos: int = n - 1 - i;
            assert(s[pos] == (index, page));
            if page.is_dirty() {
                let mut p = page;
                p.mark_to_write();
                proof {
                    assert(self.entries()[pos].0 == index);
                    lemma_slot_of_distinct(self.entries(), pos);
                }
                lru_set_quiet(&mut self.pages, index, p);
            }
            i = i + 1;
        }
        assert(self.entries() =~= s.map_values(|e| mark(e)));
    }

    /// Marks every dirty page as due for writing back, then writes back as `write_back`
    /// does: where it succeeds, every page that was dirty or due is up to date, and the
    /// order of the pages stays either way.
    pub fn sync(&mut self) -> (r: Result<(), LinuxError>)
        requires
            old(self).wf(),
        ensures
            final(self).wf(),
            final(self).inode() == old(self).inode(),
            final(self).size() == old(self).size(),
            r is Ok ==> final(self).entries() == old(self).entries().map_values(|e| flush(e)),
            same_slots(final(self).entries(), old(self).entries()),
            r is Err ==> forall|j: int|
                0 <= j < old(self).entries().len() ==> partly_settled(
                    mark(old(self).entries()[j]),
                    #[trigger] final(self).entries()[j],
                ),
    {
        let ghost s = self.entries();
        self.mark_all_dirty();
        let r = self.write_back();
        proof {
            if r is Err {
                assert forall|j: int| 0 <= j < s.len() implies partly_settled(
                    mark(s[j]),
                    #[trigger] self.entries()[j],
                ) by {
                    assert(s.map_values(|e| mark(e))[j] == mark(s[j]));
                }
            }
            assert(s.map_values(|e| mark(e)).map_values(|e| settle(e)) =~= s.map_values(|e| flush(e)));
            assert forall|j: int| 0 <= j < s.len() implies (#[trigger] self.entries()[j]).0 == s[j].0
                && self.entries()[j].1.addr == s[j].1.addr by {
                assert(s.map_values(|e| mark(e))[j] == mark(s[j]));
            }
        }
        r
    }

    /// Syncs as `sync` does, then gives every cached page back and empties the cache;
    /// hands back how many pages there were. Where the sync fails, its error comes back
    /// and the pages stay.
    pub fn evict(&mut self) -> (r: Result<usize, LinuxError>)
        requires
            old(self).wf(),
        ensures
            final(self).wf(),
            final(self).inode() == old(self).inode(),
            final(self).size() == old(self).size(),
            r matches Ok(n) ==> n == old(self).entries().len() && final(self).entries()
                == Seq::<(u64, CachePage)>::empty(),
            r is Err ==> same_slots(final(self).entries(), old(self).entries()),
            r is Err ==> forall|j: int|
                0 <= j < old(self).entries().len() ==> partly_settled(
                    mark(old(self).entries()[j]),
                    #[trigger] final(self).entries()[j],
                ),
    {
        match self.sync() {
            Ok(()) => {},
            Err(e) => {
                return Err(e);
            },
        }
        let evicted_count: usize = lru_len(&self.pages);
        let snapshot = lru_iter(&self.pages);
        let mut i: usize = 0;
        while i < snapshot.len()
            invariant
                i <= snapshot@.len(),
            decreases snapshot@.len() - i,
        {
            P::dealloc_page(snapshot[i].1.addr);
            i = i + 1;
        }
        lru_clear(&mut self.pages);
        Ok(evicted_count)
    }

    /// Takes out the least recently used page, writing it back first where it is dirty,
    /// and gives it back; tells whether there was one. Where writing back fails, its error
    /// comes back, and the page is out of the cache all the same.
    pub fn evict_lru(&mut self) -> (r: Result<bool, LinuxError>)
        requires
            old(self).wf(),
        ensures
            final(self).wf(),
            final(self).inode() == old(self).inode(),
            final(self).size() == old(self).size(),
            old(self).entries().len() == 0 ==> r == Ok::<bool, LinuxError>(false)
                && final(self).entries() == old(self).entries(),
            old(self).entries().len() > 0 ==> final(self).entries() == old(self).entries().drop_first()
                && (r is Ok ==> r == Ok::<bool, LinuxError>(true)),
            old(self).entries().len() > 0 && old(self).entries()[0].1.state != PageState::Dirty ==> r
                == Ok::<bool, LinuxError>(true),
            r is Err ==> old(self).entries().len() > 0 && old(self).entries()[0].1.state == PageState::Dirty,
    {
        match lru_pop_lru(&mut self.pages) {
            Some((index, page)) => {
                let mut page = page;
                if page.is_dirty() {
                    page.mark_to_write();
                    match self.write_back_page(index, &mut page) {
                        Ok(()) => {},
                        Err(e) => {
                            return Err(e);
                        },
                    }
                }
                P::dealloc_page(page.addr);
                Ok(true)
            },
            None => Ok(false),
        }
    }

    /// Takes out up to `count` of the least recently used pages, one by one as
    /// `evict_lru` does, and hands back how many it took out. Stops at the first error,
    /// which comes back.
    pub fn evict_lru_pages(&mut self, count: usize) -> (r: Result<usize, LinuxError>)
        requires
            old(self).wf(),
        ensures
            final(self).wf(),
            final(self).inode() == old(self).inode(),
            final(self).size() == old(self).size(),
            final(self).entries().len() <= old(self).entries().len(),
            final(self).entries() == old(self).entries().skip(
                old(self).entries().len() - final(self).entries().len(),
            ),
            r matches Ok(n) ==> n == (if count < old(self).entries().len() {
                count as int
            } else {
                old(self).entries().len() as int
            }) && n == old(self).entries().len() - final(self).entries().len(),
            (forall|j: int|
                0 <= j < old(self).entries().len() && j < count ==> #[trigger] old(self).entries()[j].1.state
                    != PageState::Dirty) ==> r is Ok,
            r is Err ==> {
                let k = old(self).entries().len() - final(self).entries().len() - 1;
                &&& 0 <= k < count
                &&& old(self).entries()[k].1.state == PageState::Dirty
            },
    {
        let ghost s = self.entries();
        let mut removed: usize = 0;
        while removed < count
            invariant
                self.wf(),
                self.inode() == old(self).inode(),
                self.size() == old(self).size(),
                s == old(self).entries(),
                removed <= count,
                removed <= s.len(),
                self.entries() == s.skip(removed as int),
            ensures
                self.wf(),
                self.inode() == old(self).inode(),
                self.size() == old(self).size(),
                removed <= count,
                removed <= s.len(),
                self.entries() == s.skip(removed as int),
                removed == count || removed == s.len(),
            decreases count - removed,
        {
            match lru_pop_lru(&mut self.pages) {
                Some((index, page)) => {
                    assert(self.entries() =~= s.skip(removed as int + 1));
                    assert(page == s[removed as int].1);
                    let mut page = page;
                    if page.is_dirty() {
                        page.mark_to_write();
                        match self.write_back_page(index, &mut page) {
                            Ok(()) => {},
                            Err(e) => {
                                return Err(e);
                            },
                        }
                    }
                    P::dealloc_page(page.addr);
                    removed = removed + 1;
                },
                None => {
                    break ;
                },
            }
        }
        Ok(removed)
    }

    /// Uses each cached page of an index from `lo` to `hi`, in increasing order, and marks
    /// it for writing back where it is dirty.
    fn mark_range(&mut self, lo: u64, hi: u64)
        requires
            old(self).wf(),
            hi < u64::MAX,
        ensures
            final(self).wf(),
            final(self).inode() == old(self).inode(),
            final(self).size() == old(self).size(),
            final(self).entries() == range_marked(old(self).entries(), lo as int, hi as int),
    {
        let ghost s = self.entries();
        let mut index: u64 = lo;
        while index <= hi
            invariant
                self.wf(),
                self.inode() == old(self).inode(),
                self.size() == old(self).size(),
                s == old(self).entries(),
                lo <= index <= hi + 1 || (lo > hi && index == lo),
                hi < u64::MAX,
                self.entries() == range_marked(s, lo as int, index - 1),
            decreases hi + 1 - index,
        {
            let ghost t = self.entries();
            match lru_get(&mut self.pages, index) {
                Some(page) => {
                    proof {
                        lemma_slot_of_found(t, index);
                        let last = self.entries().len() - 1;
                        assert(self.entries()[last].0 == index);
                        lemma_slot_of_distinct(self.entries(), last);
                    }
                    if page.is_dirty() {
                        let mut p = page;
                        p.mark_to_write();
                        lru_set_quiet(&mut self.pages, index, p);
                    }
                    assert(self.entries() =~= touch_mark(t, index));
                },
                None => {
                    assert(self.entries() == touch_mark(t, index));
                },
            }
            index = index + 1;
        }
    }

    /// Uses each cached page of the pages from `start` to `end`, in increasing order,
    /// marks it for writing back where it is dirty, then writes back as `write_back`
    /// does.
    pub fn sync_range(&mut self, start: u64, end: u64) -> (r: Result<(), LinuxError>)
        requires
            old(self).wf(),
        ensures
            final(self).wf(),
            final(self).inode() == old(self).inode(),
            final(self).size() == old(self).size(),
            r is Ok ==> final(self).entries() == range_marked(
                old(self).entries(),
                start as int / 4096,
                end as int / 4096,
            ).map_values(|e| settle(e)),
            same_slots(
                final(self).entries(),
                range_marked(old(self).entries(), start as int / 4096, end as int / 4096),
            ),
    {
        let start_index: u64 = page_index(start);
        let end_index: u64 = page_index(end);
        self.mark_range(start_index, end_index);
        self.write_back()
    }

    /// Gives back and takes out the cached pages of the indices from `lo` to `hi`.
    fn drop_range(&mut self, lo: u64, hi: u64)
        requires
            old(self).wf(),
            hi < u64::MAX,
        ensures
            final(self).wf(),
            final(self).inode() == old(self).inode(),
            final(self).size() == old(self).size(),
            final(self).entries() == drop_keys(old(self).entries(), lo as int, hi as int),
    {
        let ghost s = self.entries();
        let mut index: u64 = lo;
        while index <= hi
            invariant
                self.wf(),
                self.inode() == old(self).inode(),
                self.size() == old(self).size(),
                s == old(self).entries(),
                lo <= index <= hi + 1 || (lo > hi && index == lo),
                hi < u64::MAX,
                self.entries() == drop_keys(s, lo as int, index - 1),
            decreases hi + 1 - index,
        {
            match lru_pop(&mut self.pages, index) {
                Some(page) => {
                    P::dealloc_page(page.addr);
                },
                None => {},
            }
            index = index + 1;
        }
    }

    /// Syncs the pages from `start` to `end` as `sync_range` does, then gives back and
    /// takes out their cached pages. Where the sync fails, its error comes back.
    pub fn evict_range(&mut self, start: u64, end: u64) -> (r: Result<(), LinuxError>)
        requires
            old(self).wf(),
        ensures
            final(self).wf(),
            final(self).inode() == old(self).inode(),
            final(self).size() == old(self).size(),
            r is Ok ==> final(self).entries() == drop_keys(
                range_marked(old(self).entries(), start as int / 4096, end as int / 4096).map_values(
                    |e| settle(e),
                ),
                start as int / 4096,
                end as int / 4096,
            ),
            r is Err ==> same_slots(
                final(self).entries(),
                range_marked(old(self).entries(), start as int / 4096, end as int / 4096),
            ),
    {
        match self.sync_range(start, end) {
            Ok(()) => {},
            Err(e) => {
                return Err(e);
            },
        }
        let start_index: u64 = page_index(start);
        let end_index: u64 = page_index(end);
        self.drop_range(start_index, end_index);
        Ok(())
    }

    /// Syncs the pages from `start` to the end of the file as `sync_range` does, gives
    /// back and takes out their cached pages, and makes `start` the file's size. Where the
    /// sync fails, its error comes back and the size stays.
    pub fn evict_from_pos(&mut self, start: u64) -> (r: Result<(), LinuxError>)
        requires
            old(self).wf(),
        ensures
            final(self).wf(),
            final(self).inode() == old(self).inode(),
            r is Ok ==> final(self).size() == start && final(self).entries() == drop_keys(
                range_marked(
                    old(self).entries(),
                    start as int / 4096,
                    old(self).size() as int / 4096,
                ).map_values(|e| settle(e)),
                start as int / 4096,
                old(self).size() as int / 4096,
            ),
            r is Err ==> final(self).size() == old(self).size() && same_slots(
                final(self).entries(),
                range_marked(old(self).entries(), start as int / 4096, old(self).size() as int / 4096),
            ),
    {
        let size: u64 = self.get_size();
        match self.sync_range(start, size) {
            Ok(()) => {},
            Err(e) => {
                return Err(e);
            },
        }
        let start_index: u64 = page_index(start);
        let end_index: u64 = page_index(self.get_size());
        self.drop_range(start_index, end_index);
        self.set_size(start);
        Ok(())
    }

    /// Reads the file's bytes from `offset` on into `buf`, through the cache, as far as
    /// the buffer and the file's size as the cache sees it go: page by page, each page
    /// loaded as `load_page` does, and hands back how many bytes it read. Bytes of `buf`
    /// past those stay. Stops at the first error, which comes back. Where the cache had
    /// room for the pages read, every page read is cached afterwards, every page cached
    /// before still is, unchanged, and no other page is.
    pub fn read_at(&mut self, buf: &mut [u8], offset: u64) -> (r: Result<usize, LinuxError>)
        requires
            old(self).wf(),
        ensures
            final(self).wf(),
            final(self).inode() == old(self).inode(),
            final(self).size() == old(self).size(),
            final(buf)@.len() == old(buf)@.len(),
            read_len(offset as int, old(buf)@.len() as int, old(self).size() as int) == 0 ==> r
                == Ok::<usize, LinuxError>(0) && final(buf)@ == old(buf)@ && final(self).entries()
                == old(self).entries(),
            r matches Ok(n) ==> {
                &&& n == read_len(offset as int, old(buf)@.len() as int, old(self).size() as int)
                &&& final(buf)@.subrange(n as int, old(buf)@.len() as int) == old(buf)@.subrange(
                    n as int,
                    old(buf)@.len() as int,
                )
                &&& old(self).entries().len() + pages_spanned(offset as int, n as int) < usize::MAX
                    ==> pages_kept_and_loaded(
                    as_map(old(self).entries()),
                    as_map(final(self).entries()),
                    offset as int / 4096,
                    offset as int / 4096 + pages_spanned(offset as int, n as int),
                )
            },
    {
        let file_len: u64 = self.file_size;
        if offset >= file_len {
            return Ok(0);
        }
        let avail: u64 = file_len - offset;
        let read_len: usize = if (buf.len() as u64) < avail {
            buf.len()
        } else {
            avail as usize
        };
        let ghost s = self.entries();
        let ghost first: int = offset as int / 4096;
        let ghost room: bool = s.len() + pages_spanned(offset as int, read_len as int) < usize::MAX;
        let ghost mut done: int = 0;
        let mut current_offset: u64 = offset;
        let mut buf_offset: usize = 0;
        while buf_offset < read_len
            invariant
                self.wf(),
                self.inode() == old(self).inode(),
                self.size() == old(self).size(),
                s == old(self).entries(),
                keys_distinct(s),
                file_len == self.size(),
                offset < file_len,
                read_len <= buf@.len(),
                read_len <= file_len - offset,
                buf@.len() == old(buf)@.len(),
                buf_offset <= read_len,
                current_offset == offset + buf_offset,
                first == offset as int / 4096,
                forall|q: int| buf_offset <= q < buf@.len() ==> buf@[q] == old(buf)@[q],
                buf_offset == 0 ==> self.entries() == s,
                done >= 0,
                done == 0 <==> buf_offset == 0,
                done == pages_spanned(offset as int, buf_offset as int),
                buf_offset < read_len ==> (offset + buf_offset) / 4096 == first + done,
                room == (s.len() + pages_spanned(offset as int, read_len as int) < usize::MAX),
                room ==> self.entries().len() <= s.len() + done,
                room ==> pages_kept_and_loaded(as_map(s), as_map(self.entries()), first, first + done),
                pages_spanned(offset as int, buf_offset as int) <= pages_spanned(offset as int, read_len as int),
            decreases read_len - buf_offset,
        {
            let page_idx: u64 = page_index(current_offset);
            let page_off: usize = page_offset(current_offset);
            let remain: usize = 4096 - page_off;
            let copy_size: usize = if read_len - buf_offset < remain {
                read_len - buf_offset
            } else {
                remain
            };
            let ghost before = self.entries();
            let page = match self.load_page(page_idx) {
                Ok(p) => p,
                Err(e) => {
                    return Err(e);
                },
            };
            proof {
                lemma_spanned_step(offset as int, buf_offset as int, copy_size as int, read_len as int);
                if room {
                    lemma_load_map(before, self.entries(), page_idx, page);
                    lemma_kept_step(as_map(s), as_map(before), as_map(self.entries()), first, first + done, page_idx, page);
                }
            }
            let mut temp: Vec<u8> = vec![0u8; 4096];
            match P::read_page(P::phys_to_virt(page.addr), temp.as_mut_slice()) {
                Ok(()) => {},
                Err(e) => {
                    return Err(e);
                },
            }
            let ghost buf_before = buf@;
            copy_part(buf, buf_offset, temp.as_slice(), page_off, copy_size);
            proof {
                assert forall|q: int| buf_offset + copy_size <= q < buf@.len() implies buf@[q] == old(buf)@[q] by {
                    assert(buf@[q] == buf_before[q]);
                }
            }
            current_offset = current_offset + copy_size as u64;
            buf_offset = buf_offset + copy_size;
            proof {
                done = done + 1;
            }
        }
        if read_len == 0 {
            assert(buf@ =~= old(buf)@);
        }
        assert(buf@.subrange(read_len as int, buf@.len() as int) =~= old(buf)@.subrange(
            read_len as int,
            old(buf)@.len() as int,
        ));
        Ok(read_len)
    }

    /// Writes `buf` to the file at `offset` through the cache: page by page, each page
    /// loaded as `load_page` does, the bytes copied into it, and the page marked dirty as
    /// the most recent entry; then the file's size as the cache sees it grows to the end
    /// of the write where that lies past it. Hands back how many bytes it wrote. Stops at
    /// the first error, which comes back, with the size unchanged. Where the cache had room
    /// for the pages written, every page written is cached and dirty afterwards, every
    /// other page cached before still is, unchanged, and no other page is.
    pub fn write_at(&mut self, buf: &[u8], offset: u64) -> (r: Result<usize, LinuxError>)
        requires
            old(self).wf(),
            offset + buf@.len() <= u64::MAX,
        ensures
            final(self).wf(),
            final(self).inode() == old(self).inode(),
            r is Err ==> final(self).size() == old(self).size(),
            buf@.len() == 0 ==> r == Ok::<usize, LinuxError>(0) && final(self).size() == old(self).size()
                && final(self).entries() == old(self).entries(),
            r matches Ok(n) ==> {
                &&& n == buf@.len()
                &&& final(self).size() == (if n > 0 && offset + n > old(self).size() {
                    (offset + n) as u64
                } else {
                    old(self).size()
                })
                &&& old(self).entries().len() + pages_spanned(offset as int, n as int) < usize::MAX
                    ==> pages_written(
                    as_map(old(self).entries()),
                    as_map(final(self).entries()),
                    offset as int / 4096,
                    offset as int / 4096 + pages_spanned(offset as int, n as int),
                )
            },
    {
        let ghost s = self.entries();
        let ghost first: int = offset as int / 4096;
        let len: usize = buf.len();
        let ghost room: bool = s.len() + pages_spanned(offset as int, len as int) < usize::MAX;
        let ghost mut done: int = 0;
        let mut current_offset: u64 = offset;
        let mut buf_offset: usize = 0;
        proof {
            lemma_as_map(s);
        }
        while buf_offset < len
            invariant
                self.wf(),
                self.inode() == old(self).inode(),
                self.size() == old(self).size(),
                s == old(self).entries(),
                keys_distinct(s),
                len == buf@.len(),
                offset + len <= u64::MAX,
                buf_offset <= len,
                current_offset == offset + buf_offset,
                first == offset as int / 4096,
                buf_offset == 0 ==> self.entries() == s,
                done >= 0,
                done == pages_spanned(offset as int, buf_offset as int),
                buf_offset < len ==> (offset + buf_offset) / 4096 == first + done,
                room == (s.len() + pages_spanned(offset as int, len as int) < usize::MAX),
                room ==> self.entries().len() <= s.len() + done,
                room ==> pages_written(as_map(s), as_map(self.entries()), first, first + done),
                pages_spanned(offset as int, buf_offset as int) <= pages_spanned(offset as int, len as int),
            decreases len - buf_offset,
        {
            let page_idx: u64 = page_index(current_offset);
            let page_off: usize = page_offset(current_offset);
            let remain: usize = 4096 - page_off;
            let copy_size: usize = if len - buf_offset < remain {
                len - buf_offset
            } else {
                remain
            };
            let ghost before = self.entries();
            let page = match self.load_page(page_idx) {
                Ok(p) => p,
                Err(e) => {
                    return Err(e);
                },
            };
            let ghost loaded = self.entries();
            proof {
                lemma_spanned_step(offset as int, buf_offset as int, copy_size as int, len as int);
                if room {
                    lemma_load_map(before, loaded, page_idx, page);
                }
            }
            if page_off != 0 || copy_size < 4096 {
                let mut temp: Vec<u8> = vec![0u8; 4096];
                match P::read_page(P::phys_to_virt(page.addr), temp.as_mut_slice()) {
                    Ok(()) => {},
                    Err(e) => {
                        return Err(e);
                    },
                }
                copy_part(temp.as_mut_slice(), page_off, buf, buf_offset, copy_size);
                match P::write_page(P::phys_to_virt(page.addr), temp.as_slice()) {
                    Ok(()) => {},
                    Err(e) => {
                        return Err(e);
                    },
                }
            } else {
                match P::write_page(P::phys_to_virt(page.addr), &buf[buf_offset..buf_offset + copy_size]) {
                    Ok(()) => {},
                    Err(e) => {
                        return Err(e);
                    },
                }
            }
            assert(slot_of(loaded, page_idx) == loaded.len() - 1);
            match lru_get(&mut self.pages, page_idx) {
                Some(cached) => {
                    let ghost touched = self.entries();
                    let mut dirty = cached;
                    dirty.mark_dirty();
                    proof {
                        lemma_touch_map(loaded, slot_of(loaded, page_idx));
                        assert(touched =~= loaded);
                    }
                    lru_set_quiet(&mut self.pages, page_idx, dirty);
                    proof {
                        assert(cached == page);
                        lemma_update_map(touched, page_idx, dirty);
                        if room {
                            assert(as_map(self.entries()) =~= as_map(before).insert(
                                page_idx,
                                with_state(page, PageState::Dirty),
                            ));
                            lemma_written_step(
                                as_map(s),
                                as_map(before),
                                as_map(self.entries()),
                                first,
                                first + done,
                                page_idx,
                                page,
                            );
                        }
                    }
                },
                None => {},
            }
            current_offset = current_offset + copy_size as u64;
            buf_offset = buf_offset + copy_size;
            proof {
                done = done + 1;
            }
        }
        if len > 0 {
            let end: u64 = offset + len as u64;
            if end > self.file_size {
                self.file_size = end;
            }
        }
        Ok(len)
    }

    /// The number of cached pages.
    pub fn cache_size(&self) -> (r: usize)
        ensures
            r == self.entries().len(),
    {
        lru_len(&self.pages)
    }

    /// The file's size as the cache sees it.
    pub fn get_size(&self) -> (r: u64)
        ensures
            r == self.size(),
    {
        self.file_size
    }

    /// Sets the file's size as the cache sees it.
    pub fn set_size(&mut self, size: u64)
        ensures
            final(self).size() == size,
            final(self).entries() == old(self).entries(),
            final(self).inode() == old(self).inode(),
            final(self).wf() == old(self).wf(),
    {
        self.file_size = size;
    }
}

} // verus!
