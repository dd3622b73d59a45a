//! Pages of the audit log: the most recent events are kept, shown newest first, and cut into
//! pages. The events themselves are read and parsed by the caller; this module decides which
//! of them a page shows, by their timestamps.
use std::collections::VecDeque;
use vstd::prelude::*;

verus! {

/// Most events scanned for one page.
pub const MAX_AUDIT_PAGE_SCAN_EVENTS: usize = 10000;

/// How many recent events to keep for a page: page x page size (saturating), at least one
/// page and at most the scan limit.
pub open spec fn keep_count(page: usize, page_size: usize) -> int {
    let size: int = if page_size >= 1 { page_size as int } else { 1 };
    let product = page as int * size;
    let product = if product > usize::MAX { usize::MAX as int } else { product };
    if product < size { size } else if product > MAX_AUDIT_PAGE_SCAN_EVENTS { MAX_AUDIT_PAGE_SCAN_EVENTS as int } else { product }
}

pub fn audit_keep_count(page: usize, page_size: usize) -> (r: usize)
    requires
        page_size <= MAX_AUDIT_PAGE_SCAN_EVENTS,
    ensures
        r == keep_count(page, page_size),
{
    let size: usize = if page_size >= 1 { page_size } else { 1 };
    let product: usize = saturating_product(page, size);
    if product < size {
        size
    } else if product > MAX_AUDIT_PAGE_SCAN_EVENTS {
        MAX_AUDIT_PAGE_SCAN_EVENTS
    } else {
        product
    }
}

/// Event `i` is shown before event `j`: it is newer, or as new and read earlier.
pub open spec fn shown_before(ts: Seq<i64>, i: int, j: int) -> bool {
    ts[i] > ts[j] || (ts[i] == ts[j] && i < j)
}

/// The first event kept out of `n`: all of them when `keep` is 0 or at least `n`, else the
/// last `keep`.
pub open spec fn first_kept(n: int, keep: int) -> int {
    if keep == 0 || n <= keep { 0 } else { n - keep }
}

/// `order` lists each kept event once, newest first (ties in reading order).
pub open spec fn kept_in_order(ts: Seq<i64>, keep: int, order: Seq<usize>) -> bool {
    let start = first_kept(ts.len() as int, keep);
    &&& order.len() == ts.len() - start
    &&& forall|k: int| 0 <= k < order.len() ==> start <= #[trigger] order[k] < ts.len()
    &&& forall|a: int, b: int| 0 <= a < b < order.len() ==> shown_before(ts, order[a] as int, order[b] as int)
}

/// The first position of page `page` (counted from 1) of `page_size` items, saturating.
pub open spec fn page_start(page: usize, page_size: usize) -> int {
    let p = if page >= 1 { page - 1 } else { 0 };
    let s = p as int * page_size as int;
    if s > usize::MAX { usize::MAX as int } else { s }
}

fn saturating_product(a: usize, b: usize) -> (r: usize)
    ensures
        r == if a as int * b as int > usize::MAX { usize::MAX as int } else { a as int * b as int },
{
    assert(a as int * b as int <= usize::MAX as int * usize::MAX as int) by (nonlinear_arith);
    assert(usize::MAX as int * usize::MAX as int <= u128::MAX) by (nonlinear_arith);
    let wide: u128 = (a as u128) * (b as u128);
    if wide > usize::MAX as u128 {
        usize::MAX
    } else {
        wide as usize
    }
}

/// Inserts event `e` into `order`, kept in showing order.
fn insert_event(order: &mut Vec<usize>, ts: &[i64], e: usize)
    requires
        e < ts.len(),
        forall|k: int| 0 <= k < old(order).len() ==> #[trigger] old(order)@[k] < e,
        forall|a: int, b: int| 0 <= a < b < old(order).len() ==> shown_before(ts@, old(order)@[a] as int, old(order)@[b] as int),
    ensures
        final(order)@.len() == old(order)@.len() + 1,
        forall|a: int, b: int| 0 <= a < b < final(order).len() ==> shown_before(ts@, final(order)@[a] as int, final(order)@[b] as int),
        forall|x: usize| final(order)@.contains(x) <==> (old(order)@.contains(x) || x == e),
{
    let ghost before = order@;
    let mut p: usize = 0;
    while p < order.len() && ts[order[p]] >= ts[e]
        invariant
            p <= order.len(),
            order@ == before,
            e < ts.len(),
            forall|k: int| 0 <= k < before.len() ==> #[trigger] before[k] < e,
            forall|k: int| 0 <= k < before.len() ==> #[trigger] before[k] < ts.len(),
            forall|k: int| 0 <= k < p ==> ts@[before[k] as int] >= ts@[e as int],
        decreases order.len() - p,
    {
        p += 1;
    }
    order.insert(p, e);
    proof {
        let after = order@;
        assert(after =~= before.insert(p as int, e));
        assert forall|a: int, b: int| 0 <= a < b < after.len() implies shown_before(ts@, after[a] as int, after[b] as int) by {
            if b < p {
                assert(after[a] == before[a] && after[b] == before[b]);
            } else if b == p {
                assert(after[a] == before[a]);
                assert(before[a] < e);
            } else if a < p {
                assert(after[a] == before[a] && after[b] == before[b - 1]);
            } else if a == p {
                assert(after[b] == before[b - 1]);
                assert(before[b - 1] < e);
                if p < before.len() {
                    assert(ts@[before[p as int] as int] < ts@[e as int]);
                    if b - 1 > p {
                        assert(shown_before(ts@, before[p as int] as int, before[b - 1] as int));
                    }
                }
            } else {
                assert(after[a] == before[a - 1] && after[b] == before[b - 1]);
            }
        }
        assert forall|x: usize| after.contains(x) <==> (before.contains(x) || x == e) by {
            if after.contains(x) {
                let k = choose|k: int| 0 <= k < after.len() && after[k] == x;
                if k < p {
                    assert(before[k] == x);
                } else if k > p {
                    assert(before[k - 1] == x);
                }
            }
            if before.contains(x) {
                let k = choose|k: int| 0 <= k < before.len() && before[k] == x;
                if k < p {
                    assert(after[k] == x);
                } else {
                    assert(after[k + 1] == x);
                }
            }
            if x == e {
                assert(after[p as int] == x);
            }
        }
    }
}

// ---------------------------------------------------------------- reading the log

/// The kept events once `event` is read: it is added last, after the oldest leaves when
/// `keep` of them are already kept.
pub open spec fn kept_after<T>(recent: Seq<T>, event: T, keep: usize) -> Seq<T> {
    (if recent.len() == keep && recent.len() > 0 { recent.drop_first() } else { recent }).push(event)
}

/// Keeps `event` among the recent events of the log being read, at most `keep` of them
/// (every one when `keep` is 0), oldest first.
pub fn keep_recent<T>(recent: &mut VecDeque<T>, event: T, keep: usize)
    ensures
        final(recent)@ == kept_after(old(recent)@, event, keep),
{
    if recent.len() == keep {
        let _ = recent.pop_front();
    }
    recent.push_back(event);
}

/// The events kept after reading `events`, one after another, into an empty list.
pub open spec fn kept_from<T>(events: Seq<T>, keep: usize) -> Seq<T>
    decreases events.len(),
{
    if events.len() == 0 {
        Seq::empty()
    } else {
        kept_after(kept_from(events.drop_last(), keep), events.last(), keep)
    }
}

/// Reading the log through `keep_recent` keeps exactly its last `keep` events (all of them
/// when `keep` is 0), in the order they were read: the events that a page is cut from.
pub proof fn law_reading_keeps_the_last_events<T>(events: Seq<T>, keep: usize)
    ensures
        kept_from(events, keep) == events.skip(first_kept(events.len() as int, keep as int)),
    decreases events.len(),
{
    let n = events.len() as int;
    if n == 0 {
        assert(events.skip(0) =~= Seq::<T>::empty());
    } else {
        let d = events.drop_last();
        law_reading_keeps_the_last_events(d, keep);
        let before = kept_from(d, keep);
        if keep == 0 || n - 1 < keep {
            assert(before =~= d);
            assert(first_kept(n, keep as int) == 0);
            assert(kept_after(before, events.last(), keep) =~= events.skip(0));
        } else {
            assert(before =~= d.skip(n - 1 - keep));
            assert(before.len() == keep);
            assert(before.drop_first() =~= d.skip(n - keep));
            assert(kept_after(before, events.last(), keep) =~= events.skip(n - keep));
        }
    }
}

/// The page of the audit log to show: of the events with timestamps `timestamps` (in the
/// order they were read), the last `keep` are kept (all when `keep` is 0), ordered newest
/// first (ties in reading order), and page `page` of `page_size` of them is returned as
/// event positions, with the number of events read.
pub fn audit_page(timestamps: &[i64], page: usize, page_size: usize, keep: usize) -> (r: (usize, Vec<usize>))
    ensures
        r.0 == timestamps.len(),
        exists|order: Seq<usize>| {
            &&& kept_in_order(timestamps@, keep as int, order)
            &&& r.1@ == if page_start(page, page_size) >= order.len() {
                Seq::<usize>::empty()
            } else {
                order.subrange(
                    page_start(page, page_size),
                    if page_start(page, page_size) + page_size > order.len() {
                        order.len() as int
                    } else {
                        page_start(page, page_size) + page_size
                    },
                )
            }
        },
{
    let n = timestamps.len();
    let start: usize = if keep == 0 || n <= keep { 0 } else { n - keep };
    let mut order: Vec<usize> = Vec::new();
    let mut e: usize = start;
    while e < n
        invariant
            start <= e <= n,
            n == timestamps.len(),
            start == first_kept(n as int, keep as int),
            order.len() == e - start,
            forall|k: int| 0 <= k < order.len() ==> start <= #[trigger] order@[k] < e,
            forall|a: int, b: int| 0 <= a < b < order.len() ==> shown_before(timestamps@, order@[a] as int, order@[b] as int),
        decreases n - e,
    {
        let ghost before = order@;
        insert_event(&mut order, timestamps, e);
        proof {
            assert forall|k: int| 0 <= k < order.len() implies start <= #[trigger] order@[k] < e + 1 by {
                assert(order@.contains(order@[k]));
                if before.contains(order@[k]) {
                    let j = choose|j: int| 0 <= j < before.len() && before[j] == order@[k];
                    assert(start <= before[j] < e);
                }
            }
        }
        e += 1;
    }
    let p: usize = if page >= 1 { page - 1 } else { 0 };
    let first: usize = saturating_product(p, page_size);
    let mut items: Vec<usize> = Vec::new();
    if first < order.len() {
        let end: usize = if page_size > order.len() - first { order.len() } else { first + page_size };
        let mut k: usize = first;
        while k < end
            invariant
                first <= k <= end <= order.len(),
                items@ == order@.subrange(first as int, k as int),
            decreases end - k,
        {
            items.push(order[k]);
            k += 1;
            assert(items@ =~= order@.subrange(first as int, k as int));
        }
    }
    assert(kept_in_order(timestamps@, keep as int, order@));
    (n, items)
}


/// The page and page size of an audit listing request: page 1 when unset, at least 1; 50
/// events a page when unset, between 1 and 200.
pub fn audit_query_page(page: Option<usize>, page_size: Option<usize>) -> (r: (usize, usize))
    ensures
        r.0 == match page {
            Some(p) => if p >= 1 { p } else { 1 },
            None => 1,
        },
        r.1 == match page_size {
            Some(s) => if s < 1 { 1 } else if s > 200 { 200 } else { s },
            None => 50,
        },
{
    let p = match page {
        Some(p) => if p >= 1 { p } else { 1 },
        None => 1,
    };
    let s = match page_size {
        Some(s) => if s < 1 { 1 } else if s > 200 { 200 } else { s },
        None => 50,
    };
    (p, s)
}

/// The positions `start..end` of page `page` of `page_size` events among `total`, or `None`
/// when the page starts past the end.
pub fn page_window(total: usize, page: usize, page_size: usize) -> (r: Option<(usize, usize)>)
    requires
        page >= 1,
        (page - 1) * page_size <= usize::MAX,
    ensures
        match r {
            Some((start, end)) => start == (page - 1) * page_size && start < total && end == if start + page_size
                < total { start + page_size } else { total as int },
            None => (page - 1) * page_size >= total,
        },
{
    let start = (page - 1) * page_size;
    if start >= total {
        None
    } else {
        let end = if page_size < total - start { start + page_size } else { total };
        Some((start, end))
    }
}

} // verus!
