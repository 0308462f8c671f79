//! Which rows a listing returns: pages of a query, and windows of a list.

use vstd::prelude::*;

verus! {

/// How many pages of `limit` rows hold `total` rows.
pub open spec fn page_count(total: int, limit: int) -> int
    recommends
        limit > 0,
{
    (total + limit - 1) / limit
}

/// The page actually read for a requested page (from 1): pages past the last
/// one read the last one; with no rows, the first.
pub open spec fn page_index_of(total: int, limit: int, page: int) -> int
    recommends
        limit > 0,
        page > 0,
{
    let last = if page_count(total, limit) > 0 {
        page_count(total, limit) - 1
    } else {
        0
    };
    if page - 1 < last {
        page - 1
    } else {
        last
    }
}

/// The index (from 0) of the page read for `page` (from 1) when `total` rows
/// are split in pages of `limit`.
pub fn page_index(total: u64, limit: u64, page: u64) -> (r: u64)
    requires
        limit > 0,
        page > 0,
        total + limit - 1 <= u64::MAX,
    ensures
        r == page_index_of(total as int, limit as int, page as int),
{
    let pages = (total + (limit - 1)) / limit;
    let last = if pages > 0 {
        pages - 1
    } else {
        0
    };
    let wanted = page - 1;
    if wanted < last {
        wanted
    } else {
        last
    }
}

/// What a listing reads.
#[derive(Clone, Copy, Debug, PartialEq, Eq, Structural)]
pub enum PagePlan {
    /// All rows (no page requested).
    Everything,
    /// No row, and a total of 0 (an empty page size or page 0).
    Nothing,
    /// One page of `limit` rows, by index from 0.
    Page { index: u64, limit: u64 },
}

/// What a listing reads for the requested page size and page, given how many
/// rows match: everything when either is missing, nothing when either is 0,
/// else the page `page_index` picks.
pub fn plan_listing(limit: Option<u64>, page: Option<u64>, total: u64) -> (r: PagePlan)
    requires
        limit.is_some() ==> total + limit.unwrap() <= u64::MAX + 1,
    ensures
        (limit.is_none() || page.is_none()) ==> r == PagePlan::Everything,
        limit.is_some() && page.is_some() && (limit.unwrap() == 0 || page.unwrap() == 0) ==> r
            == PagePlan::Nothing,
        limit.is_some() && page.is_some() && limit.unwrap() > 0 && page.unwrap() > 0 ==> r
            == (PagePlan::Page {
            index: page_index_of(total as int, limit.unwrap() as int, page.unwrap() as int) as u64,
            limit: limit.unwrap(),
        }),
{
    match (limit, page) {
        (Some(l), Some(p)) => {
            if l == 0 || p == 0 {
                PagePlan::Nothing
            } else {
                PagePlan::Page { index: page_index(total, l, p), limit: l }
            }
        },
        _ => PagePlan::Everything,
    }
}

/// The rows `[start, end)` of the page read for `page`.
pub open spec fn page_rows(total: int, limit: int, page: int) -> (int, int) {
    let start = page_index_of(total, limit, page) * limit;
    let end = if start + limit < total {
        start + limit
    } else {
        total
    };
    (start, end)
}

proof fn lemma_page_count(total: int, limit: int)
    requires
        limit > 0,
        total >= 0,
    ensures
        page_count(total, limit) >= 0,
        page_count(total, limit) * limit >= total,
        total > 0 ==> (page_count(total, limit) - 1) * limit < total,
        total == 0 ==> page_count(total, limit) == 0,
{
    let q = page_count(total, limit);
    let m = total + limit - 1;
    assert(m == q * limit + m % limit && 0 <= m % limit < limit && q >= 0) by (nonlinear_arith)
        requires
            limit > 0,
            m >= 0,
            q == m / limit,
    ;
    assert((q - 1) * limit == q * limit - limit) by (nonlinear_arith);
    if total == 0 {
        assert((limit - 1) / limit == 0) by (nonlinear_arith)
            requires
                limit > 0,
        ;
    }
}

/// Pages split the rows: the page read for any page number lies within the
/// rows, a page within range reads `limit` rows from `(page - 1) * limit`
/// (fewer on the last page), and every row is read by exactly the page
/// `row / limit + 1`.
pub proof fn lemma_pages_split_rows(total: int, limit: int, page: int, row: int)
    requires
        limit > 0,
        page > 0,
        total >= 0,
    ensures
        0 <= page_rows(total, limit, page).0 <= page_rows(total, limit, page).1 <= total || total
            == 0,
        page <= page_count(total, limit) ==> page_rows(total, limit, page).0 == (page - 1) * limit,
        0 <= row < total ==> {
            let p = row / limit + 1;
            &&& p <= page_count(total, limit)
            &&& page_rows(total, limit, p).0 <= row < page_rows(total, limit, p).1
        },
{
    lemma_page_count(total, limit);
    let q = page_count(total, limit);
    let idx = page_index_of(total, limit, page);
    if total > 0 {
        assert(0 <= idx <= q - 1);
        assert(0 <= idx * limit <= (q - 1) * limit) by (nonlinear_arith)
            requires
                0 <= idx <= q - 1,
                limit > 0,
        ;
    }
    if 0 <= row < total {
        let d = row / limit;
        assert(row == d * limit + row % limit && 0 <= row % limit < limit && d >= 0)
            by (nonlinear_arith)
            requires
                limit > 0,
                row >= 0,
                d == row / limit,
        ;
        if d >= q {
            assert(d * limit >= q * limit) by (nonlinear_arith)
                requires
                    d >= q,
                    limit > 0,
            ;
        }
        assert(page_index_of(total, limit, d + 1) == d);
    }
}

/// The part of a list that a window shows: `limit` items (50 when not given)
/// from `offset` (0 when not given), fewer at the end of the list.
pub open spec fn window_bounds(len: nat, offset: Option<u64>, limit: Option<u64>) -> (int, int) {
    let o = match offset {
        Some(x) => x as int,
        None => 0,
    };
    let l = match limit {
        Some(x) => x as int,
        None => 50,
    };
    let start = if o < len {
        o
    } else {
        len as int
    };
    let end = if start + l < len {
        start + l
    } else {
        len as int
    };
    (start, end)
}

/// The items of the window: those from `offset` on, at most `limit` of them.
pub fn window<T>(items: Vec<T>, offset: Option<u64>, limit: Option<u64>) -> (r: Vec<T>)
    ensures
        r@ == items@.subrange(
            window_bounds(items.len() as nat, offset, limit).0,
            window_bounds(items.len() as nat, offset, limit).1,
        ),
{
    let len = items.len();
    let o: u64 = match offset {
        Some(x) => x,
        None => 0,
    };
    let l: u64 = match limit {
        Some(x) => x,
        None => 50,
    };
    let start: usize = if o < len as u64 {
        o as usize
    } else {
        len
    };
    let rest: usize = (len - start) as usize;
    let count: usize = if l < rest as u64 {
        l as usize
    } else {
        rest
    };
    let mut items = items;
    let mut tail = items.split_off(start);
    tail.truncate(count);
    tail
}

} // verus!
