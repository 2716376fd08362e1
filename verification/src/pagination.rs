//! Fixed-size pages over a listing.

use vstd::prelude::*;

verus! {

/// The number of items on a full page.
pub const PER_PAGE: i64 = 20;

/// The page that is served for a requested one: pages count from 1, a missing
/// page is the first, and anything below 1 is the first too.
pub open spec fn clamp_page_spec(page: Option<int>) -> int {
    match page {
        Some(p) => if p < 1 {
            1
        } else {
            p
        },
        None => 1,
    }
}

/// How many items stand before page `page` of a listing of `len` items:
/// `(page - 1) * 20`, or all of them where the page lies past the end.
pub open spec fn page_start(len: int, page: int) -> int {
    let offset = (clamp_page_spec(Some(page)) - 1) * PER_PAGE;
    if offset < len {
        offset
    } else {
        len
    }
}

/// Where page `page` of a listing of `len` items ends.
pub open spec fn page_end(len: int, page: int) -> int {
    if page_start(len, page) + PER_PAGE < len {
        page_start(len, page) + PER_PAGE
    } else {
        len
    }
}

/// The items of page `page` of a listing.
pub open spec fn page_of<T>(all: Seq<T>, page: int) -> Seq<T> {
    all.subrange(page_start(all.len() as int, page), page_end(all.len() as int, page))
}

/// What an `Option<i64>` holds, as a mathematical value.
pub open spec fn opt_int(v: Option<i64>) -> Option<int> {
    match v {
        Some(x) => Some(x as int),
        None => None,
    }
}

/// The page that is served for a requested one.
pub fn clamp_page(page: Option<i64>) -> (served: i64)
    ensures
        served == clamp_page_spec(opt_int(page)),
        served >= 1,
{
    match page {
        Some(p) => if p < 1 {
            1
        } else {
            p
        },
        None => 1,
    }
}

/// The half-open range of positions that page `page` covers in a listing of
/// `len` items. No page is an error: one past the end covers nothing.
pub fn page_bounds(len: usize, page: i64) -> (bounds: (usize, usize))
    ensures
        bounds.0 == page_start(len as int, page as int),
        bounds.1 == page_end(len as int, page as int),
        bounds.0 <= bounds.1 <= len,
        bounds.1 - bounds.0 <= PER_PAGE,
{
    let served = clamp_page(Some(page));
    let skipped: u64 = (served - 1) as u64;
    let full_pages: u64 = (len / 20) as u64;
    if skipped > full_pages {
        assert((served - 1) * 20 >= len) by (nonlinear_arith)
            requires
                served - 1 >= len / 20 + 1,
        ;
        (len, len)
    } else {
        assert(skipped * 20 <= len) by (nonlinear_arith)
            requires
                skipped <= len / 20,
        ;
        let start: usize = (skipped * 20) as usize;
        let end: usize = if len - start > 20 {
            start + 20
        } else {
            len
        };
        (start, end)
    }
}

/// Page 0, or any page below 1, is page 1.
pub proof fn law_low_pages_are_the_first<T>(all: Seq<T>, page: int)
    requires
        page < 1,
    ensures
        clamp_page_spec(Some(page)) == 1,
        page_of(all, page) == page_of(all, 1),
        page_of(all, 1) == all.subrange(
            0,
            if all.len() < PER_PAGE {
                all.len() as int
            } else {
                PER_PAGE as int
            },
        ),
{
}

/// A page past the end of the listing is empty.
pub proof fn law_page_past_the_end_is_empty<T>(all: Seq<T>, page: int)
    requires
        (clamp_page_spec(Some(page)) - 1) * PER_PAGE >= all.len(),
    ensures
        page_of(all, page) == Seq::<T>::empty(),
{
    assert(page_of(all, page) =~= Seq::<T>::empty());
}

/// A page holds at most twenty items, and the pages of a listing, put one
/// after the other, make up the listing.
pub proof fn law_pages_tile_the_listing<T>(all: Seq<T>, page: int)
    requires
        page >= 1,
    ensures
        page_of(all, page).len() <= PER_PAGE,
        page_start(all.len() as int, page + 1) == page_end(all.len() as int, page),
{
}

} // verus!
