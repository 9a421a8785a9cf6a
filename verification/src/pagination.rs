//! Page numbers for lists that are handed out page by page.

use vstd::prelude::*;

verus! {

/// The page a client asks for.
pub struct PaginationQuery {
    pub page: Option<i64>,
}

/// One page of a list together with its place in the whole.
pub struct PaginatedResponse<T> {
    pub data: Vec<T>,
    pub pagination: PaginationMeta,
}

/// Where a page stands in a list.
#[derive(Debug, Clone, Copy, PartialEq, Eq)]
pub struct PaginationMeta {
    pub current_page: i64,
    pub per_page: i64,
    pub total: i64,
    pub total_pages: i64,
    pub has_next: bool,
    pub has_prev: bool,
}

/// The quotient of `a` by `b`, rounded toward zero.
pub open spec fn quotient(a: int, b: int) -> int
    recommends
        b != 0,
{
    let magnitude = (if a >= 0 {
        a
    } else {
        -a
    }) / (if b >= 0 {
        b
    } else {
        -b
    });
    if (a >= 0) == (b >= 0) {
        magnitude
    } else {
        -magnitude
    }
}

/// The number of pages that `total` items fill with `per_page` items on a
/// page: `total / per_page`, rounded up where both are positive.
pub open spec fn page_count(total: int, per_page: int) -> int
    recommends
        per_page != 0,
{
    quotient(total + per_page - 1, per_page)
}

impl PaginationMeta {
    /// The place of page `current_page` in a list of `total` items with
    /// `per_page` items on a page. There is a next page while the current
    /// one is not the last, and a previous one behind the first.
    ///
    /// The page size is not zero, and the page count fits in 64 bits.
    pub fn new(current_page: i64, per_page: i64, total: i64) -> (meta: PaginationMeta)
        requires
            per_page != 0,
            i64::MIN <= total + per_page - 1 <= i64::MAX,
            !(total + per_page - 1 == i64::MIN && per_page == -1),
        ensures
            meta.current_page == current_page,
            meta.per_page == per_page,
            meta.total == total,
            meta.total_pages == page_count(total as int, per_page as int),
            meta.has_next == (current_page < meta.total_pages),
            meta.has_prev == (current_page > 1),
    {
        let filled: i128 = total as i128 + per_page as i128 - 1;
        let size: i128 = per_page as i128;
        let filled_abs: i128 = if filled >= 0 {
            filled
        } else {
            0 - filled
        };
        let size_abs: i128 = if size >= 0 {
            size
        } else {
            0 - size
        };
        let magnitude: i128 = filled_abs / size_abs;
        assert(magnitude <= filled_abs && (size_abs >= 2 ==> 2 * magnitude <= filled_abs)) by (nonlinear_arith)
            requires
                magnitude == filled_abs / size_abs,
                filled_abs >= 0,
                size_abs >= 1,
        ;
        let total_pages: i64 = if (filled >= 0) == (size >= 0) {
            magnitude as i64
        } else {
            (0 - magnitude) as i64
        };
        PaginationMeta {
            current_page,
            per_page,
            total,
            total_pages,
            has_next: current_page < total_pages,
            has_prev: current_page > 1,
        }
    }
}

} // verus!
