//! Pagination calculator: page metadata computed from the requested page, the
//! total record count, and the page size limit.  Pure arithmetic, no store
//! involved.

use vstd::prelude::*;
use vstd::arithmetic::div_mod::{
    lemma_basic_div, lemma_div_nonincreasing, lemma_div_plus_one, lemma_div_pos_is_pos,
    lemma_fundamental_div_mod, lemma_fundamental_div_mod_converse_div,
    lemma_mod_division_less_than_divisor, lemma_mod_pos_bound,
};
use vstd::arithmetic::mul::lemma_mul_inequality;

verus! {

/// The limit actually used for the page-count division: a limit of zero (or
/// below, for a signed reading) is treated as one, so the division is never
/// by zero and the page count is never negative.
pub open spec fn effective_limit(limit: int) -> int {
    if limit <= 0 {
        1
    } else {
        limit
    }
}

/// Number of pages needed to hold `total` records at `limit` records per
/// page: the ceiling of the real-number quotient total / limit.
pub open spec fn page_count_of(total: int, limit: int) -> int
    recommends
        total >= 0,
        limit >= 1,
{
    (total + limit - 1) / limit
}

/// Law: `page_count_of` is the exact ceiling of total / limit.  At an exact
/// multiple of the limit it equals the integer quotient, and otherwise it
/// equals the quotient plus one; equivalently it is the least page count
/// whose pages can hold all the records.
pub proof fn lemma_page_count_is_ceil(total: int, limit: int)
    requires
        total >= 0,
        limit >= 1,
    ensures
        total % limit == 0 ==> page_count_of(total, limit) == total / limit,
        total % limit != 0 ==> page_count_of(total, limit) == total / limit + 1,
        limit * page_count_of(total, limit) >= total,
        limit * (page_count_of(total, limit) - 1) < total,
        0 <= page_count_of(total, limit) <= total,
{
    let q = total / limit;
    let r = total % limit;
    lemma_fundamental_div_mod(total, limit);
    lemma_mod_pos_bound(total, limit);
    lemma_div_pos_is_pos(total, limit);
    if r == 0 {
        lemma_fundamental_div_mod_converse_div(total + limit - 1, limit, q, limit - 1);
        assert(page_count_of(total, limit) == q);
        assert(limit * (q - 1) == limit * q - limit) by (nonlinear_arith);
        lemma_div_nonincreasing(total, limit);
    } else {
        assert((q + 1) * limit == q * limit + limit) by (nonlinear_arith);
        lemma_fundamental_div_mod_converse_div(total + limit - 1, limit, q + 1, r - 1);
        assert(page_count_of(total, limit) == q + 1);
        assert(limit * (q + 1) == limit * q + limit) by (nonlinear_arith);
        lemma_mul_inequality(1, limit, q);
        assert(q <= limit * q);
    }
}

/// Law: a limit of zero behaves exactly as a limit of one, both for the page
/// count and for the last-page flag.
pub proof fn lemma_limit_zero_as_one(total: int, page: int)
    requires
        total >= 0,
    ensures
        page_count_of(total, effective_limit(0)) == page_count_of(total, effective_limit(1)),
        (page >= page_count_of(total, effective_limit(0))) == (page >= page_count_of(
            total,
            effective_limit(1),
        )),
{
}

/// Default page used when a request names none or an unusable one.
pub const DEFAULT_PAGE: i64 = 1;

/// Default page size used when a request names none or an unusable one.
pub const DEFAULT_SIZE: i64 = 10;

/// The page a paginated read actually uses: the requested page when one was
/// given and is at least the default, and the default otherwise.
pub fn effective_page(requested: Option<i64>) -> (r: i64)
    ensures
        r == match requested {
            Some(x) => if x >= DEFAULT_PAGE {
                x
            } else {
                DEFAULT_PAGE
            },
            None => DEFAULT_PAGE,
        },
        r >= 1,
{
    match requested {
        Some(x) if x >= DEFAULT_PAGE => x,
        _ => DEFAULT_PAGE,
    }
}

/// The page size a paginated read actually uses: the requested size when
/// one was given and is at least the default, and the default otherwise.
pub fn effective_size(requested: Option<i64>) -> (r: i64)
    ensures
        r == match requested {
            Some(x) => if x >= DEFAULT_SIZE {
                x
            } else {
                DEFAULT_SIZE
            },
            None => DEFAULT_SIZE,
        },
        r >= 10,
{
    match requested {
        Some(x) if x >= DEFAULT_SIZE => x,
        _ => DEFAULT_SIZE,
    }
}

/// One page of results together with its pagination metadata.
pub struct PaginatedResponse<T> {
    /// The current page's items.
    pub data: Vec<T>,
    /// The 1-based requested page number.
    pub page: u32,
    /// Count of items actually returned on this page.
    pub size: u32,
    /// Total number of pages available at the given limit.
    pub page_count: u32,
    /// Whether `page` is the final page or beyond it.
    pub last: bool,
}

impl<T> PaginatedResponse<T> {
    /// Builds the page metadata around `data`: `size` is the count of items
    /// returned, `page_count` the ceiling of total_records / limit (a zero
    /// limit is guarded to one), and `last` whether the requested page is at
    /// or past the final page.
    pub fn new(data: Vec<T>, page: u32, total_records: u32, limit: u32) -> (r: PaginatedResponse<
        T,
    >)
        requires
            data@.len() <= u32::MAX,
        ensures
            r.data == data,
            r.page == page,
            r.size == data@.len(),
            r.page_count == page_count_of(total_records as int, effective_limit(limit as int)),
            r.last == (page >= r.page_count),
    {
        let limit: u32 = if limit == 0 {
            1
        } else {
            limit
        };
        let page_count: u32 = if total_records == 0 {
            proof {
                lemma_basic_div(limit as int - 1, limit as int);
            }
            0
        } else {
            proof {
                lemma_div_nonincreasing(total_records - 1, limit as int);
                lemma_div_plus_one(total_records - 1, limit as int);
            }
            (total_records - 1) / limit + 1
        };
        let size: u32 = data.len() as u32;
        let last: bool = page >= page_count;
        PaginatedResponse { data, page, size, page_count, last }
    }
}

} // verus!
