use vstd::prelude::*;

verus! {

/// Page metadata returned with every paginated listing.
#[derive(Debug, PartialEq, Eq)]
pub struct PaginationMeta {
    pub total_items: i64,
    pub total_pages: i64,
    pub current_page: i64,
    pub page_size: i64,
}

/// One page of a listing, with its metadata.
#[derive(Debug, PartialEq, Eq)]
pub struct PaginatedResponse<T> {
    pub status: u16,
    pub message: String,
    pub data: Vec<T>,
    pub meta: PaginationMeta,
}

/// The `page` and `page_size` query parameters of a listing request, both optional.
#[derive(Debug, PartialEq, Eq)]
pub struct PaginationParams {
    pub page: Option<i64>,
    pub page_size: Option<i64>,
}

/// The requested page, 1 when none is given.
pub open spec fn page_of(params: PaginationParams) -> i64 {
    match params.page {
        Some(p) => p,
        None => 1,
    }
}

/// The requested page size, 10 when none is given.
pub open spec fn page_size_of(params: PaginationParams) -> i64 {
    match params.page_size {
        Some(s) => s,
        None => 10,
    }
}

/// The number of rows before the requested page.
pub open spec fn offset_of(params: PaginationParams) -> int {
    (page_of(params) - 1) * page_size_of(params)
}

/// The requested page and offset can be computed in `i64` arithmetic.
pub open spec fn pagination_fits(params: PaginationParams) -> bool {
    &&& page_of(params) - 1 >= i64::MIN
    &&& i64::MIN <= offset_of(params) <= i64::MAX
}

/// Whether the requested page's offset can be computed without overflow.
pub fn pagination_in_range(params: &PaginationParams) -> (fits: bool)
    ensures
        fits == pagination_fits(*params),
{
    let page = match params.page {
        Some(p) => p,
        None => 1,
    };
    let size = match params.page_size {
        Some(s) => s,
        None => 10,
    };
    if page == i64::MIN {
        return false;
    }
    let previous = page - 1;
    if previous == 0 || size == 0 {
        assert(offset_of(*params) == 0) by (nonlinear_arith)
            requires offset_of(*params) == previous * size, previous == 0 || size == 0;
        return true;
    }
    let a = magnitude(previous);
    let b = magnitude(size);
    let negative = (previous < 0) != (size < 0);
    let limit: u64 = if negative { 9223372036854775808u64 } else { 9223372036854775807u64 };
    let fits = a <= limit / b;
    proof {
        lemma_product_fits(previous as int, size as int, a as int, b as int, limit as int, negative);
    }
    fits
}

/// A product fits below `limit` in magnitude exactly when the first factor's magnitude is at
/// most `limit / b`.
proof fn lemma_product_fits(x: int, y: int, a: int, b: int, limit: int, negative: bool)
    requires
        x != 0,
        y != 0,
        a == (if x >= 0 { x } else { -x }),
        b == (if y >= 0 { y } else { -y }),
        negative == ((x < 0) != (y < 0)),
        limit == (if negative { 9223372036854775808int } else { 9223372036854775807int }),
    ensures
        (a <= limit / b) == (i64::MIN <= x * y <= i64::MAX),
{
    let q = limit / b;
    vstd::arithmetic::div_mod::lemma_fundamental_div_mod(limit, b);
    vstd::arithmetic::div_mod::lemma_mod_bound(limit, b);
    let r = limit % b;
    assert(limit == q * b + r) by (nonlinear_arith)
        requires limit == b * q + r;
    assert(a * b >= 0) by (nonlinear_arith)
        requires a >= 0, b >= 0;
    if negative {
        assert(x * y == -(a * b)) by (nonlinear_arith)
            requires a == (if x >= 0 { x } else { -x }), b == (if y >= 0 { y } else { -y }), (x < 0) != (y < 0);
    } else {
        assert(x * y == a * b) by (nonlinear_arith)
            requires a == (if x >= 0 { x } else { -x }), b == (if y >= 0 { y } else { -y }), (x < 0) == (y < 0);
    }
    if a <= q {
        assert(a * b <= q * b) by (nonlinear_arith)
            requires a <= q, b > 0;
    } else {
        assert(a * b >= (q + 1) * b) by (nonlinear_arith)
            requires a >= q + 1, b > 0;
        assert((q + 1) * b > limit) by (nonlinear_arith)
            requires limit == q * b + r, r < b;
    }
}

/// The page, the page size and the offset of the requested page.
pub fn resolve_pagination(params: &PaginationParams) -> (res: (i64, i64, i64))
    requires
        pagination_fits(*params),
    ensures
        res.0 == page_of(*params),
        res.1 == page_size_of(*params),
        res.2 == offset_of(*params),
        params.page_size matches Some(s) ==> res.1 == s,
        params.page_size is None ==> res.1 == 10,
        params.page matches Some(p) ==> res.0 == p,
        params.page is None ==> res.0 == 1 && res.2 == 0,
{
    let page = match params.page {
        Some(p) => p,
        None => 1,
    };
    let page_size = match params.page_size {
        Some(s) => s,
        None => 10,
    };
    let offset = (page - 1) * page_size;
    (page, page_size, offset)
}

/// Ceiling of `total / size` for a non-zero `size`, over the integers.
pub open spec fn ceil_div(total: int, size: int) -> int
    recommends
        size != 0,
{
    if size > 0 {
        -((-total) / size)
    } else {
        -(total / (-size))
    }
}

/// Clamps an integer into the range of `i64`.
pub open spec fn saturate_i64(x: int) -> i64 {
    if x > i64::MAX {
        i64::MAX
    } else if x < i64::MIN {
        i64::MIN
    } else {
        x as i64
    }
}

/// Number of pages needed for `total_items` items at `page_size` items per page.
/// A zero page size gives the largest `i64` for a positive total, the smallest for a
/// negative total and zero for an empty total; results beyond `i64` are clamped.
pub open spec fn total_pages_of(total_items: i64, page_size: i64) -> i64 {
    if page_size == 0 {
        if total_items > 0 {
            i64::MAX
        } else if total_items < 0 {
            i64::MIN
        } else {
            0
        }
    } else {
        saturate_i64(ceil_div(total_items as int, page_size as int))
    }
}

/// Builds the page metadata for a listing of `total_items` items.
pub fn calculate_meta(total_items: i64, page: i64, page_size: i64) -> (meta: PaginationMeta)
    ensures
        meta.total_items == total_items,
        meta.total_pages == total_pages_of(total_items, page_size),
        meta.current_page == page,
        meta.page_size == page_size,
{
    let total_pages = pages_for(total_items, page_size);
    PaginationMeta { total_items, total_pages, current_page: page, page_size }
}

/// The absolute value of `x` as an unsigned integer (exact also for `i64::MIN`).
fn magnitude(x: i64) -> (m: u64)
    ensures
        m as int == (if x >= 0 { x as int } else { -(x as int) }),
{
    if x >= 0 {
        x as u64
    } else if x == i64::MIN {
        9223372036854775808u64
    } else {
        (-x) as u64
    }
}

/// For a non-negative `a` and a positive `b`, the ceiling of `a / b` is the floor
/// plus one exactly when the division leaves a remainder.
proof fn lemma_ceil_of_nonnegative(a: int, b: int)
    requires
        a >= 0,
        b > 0,
    ensures
        -((-a) / b) == a / b + (if a % b == 0 { 0int } else { 1int }),
        a / b >= 0,
        a / b <= a,
        a % b != 0 ==> a / b < a,
{
    let q = a / b;
    let r = a % b;
    vstd::arithmetic::div_mod::lemma_fundamental_div_mod(a, b);
    assert(0 <= r < b) by {
        vstd::arithmetic::div_mod::lemma_mod_bound(a, b);
    };
    assert(a == q * b + r) by (nonlinear_arith)
        requires a == b * q + r;
    assert(q >= 0) by (nonlinear_arith)
        requires a == q * b + r, 0 <= r < b, b > 0, a >= 0;
    assert(q <= a) by (nonlinear_arith)
        requires a == q * b + r, 0 <= r, b >= 1, q >= 0;
    if r == 0 {
        assert(-a == (-q) * b + 0) by (nonlinear_arith)
            requires a == q * b + r, r == 0;
        vstd::arithmetic::div_mod::lemma_fundamental_div_mod_converse(-a, b, -q, 0);
    } else {
        assert(q < a) by (nonlinear_arith)
            requires a == q * b + r, 0 < r, b >= 1, q >= 0;
        assert(-a == (-q - 1) * b + (b - r)) by (nonlinear_arith)
            requires a == q * b + r;
        vstd::arithmetic::div_mod::lemma_fundamental_div_mod_converse(-a, b, -q - 1, b - r);
    }
}

/// Number of pages, computed on magnitudes so that no intermediate value overflows.
fn pages_for(total_items: i64, page_size: i64) -> (pages: i64)
    ensures
        pages == total_pages_of(total_items, page_size),
{
    if page_size == 0 {
        if total_items > 0 {
            i64::MAX
        } else if total_items < 0 {
            i64::MIN
        } else {
            0
        }
    } else if total_items == 0 {
        assert(ceil_div(0, page_size as int) == 0);
        0
    } else {
        let a = magnitude(total_items);
        let b = magnitude(page_size);
        proof {
            lemma_ceil_of_nonnegative(a as int, b as int);
        }
        let q = a / b;
        if (total_items > 0) == (page_size > 0) {
            let up = if a % b == 0 { q } else { q + 1 };
            assert(up as int == ceil_div(total_items as int, page_size as int));
            if up > 9223372036854775807u64 {
                i64::MAX
            } else {
                up as i64
            }
        } else {
            assert(-(q as int) == ceil_div(total_items as int, page_size as int));
            if q == 9223372036854775808u64 {
                i64::MIN
            } else {
                -(q as i64)
            }
        }
    }
}

/// With a positive page size and a non-negative total, the pages hold every item and the
/// last page is never empty: `(pages - 1) * page_size < total_items <= pages * page_size`.
pub proof fn law_pages_cover_items(total_items: i64, page_size: i64)
    requires
        total_items >= 0,
        page_size > 0,
    ensures
        total_pages_of(total_items, page_size) >= 0,
        (total_pages_of(total_items, page_size) as int) * (page_size as int) >= total_items as int,
        (total_pages_of(total_items, page_size) as int - 1) * (page_size as int) < total_items as int,
{
    let t = total_items as int;
    let s = page_size as int;
    lemma_ceil_of_nonnegative(t, s);
    let q = t / s;
    let r = t % s;
    vstd::arithmetic::div_mod::lemma_fundamental_div_mod(t, s);
    vstd::arithmetic::div_mod::lemma_mod_bound(t, s);
    assert(t == q * s + r) by (nonlinear_arith)
        requires t == s * q + r;
    let c = ceil_div(t, s);
    assert(c <= t);
    assert(total_pages_of(total_items, page_size) as int == c);
    if r == 0 {
        assert(c * s >= t);
        assert((c - 1) * s < t) by (nonlinear_arith)
            requires c == q, t == q * s, s > 0;
    } else {
        assert(c * s >= t) by (nonlinear_arith)
            requires c == q + 1, t == q * s + r, r < s;
        assert((c - 1) * s < t) by (nonlinear_arith)
            requires c == q + 1, t == q * s + r, r > 0;
    }
}

/// A listing uses the page size it was asked for whenever one is given, whatever the page
/// parameter says, and 10 only when none is given; it shows the page asked for, the first when
/// none is given (starting at row 0); and each page starts one page size after the previous one.
pub proof fn law_requested_pagination_is_used(page: Option<i64>, size: Option<i64>, other_page: Option<i64>)
    ensures
        size matches Some(s) ==> page_size_of(PaginationParams { page, page_size: size }) == s,
        size is None ==> page_size_of(PaginationParams { page, page_size: size }) == 10,
        page_size_of(PaginationParams { page, page_size: size })
            == page_size_of(PaginationParams { page: other_page, page_size: size }),
        page matches Some(p) ==> page_of(PaginationParams { page, page_size: size }) == p,
        page is None ==> page_of(PaginationParams { page, page_size: size }) == 1,
        page is None ==> offset_of(PaginationParams { page, page_size: size }) == 0,
        page is Some && page->0 < i64::MAX ==> offset_of(PaginationParams { page: Some((page->0 + 1) as i64), page_size: size })
            == offset_of(PaginationParams { page, page_size: size }) + page_size_of(PaginationParams { page, page_size: size }),
{
    let params = PaginationParams { page, page_size: size };
    let s = page_size_of(params) as int;
    if let Some(p) = page {
        if p < i64::MAX {
            let next = PaginationParams { page: Some((p + 1) as i64), page_size: size };
            assert(page_size_of(next) == page_size_of(params));
            assert(offset_of(next) == (p as int) * s);
            assert(offset_of(params) == (p as int - 1) * s);
            assert((p as int) * s == (p as int - 1) * s + s) by (nonlinear_arith);
        }
    }
}

} // verus!
