use vstd::prelude::*;

use crate::error::{BichonError, BichonResult, ErrorCode};

verus! {

/// Largest page size that a listing accepts.
pub const MAX_PAGE_SIZE: u64 = 500;

/// One page of a list, with the pagination parameters it was cut with.
#[derive(Debug)]
pub struct Paginated<T> {
    pub page: Option<u64>,
    pub page_size: Option<u64>,
    pub total_items: u64,
    pub total_pages: Option<u64>,
    pub items: Vec<T>,
}

/// A page of results as the REST surface returns it.
#[derive(Debug, PartialEq, Eq)]
pub struct DataPage<S> {
    /// The current page number (starting from 1).
    pub current_page: Option<u64>,
    /// The number of items per page.
    pub page_size: Option<u64>,
    /// The total number of items across all pages.
    pub total_items: u64,
    /// The items of the current page.
    pub items: Vec<S>,
    /// The total number of pages, when computed.
    pub total_pages: Option<u64>,
}

impl<S> From<Paginated<S>> for DataPage<S> {
    fn from(paginated: Paginated<S>) -> (r: Self) {
        DataPage {
            current_page: paginated.page,
            page_size: paginated.page_size,
            total_items: paginated.total_items,
            total_pages: paginated.total_pages,
            items: paginated.items,
        }
    }
}

impl<S> vstd::std_specs::convert::FromSpecImpl<Paginated<S>> for DataPage<S> {
    open spec fn obeys_from_spec() -> bool {
        true
    }

    open spec fn from_spec(paginated: Paginated<S>) -> Self {
        DataPage {
            current_page: paginated.page,
            page_size: paginated.page_size,
            total_items: paginated.total_items,
            total_pages: paginated.total_pages,
            items: paginated.items,
        }
    }
}

/// `n` items split in pages of `size` take this many pages.
pub open spec fn ceil_div(n: int, size: int) -> int {
    (n + size - 1) / size
}

/// Index of the first item of page `page` (pages count from 1).
pub open spec fn page_start(page: int, size: int) -> int {
    (page - 1) * size
}

/// Number of the `n` items that page `page` of size `size` holds.
pub open spec fn page_len(n: int, page: int, size: int) -> int {
    let start = page_start(page, size);
    if start >= n {
        0
    } else if start + size <= n {
        size
    } else {
        n - start
    }
}

/// `out` holds, in order, clones of `items[start..start + out.len()]`.
pub open spec fn clones_of<T: Clone>(items: Seq<T>, start: int, out: Seq<T>) -> bool {
    forall|j: int| 0 <= j < out.len() ==> cloned(items[start + j], #[trigger] out[j])
}

/// A page parameter of 0 is refused.
pub open spec fn pagination_refused(page: Option<u64>, page_size: Option<u64>) -> bool {
    (page == Some(0u64)) || (page_size == Some(0u64))
}

/// Cuts page `page` of size `page_size` out of `items`. Both given and
/// positive: the page's items and the page count `ceil(n / page_size)`
/// (0 for no items); a page past the end is empty. Either one 0:
/// `InvalidParameter`. Otherwise every item, with no page count.
pub fn paginate_vec<T: Clone>(items: &Vec<T>, page: Option<u64>, page_size: Option<u64>) -> (r:
    BichonResult<Paginated<T>>)
    ensures
        pagination_refused(page, page_size) <==> r is Err,
        r matches Err(e) ==> e.code == ErrorCode::InvalidParameter,
        r matches Ok(pg) ==> {
            &&& pg.page == page
            &&& pg.page_size == page_size
            &&& pg.total_items == items.len()
            &&& (page is Some && page_size is Some) ==> {
                let p = page->0 as int;
                let s = page_size->0 as int;
                &&& pg.total_pages == Some(ceil_div(items.len() as int, s) as u64)
                &&& pg.items.len() == page_len(items.len() as int, p, s)
                &&& clones_of(items@, page_start(p, s), pg.items@)
            }
            &&& !(page is Some && page_size is Some) ==> {
                &&& pg.total_pages is None
                &&& pg.items.len() == items.len()
                &&& clones_of(items@, 0, pg.items@)
            }
        },
{
    let total_items = items.len() as u64;
    match (page, page_size) {
        (Some(p), Some(s)) => {
            if p == 0 || s == 0 {
                return Err(
                    BichonError::new(
                        ErrorCode::InvalidParameter,
                        "'page' and 'page_size' must be greater than 0.".to_string(),
                    ),
                );
            }
            let ghost n = items.len() as int;
            let pm1 = (p - 1) as u128;
            let s_wide = s as u128;
            assert(pm1 * s_wide <= 0xffff_ffff_ffff_ffffu128 * 0xffff_ffff_ffff_ffffu128)
                by (nonlinear_arith)
                requires
                    pm1 <= 0xffff_ffff_ffff_ffffu128,
                    s_wide <= 0xffff_ffff_ffff_ffffu128,
            ;
            let offset: u128 = pm1 * s_wide;
            let n_wide = total_items as u128;
            let total_pages = ((n_wide + s_wide - 1) / s_wide) as u64;
            proof {
                let m = (n_wide + s_wide - 1) as int;
                let sw = s_wide as int;
                let nn = n_wide as int;
                assert(m / sw <= nn) by (nonlinear_arith)
                    requires
                        sw >= 1,
                        nn >= 0,
                        m == nn + sw - 1,
                {
                    assert(m < (nn + 1) * sw);
                    assert(m / sw < nn + 1);
                }
            }
            assert(total_pages == ceil_div(n, s as int));
            let data = if offset >= n_wide {
                Vec::new()
            } else {
                let start = offset as usize;
                let end: usize = if offset + s_wide <= n_wide {
                    (offset + s_wide) as usize
                } else {
                    items.len()
                };
                copy_range(items, start, end)
            };
            Ok(
                Paginated {
                    page,
                    page_size,
                    total_items,
                    total_pages: Some(total_pages),
                    items: data,
                },
            )
        },
        _ => {
            if page == Some(0u64) || page_size == Some(0u64) {
                return Err(
                    BichonError::new(
                        ErrorCode::InvalidParameter,
                        "'page' and 'page_size' must be greater than 0.".to_string(),
                    ),
                );
            }
            let data = copy_range(items, 0, items.len());
            Ok(Paginated { page, page_size, total_items, total_pages: None, items: data })
        },
    }
}

/// Clones of `items[start..end]`, in order.
fn copy_range<T: Clone>(items: &Vec<T>, start: usize, end: usize) -> (r: Vec<T>)
    requires
        start <= end <= items.len(),
    ensures
        r.len() == end - start,
        clones_of(items@, start as int, r@),
{
    let mut r: Vec<T> = Vec::new();
    let mut i: usize = start;
    while i < end
        invariant
            start <= i <= end <= items.len(),
            r.len() == i - start,
            clones_of(items@, start as int, r@),
        decreases end - i,
    {
        let c = items[i].clone();
        r.push(c);
        i = i + 1;
    }
    r
}

/// A listing page must be at least 1 and its size between 1 and the maximum.
pub fn validate_pagination_params(page: u64, page_size: u64) -> (r: BichonResult<()>)
    ensures
        r is Ok <==> (page > 0 && page_size > 0 && page_size <= MAX_PAGE_SIZE),
        r matches Err(e) ==> e.code == ErrorCode::InvalidParameter,
{
    if page == 0 || page_size == 0 {
        return Err(
            BichonError::new(
                ErrorCode::InvalidParameter,
                "Both page and page_size must be greater than 0.".to_string(),
            ),
        );
    }
    if page_size > MAX_PAGE_SIZE {
        return Err(
            BichonError::new(
                ErrorCode::InvalidParameter,
                "The page_size exceeds the maximum allowed limit of 500.".to_string(),
            ),
        );
    }
    Ok(())
}

/// The page count is the ceiling of `n / size`: that many pages hold all `n`
/// items, and one fewer would not.
pub proof fn lemma_page_count_is_ceiling(n: nat, size: nat)
    requires
        size > 0,
    ensures
        ceil_div(n as int, size as int) * size >= n,
        n > 0 ==> (ceil_div(n as int, size as int) - 1) * size < n,
        n == 0 ==> ceil_div(n as int, size as int) == 0,
{
    let q = ceil_div(n as int, size as int);
    let m = n + size - 1;
    let sz = size as int;
    assert(q * sz <= m && m < q * sz + sz) by (nonlinear_arith)
        requires
            q == m / sz,
            sz > 0,
            m >= 0,
    ;
    assert((q - 1) * sz == q * sz - sz) by (nonlinear_arith);
    if n == 0 {
        assert(q == 0) by (nonlinear_arith)
            requires
                q == (sz - 1) / sz,
                sz > 0,
        ;
    }
}

/// A page that starts at or past the end of the list is empty; any other
/// page holds the items from its start up to the page size or the end.
pub proof fn lemma_page_slice(n: nat, page: nat, size: nat)
    requires
        page > 0,
        size > 0,
    ensures
        page_start(page as int, size as int) >= n ==> page_len(n as int, page as int, size as int)
            == 0,
        page_start(page as int, size as int) < n ==> page_start(page as int, size as int)
            + page_len(n as int, page as int, size as int) == if page * size <= n {
            (page * size) as int
        } else {
            n as int
        },
{
    assert(page_start(page as int, size as int) + size == page * size) by (nonlinear_arith)
        requires
            page > 0,
    ;
}

/// Pages tile the list: each page starts where the one before it would
/// end when full, every page before the last one is full, the last one
/// (page `ceil_div(n, size)`) ends at the end of the list, and pages past it
/// are empty. So the pages from 1 to the page count, joined in order, are
/// the whole list.
pub proof fn lemma_pages_tile(n: nat, size: nat, page: nat)
    requires
        size > 0,
        page >= 1,
    ensures
        page_start((page + 1) as int, size as int) == page_start(page as int, size as int) + size,
        page < ceil_div(n as int, size as int) ==> page_len(n as int, page as int, size as int)
            == size,
        n > 0 && page == ceil_div(n as int, size as int) ==> page_start(page as int, size as int)
            < n && page_start(page as int, size as int) + page_len(
            n as int,
            page as int,
            size as int,
        ) == n,
        page > ceil_div(n as int, size as int) ==> page_len(n as int, page as int, size as int)
            == 0,
{
    lemma_page_count_is_ceiling(n, size);
    let q = ceil_div(n as int, size as int);
    let p = page as int;
    let s = size as int;
    assert(p * s == (p - 1) * s + s) by (nonlinear_arith);
    if p < q {
        assert(p * s <= (q - 1) * s) by (nonlinear_arith)
            requires
                p <= q - 1,
                s > 0,
        ;
    }
    if p > q {
        assert((p - 1) * s >= q * s) by (nonlinear_arith)
            requires
                p - 1 >= q,
                s > 0,
        ;
    }
}

} // verus!
