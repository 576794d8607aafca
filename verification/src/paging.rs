//! Pagination of listings.
//!
//! A listing of `total` items is served in pages of `limit` items: page `p`
//! (counted from one) holds the items at positions `(p-1)*limit` up to but
//! not including `p*limit`, clipped to the end of the listing. The pages
//! partition the listing: no item is repeated and none is skipped.

use vstd::prelude::*;

verus! {

/// The pagination block of a listing response.
#[derive(Debug, Clone, PartialEq, Eq, Structural)]
pub struct PaginationInfo {
    pub page: u32,
    pub limit: u32,
    pub total: u32,
    pub total_pages: u32,
}

/// How many pages a listing of `total` items has at `limit` items per page:
/// the quotient rounded up. A limit of zero is degenerate: no pages for an
/// empty listing, an unbounded page count otherwise.
pub open spec fn spec_total_pages(total: u32, limit: u32) -> u32 {
    if limit == 0 {
        if total == 0 {
            0
        } else {
            u32::MAX
        }
    } else {
        ((total + limit - 1) / (limit as int)) as u32
    }
}

/// Compute the page count.
pub fn total_pages(total: u32, limit: u32) -> (r: u32)
    ensures
        r == spec_total_pages(total, limit),
{
    if limit == 0 {
        if total == 0 {
            0
        } else {
            u32::MAX
        }
    } else {
        let q: u64 = (total as u64 + limit as u64 - 1) / limit as u64;
        proof {
            assert((total + limit - 1) / (limit as int) <= u32::MAX) by (nonlinear_arith)
                requires
                    1 <= limit <= u32::MAX,
                    0 <= total <= u32::MAX,
            ;
        }
        q as u32
    }
}

/// The first item position of a page, clipped to the listing's end.
pub open spec fn spec_page_lo(n: int, page: u32, limit: u32) -> int
    recommends
        page >= 1,
{
    vstd::math::min((page - 1) * limit, n)
}

/// One past the last item position of a page, clipped to the listing's end.
pub open spec fn spec_page_hi(n: int, page: u32, limit: u32) -> int
    recommends
        page >= 1,
{
    vstd::math::min((page - 1) * limit + limit, n)
}

/// The requested page of a listing, in order: the items at positions
/// `(page-1)*limit .. page*limit`, clipped to the end. A page past the end
/// is empty.
pub fn paginate<T>(items: Vec<T>, page: u32, limit: u32) -> (r: Vec<T>)
    requires
        page >= 1,
    ensures
        r@ == items@.subrange(
            spec_page_lo(items@.len() as int, page, limit),
            spec_page_hi(items@.len() as int, page, limit),
        ),
{
    let ghost orig = items@;
    let ghost n = items@.len() as int;
    let len = items.len();
    proof {
        assert((page - 1) * (limit as int) + limit <= u64::MAX) by (nonlinear_arith)
            requires
                1 <= page <= u32::MAX,
                0 <= limit <= u32::MAX,
        ;
    }
    let offset: u64 = (page as u64 - 1) * limit as u64;
    let lo: usize = if offset >= len as u64 {
        len
    } else {
        offset as usize
    };
    let hi: usize = if offset + limit as u64 >= len as u64 {
        len
    } else {
        (offset + limit as u64) as usize
    };
    proof {
        assert(lo == spec_page_lo(n, page, limit));
        assert(hi == spec_page_hi(n, page, limit));
    }
    let mut items = items;
    items.truncate(hi);
    proof {
        assert(items@ == orig.take(hi as int));
    }
    let mut r: Vec<T> = items;
    let mut removed: usize = 0;
    while removed < lo
        invariant
            lo <= hi <= orig.len(),
            removed <= lo,
            r@ == orig.take(hi as int).skip(removed as int),
        decreases lo - removed,
    {
        r.remove(0);
        removed = removed + 1;
        proof {
            assert(orig.take(hi as int).skip(removed - 1).remove(0) =~= orig.take(
                hi as int,
            ).skip(removed as int));
        }
    }
    proof {
        assert(orig.take(hi as int).skip(lo as int) =~= orig.subrange(lo as int, hi as int));
    }
    r
}

/// Build the pagination block of a response.
pub fn pagination_info(page: u32, limit: u32, total: u32) -> (r: PaginationInfo)
    ensures
        r.page == page,
        r.limit == limit,
        r.total == total,
        r.total_pages == spec_total_pages(total, limit),
{
    PaginationInfo { page, limit, total, total_pages: total_pages(total, limit) }
}

/// Pages partition a listing: each item position lies inside exactly one
/// page, the one numbered `k / limit + 1`.
pub proof fn lemma_pages_partition(n: int, limit: u32, k: int)
    requires
        limit > 0,
        0 <= k < n <= u32::MAX,
    ensures
        ({
            let p = (k / (limit as int) + 1) as u32;
            &&& 1 <= k / (limit as int) + 1 <= u32::MAX
            &&& spec_page_lo(n, p, limit) <= k < spec_page_hi(n, p, limit)
            &&& forall|q: u32|
                q >= 1 && q != p ==> !(#[trigger] spec_page_lo(n, q, limit) <= k
                    < spec_page_hi(n, q, limit))
        }),
{
    let l = limit as int;
    let d = k / l;
    vstd::arithmetic::div_mod::lemma_fundamental_div_mod(k, l);
    vstd::arithmetic::div_mod::lemma_mod_bound(k, l);
    assert(d * l <= k < d * l + l);
    assert(d >= 0) by (nonlinear_arith)
        requires
            l > 0,
            k >= 0,
            k == l * d + k % l,
            0 <= k % l < l,
    ;
    let p = (d + 1) as u32;
    assert(d + 1 <= u32::MAX) by (nonlinear_arith)
        requires
            l >= 1,
            d >= 0,
            d * l <= k,
            k < u32::MAX,
    ;
    assert((p - 1) * l == d * l);
    assert(spec_page_lo(n, p, limit) <= k < spec_page_hi(n, p, limit));
    assert forall|q: u32|
        q >= 1 && q != p implies !(#[trigger] spec_page_lo(n, q, limit) <= k < spec_page_hi(
        n,
        q,
        limit,
    )) by {
        if q < p {
            assert((q - 1) * l + l == q * l) by (nonlinear_arith);
            assert(q * l <= d * l) by (nonlinear_arith)
                requires
                    l > 0,
                    q <= d,
            ;
            assert(spec_page_hi(n, q, limit) <= k);
        } else {
            assert((q - 1) * l >= (d + 1) * l) by (nonlinear_arith)
                requires
                    l > 0,
                    q - 1 >= d + 1,
            ;
            assert((d + 1) * l == d * l + l) by (nonlinear_arith);
            assert(spec_page_lo(n, q, limit) > k || spec_page_lo(n, q, limit) == n);
        }
    }
}

} // verus!
