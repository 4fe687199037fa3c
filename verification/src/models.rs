//! Data models of the API that carry no outside types.

use vstd::prelude::*;

verus! {

/// Number of pages that `total` items fill at `per_page` items a page:
/// the ceiling of `total / per_page`, at most `u32::MAX`. With no items a
/// page, any item makes the count `u32::MAX` and no item makes it 0.
pub open spec fn page_count(total: nat, per_page: nat) -> nat {
    if per_page == 0 {
        if total == 0 {
            0
        } else {
            u32::MAX as nat
        }
    } else {
        let pages = total / per_page + if total % per_page == 0 {
            0nat
        } else {
            1nat
        };
        if pages > u32::MAX {
            u32::MAX as nat
        } else {
            pages
        }
    }
}

/// Paginated response
#[derive(Debug, Clone)]
pub struct PaginatedResponse<T> {
    /// Items in this page
    pub items: Vec<T>,
    /// Current page
    pub page: u32,
    /// Items per page
    pub per_page: u32,
    /// Total items
    pub total: u64,
    /// Total pages
    pub total_pages: u32,
    /// Has next page
    pub has_next: bool,
    /// Has previous page
    pub has_prev: bool,
}

impl<T> PaginatedResponse<T> {
    /// Create a new paginated response
    pub fn new(items: Vec<T>, page: u32, per_page: u32, total: u64) -> (r: Self)
        ensures
            r.items == items,
            r.page == page,
            r.per_page == per_page,
            r.total == total,
            r.total_pages == page_count(total as nat, per_page as nat),
            r.has_next == (page < r.total_pages),
            r.has_prev == (page > 1),
    {
        let total_pages: u32 = if per_page == 0 {
            if total == 0 {
                0
            } else {
                u32::MAX
            }
        } else {
            let pp = per_page as u64;
            let q = total / pp;
            let pages: u64 = if total % pp == 0 {
                q
            } else {
                assert(q < u64::MAX) by (nonlinear_arith)
                    requires
                        pp > 0,
                        total % pp != 0,
                        q == total / pp,
                        total <= u64::MAX,
                {
                    if pp == 1 {
                        assert(total % pp == 0);
                    } else {
                        assert(q * pp <= total);
                        assert(q * 2 <= q * pp);
                    }
                }
                q + 1
            };
            if pages > u32::MAX as u64 {
                u32::MAX
            } else {
                pages as u32
            }
        };
        let has_next = page < total_pages;
        let has_prev = page > 1;
        Self { items, page, per_page, total, total_pages, has_next, has_prev }
    }
}

/// User creation request
#[derive(Debug, Clone)]
pub struct CreateUserRequest {
    pub username: String,
    pub email: String,
    pub display_name: String,
}

/// Retry policy for webhooks
#[derive(Debug, Clone)]
pub struct RetryPolicy {
    /// Maximum retries
    pub max_retries: u32,
    /// Backoff in seconds
    pub backoff_seconds: u32,
    /// Maximum backoff
    pub max_backoff_seconds: u32,
}

/// Service health status
#[derive(Debug, Clone)]
pub struct ServiceHealth {
    /// Is healthy
    pub healthy: bool,
    /// Status message
    pub message: String,
    /// Response time in ms
    pub response_time_ms: u64,
}

/// The pages hold every item and none of them is empty: with a positive page
/// size, `total_pages` pages of `per_page` items have room for all `total`
/// items, and one page fewer would not (where the count is not capped at
/// `u32::MAX`).
pub proof fn pages_cover_items(total: nat, per_page: nat)
    requires
        per_page > 0,
        page_count(total, per_page) < u32::MAX,
    ensures
        total <= page_count(total, per_page) * per_page,
        total > 0 ==> (page_count(total, per_page) - 1) * per_page < total,
        total == 0 ==> page_count(total, per_page) == 0,
{
    let q = total / per_page;
    let r = total % per_page;
    vstd::arithmetic::div_mod::lemma_fundamental_div_mod(total as int, per_page as int);
    let pages = page_count(total, per_page);
    if r == 0 {
        assert(pages == q);
        assert(total == q * per_page) by (nonlinear_arith)
            requires
                total == per_page * q + r,
                r == 0,
        ;
        if total > 0 {
            assert(q > 0) by (nonlinear_arith)
                requires
                    total == q * per_page,
                    total > 0,
            ;
            assert((q - 1) * per_page == q * per_page - per_page) by (nonlinear_arith);
        }
    } else {
        assert(pages == q + 1);
        assert((q + 1) * per_page == q * per_page + per_page) by (nonlinear_arith);
        assert(total == q * per_page + r) by (nonlinear_arith)
            requires
                total == per_page * q + r,
        ;
    }
}

} // verus!
