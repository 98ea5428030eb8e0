//! Accounting of database pages, and how many of them to reclaim.

use vstd::prelude::*;

use crate::graph::domain::GraphStorageStats;
use crate::graph::error::{
    invalid_batch, numeric_range, ErrorModel, GraphResult,
};

verus! {

/// A product, held at the largest value where it does not fit.
pub open spec fn saturated_product(a: u64, b: u64) -> u64 {
    if a * b > u64::MAX {
        u64::MAX
    } else {
        (a * b) as u64
    }
}

fn saturating_product(a: u64, b: u64) -> (r: u64)
    ensures
        r == saturated_product(a, b),
{
    match a.checked_mul(b) {
        Some(product) => product,
        None => u64::MAX,
    }
}

/// The accounting that the four values reported by the database stand for.
pub fn storage_stats_from_pragmas(
    page_size: i64,
    page_count: i64,
    freelist: i64,
    auto_vacuum: i64,
) -> (r: GraphResult<GraphStorageStats>)
    ensures
        match r {
            Ok(stats) => {
                &&& page_size >= 0 && page_count >= 0 && freelist >= 0
                &&& stats.page_size_bytes == page_size
                &&& stats.allocated_pages == page_count
                &&& stats.reusable_pages == freelist
                &&& stats.allocated_bytes == saturated_product(page_size as u64, page_count as u64)
                &&& stats.reusable_bytes == saturated_product(page_size as u64, freelist as u64)
                &&& stats.incremental_vacuum == (auto_vacuum == 2)
            },
            Err(e) => e@ == ErrorModel::NumericRange(
                if page_size < 0 {
                    "SQLite page size"@
                } else if page_count < 0 {
                    "SQLite page count"@
                } else {
                    "SQLite freelist count"@
                },
            ) && (page_size < 0 || page_count < 0 || freelist < 0),
        },
{
    if page_size < 0 {
        return Err(numeric_range("SQLite page size"));
    }
    if page_count < 0 {
        return Err(numeric_range("SQLite page count"));
    }
    if freelist < 0 {
        return Err(numeric_range("SQLite freelist count"));
    }
    let page_size_bytes: u64 = page_size as u64;
    let allocated_pages: u64 = page_count as u64;
    let reusable_pages: u64 = freelist as u64;
    Ok(
        GraphStorageStats {
            page_size_bytes,
            allocated_pages,
            reusable_pages,
            allocated_bytes: saturating_product(page_size_bytes, allocated_pages),
            reusable_bytes: saturating_product(page_size_bytes, reusable_pages),
            incremental_vacuum: auto_vacuum == 2,
        },
    )
}

/// A bounded reclaim of reusable pages: how many were asked for and how many are done.
#[derive(Clone, Copy, Debug, PartialEq, Eq, Structural)]
pub struct PageReclaim {
    /// Pages to return in all.
    pub target: u64,
    /// Pages returned so far.
    pub reclaimed: u64,
}

/// How many pages a reclaim is to return in all.
pub open spec fn reclaim_target(maximum_pages: u32, initial: GraphStorageStats) -> int {
    if !initial.incremental_vacuum {
        0
    } else if initial.reusable_pages < maximum_pages {
        initial.reusable_pages as int
    } else {
        maximum_pages as int
    }
}

/// How many pages are still to be returned; none when the target is reached.
pub open spec fn still_to_reclaim(plan: PageReclaim) -> Option<u64> {
    if plan.reclaimed < plan.target {
        Some((plan.target - plan.reclaimed) as u64)
    } else {
        None
    }
}

/// The reclaim once a request changed the number of allocated pages.
pub open spec fn reclaimed_after(plan: PageReclaim, before: u64, after: u64) -> PageReclaim {
    if after < before {
        let sum = plan.reclaimed + (before - after);
        PageReclaim {
            reclaimed: if sum > u64::MAX {
                u64::MAX
            } else {
                sum as u64
            },
            ..plan
        }
    } else {
        plan
    }
}

impl PageReclaim {
    /// Plans a reclaim of at most `maximum_pages` of the pages that are reusable now. Nothing is
    /// planned where the database cannot return pages.
    pub fn begin(maximum_pages: u32, initial: &GraphStorageStats) -> (r: GraphResult<Self>)
        ensures
            match r {
                Ok(plan) => {
                    &&& 1 <= maximum_pages <= 4_096
                    &&& plan.reclaimed == 0
                    &&& plan.target == reclaim_target(maximum_pages, *initial)
                },
                Err(e) => (maximum_pages == 0 || maximum_pages > 4_096) && e@
                    == ErrorModel::InvalidBatch("page reclaim bound must be between 1 and 4096"@),
            },
    {
        if maximum_pages == 0 || maximum_pages > 4_096 {
            return Err(invalid_batch("page reclaim bound must be between 1 and 4096"));
        }
        let bound: u64 = maximum_pages as u64;
        let target: u64 = if !initial.incremental_vacuum {
            0
        } else if initial.reusable_pages < bound {
            initial.reusable_pages
        } else {
            bound
        };
        Ok(PageReclaim { target, reclaimed: 0 })
    }

    /// How many pages to ask for next; none when the target is reached.
    pub fn next_request(&self) -> (r: Option<u64>)
        ensures
            r == still_to_reclaim(*self),
    {
        if self.reclaimed < self.target {
            Some(self.target - self.reclaimed)
        } else {
            None
        }
    }

    /// Takes up what one request did to the number of allocated pages, and says whether to go on:
    /// a request without progress ends the reclaim.
    pub fn record(&mut self, allocated_before: u64, allocated_after: u64) -> (again: bool)
        ensures
            again == (allocated_after < allocated_before),
            *final(self) == reclaimed_after(*old(self), allocated_before, allocated_after),
    {
        if allocated_after >= allocated_before {
            return false;
        }
        self.reclaimed = self.reclaimed.saturating_add(allocated_before - allocated_after);
        true
    }
}

/// A reclaim returns no more pages than it may and than are reusable, and none where the database
/// cannot return pages. What was returned and what is asked for next are the target; only pages
/// that are gone count.
pub proof fn reclaims_stay_within_their_bound(
    maximum_pages: u32,
    initial: GraphStorageStats,
    plan: PageReclaim,
    before: u64,
    after: u64,
)
    ensures
        reclaim_target(maximum_pages, initial) <= maximum_pages,
        reclaim_target(maximum_pages, initial) <= initial.reusable_pages,
        initial.incremental_vacuum ==> reclaim_target(maximum_pages, initial) == maximum_pages
            || reclaim_target(maximum_pages, initial) == initial.reusable_pages,
        !initial.incremental_vacuum ==> reclaim_target(maximum_pages, initial) == 0,
        still_to_reclaim(plan) matches Some(n) ==> n > 0 && plan.reclaimed + n == plan.target,
        still_to_reclaim(plan) is None ==> plan.reclaimed >= plan.target,
        reclaimed_after(plan, before, after).target == plan.target,
        after >= before ==> reclaimed_after(plan, before, after) == plan,
        after < before && plan.reclaimed + before <= u64::MAX ==> reclaimed_after(
            plan,
            before,
            after,
        ).reclaimed + after == plan.reclaimed + before,
{
}

/// Sizes are page sizes times numbers of pages, as long as they can be told.
pub proof fn sizes_are_products(a: u64, b: u64)
    ensures
        a * b <= u64::MAX ==> saturated_product(a, b) == a * b,
        a * b > u64::MAX ==> saturated_product(a, b) == u64::MAX,
        saturated_product(a, b) == saturated_product(b, a),
{
    assert(a * b == b * a) by (nonlinear_arith);
}

} // verus!
