//! Page arithmetic for list queries.

use vstd::prelude::*;

verus! {

/// The page that a query asks for.
#[derive(Debug, Clone, Copy, PartialEq, Eq)]
pub struct PaginationParams {
    pub page: u64,
    pub page_size: u64,
}

/// Where a page stands among all pages.
#[derive(Debug, Clone, Copy, PartialEq, Eq)]
pub struct PaginationInfo {
    pub current_page: u64,
    pub page_size: u64,
    pub total_pages: u64,
    pub total_items: u64,
    pub has_next: bool,
    pub has_prev: bool,
}

/// One page of items with its position.
#[derive(Debug)]
pub struct PaginatedResponse<T> {
    pub data: Vec<T>,
    pub pagination: PaginationInfo,
}

/// The page taken when none is named.
pub fn default_page() -> (r: u64)
    ensures
        r == 1,
{
    1
}

/// The page size taken when none is named.
pub fn default_page_size() -> (r: u64)
    ensures
        r == 20,
{
    20
}

/// The number of pages that `total` items fill at `size` items a page.
pub open spec fn pages_for(total: int, size: int) -> int {
    (total + size - 1) / size
}

impl PaginationParams {
    /// Replaces page 0 by page 1, and a page size of 0 or above 100 by 20.
    pub fn validate(&mut self)
        ensures
            final(self).page == (if old(self).page == 0 {
                1
            } else {
                old(self).page
            }),
            final(self).page_size == (if old(self).page_size == 0 || old(self).page_size > 100 {
                20
            } else {
                old(self).page_size
            }),
    {
        if self.page == 0 {
            self.page = 1;
        }
        if self.page_size == 0 || self.page_size > 100 {
            self.page_size = 20;
        }
    }

    /// The number of items that lie before the page.
    pub fn offset(&self) -> (r: u64)
        requires
            self.page >= 1,
            (self.page - 1) * self.page_size <= u64::MAX,
        ensures
            r == (self.page - 1) * self.page_size,
    {
        (self.page - 1) * self.page_size
    }
}

/// Wraps one page of data with its position among `total_count` items.
pub fn manual_paginate<T>(total_count: u64, data: Vec<T>, params: &PaginationParams) -> (r:
    PaginatedResponse<T>)
    requires
        params.page_size > 0,
        total_count + params.page_size <= u64::MAX,
    ensures
        r.data == data,
        r.pagination.current_page == params.page,
        r.pagination.page_size == params.page_size,
        r.pagination.total_items == total_count,
        r.pagination.total_pages == pages_for(total_count as int, params.page_size as int),
        r.pagination.has_next == (params.page < r.pagination.total_pages),
        r.pagination.has_prev == (params.page > 1),
{
    let total_pages: u64 = (total_count + params.page_size - 1) / params.page_size;
    PaginatedResponse {
        data,
        pagination: PaginationInfo {
            current_page: params.page,
            page_size: params.page_size,
            total_pages,
            total_items: total_count,
            has_next: params.page < total_pages,
            has_prev: params.page > 1,
        },
    }
}

/// The pages cover the items: the last page is not empty and no item is left out.
pub proof fn lemma_pages_cover(total: int, size: int)
    requires
        total >= 0,
        size > 0,
    ensures
        pages_for(total, size) * size >= total,
        total > 0 ==> (pages_for(total, size) - 1) * size < total,
        total == 0 ==> pages_for(total, size) == 0,
{
    let p = pages_for(total, size);
    assert(p * size >= total && (total > 0 ==> (p - 1) * size < total) && (total == 0 ==> p == 0))
        by (nonlinear_arith)
        requires
            p == (total + size - 1) / size,
            total >= 0,
            size > 0,
    ;
}

} // verus!
