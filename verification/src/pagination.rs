//! Shared pagination and sorting parameters for list endpoints.
//!
//! List endpoints read `?page=&per_page=` and `?sort=&dir=` and slice the full
//! result list in memory into one page.

use vstd::prelude::*;
use crate::text::{chars_eq_str, chars_of};

verus! {

/// Pagination query parameters extracted from `?page=&per_page=`.
#[derive(Debug)]
pub struct PaginationParams {
    /// Page number (1-indexed). Defaults to 1.
    pub page: Option<u32>,
    /// Items per page. Defaults to 50, max 200.
    pub per_page: Option<u32>,
}

impl PaginationParams {
    /// The effective page: the requested one, 1 when absent or 0.
    pub open spec fn spec_page(&self) -> u32 {
        match self.page {
            Some(p) => if p < 1 {
                1
            } else {
                p
            },
            None => 1,
        }
    }

    /// The effective page size: the requested one clamped to `[1, 200]`, 50 when absent.
    pub open spec fn spec_per_page(&self) -> u32 {
        match self.per_page {
            Some(n) => if n < 1 {
                1
            } else if n > 200 {
                200
            } else {
                n
            },
            None => 50,
        }
    }

    /// Index of the first item of the page.
    pub open spec fn spec_offset(&self) -> int {
        (self.spec_page() - 1) * self.spec_per_page()
    }

    /// The page number (1-indexed).
    pub fn page(&self) -> (r: u32)
        ensures
            r == self.spec_page(),
            r >= 1,
    {
        match self.page {
            Some(p) => if p < 1 {
                1
            } else {
                p
            },
            None => 1,
        }
    }

    /// The number of items per page, in `[1, 200]`.
    pub fn per_page(&self) -> (r: u32)
        ensures
            r == self.spec_per_page(),
            1 <= r <= 200,
    {
        match self.per_page {
            Some(n) => if n < 1 {
                1
            } else if n > 200 {
                200
            } else {
                n
            },
            None => 50,
        }
    }

    /// The offset for slicing a collection: `(page - 1) * per_page`,
    /// computed in 64 bits, where it always fits.
    pub fn offset(&self) -> (r: u64)
        ensures
            r == self.spec_offset(),
    {
        let p = self.page() as u64;
        let n = self.per_page() as u64;
        assert((p - 1) * n <= 0xFFFF_FFFFu64 * 200) by (nonlinear_arith)
            requires
                1 <= p <= 0xFFFF_FFFFu64,
                1 <= n <= 200,
        ;
        (p - 1) * n
    }
}

/// Sort direction.
#[derive(Debug, Clone, Copy, PartialEq, Eq)]
pub enum SortDirection {
    Ascending,
    Descending,
}

/// Sort query parameters extracted from `?sort=&dir=`.
#[derive(Debug)]
pub struct SortParams {
    /// Field name to sort by (endpoint-specific).
    pub sort: Option<String>,
    /// Direction: "asc" (default) or "desc".
    pub dir: Option<String>,
}

impl SortParams {
    /// Descending exactly when `dir` is `"desc"`.
    pub fn direction(&self) -> (r: SortDirection)
        ensures
            r == (if self.dir matches Some(d) && d@ == "desc"@ {
                SortDirection::Descending
            } else {
                SortDirection::Ascending
            }),
    {
        match &self.dir {
            Some(d) => {
                let dc = chars_of(d.as_str());
                if chars_eq_str(&dc, "desc") {
                    SortDirection::Descending
                } else {
                    SortDirection::Ascending
                }
            },
            None => SortDirection::Ascending,
        }
    }

    /// The requested sort field, if any.
    pub fn field(&self) -> (r: Option<&str>)
        ensures
            match self.sort {
                Some(s) => r matches Some(f) && f@ == s@,
                None => r is None,
            },
    {
        match &self.sort {
            Some(s) => Some(s.as_str()),
            None => None,
        }
    }
}

/// One page of a list response.
#[derive(Debug)]
pub struct Paginated<T> {
    /// The items of this page.
    pub items: Vec<T>,
    /// Number of items in the whole collection.
    pub total: i64,
    /// The page number.
    pub page: u32,
    /// The page size.
    pub per_page: u32,
}

/// The end (exclusive) of the page that starts at `offset` in a list of `len` items.
pub open spec fn page_end(offset: int, per_page: int, len: int) -> int {
    if offset + per_page < len {
        offset + per_page
    } else {
        len
    }
}

impl<T> Paginated<T> {
    /// Slices a full collection into the requested page: the items at
    /// `offset .. min(offset + per_page, len)`, none when the offset is past the end.
    pub fn from_vec(items: Vec<T>, pagination: &PaginationParams) -> (r: Self)
        requires
            items.len() <= i64::MAX,
        ensures
            r.total == items@.len(),
            r.page == pagination.spec_page(),
            r.per_page == pagination.spec_per_page(),
            r.items@ == (if pagination.spec_offset() >= items@.len() {
                Seq::<T>::empty()
            } else {
                items@.subrange(
                    pagination.spec_offset(),
                    page_end(pagination.spec_offset(), pagination.spec_per_page() as int, items@.len() as int),
                )
            }),
            r.items@.len() <= pagination.spec_per_page(),
            forall|k: int| 0 <= k < r.items@.len() ==> r.items@[k] == items@[pagination.spec_offset() + k],
            pagination.spec_offset() < items@.len() ==> r.items@.len() == if items@.len()
                - pagination.spec_offset() < pagination.spec_per_page() {
                items@.len() - pagination.spec_offset()
            } else {
                pagination.spec_per_page() as int
            },
            pagination.spec_offset() >= items@.len() ==> r.items@.len() == 0,
    {
        let mut items = items;
        let total = items.len() as i64;
        let offset64 = pagination.offset();
        let per_page = pagination.per_page();
        let page_items = if offset64 >= items.len() as u64 {
            Vec::new()
        } else {
            let offset = offset64 as usize;
            let end = if (per_page as usize) < items.len() - offset {
                offset + per_page as usize
            } else {
                items.len()
            };
            items.truncate(end);
            items.split_off(offset)
        };
        Paginated { items: page_items, total, page: pagination.page(), per_page }
    }
}

/// The page (1-indexed) on which the item at `index` appears.
pub open spec fn page_of(index: int, per_page: int) -> int {
    index / per_page + 1
}

/// Pages cover the collection without gaps or overlaps: for any page size, the
/// item at `index` lies on page `index / per_page + 1`, and on no other page.
pub proof fn lemma_item_on_exactly_one_page(index: int, per_page: int, page: int)
    requires
        0 <= index,
        1 <= per_page,
        1 <= page,
    ensures
        ((page - 1) * per_page <= index < (page - 1) * per_page + per_page) <==> page == page_of(
            index,
            per_page,
        ),
{
    let q = index / per_page;
    let r = index % per_page;
    assert(index == q * per_page + r && 0 <= r < per_page) by (nonlinear_arith)
        requires
            0 <= index,
            1 <= per_page,
            q == index / per_page,
            r == index % per_page,
    ;
    if page < q + 1 {
        assert((page - 1) * per_page + per_page <= q * per_page) by (nonlinear_arith)
            requires
                page <= q,
                1 <= per_page,
        ;
    } else if page > q + 1 {
        assert((page - 1) * per_page >= (q + 1) * per_page) by (nonlinear_arith)
            requires
                page - 1 >= q + 1,
                1 <= per_page,
        ;
        assert((q + 1) * per_page == q * per_page + per_page) by (nonlinear_arith);
    } else {
    }
}

} // verus!
