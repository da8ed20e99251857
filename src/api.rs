//! Request parameters of the browsing and search endpoints, and the rules
//! that turn them into the values used.

use crate::indexer::RunFlag;
use crate::query;
use crate::text::{chars_of, is_white_space, is_white_space_char};
use vstd::prelude::*;

verus! {

/// Field a listing is sorted by.
#[derive(PartialEq, Eq, Structural, Clone, Copy, Debug)]
pub enum SortField {
    Name,
    Path,
    Size,
    Modified,
    Created,
    Type,
    Resolutions,
    Duration,
}

/// Direction of a listing.
#[derive(PartialEq, Eq, Structural, Clone, Copy, Debug)]
pub enum SortOrder {
    Asc,
    Desc,
}

/// Parameters of a directory listing.
#[derive(Debug, Clone)]
pub struct ListQuery {
    pub path: Option<String>,
    pub offset: Option<usize>,
    pub limit: Option<usize>,
    pub sort_by: Option<SortField>,
    pub sort_order: Option<SortOrder>,
}

/// Parameters of a search.
#[derive(Debug, Clone)]
pub struct SearchQuery {
    pub q: String,
    pub offset: Option<usize>,
    pub limit: Option<usize>,
    pub sort_by: Option<SortField>,
    pub sort_order: Option<SortOrder>,
}

/// Whether a full scan is in progress.
#[derive(Debug, Clone, Copy)]
pub struct IndexStatusResponse {
    pub is_running: bool,
}

/// The page size used when none is asked for.
pub const DEFAULT_LIMIT: usize = 1000;

/// Whether a query holds nothing but white space; such a search is refused.
pub fn is_blank(q: &str) -> (r: bool)
    ensures
        r == forall|i: int| 0 <= i < q@.len() ==> #[trigger] is_white_space(q@[i]),
{
    let cs = chars_of(q);
    let mut i: usize = 0;
    while i < cs.len()
        invariant
            0 <= i <= cs@.len(),
            cs@ == q@,
            forall|k: int| 0 <= k < i ==> #[trigger] is_white_space(q@[k]),
        decreases cs@.len() - i,
    {
        if !is_white_space_char(cs[i]) {
            return false;
        }
        i += 1;
    }
    true
}

/// The page size used: the one asked for, or the default, and at least one.
pub fn effective_limit(limit: Option<usize>) -> (r: usize)
    ensures
        r == (match limit {
            Some(l) => if l < 1 {
                1
            } else {
                l
            },
            None => DEFAULT_LIMIT,
        }),
{
    match limit {
        Some(l) => if l < 1 {
            1
        } else {
            l
        },
        None => DEFAULT_LIMIT,
    }
}

/// The items of one page: at most `limit` of them, from position `offset`.
pub fn page<T>(items: Vec<T>, offset: usize, limit: usize) -> (r: Vec<T>)
    ensures
        r@ == items@.subrange(
            if offset < items@.len() {
                offset as int
            } else {
                items@.len() as int
            },
            if offset < items@.len() && limit < items@.len() - offset {
                offset + limit
            } else {
                items@.len() as int
            },
        ),
{
    let mut items = items;
    let len = items.len();
    let start = if offset < len {
        offset
    } else {
        len
    };
    let end = if offset < len && limit < len - offset {
        offset + limit
    } else {
        len
    };
    let ghost all = items@;
    items.truncate(end);
    let rest = items.split_off(start);
    assert(rest@ =~= all.subrange(start as int, end as int));
    rest
}

/// The store's sort column for a listing field.
pub fn search_sort_field(f: SortField) -> (r: query::SearchSortField)
    ensures
        r == (match f {
            SortField::Name => query::SearchSortField::Name,
            SortField::Path => query::SearchSortField::Path,
            SortField::Size => query::SearchSortField::Size,
            SortField::Modified => query::SearchSortField::Modified,
            SortField::Created => query::SearchSortField::Created,
            SortField::Type => query::SearchSortField::Type,
            SortField::Resolutions => query::SearchSortField::Dimensions,
            SortField::Duration => query::SearchSortField::Duration,
        }),
{
    match f {
        SortField::Name => query::SearchSortField::Name,
        SortField::Path => query::SearchSortField::Path,
        SortField::Size => query::SearchSortField::Size,
        SortField::Modified => query::SearchSortField::Modified,
        SortField::Created => query::SearchSortField::Created,
        SortField::Type => query::SearchSortField::Type,
        SortField::Resolutions => query::SearchSortField::Dimensions,
        SortField::Duration => query::SearchSortField::Duration,
    }
}

/// The store's sort direction for a listing direction.
pub fn store_sort_order(o: SortOrder) -> (r: query::SortOrder)
    ensures
        (o == SortOrder::Asc) == (r == query::SortOrder::Asc),
{
    match o {
        SortOrder::Asc => query::SortOrder::Asc,
        SortOrder::Desc => query::SortOrder::Desc,
    }
}

/// The indexer status reported to operators; reading it never waits for a scan.
pub fn index_status(flag: &RunFlag) -> (r: IndexStatusResponse)
    ensures
        r.is_running == flag.active(),
{
    IndexStatusResponse { is_running: flag.is_running() }
}

} // verus!
