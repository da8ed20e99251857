//! Sort keys of the store's search listing.

use vstd::prelude::*;

verus! {

/// Direction of the store's search listing.
#[derive(PartialEq, Eq, Structural, Clone, Copy, Debug)]
pub enum SortOrder {
    Asc,
    Desc,
}

/// Column the store's search listing is sorted by.
#[derive(PartialEq, Eq, Structural, Clone, Copy, Debug)]
pub enum SearchSortField {
    Name,
    Path,
    Size,
    Modified,
    Created,
    Type,
    Dimensions,
    Duration,
}

} // verus!
