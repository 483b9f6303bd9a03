//! Paging and filtering of the asset listing.

use vstd::prelude::*;

verus! {

/// Page size when the request names none.
pub fn default_limit() -> (n: i64)
    ensures
        n == 25,
{
    25
}

/// The largest page size a client can ask for.
pub const MAX_LIMIT: i64 = 200;

/// Query parameters of the asset listing.
#[derive(Debug, Clone)]
pub struct ListAssetsParams {
    /// Only assets of this type, e.g. "csv_row", "json", "image_metadata";
    /// all types when absent.
    pub asset_type: Option<String>,
    pub limit: i64,
    pub offset: i64,
}

/// The page size actually used: the requested one, clamped to `1..=200`.
pub open spec fn clamped_limit(limit: i64) -> i64 {
    if limit < 1 {
        1
    } else if limit > MAX_LIMIT {
        MAX_LIMIT
    } else {
        limit
    }
}

/// The offset actually used: the requested one, or 0 when it is negative.
pub open spec fn clamped_offset(offset: i64) -> i64 {
    if offset < 0 {
        0
    } else {
        offset
    }
}

impl ListAssetsParams {
    /// The parameters a request without any gives: all types, the default
    /// page size, from the start.
    pub fn defaults() -> (p: ListAssetsParams)
        ensures
            p.asset_type is None,
            p.limit == 25,
            p.offset == 0,
    {
        ListAssetsParams { asset_type: None, limit: default_limit(), offset: 0 }
    }

    /// The page to fetch, `(limit, offset)`, so that a careless client cannot
    /// ask for an unbounded page.
    pub fn page(&self) -> (p: (i64, i64))
        ensures
            p.0 == clamped_limit(self.limit),
            p.1 == clamped_offset(self.offset),
            1 <= p.0 <= MAX_LIMIT,
            0 <= p.1,
    {
        let limit = if self.limit < 1 {
            1
        } else if self.limit > MAX_LIMIT {
            MAX_LIMIT
        } else {
            self.limit
        };
        let offset = if self.offset < 0 {
            0
        } else {
            self.offset
        };
        (limit, offset)
    }
}

/// One asset type present in storage, with how many assets it has.
#[derive(Debug, Clone, PartialEq, Eq)]
pub struct AssetType {
    pub asset_type: String,
    pub count: i64,
}

} // verus!
