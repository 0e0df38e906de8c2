//! Core domain records shared across the library.

use vstd::prelude::*;

verus! {

/// An industry sector: a grouping of stocks over which relative
/// statistics are computed.
#[derive(Clone, Debug)]
pub struct Sector {
    pub id: i32,
    pub name: String,
    pub symbol: String,
}

/// A tracked stock; `sector_id` is absent until the stock is classified.
#[derive(Clone, Debug)]
pub struct Stock {
    pub id: i32,
    pub symbol: String,
    pub name: String,
    pub sector_id: Option<i32>,
}

} // verus!
