pub mod cloudwatch;
pub mod dynamodb;
pub mod lambda;
pub mod log_message;
pub mod s3;
pub mod secret_detail;
pub mod secrets;

use vstd::prelude::*;

verus! {

/// The direction of a sorted column.
#[derive(Debug, Clone, Copy, PartialEq, Eq, Structural)]
pub enum SortDir {
    Asc,
    Desc,
}

/// The other sort direction.
pub open spec fn flip(d: SortDir) -> SortDir {
    match d {
        SortDir::Asc => SortDir::Desc,
        SortDir::Desc => SortDir::Asc,
    }
}

impl SortDir {
    /// The other direction.
    pub fn toggle(&self) -> (r: SortDir)
        ensures
            r == flip(*self),
    {
        match self {
            SortDir::Asc => SortDir::Desc,
            SortDir::Desc => SortDir::Asc,
        }
    }

    /// The arrow shown beside a sorted column header.
    pub fn arrow(&self) -> (r: &'static str)
        ensures
            r@ == (if *self == SortDir::Asc { "▲"@ } else { "▼"@ }),
    {
        match self {
            SortDir::Asc => "▲",
            SortDir::Desc => "▼",
        }
    }
}

} // verus!
