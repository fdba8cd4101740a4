//! Tallying the buildings that the residential scan marks, batch by batch.

use vstd::prelude::*;

verus! {

/// Adds the rows one batch of the scan marked to the running count.
pub fn add_marked_rows(count: u64, rows: u64) -> (res: u64)
    requires
        count + rows <= u64::MAX,
    ensures
        res == count + rows,
{
    count + rows
}

/// The number of marked buildings that the scan reports: the count cast to
/// `i32`, keeping its low 32 bits as `as` does.
pub fn buildings_found(count: u64) -> (res: i32)
    ensures
        res == count as i32,
{
    count as i32
}

} // verus!
