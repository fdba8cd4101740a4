//! The query of the accessible-area endpoint.

use vstd::prelude::*;

use crate::text::{split_on, split_spec, string_views};

verus! {

/// The parameters of an accessible-area request: a bounding box written as
/// comma-separated coordinates, and the walking distance in meters.
#[derive(Debug)]
pub struct AccessibleAreaParams {
    pub bbox: String,
    pub distance: i64,
}

impl AccessibleAreaParams {
    /// The comma-separated fields of the bounding box, before they are read
    /// as coordinates.
    pub fn bbox_fields(&self) -> (res: Vec<String>)
        ensures
            string_views(res@) == split_spec(self.bbox@, ','),
    {
        split_on(self.bbox.as_str(), ',')
    }
}

} // verus!
