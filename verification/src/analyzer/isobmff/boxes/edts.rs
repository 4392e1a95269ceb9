//! The `edts` box: a container without fields of its own.

use crate::analyzer::{property_views, Property};
use vstd::prelude::*;

verus! {

/// The `edts` box, which holds the edit list of a track.
#[derive(Debug)]
pub struct EditBox {}

impl EditBox {
    /// The box; it has no fields.
    pub fn new() -> (b: EditBox)
        ensures
            b == (EditBox {  }),
    {
        EditBox {  }
    }

    /// One line that says what kind of record this is.
    pub fn description(&self) -> (s: &'static str)
        ensures
            s@ == "Edit Box"@,
    {
        "Edit Box"
    }

    /// The box has no properties: the list stays as it is.
    pub fn fill_properties(&self, properties: &mut Vec<Property>)
        ensures
            property_views(final(properties)@) == property_views(old(properties)@),
    {
    }
}

} // verus!
