//! The `dinf` box: a container without fields of its own.

use crate::analyzer::{property_views, Property};
use vstd::prelude::*;

verus! {

/// The `dinf` box, which holds the data references of a track.
#[derive(Debug)]
pub struct DataInformationBox {}

impl DataInformationBox {
    /// The box; it has no fields.
    pub fn new() -> (b: DataInformationBox)
        ensures
            b == (DataInformationBox {  }),
    {
        DataInformationBox {  }
    }

    /// One line that says what kind of record this is.
    pub fn description(&self) -> (s: &'static str)
        ensures
            s@ == "Data Information Box"@,
    {
        "Data Information Box"
    }

    /// The box has no properties: the list stays as it is.
    pub fn fill_properties(&self, properties: &mut Vec<Property>)
        ensures
            property_views(final(properties)@) == property_views(old(properties)@),
    {
    }
}

} // verus!
