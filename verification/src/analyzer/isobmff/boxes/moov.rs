//! The `moov` box: a container without fields of its own.

use crate::analyzer::{property_views, Property};
use vstd::prelude::*;

verus! {

/// The `moov` box, which holds what describes the whole movie.
#[derive(Debug)]
pub struct MovieBox {}

impl MovieBox {
    /// The box; it has no fields.
    pub fn new() -> (b: MovieBox)
        ensures
            b == (MovieBox {  }),
    {
        MovieBox {  }
    }

    /// One line that says what kind of record this is.
    pub fn description(&self) -> (s: &'static str)
        ensures
            s@ == "Movie Box"@,
    {
        "Movie Box"
    }

    /// The box has no properties: the list stays as it is.
    pub fn fill_properties(&self, properties: &mut Vec<Property>)
        ensures
            property_views(final(properties)@) == property_views(old(properties)@),
    {
    }
}

} // verus!
