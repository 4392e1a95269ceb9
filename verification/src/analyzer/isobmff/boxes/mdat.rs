//! The `mdat` box: the media payload, of which only the length is kept.

use crate::analyzer::{plain, property_views, push_plain, Property, PropertyView};
use crate::text::{decimal, u64_to_string};
use vstd::prelude::*;

verus! {

/// The length of the payload of an `mdat` box.
#[derive(Debug, Clone, Copy, PartialEq, Eq, Structural)]
pub struct MediaDataBox {
    pub data_size: u64,
}

impl MediaDataBox {
    /// The decoded fields as properties, in the order in which they are shown.
    pub open spec fn properties(self) -> Seq<PropertyView> {
        seq![plain("data size"@, decimal(self.data_size as nat))]
    }

    /// A box with the fields given.
    pub fn new(data_size: u64) -> (b: MediaDataBox)
        ensures
            b.data_size == data_size,
    {
        MediaDataBox { data_size }
    }

    /// One line that says what kind of record this is.
    pub fn description(&self) -> (s: &'static str)
        ensures
            s@ == "Media Data Box"@,
    {
        "Media Data Box"
    }

    /// Appends the decoded fields to `properties`, in the order in which they are shown.
    pub fn fill_properties(&self, properties: &mut Vec<Property>)
        ensures
            property_views(final(properties)@) == property_views(old(properties)@) + self.properties(),
    {
        push_plain(properties, "data size", u64_to_string(self.data_size));
        assert(property_views(properties@) =~= property_views(old(properties)@) + self.properties());
    }
}

} // verus!
