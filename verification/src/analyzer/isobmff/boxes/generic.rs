//! A box whose type is known but whose contents are not decoded.

use crate::analyzer::isobmff::types::{fourcc_text, BoxType};
use crate::analyzer::{plain, property_views, push_plain, Property, PropertyView};
use vstd::prelude::*;
use vstd::string::StringExecFns;

verus! {

/// A box of which only the type is known.
#[derive(Debug, Clone)]
pub struct GenericBox {
    pub box_type: BoxType,
}

impl GenericBox {
    /// The decoded fields as properties, in the order in which they are shown.
    pub open spec fn properties(self) -> Seq<PropertyView> {
        seq![plain("box type"@, fourcc_text(self.box_type@))]
    }

    /// A box with the fields given.
    pub fn new(box_type: BoxType) -> (b: GenericBox)
        ensures
            b.box_type == box_type,
    {
        GenericBox { box_type }
    }

    /// The type of the box.
    pub fn box_type(&self) -> (t: &BoxType)
        ensures
            *t == self.box_type,
    {
        &self.box_type
    }

    /// One line that says what kind of record this is.
    pub fn description(&self) -> (s: &'static str)
        ensures
            s@ == "Unknown Generic Box"@,
    {
        "Unknown Generic Box"
    }

    /// Appends the decoded fields to `properties`, in the order in which they are shown.
    pub fn fill_properties(&self, properties: &mut Vec<Property>)
        ensures
            property_views(final(properties)@) == property_views(old(properties)@) + self.properties(),
    {
        push_plain(properties, "box type", String::from_str(self.box_type.as_str()));
        assert(property_views(properties@) =~= property_views(old(properties)@) + self.properties());
    }

    /// The text `Generic Box (` type `)`.
    pub fn to_text(&self) -> (s: String)
        ensures
            s@ == "Generic Box ("@ + fourcc_text(self.box_type@) + ")"@,
    {
        crate::text::concat3("Generic Box (", self.box_type.as_str(), ")")
    }
}

} // verus!
