//! The `mdia` box: a container without fields of its own.

use super::{box_views, Box, BoxView};
use crate::analyzer::{property_views, Property};
use vstd::prelude::*;

verus! {

/// The `mdia` box, which holds what describes the medium of a track.
#[derive(Debug)]
pub struct MediaBox {
    pub children: Vec<Box>,
}

impl MediaBox {
    /// The boxes held.
    pub open spec fn view(&self) -> Seq<BoxView>
        decreases self,
    {
        box_views(self.children@)
    }

    /// A box without boxes in it.
    pub fn new() -> (b: MediaBox)
        ensures
            b@ == Seq::<BoxView>::empty(),
    {
        let b = MediaBox { children: Vec::new() };
        assert(b@ =~= Seq::<BoxView>::empty());
        b
    }

    /// Appends a box to the boxes held.
    pub fn add_child(&mut self, child: Box)
        ensures
            final(self)@ == old(self)@.push(child@),
    {
        self.children.push(child);
        assert(self@ =~= old(self)@.push(child@));
    }

    /// One line that says what kind of record this is.
    pub fn description(&self) -> (s: &'static str)
        ensures
            s@ == "Media Box"@,
    {
        "Media Box"
    }

    /// The box has no properties: the list stays as it is.
    pub fn fill_properties(&self, properties: &mut Vec<Property>)
        ensures
            property_views(final(properties)@) == property_views(old(properties)@),
    {
    }

    /// The boxes held.
    pub fn children(&self) -> (c: &[Box])
        ensures
            c@ == self.children@,
    {
        self.children.as_slice()
    }
}

} // verus!
