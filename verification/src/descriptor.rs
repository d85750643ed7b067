//! The immutable result of a parse.

use vstd::prelude::*;

use crate::report::Collection;
use crate::report::CollectionModel;
use crate::report::Report;
use crate::report::spec_traversal;

verus! {

/// A fully parsed report descriptor: the implicit outermost collection that
/// always exists, even when the byte stream opens no explicit collection.
/// Read-only once produced.
#[derive(Debug, PartialEq, Eq)]
pub struct Descriptor {
    pub main_collection: Collection,
}

impl View for Descriptor {
    type V = CollectionModel;

    open spec fn view(&self) -> CollectionModel {
        self.main_collection@
    }
}

impl Descriptor {
    /// Wrap the outermost collection.
    pub fn new(main_collection: Collection) -> (d: Descriptor)
        ensures
            d@ == main_collection@,
    {
        Self { main_collection }
    }

    /// The depth-first traversal of every report in the descriptor: each
    /// collection's direct reports first, then its nested collections'
    /// reports, recursively.
    pub fn iter(&self) -> (out: Vec<Report>)
        ensures
            out@ == spec_traversal(self@),
    {
        self.main_collection.iter()
    }
}

} // verus!
