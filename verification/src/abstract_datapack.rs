//! Abstract representation of the to-be-generated datapack: a
//! target-format-independent staging area between the validated project
//! model and a later serializer.  Its entries are still being designed;
//! what is fixed is that every entry carries a generator-issued stable
//! name, so no two entries collide within one build even when their
//! human-chosen names coincide.

use vstd::prelude::*;

use crate::identifier::Identifier;

verus! {

/// One advancement entry.  Its shape beyond the stable name is left
/// abstract for now.
pub struct Advancement {
    /// The generator-issued, collision-free name of this entry.
    pub name: Identifier,
}

/// The abstract datapack: an ordered collection of advancement entries.
pub struct AbstractDatapack {
    pub advancements: Vec<Advancement>,
}

impl AbstractDatapack {
    /// A datapack with no entries yet.
    pub fn new() -> (r: Self)
        ensures
            r.advancements@.len() == 0,
    {
        AbstractDatapack { advancements: Vec::new() }
    }
}

} // verus!
