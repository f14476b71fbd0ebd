//! Kinds of entities.

use vstd::prelude::*;

verus! {

/// The kind of an entity.
#[derive(Clone, Copy, Debug, PartialEq, Eq, Hash)]
pub enum EntityKind {
    Player,
}

impl EntityKind {
    /// Whether the entity can be broken: no entity kind can.
    pub fn breakable(&self) -> (r: bool)
        ensures
            !r,
    {
        match self {
            EntityKind::Player => false,
        }
    }
}

} // verus!
