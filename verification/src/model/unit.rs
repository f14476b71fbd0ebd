//! Kinds of free-moving units.

use vstd::prelude::*;

verus! {

/// The kind of a unit.
#[derive(Clone, Copy, Debug, PartialEq, Eq, Hash)]
pub enum UnitKind {
    Player,
}

impl UnitKind {
    /// Whether the unit can be broken: no unit kind can.
    pub fn breakable(&self) -> (r: bool)
        ensures
            !r,
    {
        match self {
            UnitKind::Player => false,
        }
    }
}

} // verus!
