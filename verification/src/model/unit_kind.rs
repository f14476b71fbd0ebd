//! Kinds of units.

use vstd::prelude::*;

verus! {

/// The kind of a unit.
#[derive(Clone, Copy, Debug, PartialEq, Eq, PartialOrd, Ord, Hash)]
pub enum UnitKind {
    SurfaceDirt,
    SurfaceGrass,
    SurfaceGravel,
    SurfaceSand,
    SurfaceStone,
    MixGrass,
    Dandelion,
    FallenBranch,
    FallenLeaves,
    MixPebbles,
    Player,
    OakTree,
    BirchTree,
    DyingTree,
    FallenTree,
    MixRock,
}

impl UnitKind {
    /// Every kind, in declaration order.
    pub fn all() -> (r: Vec<UnitKind>)
        ensures
            r@ == seq![UnitKind::SurfaceDirt, UnitKind::SurfaceGrass, UnitKind::SurfaceGravel, UnitKind::SurfaceSand, UnitKind::SurfaceStone, UnitKind::MixGrass, UnitKind::Dandelion, UnitKind::FallenBranch, UnitKind::FallenLeaves, UnitKind::MixPebbles, UnitKind::Player, UnitKind::OakTree, UnitKind::BirchTree, UnitKind::DyingTree, UnitKind::FallenTree, UnitKind::MixRock],
    {
        let mut v: Vec<UnitKind> = Vec::new();
        v.push(UnitKind::SurfaceDirt);
        v.push(UnitKind::SurfaceGrass);
        v.push(UnitKind::SurfaceGravel);
        v.push(UnitKind::SurfaceSand);
        v.push(UnitKind::SurfaceStone);
        v.push(UnitKind::MixGrass);
        v.push(UnitKind::Dandelion);
        v.push(UnitKind::FallenBranch);
        v.push(UnitKind::FallenLeaves);
        v.push(UnitKind::MixPebbles);
        v.push(UnitKind::Player);
        v.push(UnitKind::OakTree);
        v.push(UnitKind::BirchTree);
        v.push(UnitKind::DyingTree);
        v.push(UnitKind::FallenTree);
        v.push(UnitKind::MixRock);
        v
    }
}

} // verus!
