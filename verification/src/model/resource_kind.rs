//! Kinds of world resources.

use vstd::prelude::*;

verus! {

/// The kind of a world resource.
#[derive(Clone, Copy, Debug, PartialEq, Eq, Structural, Hash)]
pub enum ResourceKind {
    SurfaceDirt,
    SurfaceGrass,
    SurfaceGravel,
    SurfaceSand,
    SurfaceStone,
    Tree,
    Rock,
}

/// Whether a resource of this kind can be broken: trees and rocks can.
pub open spec fn resource_breakable(kind: ResourceKind) -> bool {
    match kind {
        ResourceKind::SurfaceDirt | ResourceKind::SurfaceGrass | ResourceKind::SurfaceGravel | ResourceKind::SurfaceSand | ResourceKind::SurfaceStone => false,
        ResourceKind::Tree | ResourceKind::Rock => true,
    }
}

impl ResourceKind {
    /// Every resource kind, in declaration order.
    pub fn entry() -> (r: Vec<ResourceKind>)
        ensures
            r@ == seq![ResourceKind::SurfaceDirt, ResourceKind::SurfaceGrass, ResourceKind::SurfaceGravel, ResourceKind::SurfaceSand, ResourceKind::SurfaceStone, ResourceKind::Tree, ResourceKind::Rock],
    {
        let mut v: Vec<ResourceKind> = Vec::new();
        v.push(ResourceKind::SurfaceDirt);
        v.push(ResourceKind::SurfaceGrass);
        v.push(ResourceKind::SurfaceGravel);
        v.push(ResourceKind::SurfaceSand);
        v.push(ResourceKind::SurfaceStone);
        v.push(ResourceKind::Tree);
        v.push(ResourceKind::Rock);
        v
    }

    /// Whether a resource of this kind can be broken: trees and rocks can.
    pub fn breakable(&self) -> (r: bool)
        ensures
            r == resource_breakable(*self),
    {
        match self {
            Self::SurfaceDirt => false,
            Self::SurfaceGrass => false,
            Self::SurfaceGravel => false,
            Self::SurfaceSand => false,
            Self::SurfaceStone => false,
            Self::Tree => true,
            Self::Rock => true,
        }
    }
}

} // verus!
