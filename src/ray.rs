use vstd::prelude::*;

verus! {

/// Which side of a surface a ray struck: the outside (front) or the inside
/// (back). The normal stored with a hit always points against the ray.
#[derive(Clone, Copy, Debug, PartialEq, Eq, Structural)]
pub enum Face {
    Front,
    Back,
}

} // verus!
