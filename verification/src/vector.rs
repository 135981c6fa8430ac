//! Two-component vectors of binary64 quantities.
use vstd::prelude::*;
use crate::scalar::Scalar;

verus! {

/// A point or a direction in the plane. A plain value: operations give new
/// vectors and leave their operands alone.
#[derive(Clone, Copy, Debug, PartialEq, Eq, Structural)]
pub struct Vector2D {
    pub x: Scalar,
    pub y: Scalar,
}

impl Vector2D {
    /// The vector with both components' signs flipped.
    pub open spec fn opposite(self) -> Vector2D {
        Vector2D { x: self.x.opposite(), y: self.y.opposite() }
    }

    /// Builds a vector from its components.
    pub fn new(x: Scalar, y: Scalar) -> (r: Vector2D)
        ensures
            r.x == x,
            r.y == y,
    {
        Vector2D { x, y }
    }

    /// The exact negation: each component keeps its magnitude and changes
    /// its sign.
    pub fn negated(self) -> (r: Vector2D)
        ensures
            r == self.opposite(),
    {
        Vector2D { x: self.x.negated(), y: self.y.negated() }
    }
}

/// Negating a vector twice gives it back, bit for bit: if one force is the
/// negation of another, then the other is the negation of the one.
pub proof fn lemma_opposite_involution(v: Vector2D)
    ensures
        v.opposite().opposite() == v,
{
    crate::scalar::lemma_opposite_involution(v.x);
    crate::scalar::lemma_opposite_involution(v.y);
}

} // verus!
