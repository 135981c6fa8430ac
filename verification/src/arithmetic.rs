//! The formulas that the simulation does not compute itself.
//!
//! Rounding arithmetic on binary64 quantities is outside what is proved here,
//! so the caller supplies it, as five functions. The simulation decides what
//! is handed to each of them, in which order, and what becomes of the result;
//! its contracts say so in terms of what each function may return.
use vstd::prelude::*;
use crate::scalar::Scalar;
use crate::vector::Vector2D;

verus! {

/// The caller's arithmetic.
///
/// * `distance(p, q)`: the Euclidean distance between two points.
/// * `attraction(g, m1, m2, d)`: the magnitude `g * m1 * m2 / d^2`.
/// * `resolve(from, to, magnitude)`: the vector of that magnitude that
///   points from `from` towards `to`.
/// * `accelerate(force, mass)`: the force divided by the mass, component by
///   component.
/// * `advance(base, rate, dt)`: `base + rate * dt`, component by component.
pub struct Arithmetic<D, A, R, C, V> {
    pub distance: D,
    pub attraction: A,
    pub resolve: R,
    pub accelerate: C,
    pub advance: V,
}

impl<D, A, R, C, V> Arithmetic<D, A, R, C, V> where
    D: Fn(Vector2D, Vector2D) -> Scalar,
    A: Fn(Scalar, Scalar, Scalar, Scalar) -> Scalar,
    R: Fn(Vector2D, Vector2D, Scalar) -> Vector2D,
    C: Fn(Vector2D, Scalar) -> Vector2D,
    V: Fn(Vector2D, Vector2D, Scalar) -> Vector2D,
 {
    /// What the simulation needs of the five functions: each may be called
    /// on every input that the simulation can hand it. A mass handed to
    /// `attraction` or `accelerate` is positive, and a time step handed to
    /// `advance` is finite; beyond that nothing is promised of the inputs.
    pub open spec fn usable(&self) -> bool {
        &&& forall|p: Vector2D, q: Vector2D| self.distance.requires((p, q))
        &&& forall|g: Scalar, m1: Scalar, m2: Scalar, d: Scalar|
            m1.positive() && m2.positive() ==> self.attraction.requires((g, m1, m2, d))
        &&& forall|p: Vector2D, q: Vector2D, f: Scalar| self.resolve.requires((p, q, f))
        &&& forall|f: Vector2D, m: Scalar| m.positive() ==> self.accelerate.requires((f, m))
        &&& forall|b: Vector2D, r: Vector2D, dt: Scalar|
            dt.finite() ==> self.advance.requires((b, r, dt))
    }
}

} // verus!
