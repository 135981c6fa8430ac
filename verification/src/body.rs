//! Point masses and their integration over one time step.
use vstd::prelude::*;
use crate::arithmetic::Arithmetic;
use crate::scalar::Scalar;
use crate::vector::Vector2D;

verus! {

/// What a body is at one instant.
pub struct BodyState {
    pub position: Vector2D,
    pub velocity: Vector2D,
    pub mass: Scalar,
}

/// Why a body was refused.
#[derive(Clone, Copy, Debug, PartialEq, Eq, Structural)]
pub enum BodyError {
    /// The mass is zero, negative or not a number.
    NonPositiveMass,
}

/// A point mass. Its mass is strictly positive and never changes; position
/// and velocity change only through `update_velocity`.
#[derive(Clone, Copy, Debug, PartialEq, Eq)]
pub struct Body {
    position: Vector2D,
    velocity: Vector2D,
    mass: Scalar,
}

impl View for Body {
    type V = BodyState;

    closed spec fn view(&self) -> BodyState {
        BodyState { position: self.position, velocity: self.velocity, mass: self.mass }
    }
}

impl<D, A, R, C, V> Arithmetic<D, A, R, C, V> where
    D: Fn(Vector2D, Vector2D) -> Scalar,
    A: Fn(Scalar, Scalar, Scalar, Scalar) -> Scalar,
    R: Fn(Vector2D, Vector2D, Scalar) -> Vector2D,
    C: Fn(Vector2D, Scalar) -> Vector2D,
    V: Fn(Vector2D, Vector2D, Scalar) -> Vector2D,
 {
    /// One semi-implicit Euler step from `before` to `after` under `force`:
    /// the acceleration is the force over the mass, the velocity advances by
    /// the acceleration, and the position then advances by the velocity that
    /// was just computed, not by the one before. The mass stays.
    pub open spec fn integrates(
        &self,
        before: BodyState,
        force: Vector2D,
        dt: Scalar,
        after: BodyState,
    ) -> bool {
        &&& after.mass == before.mass
        &&& exists|acceleration: Vector2D|
            {
                &&& #[trigger] self.accelerate.ensures((force, before.mass), acceleration)
                &&& self.advance.ensures((before.velocity, acceleration, dt), after.velocity)
                &&& self.advance.ensures((before.position, after.velocity, dt), after.position)
            }
    }
}

impl Body {
    #[verifier::type_invariant]
    spec fn mass_is_positive(self) -> bool {
        self.mass.positive()
    }

    /// A body with the given state, or `NonPositiveMass` if the mass is not a
    /// number strictly above zero.
    pub fn new(position: Vector2D, velocity: Vector2D, mass: Scalar) -> (r: Result<Body, BodyError>)
        ensures
            match r {
                Ok(body) => mass.positive() && body@ == (BodyState { position, velocity, mass }),
                Err(e) => !mass.positive() && e == BodyError::NonPositiveMass,
            },
    {
        if mass.is_positive() {
            Ok(Body { position, velocity, mass })
        } else {
            Err(BodyError::NonPositiveMass)
        }
    }

    /// Where the body is.
    pub fn position(&self) -> (r: Vector2D)
        ensures
            r == self@.position,
    {
        self.position
    }

    /// How fast the body moves.
    pub fn velocity(&self) -> (r: Vector2D)
        ensures
            r == self@.velocity,
    {
        self.velocity
    }

    /// The body's mass, which is positive.
    pub fn mass(&self) -> (r: Scalar)
        ensures
            r == self@.mass,
            r.positive(),
    {
        proof {
            use_type_invariant(self);
        }
        self.mass
    }

    /// Applies `force` to the body for the time `time_step`: velocity first,
    /// then position from the new velocity.
    pub fn update_velocity<D, A, R, C, V>(
        &mut self,
        force: Vector2D,
        time_step: Scalar,
        arithmetic: &Arithmetic<D, A, R, C, V>,
    ) where
        D: Fn(Vector2D, Vector2D) -> Scalar,
        A: Fn(Scalar, Scalar, Scalar, Scalar) -> Scalar,
        R: Fn(Vector2D, Vector2D, Scalar) -> Vector2D,
        C: Fn(Vector2D, Scalar) -> Vector2D,
        V: Fn(Vector2D, Vector2D, Scalar) -> Vector2D,

        requires
            arithmetic.usable(),
            time_step.finite(),
        ensures
            arithmetic.integrates(old(self)@, force, time_step, final(self)@),
    {
        proof {
            use_type_invariant(&*self);
        }
        let acceleration = (arithmetic.accelerate)(force, self.mass);
        let velocity = (arithmetic.advance)(self.velocity, acceleration, time_step);
        let position = (arithmetic.advance)(self.position, velocity, time_step);
        self.velocity = velocity;
        self.position = position;
    }
}

} // verus!
