//! The gravitational force between two bodies, with its two guards.
use vstd::prelude::*;
use crate::arithmetic::Arithmetic;
use crate::body::{Body, BodyState};
use crate::scalar::Scalar;
use crate::vector::Vector2D;

verus! {

/// The gravitational constant, 6.67430e-11.
pub const GRAVITATIONAL_CONSTANT_BITS: u64 = 0x3dd2_589e_ffed_8acc;

/// The least separation that enters the inverse-square law, 1.0e6.
pub const MINIMUM_SEPARATION_BITS: u64 = 0x412e_8480_0000_0000;

/// The largest force magnitude that is let through, 1.0e22.
pub const FORCE_CAP_BITS: u64 = 0x4480_f0cf_064d_d592;

/// The parameters of the force law.
#[derive(Clone, Copy, Debug, PartialEq, Eq)]
pub struct ForceLaw {
    /// The gravitational constant.
    pub g: Scalar,
    /// The separation below which two bodies are treated as this far apart.
    pub d_min: Scalar,
    /// The cap on the force's magnitude, if there is one.
    pub f_max: Option<Scalar>,
}

impl ForceLaw {
    /// The separation that enters the inverse-square law for a measured
    /// distance: the distance, or `d_min` where the distance is smaller or
    /// not a number.
    pub open spec fn guarded_separation(self, distance: Scalar) -> Scalar {
        distance.larger(self.d_min)
    }

    /// The magnitude that is let through for a computed one: the computed
    /// magnitude, or the cap where there is a cap and the magnitude is above
    /// it or not a number.
    pub open spec fn guarded_magnitude(self, magnitude: Scalar) -> Scalar {
        match self.f_max {
            Some(cap) => magnitude.smaller(cap),
            None => magnitude,
        }
    }

    /// The law with the usual constants: `g` 6.67430e-11, `d_min` 1.0e6 and
    /// a cap of 1.0e22.
    pub fn standard() -> (r: ForceLaw)
        ensures
            r.g.bits == GRAVITATIONAL_CONSTANT_BITS,
            r.d_min.bits == MINIMUM_SEPARATION_BITS,
            r.f_max == Some(Scalar { bits: FORCE_CAP_BITS }),
    {
        ForceLaw {
            g: Scalar { bits: GRAVITATIONAL_CONSTANT_BITS },
            d_min: Scalar { bits: MINIMUM_SEPARATION_BITS },
            f_max: Some(Scalar { bits: FORCE_CAP_BITS }),
        }
    }

    /// Guards the inverse-square law against a vanishing separation.
    pub fn safe_distance(&self, distance: Scalar) -> (r: Scalar)
        ensures
            r == self.guarded_separation(distance),
            distance.below(self.d_min) || distance.nan() ==> r == self.d_min,
            !self.d_min.nan() ==> !r.nan() && !r.below(self.d_min),
    {
        distance.max(self.d_min)
    }

    /// Caps a force magnitude.
    pub fn capped(&self, magnitude: Scalar) -> (r: Scalar)
        ensures
            r == self.guarded_magnitude(magnitude),
            self.f_max matches Some(cap) ==> {
                &&& cap.below(magnitude) || magnitude.nan() ==> r == cap
                &&& !cap.nan() ==> !r.nan() && !cap.below(r)
            },
            self.f_max is None ==> r == magnitude,
    {
        match self.f_max {
            Some(cap) => magnitude.min(cap),
            None => magnitude,
        }
    }
}

impl<D, A, R, C, V> Arithmetic<D, A, R, C, V> where
    D: Fn(Vector2D, Vector2D) -> Scalar,
    A: Fn(Scalar, Scalar, Scalar, Scalar) -> Scalar,
    R: Fn(Vector2D, Vector2D, Scalar) -> Vector2D,
    C: Fn(Vector2D, Scalar) -> Vector2D,
    V: Fn(Vector2D, Vector2D, Scalar) -> Vector2D,
 {
    /// `force` is a force that `law` gives on the body `on`, exerted by the
    /// body `by`: the distance between the two is measured and guarded, the
    /// inverse-square magnitude is computed from the guarded separation and
    /// capped, and the capped magnitude is resolved along the line from `on`
    /// towards `by`.
    pub open spec fn attracts(
        &self,
        law: ForceLaw,
        on: BodyState,
        by: BodyState,
        force: Vector2D,
    ) -> bool {
        exists|distance: Scalar, magnitude: Scalar|
            {
                &&& #[trigger] self.distance.ensures((on.position, by.position), distance)
                &&& #[trigger] self.attraction.ensures(
                    (law.g, on.mass, by.mass, law.guarded_separation(distance)),
                    magnitude,
                )
                &&& self.resolve.ensures(
                    (on.position, by.position, law.guarded_magnitude(magnitude)),
                    force,
                )
            }
    }
}

impl<D, A, R, C, V> Arithmetic<D, A, R, C, V> where
    D: Fn(Vector2D, Vector2D) -> Scalar,
    A: Fn(Scalar, Scalar, Scalar, Scalar) -> Scalar,
    R: Fn(Vector2D, Vector2D, Scalar) -> Vector2D,
    C: Fn(Vector2D, Scalar) -> Vector2D,
    V: Fn(Vector2D, Vector2D, Scalar) -> Vector2D,
 {
    /// Every force of a capped law, wherever the two bodies are, comes from
    /// an inverse-square magnitude over a separation that is a number not
    /// below `d_min`, and is resolved from a magnitude that is a number not
    /// above the cap.
    pub proof fn lemma_force_is_guarded(
        &self,
        law: ForceLaw,
        on: BodyState,
        by: BodyState,
        force: Vector2D,
        cap: Scalar,
    )
        requires
            self.attracts(law, on, by, force),
            !law.d_min.nan(),
            law.f_max == Some(cap),
            !cap.nan(),
        ensures
            exists|separation: Scalar, computed: Scalar, let_through: Scalar|
                {
                    &&& !separation.nan() && !separation.below(law.d_min)
                    &&& #[trigger] self.attraction.ensures(
                        (law.g, on.mass, by.mass, separation),
                        computed,
                    )
                    &&& !let_through.nan() && !cap.below(let_through)
                    &&& computed.nan() || cap.below(computed) ==> let_through == cap
                    &&& #[trigger] self.resolve.ensures(
                        (on.position, by.position, let_through),
                        force,
                    )
                },
    {
        let (distance, magnitude) = choose|distance: Scalar, magnitude: Scalar|
            {
                &&& #[trigger] self.distance.ensures((on.position, by.position), distance)
                &&& #[trigger] self.attraction.ensures(
                    (law.g, on.mass, by.mass, law.guarded_separation(distance)),
                    magnitude,
                )
                &&& self.resolve.ensures(
                    (on.position, by.position, law.guarded_magnitude(magnitude)),
                    force,
                )
            };
        law.lemma_separation_is_guarded(distance);
        law.lemma_magnitude_is_capped(magnitude, cap);
    }
}

impl ForceLaw {
    /// The separation that enters the inverse-square law is a number and is
    /// never below `d_min`, whatever was measured: a distance of zero, a
    /// distance below `d_min` and a distance that is not a number all give
    /// `d_min`, and any other distance is let through as it is.
    pub proof fn lemma_separation_is_guarded(self, distance: Scalar)
        requires
            !self.d_min.nan(),
        ensures
            !self.guarded_separation(distance).nan(),
            !self.guarded_separation(distance).below(self.d_min),
            distance.nan() || distance.below(self.d_min) ==> self.guarded_separation(distance)
                == self.d_min,
            !distance.nan() && !distance.below(self.d_min) ==> self.guarded_separation(distance)
                == distance,
    {
    }

    /// With a cap, the magnitude that is let through is a number and is never
    /// above the cap: a magnitude above the cap and one that is not a number
    /// both give the cap exactly, and any other magnitude is let through as
    /// it is.
    pub proof fn lemma_magnitude_is_capped(self, magnitude: Scalar, cap: Scalar)
        requires
            self.f_max == Some(cap),
            !cap.nan(),
        ensures
            !self.guarded_magnitude(magnitude).nan(),
            !cap.below(self.guarded_magnitude(magnitude)),
            magnitude.nan() || cap.below(magnitude) ==> self.guarded_magnitude(magnitude) == cap,
            !magnitude.nan() && !cap.below(magnitude) ==> self.guarded_magnitude(magnitude)
                == magnitude,
    {
    }

    /// The force exerted on `m1` by `m2`. The force on `m2` by `m1` is its
    /// exact negation.
    pub fn force<D, A, R, C, V>(
        &self,
        m1: &Body,
        m2: &Body,
        arithmetic: &Arithmetic<D, A, R, C, V>,
    ) -> (r: Vector2D) where
        D: Fn(Vector2D, Vector2D) -> Scalar,
        A: Fn(Scalar, Scalar, Scalar, Scalar) -> Scalar,
        R: Fn(Vector2D, Vector2D, Scalar) -> Vector2D,
        C: Fn(Vector2D, Scalar) -> Vector2D,
        V: Fn(Vector2D, Vector2D, Scalar) -> Vector2D,

        requires
            arithmetic.usable(),
        ensures
            arithmetic.attracts(*self, m1@, m2@, r),
    {
        let distance = (arithmetic.distance)(m1.position(), m2.position());
        let separation = self.safe_distance(distance);
        let magnitude = (arithmetic.attraction)(self.g, m1.mass(), m2.mass(), separation);
        let capped = self.capped(magnitude);
        (arithmetic.resolve)(m1.position(), m2.position(), capped)
    }
}

} // verus!
