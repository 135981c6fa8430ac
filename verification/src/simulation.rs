//! One tick of the simulation.
//!
//! A tick visits every unordered pair of bodies once, in the order of
//! `schedule`. At each visit the force between the two is computed from their
//! state at that moment and both are integrated at once, so a later visit
//! within the same tick sees what the earlier ones left.
use vstd::prelude::*;
use crate::arithmetic::Arithmetic;
use crate::body::{Body, BodyState};
use crate::force::ForceLaw;
use crate::scalar::Scalar;
use crate::schedule::{lemma_rows_len, lemma_schedule_complete, row, rows, schedule};
use crate::vector::{lemma_opposite_involution, Vector2D};

verus! {

/// Why a tick was refused.
#[derive(Clone, Copy, Debug, PartialEq, Eq, Structural)]
pub enum StepError {
    /// The time step is an infinity or not a number.
    NonFiniteTimeStep,
}

impl<D, A, R, C, V> Arithmetic<D, A, R, C, V> where
    D: Fn(Vector2D, Vector2D) -> Scalar,
    A: Fn(Scalar, Scalar, Scalar, Scalar) -> Scalar,
    R: Fn(Vector2D, Vector2D, Scalar) -> Vector2D,
    C: Fn(Vector2D, Scalar) -> Vector2D,
    V: Fn(Vector2D, Vector2D, Scalar) -> Vector2D,
 {
    /// Two bodies in the states `first` and `second` interact for the time
    /// `dt` and are left in the states `first_after` and `second_after`: one
    /// force is computed, on the first body by the second; the first body is
    /// integrated under that force and the second under its exact negation.
    pub open spec fn interacts(
        &self,
        law: ForceLaw,
        dt: Scalar,
        first: BodyState,
        second: BodyState,
        first_after: BodyState,
        second_after: BodyState,
    ) -> bool {
        exists|force: Vector2D|
            {
                &&& #[trigger] self.attracts(law, first, second, force)
                &&& self.integrates(first, force, dt, first_after)
                &&& self.integrates(second, force.opposite(), dt, second_after)
            }
    }

    /// The bodies `after` are the bodies `before` once the two bodies of
    /// `pair` have interacted; every other body is as it was.
    pub open spec fn visits(
        &self,
        law: ForceLaw,
        dt: Scalar,
        before: Seq<Body>,
        pair: (int, int),
        after: Seq<Body>,
    ) -> bool {
        &&& after.len() == before.len()
        &&& 0 <= pair.0 < pair.1 < before.len()
        &&& self.interacts(
            law,
            dt,
            before[pair.0]@,
            before[pair.1]@,
            after[pair.0]@,
            after[pair.1]@,
        )
        &&& forall|m: int|
            0 <= m < before.len() && m != pair.0 && m != pair.1 ==> after[m] == before[m]
    }

    /// The visit number `k` of a tick leads from `trace[k]` to
    /// `trace[k + 1]` and is to the pair number `k` of the schedule.
    pub open spec fn visit_at(
        &self,
        law: ForceLaw,
        dt: Scalar,
        trace: Seq<Seq<Body>>,
        k: int,
    ) -> bool {
        self.visits(law, dt, trace[k], schedule(trace[0].len() as int)[k], trace[k + 1])
    }

    /// `trace` records one tick: the bodies before it, then the bodies after
    /// each visit, one visit for each pair of the schedule and in its order.
    pub open spec fn ticks(&self, law: ForceLaw, dt: Scalar, trace: Seq<Seq<Body>>) -> bool {
        &&& trace.len() == schedule(trace[0].len() as int).len() + 1
        &&& forall|k: int|
            0 <= k < trace.len() - 1 ==> #[trigger] self.visit_at(law, dt, trace, k)
    }

    /// One tick of length `dt` can lead from the bodies `before` to the
    /// bodies `after`.
    pub open spec fn evolves(
        &self,
        law: ForceLaw,
        dt: Scalar,
        before: Seq<Body>,
        after: Seq<Body>,
    ) -> bool {
        exists|trace: Seq<Seq<Body>>|
            {
                &&& #[trigger] self.ticks(law, dt, trace)
                &&& trace.first() == before
                &&& trace.last() == after
            }
    }

    /// `states` records a run: each entry after the first is reached from
    /// the one before it by one tick, of the length that `steps` gives.
    pub open spec fn runs(
        &self,
        law: ForceLaw,
        steps: Seq<Scalar>,
        states: Seq<Seq<Body>>,
    ) -> bool {
        &&& states.len() == steps.len() + 1
        &&& forall|t: int|
            0 <= t < steps.len() ==> self.evolves(law, #[trigger] steps[t], states[t], states[t + 1])
    }

    /// The two forces of one interaction are equal and opposite: the second
    /// body is integrated under the exact negation of the force on the first,
    /// and the first under the exact negation of the force on the second.
    pub proof fn lemma_equal_and_opposite(
        &self,
        law: ForceLaw,
        dt: Scalar,
        first: BodyState,
        second: BodyState,
        first_after: BodyState,
        second_after: BodyState,
    )
        requires
            self.interacts(law, dt, first, second, first_after, second_after),
        ensures
            exists|on_first: Vector2D, on_second: Vector2D|
                {
                    &&& #[trigger] self.integrates(first, on_first, dt, first_after)
                    &&& #[trigger] self.integrates(second, on_second, dt, second_after)
                    &&& self.attracts(law, first, second, on_first)
                    &&& on_second == on_first.opposite()
                    &&& on_first == on_second.opposite()
                },
    {
        let force = choose|force: Vector2D|
            {
                &&& #[trigger] self.attracts(law, first, second, force)
                &&& self.integrates(first, force, dt, first_after)
                &&& self.integrates(second, force.opposite(), dt, second_after)
            };
        lemma_opposite_involution(force);
    }

    /// Throughout a tick the number of bodies stays, and so does the mass of
    /// each body.
    pub proof fn lemma_tick_keeps_masses(
        &self,
        law: ForceLaw,
        dt: Scalar,
        trace: Seq<Seq<Body>>,
        k: int,
        m: int,
    )
        requires
            self.ticks(law, dt, trace),
            0 <= k < trace.len(),
            0 <= m < trace[0].len(),
        ensures
            trace[k].len() == trace[0].len(),
            trace[k][m]@.mass == trace[0][m]@.mass,
        decreases k,
    {
        if k > 0 {
            self.lemma_tick_keeps_masses(law, dt, trace, k - 1, m);
            assert(self.visit_at(law, dt, trace, k - 1));
        }
    }

    /// After any number of ticks the number of bodies is what it was at the
    /// start, and every body has the mass that it had at the start.
    pub proof fn lemma_run_keeps_masses(
        &self,
        law: ForceLaw,
        steps: Seq<Scalar>,
        states: Seq<Seq<Body>>,
        t: int,
        m: int,
    )
        requires
            self.runs(law, steps, states),
            0 <= t < states.len(),
            0 <= m < states[0].len(),
        ensures
            states[t].len() == states[0].len(),
            states[t][m]@.mass == states[0][m]@.mass,
        decreases t,
    {
        if t > 0 {
            self.lemma_run_keeps_masses(law, steps, states, t - 1, m);
            assert(self.evolves(law, steps[t - 1], states[t - 1], states[t - 1 + 1]));
            let trace = choose|trace: Seq<Seq<Body>>|
                {
                    &&& #[trigger] self.ticks(law, steps[t - 1], trace)
                    &&& trace.first() == states[t - 1]
                    &&& trace.last() == states[t]
                };
            self.lemma_tick_keeps_masses(law, steps[t - 1], trace, trace.len() - 1, m);
        }
    }
}

/// Lets two bodies act on each other for the time `time_step`: the force on
/// `m1` by `m2` is computed once, `m1` is integrated under it and `m2` under
/// its negation. Neither mass changes.
pub fn update_masses<D, A, R, C, V>(
    m1: &mut Body,
    m2: &mut Body,
    time_step: Scalar,
    law: &ForceLaw,
    arithmetic: &Arithmetic<D, A, R, C, V>,
) where
    D: Fn(Vector2D, Vector2D) -> Scalar,
    A: Fn(Scalar, Scalar, Scalar, Scalar) -> Scalar,
    R: Fn(Vector2D, Vector2D, Scalar) -> Vector2D,
    C: Fn(Vector2D, Scalar) -> Vector2D,
    V: Fn(Vector2D, Vector2D, Scalar) -> Vector2D,

    requires
        arithmetic.usable(),
        time_step.finite(),
    ensures
        arithmetic.interacts(
            *law,
            time_step,
            old(m1)@,
            old(m2)@,
            final(m1)@,
            final(m2)@,
        ),
        final(m1)@.mass == old(m1)@.mass,
        final(m2)@.mass == old(m2)@.mass,
{
    let force = law.force(&*m1, &*m2, arithmetic);
    let reaction = force.negated();
    m1.update_velocity(force, time_step, arithmetic);
    m2.update_velocity(reaction, time_step, arithmetic);
}

/// Advances every body by one tick of length `dt`.
///
/// A time step that is not finite is refused and the bodies are left alone.
/// Otherwise every unordered pair of bodies interacts once, in the order of
/// the schedule. The number of bodies and each body's mass stay as they were.
pub fn step<D, A, R, C, V>(
    bodies: &mut Vec<Body>,
    dt: Scalar,
    law: &ForceLaw,
    arithmetic: &Arithmetic<D, A, R, C, V>,
) -> (r: Result<(), StepError>) where
    D: Fn(Vector2D, Vector2D) -> Scalar,
    A: Fn(Scalar, Scalar, Scalar, Scalar) -> Scalar,
    R: Fn(Vector2D, Vector2D, Scalar) -> Vector2D,
    C: Fn(Vector2D, Scalar) -> Vector2D,
    V: Fn(Vector2D, Vector2D, Scalar) -> Vector2D,

    requires
        arithmetic.usable(),
    ensures
        final(bodies)@.len() == old(bodies)@.len(),
        forall|m: int|
            0 <= m < old(bodies)@.len() ==> (#[trigger] final(bodies)@[m])@.mass == old(
                bodies,
            )@[m]@.mass,
        match r {
            Ok(_) => dt.finite() && arithmetic.evolves(*law, dt, old(bodies)@, final(bodies)@),
            Err(e) => e == StepError::NonFiniteTimeStep && !dt.finite() && final(bodies)@ == old(
                bodies,
            )@,
        },
{
    if !dt.is_finite() {
        return Err(StepError::NonFiniteTimeStep);
    }
    let n: usize = bodies.len();
    let ghost start = bodies@;
    let ghost mut trace: Seq<Seq<Body>> = seq![bodies@];
    let mut i: usize = 0;
    while i < n
        invariant
            arithmetic.usable(),
            dt.finite(),
            0 <= i <= n,
            n == start.len(),
            bodies@.len() == n,
            forall|m: int| 0 <= m < n ==> (#[trigger] bodies@[m])@.mass == start[m]@.mass,
            trace.len() == rows(n as int, i as int).len() + 1,
            trace.first() == start,
            trace.last() == bodies@,
            forall|k: int|
                0 <= k < trace.len() - 1 ==> #[trigger] arithmetic.visit_at(*law, dt, trace, k),
        decreases n - i,
    {
        let mut j: usize = i + 1;
        while j < n
            invariant
                arithmetic.usable(),
                dt.finite(),
                0 <= i < j <= n,
                n == start.len(),
                bodies@.len() == n,
                forall|m: int| 0 <= m < n ==> (#[trigger] bodies@[m])@.mass == start[m]@.mass,
                trace.len() == rows(n as int, i as int).len() + (j - i - 1) + 1,
                trace.first() == start,
                trace.last() == bodies@,
                forall|k: int|
                    0 <= k < trace.len() - 1 ==> #[trigger] arithmetic.visit_at(
                        *law,
                        dt,
                        trace,
                        k,
                    ),
            decreases n - j,
        {
            let ghost earlier = trace;
            let mut first = bodies[i];
            let mut second = bodies[j];
            update_masses(&mut first, &mut second, dt, law, arithmetic);
            bodies.set(i, first);
            bodies.set(j, second);
            proof {
                let k = earlier.len() - 1;
                trace = earlier.push(bodies@);
                lemma_rows_len(n as int, i as int);
                lemma_schedule_complete(n as int, i as int, j as int);
                assert forall|q: int| 0 <= q < trace.len() - 1 implies #[trigger]
                    arithmetic.visit_at(*law, dt, trace, q) by {
                    if q < k {
                        assert(arithmetic.visit_at(*law, dt, earlier, q));
                    }
                }
            }
            j = j + 1;
        }
        proof {
            assert(rows(n as int, i + 1) == rows(n as int, i as int) + row(n as int, i as int));
        }
        i = i + 1;
    }
    proof {
        assert(arithmetic.ticks(*law, dt, trace));
    }
    Ok(())
}

} // verus!
