//! The estimation engine: one filter step, filtering of a time series, and
//! Rauch-Tung-Striebel smoothing of the filtered series.
//!
//! What the engine returns depends on what its two models return. So its
//! contracts are relations: `steps` holds of the inputs of one step and an
//! outcome that the step may have, `filter_yields` does so for a time series
//! and `smoothing_yields` for the backward pass. They build on `predicts` and
//! `updates`, which hold of the arguments of a model's method and a result
//! that the method may return for them.
use crate::equations;
use crate::error::Error;
use crate::matrix::{Matrix, Vector};
use crate::model::{CoverianceUpdateMethod, ObservationModelLinear, TransitionModelLinearNoControl};
use crate::scalar::Scalar;
use crate::state_and_covariance::StateAndCovariance;
use core::marker::PhantomData;
use vstd::prelude::*;

verus! {

/// A Kalman filter with no control inputs, a linear process model and a
/// linear observation model.
///
/// The filter borrows its two models and holds nothing else, so one filter
/// serves any number of independent time series.
pub struct KalmanFilterNoControl<'a, R, T, O, const SS: usize, const OS: usize> where
    R: Scalar,
    T: TransitionModelLinearNoControl<R, SS>,
    O: ObservationModelLinear<R, SS, OS>,
 {
    transition_model: &'a T,
    observation_matrix: &'a O,
    scalar: PhantomData<R>,
}

/// The outcome of a run as a sequence: the estimates that a run returned,
/// or its failure.
pub open spec fn series<E>(outcome: Result<Vec<E>, Error>) -> Result<Seq<E>, Error> {
    match outcome {
        Ok(estimates) => Ok(estimates@),
        Err(e) => Err(e),
    }
}

/// The items in the opposite order.
fn reverse<E: Copy>(items: Vec<E>) -> (r: Vec<E>)
    ensures
        r@ == items@.reverse(),
{
    let n = items.len();
    let mut r: Vec<E> = Vec::with_capacity(n);
    let mut i: usize = n;
    while i > 0
        invariant
            i <= n,
            n == items@.len(),
            r@.len() == n - i,
            forall|k: int| 0 <= k < n - i ==> r@[k] == items@[n - 1 - k],
        decreases i,
    {
        i -= 1;
        r.push(items[i]);
    }
    assert(r@ =~= items@.reverse());
    r
}

impl<'a, R, T, O, const SS: usize, const OS: usize> KalmanFilterNoControl<'a, R, T, O, SS, OS> where
    R: Scalar,
    T: TransitionModelLinearNoControl<R, SS>,
    O: ObservationModelLinear<R, SS, OS>,
 {
    /// The transition model that the filter borrows.
    pub closed spec fn transition(&self) -> &'a T {
        self.transition_model
    }

    /// The observation model that the filter borrows.
    pub closed spec fn observation(&self) -> &'a O {
        self.observation_matrix
    }

    /// Whether the transition model may predict `prior` from
    /// `previous_estimate`.
    pub open spec fn predicts(
        &self,
        previous_estimate: StateAndCovariance<R, SS>,
        prior: StateAndCovariance<R, SS>,
    ) -> bool {
        call_ensures(T::predict, (self.transition(), &previous_estimate), prior)
    }

    /// Whether the update of `prior` by `observation` in the observation
    /// model may end in `outcome`.
    pub open spec fn updates(
        &self,
        prior: StateAndCovariance<R, SS>,
        observation: Vector<R, OS>,
        covariance_update_method: CoverianceUpdateMethod,
        outcome: Result<StateAndCovariance<R, SS>, Error>,
    ) -> bool {
        call_ensures(
            O::update,
            (self.observation(), &prior, &observation, covariance_update_method),
            outcome,
        )
    }

    /// Whether one step from `previous_estimate` may end in `outcome`.
    ///
    /// A step predicts a prior from the previous estimate. An observation
    /// with a NaN component is missing: the prior is then the posterior.
    /// Any other observation updates the prior, and the outcome of the
    /// update is the outcome of the step.
    pub open spec fn steps(
        &self,
        previous_estimate: StateAndCovariance<R, SS>,
        observation: Vector<R, OS>,
        covariance_update_method: CoverianceUpdateMethod,
        outcome: Result<StateAndCovariance<R, SS>, Error>,
    ) -> bool {
        exists|prior: StateAndCovariance<R, SS>|
            {
                &&& #[trigger] self.predicts(previous_estimate, prior)
                &&& if observation.has_nan() {
                    outcome == Ok::<StateAndCovariance<R, SS>, Error>(prior)
                } else {
                    self.updates(prior, observation, covariance_update_method, outcome)
                }
            }
    }

    /// The estimate from which step `i` of a run starts: the initial
    /// estimate, or the posterior of the step before.
    pub open spec fn preceding(
        initial_estimate: StateAndCovariance<R, SS>,
        estimates: Seq<StateAndCovariance<R, SS>>,
        i: int,
    ) -> StateAndCovariance<R, SS> {
        if i == 0 {
            initial_estimate
        } else {
            estimates[i - 1]
        }
    }

    /// Whether step `i` of a run may yield `estimates[i]`.
    pub open spec fn step_at(
        &self,
        initial_estimate: StateAndCovariance<R, SS>,
        observations: Seq<Vector<R, OS>>,
        estimates: Seq<StateAndCovariance<R, SS>>,
        i: int,
    ) -> bool {
        self.steps(
            Self::preceding(initial_estimate, estimates, i),
            observations[i],
            CoverianceUpdateMethod::OptimalKalmanForcedSymmetric,
            Ok(estimates[i]),
        )
    }

    /// Whether the first `k` of `estimates` may be the posteriors of the
    /// first `k` observations, each step starting from the posterior before
    /// it.
    pub open spec fn filtered_to(
        &self,
        initial_estimate: StateAndCovariance<R, SS>,
        observations: Seq<Vector<R, OS>>,
        estimates: Seq<StateAndCovariance<R, SS>>,
        k: int,
    ) -> bool {
        &&& 0 <= k <= observations.len()
        &&& k <= estimates.len()
        &&& forall|i: int|
            0 <= i < k ==> #[trigger] self.step_at(initial_estimate, observations, estimates, i)
    }

    /// Whether a buffer of estimates is as long as it was and holds, from
    /// index `k` on, what it held.
    pub open spec fn untouched_from(
        before: Seq<StateAndCovariance<R, SS>>,
        after: Seq<StateAndCovariance<R, SS>>,
        k: int,
    ) -> bool {
        &&& after.len() == before.len()
        &&& forall|i: int| k <= i < before.len() ==> after[i] == before[i]
    }

    /// Whether a run may yield the first `k` of `estimates` and then fail
    /// with `e` at observation `k`.
    pub open spec fn fails_at(
        &self,
        initial_estimate: StateAndCovariance<R, SS>,
        observations: Seq<Vector<R, OS>>,
        estimates: Seq<StateAndCovariance<R, SS>>,
        k: int,
        e: Error,
    ) -> bool {
        &&& self.filtered_to(initial_estimate, observations, estimates, k)
        &&& k < observations.len()
        &&& self.steps(
            Self::preceding(initial_estimate, estimates, k),
            observations[k],
            CoverianceUpdateMethod::OptimalKalmanForcedSymmetric,
            Err(e),
        )
    }

    /// Whether filtering a time series into a buffer may end in `outcome`
    /// and leave the buffer as `after`. The posteriors stand in the slots of
    /// their observations. After a failure the buffer holds the posteriors
    /// of the steps before the one that failed. What a run has not written
    /// is as it was.
    pub open spec fn filter_inplace_yields(
        &self,
        initial_estimate: StateAndCovariance<R, SS>,
        observations: Seq<Vector<R, OS>>,
        before: Seq<StateAndCovariance<R, SS>>,
        after: Seq<StateAndCovariance<R, SS>>,
        outcome: Result<(), Error>,
    ) -> bool {
        match outcome {
            Ok(_) => {
                &&& self.filtered_to(initial_estimate, observations, after, observations.len() as int)
                &&& Self::untouched_from(before, after, observations.len() as int)
            },
            Err(e) => exists|k: int|
                {
                    &&& #[trigger] self.fails_at(initial_estimate, observations, after, k, e)
                    &&& Self::untouched_from(before, after, k)
                },
        }
    }

    /// Whether filtering a time series may end in `outcome`: one posterior
    /// for each observation, or the failure of the first step that failed.
    pub open spec fn filter_yields(
        &self,
        initial_estimate: StateAndCovariance<R, SS>,
        observations: Seq<Vector<R, OS>>,
        outcome: Result<Seq<StateAndCovariance<R, SS>>, Error>,
    ) -> bool {
        match outcome {
            Ok(estimates) => {
                &&& estimates.len() == observations.len()
                &&& self.filtered_to(
                    initial_estimate,
                    observations,
                    estimates,
                    observations.len() as int,
                )
            },
            Err(e) => exists|estimates: Seq<StateAndCovariance<R, SS>>, k: int| #[trigger]
                self.fails_at(initial_estimate, observations, estimates, k, e),
        }
    }

    /// Whether one backward step may end in `outcome`: a prior is predicted
    /// from the filtered estimate, and the filtered estimate is revised by
    /// the smoothed estimate of the next time step, with the transpose that
    /// the transition model supplies and in its arithmetic.
    pub open spec fn smooth_steps(
        &self,
        smooth_future: StateAndCovariance<R, SS>,
        filt: StateAndCovariance<R, SS>,
        outcome: Result<StateAndCovariance<R, SS>, Error>,
    ) -> bool {
        exists|prior: StateAndCovariance<R, SS>, ft: Matrix<R, SS, SS>|
            {
                &&& #[trigger] self.predicts(filt, prior)
                &&& #[trigger] call_ensures(
                    T::transition_model_transpose,
                    (self.transition(),),
                    &ft,
                )
                &&& equations::smooths::<R, T::Algebra, SS>(
                    ft,
                    smooth_future,
                    filt,
                    prior,
                    outcome,
                )
            }
    }

    /// Whether the backward step at time step `i` may yield `smoothed[i]`.
    pub open spec fn smooth_step_at(
        &self,
        forward_results: Seq<StateAndCovariance<R, SS>>,
        smoothed: Seq<StateAndCovariance<R, SS>>,
        i: int,
    ) -> bool {
        self.smooth_steps(smoothed[i + 1], forward_results[i], Ok(smoothed[i]))
    }

    /// Whether the entries of `smoothed` from time step `k` on may be the
    /// smoothed estimates of a filtered series. The last filtered estimate
    /// is its own smoothed estimate; each earlier one is revised against the
    /// smoothed estimate that follows it.
    pub open spec fn smoothed_from(
        &self,
        forward_results: Seq<StateAndCovariance<R, SS>>,
        smoothed: Seq<StateAndCovariance<R, SS>>,
        k: int,
    ) -> bool {
        &&& smoothed.len() == forward_results.len()
        &&& 0 <= k < forward_results.len()
        &&& smoothed.last() == forward_results.last()
        &&& forall|i: int|
            k <= i < forward_results.len() - 1 ==> #[trigger] self.smooth_step_at(
                forward_results,
                smoothed,
                i,
            )
    }

    /// Whether the backward pass may yield the entries of `smoothed` from
    /// time step `k` on and then fail with `e` at time step `k - 1`.
    pub open spec fn smoothing_fails_at(
        &self,
        forward_results: Seq<StateAndCovariance<R, SS>>,
        smoothed: Seq<StateAndCovariance<R, SS>>,
        k: int,
        e: Error,
    ) -> bool {
        &&& 0 < k
        &&& self.smoothed_from(forward_results, smoothed, k)
        &&& self.smooth_steps(smoothed[k], forward_results[k - 1], Err(e))
    }

    /// Whether smoothing a filtered series may end in `outcome`: one
    /// smoothed estimate for each filtered one, or the failure of the first
    /// backward step that failed.
    pub open spec fn smoothing_yields(
        &self,
        forward_results: Seq<StateAndCovariance<R, SS>>,
        outcome: Result<Seq<StateAndCovariance<R, SS>>, Error>,
    ) -> bool {
        match outcome {
            Ok(smoothed) => if forward_results.len() == 0 {
                smoothed.len() == 0
            } else {
                self.smoothed_from(forward_results, smoothed, 0)
            },
            Err(e) => exists|smoothed: Seq<StateAndCovariance<R, SS>>, k: int| #[trigger]
                self.smoothing_fails_at(forward_results, smoothed, k, e),
        }
    }

    /// Whether filtering a time series and smoothing what was filtered may
    /// end in `outcome`. A failure of the filter is the outcome; so is
    /// whatever the smoothing of a filtered series ends in.
    pub open spec fn smooth_yields(
        &self,
        initial_estimate: StateAndCovariance<R, SS>,
        observations: Seq<Vector<R, OS>>,
        outcome: Result<Seq<StateAndCovariance<R, SS>>, Error>,
    ) -> bool {
        exists|filtered: Result<Seq<StateAndCovariance<R, SS>>, Error>|
            {
                &&& #[trigger] self.filter_yields(initial_estimate, observations, filtered)
                &&& match filtered {
                    Ok(forward_results) => self.smoothing_yields(forward_results, outcome),
                    Err(e) => outcome == Err::<Seq<StateAndCovariance<R, SS>>, Error>(e),
                }
            }
    }

    /// Initialize a new `KalmanFilterNoControl` struct.
    ///
    /// The first parameter, `transition_model`, specifies the state
    /// transition model, including the function `F` and the process
    /// covariance `Q`. The second parameter, `observation_matrix`, specifies
    /// the observation model, including the measurement function `H` and the
    /// measurement covariance `R`.
    pub fn new(transition_model: &'a T, observation_matrix: &'a O) -> (r: Self)
        ensures
            r.transition() == transition_model,
            r.observation() == observation_matrix,
    {
        Self { transition_model, observation_matrix, scalar: PhantomData }
    }

    /// Perform Kalman prediction and update steps with default values.
    ///
    /// If any component of the observation is NaN, the observation is not
    /// used: the prior is returned as the posterior and no update is made.
    /// Otherwise the update uses the covariance update method
    /// `CoverianceUpdateMethod::OptimalKalmanForcedSymmetric`.
    pub fn step(
        &self,
        previous_estimate: &StateAndCovariance<R, SS>,
        observation: &Vector<R, OS>,
    ) -> (r: Result<StateAndCovariance<R, SS>, Error>)
        ensures
            self.steps(
                *previous_estimate,
                *observation,
                CoverianceUpdateMethod::OptimalKalmanForcedSymmetric,
                r,
            ),
    {
        self.step_with_options(
            previous_estimate,
            observation,
            CoverianceUpdateMethod::OptimalKalmanForcedSymmetric,
        )
    }

    /// Perform Kalman prediction and update steps with the given covariance
    /// update method.
    ///
    /// If any component of the observation is NaN, the observation is not
    /// used: the prior is returned as the posterior and no update is made.
    pub fn step_with_options(
        &self,
        previous_estimate: &StateAndCovariance<R, SS>,
        observation: &Vector<R, OS>,
        covariance_update_method: CoverianceUpdateMethod,
    ) -> (r: Result<StateAndCovariance<R, SS>, Error>)
        ensures
            self.steps(*previous_estimate, *observation, covariance_update_method, r),
    {
        let prior = self.transition_model.predict(previous_estimate);
        assert(self.predicts(*previous_estimate, prior));
        if observation.any_nan() {
            Ok(prior)
        } else {
            self.observation_matrix.update(&prior, observation, covariance_update_method)
        }
    }

    /// Kalman filter (operates on in-place data without allocating).
    ///
    /// Calls `step` for each observation in turn and writes each posterior
    /// into the slot of `state_estimates` with the observation's index. The
    /// first step that fails ends the run: its failure is returned, the
    /// posteriors before it are in their slots, and every other slot is as
    /// it was.
    pub fn filter_inplace(
        &self,
        initial_estimate: &StateAndCovariance<R, SS>,
        observations: &[Vector<R, OS>],
        state_estimates: &mut [StateAndCovariance<R, SS>],
    ) -> (r: Result<(), Error>)
        requires
            old(state_estimates)@.len() >= observations@.len(),
        ensures
            self.filter_inplace_yields(
                *initial_estimate,
                observations@,
                old(state_estimates)@,
                final(state_estimates)@,
                r,
            ),
    {
        let n = observations.len();
        let mut previous_estimate = *initial_estimate;
        let mut i: usize = 0;
        while i < n
            invariant
                i <= n,
                n == observations@.len(),
                n <= state_estimates@.len(),
                state_estimates@.len() == old(state_estimates)@.len(),
                self.filtered_to(*initial_estimate, observations@, state_estimates@, i as int),
                previous_estimate == Self::preceding(
                    *initial_estimate,
                    state_estimates@,
                    i as int,
                ),
                forall|j: int|
                    i <= j < state_estimates@.len() ==> state_estimates@[j] == old(
                        state_estimates,
                    )@[j],
            decreases n - i,
        {
            let ghost before = state_estimates@;
            match self.step(&previous_estimate, &observations[i]) {
                Ok(this_estimate) => {
                    state_estimates[i] = this_estimate;
                    previous_estimate = this_estimate;
                    proof {
                        assert forall|j: int| 0 <= j < i + 1 implies #[trigger] self.step_at(
                            *initial_estimate,
                            observations@,
                            state_estimates@,
                            j,
                        ) by {
                            if j < i {
                                assert(self.step_at(
                                    *initial_estimate,
                                    observations@,
                                    before,
                                    j,
                                ));
                            }
                        }
                    }
                },
                Err(e) => {
                    assert(self.fails_at(
                        *initial_estimate,
                        observations@,
                        state_estimates@,
                        i as int,
                        e,
                    ));
                    assert(Self::untouched_from(
                        old(state_estimates)@,
                        state_estimates@,
                        i as int,
                    ));
                    let ghost o = Err::<(), Error>(e);
                    assert(o->Err_0 == e);
                    assert(self.filter_inplace_yields(
                        *initial_estimate,
                        observations@,
                        old(state_estimates)@,
                        state_estimates@,
                        o,
                    ));
                    return Err(e);
                },
            }
            i += 1;
        }
        Ok(())
    }

    /// Kalman filter.
    ///
    /// Calls `step` for each observation in turn and returns the posterior
    /// estimates, one for each observation and in their order. The first step
    /// that fails ends the run, and its failure is all that is returned.
    pub fn filter(
        &self,
        initial_estimate: &StateAndCovariance<R, SS>,
        observations: &[Vector<R, OS>],
    ) -> (r: Result<Vec<StateAndCovariance<R, SS>>, Error>)
        ensures
            self.filter_yields(*initial_estimate, observations@, series(r)),
    {
        let n = observations.len();
        let mut state_estimates: Vec<StateAndCovariance<R, SS>> = Vec::with_capacity(n);
        let mut i: usize = 0;
        while i < n
            invariant
                i <= n,
                state_estimates@.len() == i,
            decreases n - i,
        {
            state_estimates.push(*initial_estimate);
            i += 1;
        }
        match self.filter_inplace(initial_estimate, observations, state_estimates.as_mut_slice()) {
            Ok(_) => Ok(state_estimates),
            Err(e) => {
                let ghost o = Err::<Seq<StateAndCovariance<R, SS>>, Error>(e);
                assert(o->Err_0 == e);
                assert(self.filter_yields(*initial_estimate, observations@, o));
                Err(e)
            },
        }
    }

    /// Rauch-Tung-Striebel (RTS) smoother.
    ///
    /// Filters the time series with `filter`, then smooths the filtered
    /// estimates with `smooth_from_filtered`.
    pub fn smooth(
        &self,
        initial_estimate: &StateAndCovariance<R, SS>,
        observations: &[Vector<R, OS>],
    ) -> (r: Result<Vec<StateAndCovariance<R, SS>>, Error>)
        ensures
            self.smooth_yields(*initial_estimate, observations@, series(r)),
    {
        match self.filter(initial_estimate, observations) {
            Ok(forward_results) => {
                let ghost filtered = Ok::<Seq<StateAndCovariance<R, SS>>, Error>(
                    forward_results@,
                );
                let r = self.smooth_from_filtered(forward_results);
                assert(self.filter_yields(*initial_estimate, observations@, filtered));
                r
            },
            Err(e) => {
                assert(self.filter_yields(
                    *initial_estimate,
                    observations@,
                    Err::<Seq<StateAndCovariance<R, SS>>, Error>(e),
                ));
                Err(e)
            },
        }
    }

    /// Rauch-Tung-Striebel (RTS) smoother using already Kalman filtered
    /// estimates.
    ///
    /// Walks the filtered estimates from the last to the first. The last
    /// one is its own smoothed estimate; each earlier one is revised by a
    /// backward step against the smoothed estimate that follows it. The
    /// smoothed estimates are returned in the order of the filtered ones.
    /// The first backward step that fails ends the run, and its failure is
    /// all that is returned. Of an empty series the smoothed series is empty.
    pub fn smooth_from_filtered(&self, forward_results: Vec<StateAndCovariance<R, SS>>) -> (r:
        Result<Vec<StateAndCovariance<R, SS>>, Error>)
        ensures
            self.smoothing_yields(forward_results@, series(r)),
    {
        let n = forward_results.len();
        if n == 0 {
            return Ok(Vec::new());
        }
        let ghost forward = forward_results@;
        let backward_results = reverse(forward_results);
        let mut smoothed_backwards: Vec<StateAndCovariance<R, SS>> = Vec::with_capacity(n);
        let mut smooth_future = backward_results[0];
        smoothed_backwards.push(smooth_future);
        let mut j: usize = 1;
        while j < n
            invariant
                1 <= j <= n,
                n == forward.len(),
                forward == forward_results@,
                backward_results@ == forward.reverse(),
                smoothed_backwards@.len() == j,
                smoothed_backwards@[0] == forward.last(),
                smooth_future == smoothed_backwards@[j - 1],
                forall|k: int|
                    1 <= k < j ==> #[trigger] self.backward_step_at(
                        forward,
                        smoothed_backwards@,
                        k,
                    ),
            decreases n - j,
        {
            let ghost before = smoothed_backwards@;
            let filt = backward_results[j];
            assert(filt == forward[n - 1 - j]);
            match self.smooth_step(&smooth_future, &filt) {
                Ok(smoothed) => {
                    smooth_future = smoothed;
                    smoothed_backwards.push(smoothed);
                    proof {
                        assert forall|k: int| 1 <= k < j + 1 implies #[trigger]
                            self.backward_step_at(forward, smoothed_backwards@, k) by {
                            if k < j {
                                assert(self.backward_step_at(forward, before, k));
                            }
                        }
                    }
                },
                Err(e) => {
                    proof {
                        let from = n - j;
                        let smoothed = Seq::new(
                            n as nat,
                            |i: int|
                                if i >= from {
                                    before[n - 1 - i]
                                } else {
                                    forward[i]
                                },
                        );
                        assert forall|i: int| from <= i < n - 1 implies #[trigger]
                            self.smooth_step_at(forward, smoothed, i) by {
                            assert(self.backward_step_at(forward, before, n - 1 - i));
                        }
                        assert(self.smoothing_fails_at(forward, smoothed, from, e));
                        let o = Err::<Seq<StateAndCovariance<R, SS>>, Error>(e);
                        assert(o->Err_0 == e);
                        assert(self.smoothing_yields(forward, o));
                    }
                    return Err(e);
                },
            }
            j += 1;
        }
        let smoothed = reverse(smoothed_backwards);
        proof {
            assert forall|i: int| 0 <= i < n - 1 implies #[trigger] self.smooth_step_at(
                forward,
                smoothed@,
                i,
            ) by {
                assert(self.backward_step_at(forward, smoothed_backwards@, n - 1 - i));
            }
        }
        Ok(smoothed)
    }

    /// Whether the `k`-th backward step of the smoother, counted from the
    /// end of the series, may yield the `k`-th of the estimates that it
    /// gathers.
    spec fn backward_step_at(
        &self,
        forward_results: Seq<StateAndCovariance<R, SS>>,
        smoothed_backwards: Seq<StateAndCovariance<R, SS>>,
        k: int,
    ) -> bool {
        self.smooth_steps(
            smoothed_backwards[k - 1],
            forward_results[forward_results.len() - 1 - k],
            Ok(smoothed_backwards[k]),
        )
    }

    /// One backward step of the smoother: predict from the filtered estimate
    /// as a filter step does, and revise the filtered estimate by the smoothed
    /// estimate of the next time step.
    fn smooth_step(
        &self,
        smooth_future: &StateAndCovariance<R, SS>,
        filt: &StateAndCovariance<R, SS>,
    ) -> (r: Result<StateAndCovariance<R, SS>, Error>)
        ensures
            self.smooth_steps(*smooth_future, *filt, r),
    {
        let prior = self.transition_model.predict(filt);
        assert(self.predicts(*filt, prior));
        let ft = self.transition_model.transition_model_transpose();
        equations::smooth::<R, T::Algebra, SS>(ft, smooth_future, filt, &prior)
    }
}

} // verus!
