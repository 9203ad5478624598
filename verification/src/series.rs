//! What holds of a step, of a filtered series and of a smoothed series,
//! whatever the models.
use crate::error::Error;
use crate::filter::KalmanFilterNoControl;
use crate::matrix::Vector;
use crate::model::{CoverianceUpdateMethod, ObservationModelLinear, TransitionModelLinearNoControl};
use crate::scalar::Scalar;
use crate::state_and_covariance::StateAndCovariance;
use vstd::prelude::*;

verus! {

impl<'a, R, T, O, const SS: usize, const OS: usize> KalmanFilterNoControl<'a, R, T, O, SS, OS> where
    R: Scalar,
    T: TransitionModelLinearNoControl<R, SS>,
    O: ObservationModelLinear<R, SS, OS>,
 {
    /// Whether the prediction of the transition model is a function of the
    /// previous estimate.
    pub open spec fn prediction_determined(&self) -> bool {
        forall|
            previous_estimate: StateAndCovariance<R, SS>,
            prior1: StateAndCovariance<R, SS>,
            prior2: StateAndCovariance<R, SS>,
        |
            #![trigger self.predicts(previous_estimate, prior1), self.predicts(previous_estimate, prior2)]
            self.predicts(previous_estimate, prior1) && self.predicts(previous_estimate, prior2)
                ==> prior1 == prior2
    }

    /// Whether the update of the observation model is a function of the
    /// prior, the observation and the method.
    pub open spec fn update_determined(&self) -> bool {
        forall|
            prior: StateAndCovariance<R, SS>,
            observation: Vector<R, OS>,
            covariance_update_method: CoverianceUpdateMethod,
            outcome1: Result<StateAndCovariance<R, SS>, Error>,
            outcome2: Result<StateAndCovariance<R, SS>, Error>,
        |
            #![trigger
                self.updates(prior, observation, covariance_update_method, outcome1),
                self.updates(prior, observation, covariance_update_method, outcome2)
            ]
            self.updates(prior, observation, covariance_update_method, outcome1) && self.updates(
                prior,
                observation,
                covariance_update_method,
                outcome2,
            ) ==> outcome1 == outcome2
    }

    /// Whether a backward step of the smoother is a function of the two
    /// estimates that it is given.
    pub open spec fn smooth_step_determined(&self) -> bool {
        forall|
            smooth_future: StateAndCovariance<R, SS>,
            filt: StateAndCovariance<R, SS>,
            outcome1: Result<StateAndCovariance<R, SS>, Error>,
            outcome2: Result<StateAndCovariance<R, SS>, Error>,
        |
            #![trigger
                self.smooth_steps(smooth_future, filt, outcome1),
                self.smooth_steps(smooth_future, filt, outcome2)
            ]
            self.smooth_steps(smooth_future, filt, outcome1) && self.smooth_steps(
                smooth_future,
                filt,
                outcome2,
            ) ==> outcome1 == outcome2
    }

    /// A missing observation leaves the prediction as it is: where the
    /// observation has a NaN component, the outcomes of a step are the
    /// priors that the transition model may predict, and no failure.
    pub proof fn lemma_missing_observation(
        &self,
        previous_estimate: StateAndCovariance<R, SS>,
        observation: Vector<R, OS>,
        covariance_update_method: CoverianceUpdateMethod,
        outcome: Result<StateAndCovariance<R, SS>, Error>,
    )
        requires
            observation.has_nan(),
        ensures
            self.steps(previous_estimate, observation, covariance_update_method, outcome) <==> (
            outcome is Ok && self.predicts(previous_estimate, outcome->Ok_0)),
    {
        if outcome is Ok && self.predicts(previous_estimate, outcome->Ok_0) {
            assert(outcome == Ok::<StateAndCovariance<R, SS>, Error>(outcome->Ok_0));
        }
    }

    /// A step fails only where its update fails: of an observation that is
    /// not missing, applied to a prior that the transition model may
    /// predict.
    pub proof fn lemma_step_fails_in_update(
        &self,
        previous_estimate: StateAndCovariance<R, SS>,
        observation: Vector<R, OS>,
        covariance_update_method: CoverianceUpdateMethod,
        e: Error,
    )
        requires
            self.steps(previous_estimate, observation, covariance_update_method, Err(e)),
        ensures
            !observation.has_nan(),
            exists|prior: StateAndCovariance<R, SS>| #[trigger]
                self.predicts(previous_estimate, prior) && self.updates(
                    prior,
                    observation,
                    covariance_update_method,
                    Err(e),
                ),
    {
    }

    /// The step with default values is the step with the covariance update
    /// method `OptimalKalmanForcedSymmetric`, and every step of a filtered
    /// series is one.
    pub proof fn lemma_series_steps(
        &self,
        initial_estimate: StateAndCovariance<R, SS>,
        observations: Seq<Vector<R, OS>>,
        estimates: Seq<StateAndCovariance<R, SS>>,
        i: int,
    )
        requires
            self.filter_yields(initial_estimate, observations, Ok(estimates)),
            0 <= i < observations.len(),
        ensures
            self.steps(
                if i == 0 {
                    initial_estimate
                } else {
                    estimates[i - 1]
                },
                observations[i],
                CoverianceUpdateMethod::OptimalKalmanForcedSymmetric,
                Ok(estimates[i]),
            ),
    {
        assert(self.step_at(initial_estimate, observations, estimates, i));
    }

    /// A filtered series has one estimate for each observation.
    pub proof fn lemma_filter_length(
        &self,
        initial_estimate: StateAndCovariance<R, SS>,
        observations: Seq<Vector<R, OS>>,
        estimates: Seq<StateAndCovariance<R, SS>>,
    )
        requires
            self.filter_yields(initial_estimate, observations, Ok(estimates)),
        ensures
            estimates.len() == observations.len(),
    {
    }

    /// A smoothed series is as long as the filtered series that it was made
    /// from.
    pub proof fn lemma_smoothing_length(
        &self,
        forward_results: Seq<StateAndCovariance<R, SS>>,
        smoothed: Seq<StateAndCovariance<R, SS>>,
    )
        requires
            self.smoothing_yields(forward_results, Ok(smoothed)),
        ensures
            smoothed.len() == forward_results.len(),
    {
    }

    /// Smoothing a time series yields one estimate for each observation, as
    /// filtering it does.
    pub proof fn lemma_smooth_length(
        &self,
        initial_estimate: StateAndCovariance<R, SS>,
        observations: Seq<Vector<R, OS>>,
        smoothed: Seq<StateAndCovariance<R, SS>>,
    )
        requires
            self.smooth_yields(initial_estimate, observations, Ok(smoothed)),
        ensures
            smoothed.len() == observations.len(),
    {
        let filtered = choose|filtered: Result<Seq<StateAndCovariance<R, SS>>, Error>|
            {
                &&& #[trigger] self.filter_yields(initial_estimate, observations, filtered)
                &&& match filtered {
                    Ok(forward_results) => self.smoothing_yields(forward_results, Ok(smoothed)),
                    Err(e) => Ok::<Seq<StateAndCovariance<R, SS>>, Error>(smoothed) == Err::<
                        Seq<StateAndCovariance<R, SS>>,
                        Error,
                    >(e),
                }
            };
        assert(filtered is Ok);
    }

    /// Smoothing leaves the last estimate as it is: the last element of a
    /// smoothed series is the last element of the filtered series.
    pub proof fn lemma_terminal_point(
        &self,
        forward_results: Seq<StateAndCovariance<R, SS>>,
        smoothed: Seq<StateAndCovariance<R, SS>>,
    )
        requires
            self.smoothing_yields(forward_results, Ok(smoothed)),
            forward_results.len() > 0,
        ensures
            smoothed.last() == forward_results.last(),
    {
    }

    /// Every estimate of a smoothed series but the last is a backward step
    /// from the smoothed estimate that follows it and the filtered estimate
    /// of its own time step.
    pub proof fn lemma_smoothing_steps(
        &self,
        forward_results: Seq<StateAndCovariance<R, SS>>,
        smoothed: Seq<StateAndCovariance<R, SS>>,
        i: int,
    )
        requires
            self.smoothing_yields(forward_results, Ok(smoothed)),
            0 <= i < forward_results.len() - 1,
        ensures
            self.smooth_steps(smoothed[i + 1], forward_results[i], Ok(smoothed[i])),
    {
        assert(self.smooth_step_at(forward_results, smoothed, i));
    }

    /// Filtering fails only where a step fails, and smoothing a filtered
    /// series only where a backward step fails. So a series without
    /// observations is filtered without failure, and a series of at most
    /// one estimate is smoothed without failure.
    pub proof fn lemma_short_series_succeed(
        &self,
        initial_estimate: StateAndCovariance<R, SS>,
        observations: Seq<Vector<R, OS>>,
        forward_results: Seq<StateAndCovariance<R, SS>>,
        e: Error,
    )
        ensures
            observations.len() == 0 ==> !self.filter_yields(
                initial_estimate,
                observations,
                Err(e),
            ),
            forward_results.len() <= 1 ==> !self.smoothing_yields(forward_results, Err(e)),
    {
    }

    /// Missing observations cannot make the filter fail: where every
    /// observation has a NaN component, filtering does not fail.
    pub proof fn lemma_missing_observations_do_not_fail(
        &self,
        initial_estimate: StateAndCovariance<R, SS>,
        observations: Seq<Vector<R, OS>>,
        e: Error,
    )
        requires
            forall|i: int| 0 <= i < observations.len() ==> (#[trigger] observations[i]).has_nan(),
        ensures
            !self.filter_yields(initial_estimate, observations, Err(e)),
    {
        if self.filter_yields(initial_estimate, observations, Err(e)) {
            let (estimates, k) = choose|estimates: Seq<StateAndCovariance<R, SS>>, k: int| #[trigger]
                self.fails_at(initial_estimate, observations, estimates, k, e);
            assert(observations[k].has_nan());
        }
    }

    /// With models that are functions, a step is a function: one previous
    /// estimate, one observation and one method have one outcome.
    pub proof fn lemma_step_determined(
        &self,
        previous_estimate: StateAndCovariance<R, SS>,
        observation: Vector<R, OS>,
        covariance_update_method: CoverianceUpdateMethod,
        outcome1: Result<StateAndCovariance<R, SS>, Error>,
        outcome2: Result<StateAndCovariance<R, SS>, Error>,
    )
        requires
            self.prediction_determined(),
            self.update_determined(),
            self.steps(previous_estimate, observation, covariance_update_method, outcome1),
            self.steps(previous_estimate, observation, covariance_update_method, outcome2),
        ensures
            outcome1 == outcome2,
    {
    }

    /// With models that are functions, two runs of the filter over the same
    /// observations yield the same estimates as far as both have come.
    pub proof fn lemma_runs_agree(
        &self,
        initial_estimate: StateAndCovariance<R, SS>,
        observations: Seq<Vector<R, OS>>,
        estimates1: Seq<StateAndCovariance<R, SS>>,
        estimates2: Seq<StateAndCovariance<R, SS>>,
        k: int,
    )
        requires
            self.prediction_determined(),
            self.update_determined(),
            self.filtered_to(initial_estimate, observations, estimates1, k),
            self.filtered_to(initial_estimate, observations, estimates2, k),
        ensures
            forall|i: int| 0 <= i < k ==> estimates1[i] == estimates2[i],
        decreases k,
    {
        if k > 0 {
            self.lemma_runs_agree(initial_estimate, observations, estimates1, estimates2, k - 1);
            assert(self.step_at(initial_estimate, observations, estimates1, k - 1));
            assert(self.step_at(initial_estimate, observations, estimates2, k - 1));
            self.lemma_step_determined(
                Self::preceding(initial_estimate, estimates1, k - 1),
                observations[k - 1],
                CoverianceUpdateMethod::OptimalKalmanForcedSymmetric,
                Ok(estimates1[k - 1]),
                Ok(estimates2[k - 1]),
            );
        }
    }

    /// A run of the filter that has come to step `k` has come to every
    /// step before it.
    pub proof fn lemma_run_prefix(
        &self,
        initial_estimate: StateAndCovariance<R, SS>,
        observations: Seq<Vector<R, OS>>,
        estimates: Seq<StateAndCovariance<R, SS>>,
        k: int,
        h: int,
    )
        requires
            self.filtered_to(initial_estimate, observations, estimates, k),
            0 <= h <= k,
        ensures
            self.filtered_to(initial_estimate, observations, estimates, h),
    {
    }

    /// With models that are functions, filtering is a function: an initial
    /// estimate and a series of observations have one outcome.
    pub proof fn lemma_filter_determined(
        &self,
        initial_estimate: StateAndCovariance<R, SS>,
        observations: Seq<Vector<R, OS>>,
        outcome1: Result<Seq<StateAndCovariance<R, SS>>, Error>,
        outcome2: Result<Seq<StateAndCovariance<R, SS>>, Error>,
    )
        requires
            self.prediction_determined(),
            self.update_determined(),
            self.filter_yields(initial_estimate, observations, outcome1),
            self.filter_yields(initial_estimate, observations, outcome2),
        ensures
            outcome1 == outcome2,
    {
        let n = observations.len() as int;
        match (outcome1, outcome2) {
            (Ok(estimates1), Ok(estimates2)) => {
                self.lemma_runs_agree(initial_estimate, observations, estimates1, estimates2, n);
                assert(estimates1 =~= estimates2);
            },
            (Ok(estimates1), Err(e2)) => {
                self.lemma_success_excludes_failure(initial_estimate, observations, estimates1, e2);
            },
            (Err(e1), Ok(estimates2)) => {
                self.lemma_success_excludes_failure(initial_estimate, observations, estimates2, e1);
            },
            (Err(e1), Err(e2)) => {
                let (estimates1, k1) = choose|estimates: Seq<StateAndCovariance<R, SS>>, k: int| #[trigger]
                    self.fails_at(initial_estimate, observations, estimates, k, e1);
                let (estimates2, k2) = choose|estimates: Seq<StateAndCovariance<R, SS>>, k: int| #[trigger]
                    self.fails_at(initial_estimate, observations, estimates, k, e2);
                if k1 < k2 {
                    self.lemma_failure_excludes_progress(
                        initial_estimate,
                        observations,
                        estimates1,
                        k1,
                        e1,
                        estimates2,
                        k2,
                    );
                } else if k2 < k1 {
                    self.lemma_failure_excludes_progress(
                        initial_estimate,
                        observations,
                        estimates2,
                        k2,
                        e2,
                        estimates1,
                        k1,
                    );
                } else {
                    self.lemma_runs_agree(
                        initial_estimate,
                        observations,
                        estimates1,
                        estimates2,
                        k1,
                    );
                    self.lemma_step_determined(
                        Self::preceding(initial_estimate, estimates1, k1),
                        observations[k1],
                        CoverianceUpdateMethod::OptimalKalmanForcedSymmetric,
                        Err(e1),
                        Err(e2),
                    );
                }
            },
        }
    }

    /// With models that are functions, a run that failed at step `k` has no
    /// twin that came further.
    pub proof fn lemma_failure_excludes_progress(
        &self,
        initial_estimate: StateAndCovariance<R, SS>,
        observations: Seq<Vector<R, OS>>,
        estimates1: Seq<StateAndCovariance<R, SS>>,
        k: int,
        e: Error,
        estimates2: Seq<StateAndCovariance<R, SS>>,
        further: int,
    )
        requires
            self.prediction_determined(),
            self.update_determined(),
            self.fails_at(initial_estimate, observations, estimates1, k, e),
            self.filtered_to(initial_estimate, observations, estimates2, further),
        ensures
            further <= k,
    {
        if k < further {
            self.lemma_run_prefix(initial_estimate, observations, estimates2, further, k);
            self.lemma_runs_agree(initial_estimate, observations, estimates1, estimates2, k);
            assert(self.step_at(initial_estimate, observations, estimates2, k));
            self.lemma_step_determined(
                Self::preceding(initial_estimate, estimates1, k),
                observations[k],
                CoverianceUpdateMethod::OptimalKalmanForcedSymmetric,
                Err(e),
                Ok(estimates2[k]),
            );
        }
    }

    /// With models that are functions, a series that can be filtered cannot
    /// fail to be.
    pub proof fn lemma_success_excludes_failure(
        &self,
        initial_estimate: StateAndCovariance<R, SS>,
        observations: Seq<Vector<R, OS>>,
        estimates: Seq<StateAndCovariance<R, SS>>,
        e: Error,
    )
        requires
            self.prediction_determined(),
            self.update_determined(),
            self.filter_yields(initial_estimate, observations, Ok(estimates)),
        ensures
            !self.filter_yields(initial_estimate, observations, Err(e)),
    {
        if self.filter_yields(initial_estimate, observations, Err(e)) {
            let (failed, k) = choose|failed: Seq<StateAndCovariance<R, SS>>, k: int| #[trigger]
                self.fails_at(initial_estimate, observations, failed, k, e);
            self.lemma_failure_excludes_progress(
                initial_estimate,
                observations,
                failed,
                k,
                e,
                estimates,
                observations.len() as int,
            );
        }
    }

    /// With a backward step that is a function, two backward passes over
    /// the same filtered series yield the same smoothed estimates as far
    /// back as both have come.
    pub proof fn lemma_passes_agree(
        &self,
        forward_results: Seq<StateAndCovariance<R, SS>>,
        smoothed1: Seq<StateAndCovariance<R, SS>>,
        smoothed2: Seq<StateAndCovariance<R, SS>>,
        k: int,
    )
        requires
            self.smooth_step_determined(),
            self.smoothed_from(forward_results, smoothed1, k),
            self.smoothed_from(forward_results, smoothed2, k),
        ensures
            forall|i: int| k <= i < forward_results.len() ==> smoothed1[i] == smoothed2[i],
        decreases forward_results.len() - k,
    {
        let n = forward_results.len() as int;
        if k < n - 1 {
            self.lemma_passes_agree(forward_results, smoothed1, smoothed2, k + 1);
            assert(self.smooth_step_at(forward_results, smoothed1, k));
            assert(self.smooth_step_at(forward_results, smoothed2, k));
        }
    }

    /// With a backward step that is a function, smoothing a filtered series
    /// is a function: the series has one outcome.
    pub proof fn lemma_smoothing_determined(
        &self,
        forward_results: Seq<StateAndCovariance<R, SS>>,
        outcome1: Result<Seq<StateAndCovariance<R, SS>>, Error>,
        outcome2: Result<Seq<StateAndCovariance<R, SS>>, Error>,
    )
        requires
            self.smooth_step_determined(),
            self.smoothing_yields(forward_results, outcome1),
            self.smoothing_yields(forward_results, outcome2),
        ensures
            outcome1 == outcome2,
    {
        let n = forward_results.len() as int;
        match (outcome1, outcome2) {
            (Ok(smoothed1), Ok(smoothed2)) => {
                if n > 0 {
                    self.lemma_passes_agree(forward_results, smoothed1, smoothed2, 0);
                }
                assert(smoothed1 =~= smoothed2);
            },
            (Ok(smoothed1), Err(e2)) => {
                let (smoothed2, k2) = choose|smoothed: Seq<StateAndCovariance<R, SS>>, k: int| #[trigger]
                    self.smoothing_fails_at(forward_results, smoothed, k, e2);
                self.lemma_backward_clash(forward_results, smoothed2, k2, e2, smoothed1, 0);
            },
            (Err(e1), Ok(smoothed2)) => {
                let (smoothed1, k1) = choose|smoothed: Seq<StateAndCovariance<R, SS>>, k: int| #[trigger]
                    self.smoothing_fails_at(forward_results, smoothed, k, e1);
                self.lemma_backward_clash(forward_results, smoothed1, k1, e1, smoothed2, 0);
            },
            (Err(e1), Err(e2)) => {
                let (smoothed1, k1) = choose|smoothed: Seq<StateAndCovariance<R, SS>>, k: int| #[trigger]
                    self.smoothing_fails_at(forward_results, smoothed, k, e1);
                let (smoothed2, k2) = choose|smoothed: Seq<StateAndCovariance<R, SS>>, k: int| #[trigger]
                    self.smoothing_fails_at(forward_results, smoothed, k, e2);
                if k2 < k1 {
                    self.lemma_backward_clash(forward_results, smoothed1, k1, e1, smoothed2, k2);
                } else if k1 < k2 {
                    self.lemma_backward_clash(forward_results, smoothed2, k2, e2, smoothed1, k1);
                } else {
                    self.lemma_passes_agree(forward_results, smoothed1, smoothed2, k1);
                }
            },
        }
    }

    /// With a backward step that is a function, a backward pass that failed
    /// below time step `k` has no twin that came further back.
    pub proof fn lemma_backward_clash(
        &self,
        forward_results: Seq<StateAndCovariance<R, SS>>,
        smoothed1: Seq<StateAndCovariance<R, SS>>,
        k: int,
        e: Error,
        smoothed2: Seq<StateAndCovariance<R, SS>>,
        further: int,
    )
        requires
            self.smooth_step_determined(),
            self.smoothing_fails_at(forward_results, smoothed1, k, e),
            self.smoothed_from(forward_results, smoothed2, further),
        ensures
            k <= further,
    {
        if further < k {
            assert(self.smoothed_from(forward_results, smoothed2, k));
            self.lemma_passes_agree(forward_results, smoothed1, smoothed2, k);
            assert(self.smooth_step_at(forward_results, smoothed2, k - 1));
        }
    }
}

} // verus!
