//! Models that are their matrices.
//!
//! A `LinearTransition` is a transition matrix and the covariance of the
//! process noise; a `LinearObservation` is an observation matrix and the
//! covariance of the observation noise. Both predict and update as the
//! interfaces do, in the arithmetic `A`.
use crate::algebra::{multiplies, multiply_determined, LinearAlgebra};
use crate::equations::{predicts, smooths, updates};
use crate::error::Error;
use crate::filter::KalmanFilterNoControl;
use crate::matrix::{Matrix, Vector};
use crate::model::{CoverianceUpdateMethod, ObservationModelLinear, TransitionModelLinearNoControl};
use crate::scalar::Scalar;
use crate::state_and_covariance::StateAndCovariance;
use crate::theorems::{
    covariance_arithmetic_determined, lemma_prediction_determined, lemma_smoothing_determined,
    lemma_state_does_not_depend_on_method, lemma_update_determined,
    prediction_arithmetic_determined, smoothing_arithmetic_determined,
    state_arithmetic_determined,
};
use core::marker::PhantomData;
use vstd::prelude::*;

verus! {

/// A transition model given by its transition matrix `F` and the covariance
/// `Q` of its process noise.
pub struct LinearTransition<R: Scalar, A: LinearAlgebra<R>, const SS: usize> {
    transition_model: Matrix<R, SS, SS>,
    transition_model_transpose: Matrix<R, SS, SS>,
    transition_noise_covariance: Matrix<R, SS, SS>,
    algebra: PhantomData<A>,
}

/// An observation model given by its observation matrix `H` and the
/// covariance `R` of its observation noise. Of a state `x` it expects the
/// observation `H x`.
pub struct LinearObservation<R: Scalar, A: LinearAlgebra<R>, const SS: usize, const OS: usize> {
    observation_matrix: Matrix<R, OS, SS>,
    observation_matrix_transpose: Matrix<R, SS, OS>,
    observation_noise_covariance: Matrix<R, OS, OS>,
    algebra: PhantomData<A>,
}

impl<R: Scalar, A: LinearAlgebra<R>, const SS: usize> LinearTransition<R, A, SS> {
    /// The transition matrix `F`.
    pub closed spec fn f(&self) -> Matrix<R, SS, SS> {
        self.transition_model
    }

    /// The transpose of the transition matrix, as the model holds it.
    pub closed spec fn ft(&self) -> Matrix<R, SS, SS> {
        self.transition_model_transpose
    }

    /// The covariance `Q` of the process noise.
    pub closed spec fn q(&self) -> Matrix<R, SS, SS> {
        self.transition_noise_covariance
    }

    #[verifier::type_invariant]
    spec fn holds_the_transpose(&self) -> bool {
        self.transition_model_transpose.is_transpose_of(self.transition_model)
    }

    /// The model with the given transition matrix and process noise
    /// covariance.
    pub fn new(
        transition_model: Matrix<R, SS, SS>,
        transition_noise_covariance: Matrix<R, SS, SS>,
    ) -> (model: Self)
        ensures
            model.f() == transition_model,
            model.q() == transition_noise_covariance,
            model.ft().is_transpose_of(transition_model),
    {
        let transition_model_transpose = transition_model.transpose();
        LinearTransition {
            transition_model,
            transition_model_transpose,
            transition_noise_covariance,
            algebra: PhantomData,
        }
    }
}

impl<R: Scalar, A: LinearAlgebra<R>, const SS: usize> TransitionModelLinearNoControl<
    R,
    SS,
> for LinearTransition<R, A, SS> {
    type Algebra = A;

    fn transition_model(&self) -> (m: &Matrix<R, SS, SS>)
        ensures
            *m == self.f(),
    {
        &self.transition_model
    }

    fn transition_model_transpose(&self) -> (m: &Matrix<R, SS, SS>)
        ensures
            *m == self.ft(),
            m.is_transpose_of(self.f()),
    {
        proof {
            use_type_invariant(self);
        }
        &self.transition_model_transpose
    }

    fn transition_noise_covariance(&self) -> (m: &Matrix<R, SS, SS>)
        ensures
            *m == self.q(),
    {
        &self.transition_noise_covariance
    }
}

impl<R: Scalar, A: LinearAlgebra<R>, const SS: usize, const OS: usize> LinearObservation<
    R,
    A,
    SS,
    OS,
> {
    /// The observation matrix `H`.
    pub closed spec fn h(&self) -> Matrix<R, OS, SS> {
        self.observation_matrix
    }

    /// The transpose of the observation matrix, as the model holds it.
    pub closed spec fn ht(&self) -> Matrix<R, SS, OS> {
        self.observation_matrix_transpose
    }

    /// The covariance `R` of the observation noise.
    pub closed spec fn r(&self) -> Matrix<R, OS, OS> {
        self.observation_noise_covariance
    }

    #[verifier::type_invariant]
    spec fn holds_the_transpose(&self) -> bool {
        self.observation_matrix_transpose.is_transpose_of(self.observation_matrix)
    }

    /// The model with the given observation matrix and observation noise
    /// covariance.
    pub fn new(
        observation_matrix: Matrix<R, OS, SS>,
        observation_noise_covariance: Matrix<R, OS, OS>,
    ) -> (model: Self)
        ensures
            model.h() == observation_matrix,
            model.r() == observation_noise_covariance,
            model.ht().is_transpose_of(observation_matrix),
    {
        let observation_matrix_transpose = observation_matrix.transpose();
        LinearObservation {
            observation_matrix,
            observation_matrix_transpose,
            observation_noise_covariance,
            algebra: PhantomData,
        }
    }
}

impl<R: Scalar, A: LinearAlgebra<R>, const SS: usize, const OS: usize> ObservationModelLinear<
    R,
    SS,
    OS,
> for LinearObservation<R, A, SS, OS> {
    type Algebra = A;

    fn evaluate(&self, state: &Vector<R, SS>) -> (predicted: Vector<R, OS>)
        ensures
            multiplies::<R, A, OS, SS, 1>(self.h(), *state, predicted),
    {
        A::multiply(&self.observation_matrix, state)
    }

    fn observation_matrix(&self) -> (m: &Matrix<R, OS, SS>)
        ensures
            *m == self.h(),
    {
        &self.observation_matrix
    }

    fn observation_matrix_transpose(&self) -> (m: &Matrix<R, SS, OS>)
        ensures
            *m == self.ht(),
            m.is_transpose_of(self.h()),
    {
        proof {
            use_type_invariant(self);
        }
        &self.observation_matrix_transpose
    }

    fn observation_noise_covariance(&self) -> (m: &Matrix<R, OS, OS>)
        ensures
            *m == self.r(),
    {
        &self.observation_noise_covariance
    }
}

/// Whether the update of a linear observation model may end in `outcome`:
/// the model expects the observation `H x` of the prior state `x`, and
/// updates by the equations.
pub open spec fn linear_updates<R: Scalar, A: LinearAlgebra<R>, const SS: usize, const OS: usize>(
    model: &LinearObservation<R, A, SS, OS>,
    prior: StateAndCovariance<R, SS>,
    observation: Vector<R, OS>,
    covariance_method: CoverianceUpdateMethod,
    outcome: Result<StateAndCovariance<R, SS>, Error>,
) -> bool {
    exists|predicted: Vector<R, OS>|
        {
            &&& #[trigger] multiplies::<R, A, OS, SS, 1>(model.h(), prior.state, predicted)
            &&& updates::<R, A, SS, OS>(
                model.h(),
                model.ht(),
                model.r(),
                predicted,
                prior,
                observation,
                covariance_method,
                outcome,
            )
        }
}

/// Whether every operation that a filter and smoother over linear models
/// applies is a function.
pub open spec fn arithmetic_determined<
    R: Scalar,
    A: LinearAlgebra<R>,
    const SS: usize,
    const OS: usize,
>() -> bool {
    &&& prediction_arithmetic_determined::<R, A, SS>()
    &&& multiply_determined::<R, A, OS, SS, 1>()
    &&& state_arithmetic_determined::<R, A, SS, OS>()
    &&& covariance_arithmetic_determined::<R, A, SS, OS>()
    &&& smoothing_arithmetic_determined::<R, A, SS>()
}

impl<'a, R, A, const SS: usize, const OS: usize> KalmanFilterNoControl<
    'a,
    R,
    LinearTransition<R, A, SS>,
    LinearObservation<R, A, SS, OS>,
    SS,
    OS,
> where R: Scalar, A: LinearAlgebra<R> {
    /// Over linear models, what the filter predicts is what the equations
    /// say of the matrices of the transition model.
    pub proof fn lemma_linear_prediction(
        &self,
        previous_estimate: StateAndCovariance<R, SS>,
        prior: StateAndCovariance<R, SS>,
    )
        requires
            self.predicts(previous_estimate, prior),
        ensures
            predicts::<R, A, SS>(
                self.transition().f(),
                self.transition().ft(),
                self.transition().q(),
                previous_estimate,
                prior,
            ),
    {
    }

    /// Over linear models, an update ends as the equations say of the
    /// matrices of the observation model.
    pub proof fn lemma_linear_update(
        &self,
        prior: StateAndCovariance<R, SS>,
        observation: Vector<R, OS>,
        covariance_update_method: CoverianceUpdateMethod,
        outcome: Result<StateAndCovariance<R, SS>, Error>,
    )
        requires
            self.updates(prior, observation, covariance_update_method, outcome),
        ensures
            linear_updates::<R, A, SS, OS>(
                self.observation(),
                prior,
                observation,
                covariance_update_method,
                outcome,
            ),
    {
    }

    /// Over linear models, a backward step of the smoother ends as the
    /// equations say of the matrices of the transition model.
    pub proof fn lemma_linear_smooth_step(
        &self,
        smooth_future: StateAndCovariance<R, SS>,
        filt: StateAndCovariance<R, SS>,
        outcome: Result<StateAndCovariance<R, SS>, Error>,
    )
        requires
            self.smooth_steps(smooth_future, filt, outcome),
        ensures
            exists|prior: StateAndCovariance<R, SS>|
                {
                    &&& #[trigger] predicts::<R, A, SS>(
                        self.transition().f(),
                        self.transition().ft(),
                        self.transition().q(),
                        filt,
                        prior,
                    )
                    &&& smooths::<R, A, SS>(
                        self.transition().ft(),
                        smooth_future,
                        filt,
                        prior,
                        outcome,
                    )
                },
    {
        let (prior, ft) = choose|prior: StateAndCovariance<R, SS>, ft: Matrix<R, SS, SS>|
            {
                &&& #[trigger] self.predicts(filt, prior)
                &&& #[trigger] call_ensures(
                    LinearTransition::<R, A, SS>::transition_model_transpose,
                    (self.transition(),),
                    &ft,
                )
                &&& smooths::<R, A, SS>(ft, smooth_future, filt, prior, outcome)
            };
        self.lemma_linear_prediction(filt, prior);
    }

    /// Over linear models and with an arithmetic that is a function, the
    /// prediction, the update and the backward step are functions. So the
    /// step, the filter and the smoother are functions too.
    pub proof fn lemma_linear_models_determined(&self)
        requires
            arithmetic_determined::<R, A, SS, OS>(),
        ensures
            self.prediction_determined(),
            self.update_determined(),
            self.smooth_step_determined(),
    {
        assert forall|
            previous_estimate: StateAndCovariance<R, SS>,
            prior1: StateAndCovariance<R, SS>,
            prior2: StateAndCovariance<R, SS>,
        |
            #![trigger self.predicts(previous_estimate, prior1), self.predicts(previous_estimate, prior2)]
            self.predicts(previous_estimate, prior1) && self.predicts(
                previous_estimate,
                prior2,
            ) implies prior1 == prior2 by {
            self.lemma_prediction_is_one(previous_estimate, prior1, prior2);
        }
        assert forall|
            prior: StateAndCovariance<R, SS>,
            observation: Vector<R, OS>,
            covariance_update_method: CoverianceUpdateMethod,
            outcome1: Result<StateAndCovariance<R, SS>, Error>,
            outcome2: Result<StateAndCovariance<R, SS>, Error>,
        |
            #![trigger
                self.updates(prior, observation, covariance_update_method, outcome1),
                self.updates(prior, observation, covariance_update_method, outcome2)
            ]
            self.updates(prior, observation, covariance_update_method, outcome1) && self.updates(
                prior,
                observation,
                covariance_update_method,
                outcome2,
            ) implies outcome1 == outcome2 by {
            self.lemma_linear_methods_agree(
                prior,
                observation,
                covariance_update_method,
                outcome1,
                covariance_update_method,
                outcome2,
            );
        }
        assert forall|
            smooth_future: StateAndCovariance<R, SS>,
            filt: StateAndCovariance<R, SS>,
            outcome1: Result<StateAndCovariance<R, SS>, Error>,
            outcome2: Result<StateAndCovariance<R, SS>, Error>,
        |
            #![trigger
                self.smooth_steps(smooth_future, filt, outcome1),
                self.smooth_steps(smooth_future, filt, outcome2)
            ]
            self.smooth_steps(smooth_future, filt, outcome1) && self.smooth_steps(
                smooth_future,
                filt,
                outcome2,
            ) implies outcome1 == outcome2 by {
            self.lemma_linear_smooth_step(smooth_future, filt, outcome1);
            self.lemma_linear_smooth_step(smooth_future, filt, outcome2);
            let prior1 = choose|prior: StateAndCovariance<R, SS>|
                {
                    &&& #[trigger] predicts::<R, A, SS>(
                        self.transition().f(),
                        self.transition().ft(),
                        self.transition().q(),
                        filt,
                        prior,
                    )
                    &&& smooths::<R, A, SS>(
                        self.transition().ft(),
                        smooth_future,
                        filt,
                        prior,
                        outcome1,
                    )
                };
            let prior2 = choose|prior: StateAndCovariance<R, SS>|
                {
                    &&& #[trigger] predicts::<R, A, SS>(
                        self.transition().f(),
                        self.transition().ft(),
                        self.transition().q(),
                        filt,
                        prior,
                    )
                    &&& smooths::<R, A, SS>(
                        self.transition().ft(),
                        smooth_future,
                        filt,
                        prior,
                        outcome2,
                    )
                };
            lemma_prediction_determined::<R, A, SS>(
                self.transition().f(),
                self.transition().ft(),
                self.transition().q(),
                filt,
                prior1,
                prior2,
            );
            lemma_smoothing_determined::<R, A, SS>(
                self.transition().ft(),
                smooth_future,
                filt,
                prior1,
                outcome1,
                outcome2,
            );
        }
    }

    /// Over linear models and with an arithmetic that is a function, a
    /// previous estimate has one prediction.
    pub proof fn lemma_prediction_is_one(
        &self,
        previous_estimate: StateAndCovariance<R, SS>,
        prior1: StateAndCovariance<R, SS>,
        prior2: StateAndCovariance<R, SS>,
    )
        requires
            prediction_arithmetic_determined::<R, A, SS>(),
            self.predicts(previous_estimate, prior1),
            self.predicts(previous_estimate, prior2),
        ensures
            prior1 == prior2,
    {
        self.lemma_linear_prediction(previous_estimate, prior1);
        self.lemma_linear_prediction(previous_estimate, prior2);
        lemma_prediction_determined::<R, A, SS>(
            self.transition().f(),
            self.transition().ft(),
            self.transition().q(),
            previous_estimate,
            prior1,
            prior2,
        );
    }

    /// Over linear models, the posterior state does not depend on the
    /// covariance update method.
    ///
    /// With an arithmetic that is a function on the way to the state, two
    /// updates of one prior by one observation, by whichever methods, fail
    /// together or succeed together, and where they succeed their posterior
    /// states are equal. With an arithmetic that is a function throughout,
    /// two updates by one method have one outcome.
    pub proof fn lemma_linear_methods_agree(
        &self,
        prior: StateAndCovariance<R, SS>,
        observation: Vector<R, OS>,
        method1: CoverianceUpdateMethod,
        outcome1: Result<StateAndCovariance<R, SS>, Error>,
        method2: CoverianceUpdateMethod,
        outcome2: Result<StateAndCovariance<R, SS>, Error>,
    )
        requires
            multiply_determined::<R, A, OS, SS, 1>(),
            state_arithmetic_determined::<R, A, SS, OS>(),
            self.updates(prior, observation, method1, outcome1),
            self.updates(prior, observation, method2, outcome2),
        ensures
            outcome1 is Ok <==> outcome2 is Ok,
            outcome1 is Ok ==> outcome1->Ok_0.state == outcome2->Ok_0.state,
            outcome1 is Err ==> outcome1 == outcome2,
            method1 == method2 && covariance_arithmetic_determined::<R, A, SS, OS>() ==> outcome1
                == outcome2,
    {
        self.lemma_linear_update(prior, observation, method1, outcome1);
        self.lemma_linear_update(prior, observation, method2, outcome2);
        let model = self.observation();
        let predicted1 = choose|predicted: Vector<R, OS>|
            {
                &&& #[trigger] multiplies::<R, A, OS, SS, 1>(model.h(), prior.state, predicted)
                &&& updates::<R, A, SS, OS>(
                    model.h(),
                    model.ht(),
                    model.r(),
                    predicted,
                    prior,
                    observation,
                    method1,
                    outcome1,
                )
            };
        let predicted2 = choose|predicted: Vector<R, OS>|
            {
                &&& #[trigger] multiplies::<R, A, OS, SS, 1>(model.h(), prior.state, predicted)
                &&& updates::<R, A, SS, OS>(
                    model.h(),
                    model.ht(),
                    model.r(),
                    predicted,
                    prior,
                    observation,
                    method2,
                    outcome2,
                )
            };
        assert(predicted1 == predicted2);
        lemma_state_does_not_depend_on_method::<R, A, SS, OS>(
            model.h(),
            model.ht(),
            model.r(),
            predicted1,
            prior,
            observation,
            method1,
            outcome1,
            method2,
            outcome2,
        );
        if method1 == method2 && covariance_arithmetic_determined::<R, A, SS, OS>() {
            lemma_update_determined::<R, A, SS, OS>(
                model.h(),
                model.ht(),
                model.r(),
                predicted1,
                prior,
                observation,
                method1,
                outcome1,
                outcome2,
            );
        }
    }

    /// Over linear models, the posterior state of a step does not depend on
    /// the covariance update method.
    ///
    /// With an arithmetic that is a function on the way to the state, two
    /// steps from one estimate with one observation, by whichever methods,
    /// fail together or succeed together, and where they succeed their
    /// posterior states are equal.
    pub proof fn lemma_linear_steps_agree(
        &self,
        previous_estimate: StateAndCovariance<R, SS>,
        observation: Vector<R, OS>,
        method1: CoverianceUpdateMethod,
        outcome1: Result<StateAndCovariance<R, SS>, Error>,
        method2: CoverianceUpdateMethod,
        outcome2: Result<StateAndCovariance<R, SS>, Error>,
    )
        requires
            prediction_arithmetic_determined::<R, A, SS>(),
            multiply_determined::<R, A, OS, SS, 1>(),
            state_arithmetic_determined::<R, A, SS, OS>(),
            self.steps(previous_estimate, observation, method1, outcome1),
            self.steps(previous_estimate, observation, method2, outcome2),
        ensures
            outcome1 is Ok <==> outcome2 is Ok,
            outcome1 is Ok ==> outcome1->Ok_0.state == outcome2->Ok_0.state,
            outcome1 is Err ==> outcome1 == outcome2,
    {
        let prior1 = choose|prior: StateAndCovariance<R, SS>|
            {
                &&& #[trigger] self.predicts(previous_estimate, prior)
                &&& if observation.has_nan() {
                    outcome1 == Ok::<StateAndCovariance<R, SS>, Error>(prior)
                } else {
                    self.updates(prior, observation, method1, outcome1)
                }
            };
        let prior2 = choose|prior: StateAndCovariance<R, SS>|
            {
                &&& #[trigger] self.predicts(previous_estimate, prior)
                &&& if observation.has_nan() {
                    outcome2 == Ok::<StateAndCovariance<R, SS>, Error>(prior)
                } else {
                    self.updates(prior, observation, method2, outcome2)
                }
            };
        self.lemma_prediction_is_one(previous_estimate, prior1, prior2);
        if !observation.has_nan() {
            self.lemma_linear_methods_agree(
                prior1,
                observation,
                method1,
                outcome1,
                method2,
                outcome2,
            );
        }
    }
}

} // verus!
