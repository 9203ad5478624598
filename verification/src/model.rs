//! The two interfaces through which a caller describes a system: how its
//! state evolves, and how the state is observed.
//!
//! A model supplies its matrices and names its arithmetic. The prediction
//! and the update come with the interfaces; a model may replace them.
use crate::algebra::LinearAlgebra;
use crate::equations;
use crate::error::Error;
use crate::matrix::{Matrix, Vector};
use crate::scalar::Scalar;
use crate::state_and_covariance::StateAndCovariance;
use vstd::prelude::*;

verus! {

/// Specifies the approach used for updating the covariance matrix.
///
/// Below, `K` is the Kalman gain, `H` the observation matrix, `R` the
/// covariance of the observation noise and `P` the prior covariance.
#[derive(Clone, Copy, Debug, PartialEq, Eq, Structural)]
pub enum CoverianceUpdateMethod {
    /// Assumes optimal Kalman gain: the covariance is `(I - K H) P`.
    ///
    /// Due to numerical errors, the covariance matrix may not remain
    /// symmetric.
    OptimalKalman,
    /// Assumes optimal Kalman gain and then forces a symmetric covariance
    /// matrix: with `C = (I - K H) P` the covariance is `(C + C^T) / 2`.
    OptimalKalmanForcedSymmetric,
    /// Joseph form of the covariance update, which keeps the covariance
    /// matrix symmetric: `(I - K H) P (I - K H)^T + K R K^T`.
    JosephForm,
}

/// A linear model of process dynamics with no control inputs.
pub trait TransitionModelLinearNoControl<R: Scalar, const SS: usize> {
    /// The arithmetic in which the model computes.
    type Algebra: LinearAlgebra<R>;

    /// Get the state transition model `F`.
    fn transition_model(&self) -> &Matrix<R, SS, SS>;

    /// Get the transpose of the state transition model.
    fn transition_model_transpose(&self) -> &Matrix<R, SS, SS>;

    /// Get the transition noise covariance `Q`.
    fn transition_noise_covariance(&self) -> &Matrix<R, SS, SS>;

    /// Predict new state from old state.
    ///
    /// With state `x` and covariance `P` of the previous estimate, the
    /// prediction has state `F x` and covariance `F P F^T + Q`, computed from
    /// the three matrices that the model supplies.
    fn predict(&self, previous_estimate: &StateAndCovariance<R, SS>) -> (prediction:
        StateAndCovariance<R, SS>)
        default_ensures
            exists|f: Matrix<R, SS, SS>, ft: Matrix<R, SS, SS>, q: Matrix<R, SS, SS>|
                {
                    &&& #[trigger] call_ensures(Self::transition_model, (self,), &f)
                    &&& #[trigger] call_ensures(Self::transition_model_transpose, (self,), &ft)
                    &&& #[trigger] call_ensures(Self::transition_noise_covariance, (self,), &q)
                    &&& equations::predicts::<R, Self::Algebra, SS>(
                        f,
                        ft,
                        q,
                        *previous_estimate,
                        prediction,
                    )
                },
    {
        let f = self.transition_model();
        let ft = self.transition_model_transpose();
        let q = self.transition_noise_covariance();
        equations::predict::<R, Self::Algebra, SS>(f, ft, q, previous_estimate)
    }
}

/// A linear observation model.
///
/// To use a non-linear observation model, linearize it about the prior
/// state estimate and implement this interface on the linearization.
pub trait ObservationModelLinear<R: Scalar, const SS: usize, const OS: usize> {
    /// The arithmetic in which the model computes.
    type Algebra: LinearAlgebra<R>;

    /// For a given state, predict the observation.
    ///
    /// If an observation is not possible, this returns NaN values.
    /// Observations with NaN values are treated as missing observations.
    fn evaluate(&self, state: &Vector<R, SS>) -> Vector<R, OS>;

    /// Get the observation model `H`.
    fn observation_matrix(&self) -> &Matrix<R, OS, SS>;

    /// Get the transpose of the observation model.
    fn observation_matrix_transpose(&self) -> &Matrix<R, SS, OS>;

    /// Get the observation noise covariance `R`.
    fn observation_noise_covariance(&self) -> &Matrix<R, OS, OS>;

    /// Given a prior state and an observation, compute a posterior state
    /// estimate.
    ///
    /// With prior state `x` and covariance `P`: the innovation covariance is
    /// `S = H P H^T + R`, the gain `K = P H^T S^-1`, and the posterior state
    /// `x + K (observation - evaluate(x))`. The posterior covariance is the
    /// one that `covariance_method` names. Where `S` is not positive
    /// definite, so that its inversion fails, the update fails.
    fn update(
        &self,
        prior: &StateAndCovariance<R, SS>,
        observation: &Vector<R, OS>,
        covariance_method: CoverianceUpdateMethod,
    ) -> (outcome: Result<StateAndCovariance<R, SS>, Error>)
        default_ensures
            exists|
                h: Matrix<R, OS, SS>,
                ht: Matrix<R, SS, OS>,
                r: Matrix<R, OS, OS>,
                predicted: Vector<R, OS>,
            |
                {
                    &&& #[trigger] call_ensures(Self::observation_matrix, (self,), &h)
                    &&& #[trigger] call_ensures(Self::observation_matrix_transpose, (self,), &ht)
                    &&& #[trigger] call_ensures(Self::observation_noise_covariance, (self,), &r)
                    &&& #[trigger] call_ensures(Self::evaluate, (self, &prior.state), predicted)
                    &&& equations::updates::<R, Self::Algebra, SS, OS>(
                        h,
                        ht,
                        r,
                        predicted,
                        *prior,
                        *observation,
                        covariance_method,
                        outcome,
                    )
                },
    {
        let h = self.observation_matrix();
        let ht = self.observation_matrix_transpose();
        let r = self.observation_noise_covariance();
        let predicted = self.evaluate(prior.state());
        equations::update::<R, Self::Algebra, SS, OS>(
            h,
            ht,
            r,
            &predicted,
            prior,
            observation,
            covariance_method,
        )
    }
}

} // verus!
