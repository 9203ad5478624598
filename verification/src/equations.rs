//! The equations of the filter and of the smoother, over an arithmetic `A`.
//!
//! Each function here applies the operations of `A` in a fixed order. Each
//! relation here states that order: it holds of the inputs and an output
//! when there are intermediate results, each one a result that its
//! operation may return, that lead from the inputs to the output.
use crate::algebra::{adds, inverts, multiplies, scales, subtracts, LinearAlgebra};
use crate::error::{Error, ErrorKind};
use crate::matrix::{Matrix, Vector};
use crate::model::CoverianceUpdateMethod;
use crate::scalar::Scalar;
use crate::state_and_covariance::StateAndCovariance;
use vstd::prelude::*;

verus! {

/// The failure of an inversion.
pub open spec fn not_positive_definite() -> Error {
    Error { kind: ErrorKind::CovarianceNotPositiveSemiDefinite }
}

/// Whether `prediction` may be predicted from `previous`: its state is
/// `F x` and its covariance `(F P) F^T + Q`, for the state `x` and the
/// covariance `P` of `previous`.
pub open spec fn predicts<R: Scalar, A: LinearAlgebra<R>, const SS: usize>(
    f: Matrix<R, SS, SS>,
    ft: Matrix<R, SS, SS>,
    q: Matrix<R, SS, SS>,
    previous: StateAndCovariance<R, SS>,
    prediction: StateAndCovariance<R, SS>,
) -> bool {
    exists|fp: Matrix<R, SS, SS>, fpft: Matrix<R, SS, SS>|
        {
            &&& multiplies::<R, A, SS, SS, 1>(f, previous.state, prediction.state)
            &&& multiplies::<R, A, SS, SS, SS>(f, previous.covariance, fp)
            &&& #[trigger] multiplies::<R, A, SS, SS, SS>(fp, ft, fpft)
            &&& adds::<R, A, SS, SS>(fpft, q, prediction.covariance)
        }
}

/// Whether `s` may be the innovation covariance `(H P) H^T + R`.
pub open spec fn innovation_covariance<
    R: Scalar,
    A: LinearAlgebra<R>,
    const SS: usize,
    const OS: usize,
>(
    h: Matrix<R, OS, SS>,
    ht: Matrix<R, SS, OS>,
    r: Matrix<R, OS, OS>,
    p: Matrix<R, SS, SS>,
    s: Matrix<R, OS, OS>,
) -> bool {
    exists|hp: Matrix<R, OS, SS>, hpht: Matrix<R, OS, OS>|
        {
            &&& multiplies::<R, A, OS, SS, SS>(h, p, hp)
            &&& #[trigger] multiplies::<R, A, OS, SS, OS>(hp, ht, hpht)
            &&& adds::<R, A, OS, OS>(hpht, r, s)
        }
}

/// Whether `k` may be the Kalman gain `(P H^T) S^-1`.
pub open spec fn kalman_gain<R: Scalar, A: LinearAlgebra<R>, const SS: usize, const OS: usize>(
    ht: Matrix<R, SS, OS>,
    p: Matrix<R, SS, SS>,
    s_inv: Matrix<R, OS, OS>,
    k: Matrix<R, SS, OS>,
) -> bool {
    exists|pht: Matrix<R, SS, OS>|
        {
            &&& #[trigger] multiplies::<R, A, SS, SS, OS>(p, ht, pht)
            &&& multiplies::<R, A, SS, OS, OS>(pht, s_inv, k)
        }
}

/// Whether `state` may be the posterior state
/// `x + K (observation - predicted)`.
pub open spec fn posterior_state<
    R: Scalar,
    A: LinearAlgebra<R>,
    const SS: usize,
    const OS: usize,
>(
    k: Matrix<R, SS, OS>,
    x: Vector<R, SS>,
    observation: Vector<R, OS>,
    predicted: Vector<R, OS>,
    state: Vector<R, SS>,
) -> bool {
    exists|innovation: Vector<R, OS>, correction: Vector<R, SS>|
        {
            &&& subtracts::<R, A, OS, 1>(observation, predicted, innovation)
            &&& #[trigger] multiplies::<R, A, SS, OS, 1>(k, innovation, correction)
            &&& adds::<R, A, SS, 1>(x, correction, state)
        }
}

/// Whether `one_minus_kh` may be `I - K H`.
pub open spec fn gain_complement<
    R: Scalar,
    A: LinearAlgebra<R>,
    const SS: usize,
    const OS: usize,
>(k: Matrix<R, SS, OS>, h: Matrix<R, OS, SS>, one_minus_kh: Matrix<R, SS, SS>) -> bool {
    exists|kh: Matrix<R, SS, SS>, one: Matrix<R, SS, SS>|
        {
            &&& multiplies::<R, A, SS, OS, SS>(k, h, kh)
            &&& one.is_identity()
            &&& #[trigger] subtracts::<R, A, SS, SS>(one, kh, one_minus_kh)
        }
}

/// Whether `covariance` may be `C = (I - K H) P`.
pub open spec fn optimal_covariance<R: Scalar, A: LinearAlgebra<R>, const SS: usize>(
    one_minus_kh: Matrix<R, SS, SS>,
    p: Matrix<R, SS, SS>,
    covariance: Matrix<R, SS, SS>,
) -> bool {
    multiplies::<R, A, SS, SS, SS>(one_minus_kh, p, covariance)
}

/// Whether `covariance` may be `(C + C^T) / 2` for `C = (I - K H) P`.
pub open spec fn symmetric_covariance<R: Scalar, A: LinearAlgebra<R>, const SS: usize>(
    one_minus_kh: Matrix<R, SS, SS>,
    p: Matrix<R, SS, SS>,
    covariance: Matrix<R, SS, SS>,
) -> bool {
    exists|c: Matrix<R, SS, SS>, ct: Matrix<R, SS, SS>, sum: Matrix<R, SS, SS>|
        {
            &&& multiplies::<R, A, SS, SS, SS>(one_minus_kh, p, c)
            &&& ct.is_transpose_of(c)
            &&& #[trigger] adds::<R, A, SS, SS>(c, ct, sum)
            &&& scales::<R, A, SS, SS>(sum, R::half_value(), covariance)
        }
}

/// Whether `left` may be `((I - K H) P) (I - K H)^T`, the first term of the
/// Joseph form.
pub open spec fn joseph_left<R: Scalar, A: LinearAlgebra<R>, const SS: usize>(
    one_minus_kh: Matrix<R, SS, SS>,
    p: Matrix<R, SS, SS>,
    left: Matrix<R, SS, SS>,
) -> bool {
    exists|c: Matrix<R, SS, SS>, transpose: Matrix<R, SS, SS>|
        {
            &&& multiplies::<R, A, SS, SS, SS>(one_minus_kh, p, c)
            &&& transpose.is_transpose_of(one_minus_kh)
            &&& #[trigger] multiplies::<R, A, SS, SS, SS>(c, transpose, left)
        }
}

/// Whether `right` may be `(K R) K^T`, the second term of the Joseph form.
pub open spec fn joseph_right<R: Scalar, A: LinearAlgebra<R>, const SS: usize, const OS: usize>(
    k: Matrix<R, SS, OS>,
    r: Matrix<R, OS, OS>,
    right: Matrix<R, SS, SS>,
) -> bool {
    exists|kr: Matrix<R, SS, OS>, kt: Matrix<R, OS, SS>|
        {
            &&& multiplies::<R, A, SS, OS, OS>(k, r, kr)
            &&& kt.is_transpose_of(k)
            &&& #[trigger] multiplies::<R, A, SS, OS, SS>(kr, kt, right)
        }
}

/// Whether `covariance` may be the Joseph form
/// `(I - K H) P (I - K H)^T + K R K^T`.
pub open spec fn joseph_covariance<
    R: Scalar,
    A: LinearAlgebra<R>,
    const SS: usize,
    const OS: usize,
>(
    k: Matrix<R, SS, OS>,
    r: Matrix<R, OS, OS>,
    one_minus_kh: Matrix<R, SS, SS>,
    p: Matrix<R, SS, SS>,
    covariance: Matrix<R, SS, SS>,
) -> bool {
    exists|left: Matrix<R, SS, SS>, right: Matrix<R, SS, SS>|
        {
            &&& joseph_left::<R, A, SS>(one_minus_kh, p, left)
            &&& joseph_right::<R, A, SS, OS>(k, r, right)
            &&& #[trigger] adds::<R, A, SS, SS>(left, right, covariance)
        }
}

/// Whether `covariance` may be the posterior covariance that
/// `covariance_method` names.
pub open spec fn posterior_covariance<
    R: Scalar,
    A: LinearAlgebra<R>,
    const SS: usize,
    const OS: usize,
>(
    covariance_method: CoverianceUpdateMethod,
    k: Matrix<R, SS, OS>,
    r: Matrix<R, OS, OS>,
    one_minus_kh: Matrix<R, SS, SS>,
    p: Matrix<R, SS, SS>,
    covariance: Matrix<R, SS, SS>,
) -> bool {
    match covariance_method {
        CoverianceUpdateMethod::OptimalKalman => optimal_covariance::<R, A, SS>(
            one_minus_kh,
            p,
            covariance,
        ),
        CoverianceUpdateMethod::OptimalKalmanForcedSymmetric => symmetric_covariance::<R, A, SS>(
            one_minus_kh,
            p,
            covariance,
        ),
        CoverianceUpdateMethod::JosephForm => joseph_covariance::<R, A, SS, OS>(
            k,
            r,
            one_minus_kh,
            p,
            covariance,
        ),
    }
}

/// Whether `posterior` may be the posterior of `prior` and `observation`,
/// given the inverse `s_inv` of the innovation covariance.
pub open spec fn corrects<R: Scalar, A: LinearAlgebra<R>, const SS: usize, const OS: usize>(
    h: Matrix<R, OS, SS>,
    ht: Matrix<R, SS, OS>,
    r: Matrix<R, OS, OS>,
    predicted: Vector<R, OS>,
    s_inv: Matrix<R, OS, OS>,
    prior: StateAndCovariance<R, SS>,
    observation: Vector<R, OS>,
    covariance_method: CoverianceUpdateMethod,
    posterior: StateAndCovariance<R, SS>,
) -> bool {
    exists|k: Matrix<R, SS, OS>, one_minus_kh: Matrix<R, SS, SS>|
        {
            &&& kalman_gain::<R, A, SS, OS>(ht, prior.covariance, s_inv, k)
            &&& posterior_state::<R, A, SS, OS>(
                k,
                prior.state,
                observation,
                predicted,
                posterior.state,
            )
            &&& #[trigger] gain_complement::<R, A, SS, OS>(k, h, one_minus_kh)
            &&& posterior_covariance::<R, A, SS, OS>(
                covariance_method,
                k,
                r,
                one_minus_kh,
                prior.covariance,
                posterior.covariance,
            )
        }
}

/// Whether the update of `prior` by `observation` may end in `outcome`.
///
/// The innovation covariance is inverted. Where it has no inverse, the
/// update fails. Where it has one, the update yields a posterior.
pub open spec fn updates<R: Scalar, A: LinearAlgebra<R>, const SS: usize, const OS: usize>(
    h: Matrix<R, OS, SS>,
    ht: Matrix<R, SS, OS>,
    r: Matrix<R, OS, OS>,
    predicted: Vector<R, OS>,
    prior: StateAndCovariance<R, SS>,
    observation: Vector<R, OS>,
    covariance_method: CoverianceUpdateMethod,
    outcome: Result<StateAndCovariance<R, SS>, Error>,
) -> bool {
    exists|s: Matrix<R, OS, OS>, inverse: Option<Matrix<R, OS, OS>>|
        {
            &&& innovation_covariance::<R, A, SS, OS>(h, ht, r, prior.covariance, s)
            &&& #[trigger] inverts::<R, A, OS>(s, inverse)
            &&& match inverse {
                Some(s_inv) => outcome is Ok && corrects::<R, A, SS, OS>(
                    h,
                    ht,
                    r,
                    predicted,
                    s_inv,
                    prior,
                    observation,
                    covariance_method,
                    outcome->Ok_0,
                ),
                None => outcome == Err::<StateAndCovariance<R, SS>, Error>(
                    not_positive_definite(),
                ),
            }
        }
}

/// Whether `j` may be the smoother gain `P_filt (F^T P_prior^-1)`.
pub open spec fn smoother_gain<R: Scalar, A: LinearAlgebra<R>, const SS: usize>(
    ft: Matrix<R, SS, SS>,
    filt_covariance: Matrix<R, SS, SS>,
    inv_prior_covariance: Matrix<R, SS, SS>,
    j: Matrix<R, SS, SS>,
) -> bool {
    exists|right: Matrix<R, SS, SS>|
        {
            &&& #[trigger] multiplies::<R, A, SS, SS, SS>(ft, inv_prior_covariance, right)
            &&& multiplies::<R, A, SS, SS, SS>(filt_covariance, right, j)
        }
}

/// Whether `state` may be the smoothed state
/// `x_filt + J (x_future - x_prior)`.
pub open spec fn smoothed_state<R: Scalar, A: LinearAlgebra<R>, const SS: usize>(
    j: Matrix<R, SS, SS>,
    filt_state: Vector<R, SS>,
    future_state: Vector<R, SS>,
    prior_state: Vector<R, SS>,
    state: Vector<R, SS>,
) -> bool {
    exists|residuals: Vector<R, SS>, correction: Vector<R, SS>|
        {
            &&& subtracts::<R, A, SS, 1>(future_state, prior_state, residuals)
            &&& #[trigger] multiplies::<R, A, SS, SS, 1>(j, residuals, correction)
            &&& adds::<R, A, SS, 1>(filt_state, correction, state)
        }
}

/// Whether `covariance` may be the smoothed covariance
/// `P_filt + J ((P_future - P_prior) J^T)`.
pub open spec fn smoothed_covariance<R: Scalar, A: LinearAlgebra<R>, const SS: usize>(
    j: Matrix<R, SS, SS>,
    filt_covariance: Matrix<R, SS, SS>,
    future_covariance: Matrix<R, SS, SS>,
    prior_covariance: Matrix<R, SS, SS>,
    covariance: Matrix<R, SS, SS>,
) -> bool {
    exists|
        residuals: Matrix<R, SS, SS>,
        jt: Matrix<R, SS, SS>,
        right: Matrix<R, SS, SS>,
        correction: Matrix<R, SS, SS>,
    |
        {
            &&& subtracts::<R, A, SS, SS>(future_covariance, prior_covariance, residuals)
            &&& jt.is_transpose_of(j)
            &&& #[trigger] multiplies::<R, A, SS, SS, SS>(residuals, jt, right)
            &&& #[trigger] multiplies::<R, A, SS, SS, SS>(j, right, correction)
            &&& adds::<R, A, SS, SS>(filt_covariance, correction, covariance)
        }
}

/// Whether `smoothed` may be the smoothed estimate of a time step, given
/// the inverse of the covariance of the prediction.
pub open spec fn revises<R: Scalar, A: LinearAlgebra<R>, const SS: usize>(
    ft: Matrix<R, SS, SS>,
    inv_prior_covariance: Matrix<R, SS, SS>,
    smooth_future: StateAndCovariance<R, SS>,
    filt: StateAndCovariance<R, SS>,
    prior: StateAndCovariance<R, SS>,
    smoothed: StateAndCovariance<R, SS>,
) -> bool {
    exists|j: Matrix<R, SS, SS>|
        {
            &&& #[trigger] smoother_gain::<R, A, SS>(ft, filt.covariance, inv_prior_covariance, j)
            &&& smoothed_state::<R, A, SS>(
                j,
                filt.state,
                smooth_future.state,
                prior.state,
                smoothed.state,
            )
            &&& smoothed_covariance::<R, A, SS>(
                j,
                filt.covariance,
                smooth_future.covariance,
                prior.covariance,
                smoothed.covariance,
            )
        }
}

/// Whether one backward step of the smoother may end in `outcome`.
///
/// The covariance of the prediction is inverted. Where it has no inverse,
/// the step fails. Where it has one, the step yields a smoothed estimate.
pub open spec fn smooths<R: Scalar, A: LinearAlgebra<R>, const SS: usize>(
    ft: Matrix<R, SS, SS>,
    smooth_future: StateAndCovariance<R, SS>,
    filt: StateAndCovariance<R, SS>,
    prior: StateAndCovariance<R, SS>,
    outcome: Result<StateAndCovariance<R, SS>, Error>,
) -> bool {
    exists|inverse: Option<Matrix<R, SS, SS>>|
        {
            &&& #[trigger] inverts::<R, A, SS>(prior.covariance, inverse)
            &&& match inverse {
                Some(inv_prior_covariance) => outcome is Ok && revises::<R, A, SS>(
                    ft,
                    inv_prior_covariance,
                    smooth_future,
                    filt,
                    prior,
                    outcome->Ok_0,
                ),
                None => outcome == Err::<StateAndCovariance<R, SS>, Error>(
                    not_positive_definite(),
                ),
            }
        }
}

/// Predict new state from old state.
///
/// `f` is the transition matrix, `ft` its transpose and `q` the covariance
/// of the process noise.
pub fn predict<R: Scalar, A: LinearAlgebra<R>, const SS: usize>(
    f: &Matrix<R, SS, SS>,
    ft: &Matrix<R, SS, SS>,
    q: &Matrix<R, SS, SS>,
    previous_estimate: &StateAndCovariance<R, SS>,
) -> (prediction: StateAndCovariance<R, SS>)
    ensures
        predicts::<R, A, SS>(*f, *ft, *q, *previous_estimate, prediction),
{
    let state = A::multiply(f, previous_estimate.state());
    let fp = A::multiply(f, previous_estimate.covariance());
    let fpft = A::multiply(&fp, ft);
    let covariance = A::plus(&fpft, q);
    assert(multiplies::<R, A, SS, SS, SS>(fp, *ft, fpft));
    StateAndCovariance::new(state, covariance)
}

/// The posterior covariance that `covariance_method` names.
fn update_covariance<R: Scalar, A: LinearAlgebra<R>, const SS: usize, const OS: usize>(
    covariance_method: CoverianceUpdateMethod,
    k_gain: &Matrix<R, SS, OS>,
    r: &Matrix<R, OS, OS>,
    one_minus_kh: &Matrix<R, SS, SS>,
    p: &Matrix<R, SS, SS>,
) -> (covariance: Matrix<R, SS, SS>)
    ensures
        posterior_covariance::<R, A, SS, OS>(
            covariance_method,
            *k_gain,
            *r,
            *one_minus_kh,
            *p,
            covariance,
        ),
{
    match covariance_method {
        CoverianceUpdateMethod::JosephForm => {
            let c = A::multiply(one_minus_kh, p);
            let transpose = one_minus_kh.transpose();
            let left = A::multiply(&c, &transpose);
            assert(multiplies::<R, A, SS, SS, SS>(c, transpose, left));
            let kr = A::multiply(k_gain, r);
            let kt = k_gain.transpose();
            let right = A::multiply(&kr, &kt);
            assert(multiplies::<R, A, SS, OS, SS>(kr, kt, right));
            let covariance = A::plus(&left, &right);
            assert(adds::<R, A, SS, SS>(left, right, covariance));
            covariance
        },
        CoverianceUpdateMethod::OptimalKalman => A::multiply(one_minus_kh, p),
        CoverianceUpdateMethod::OptimalKalmanForcedSymmetric => {
            let covariance1 = A::multiply(one_minus_kh, p);
            let transpose = covariance1.transpose();
            let sum = A::plus(&covariance1, &transpose);
            assert(adds::<R, A, SS, SS>(covariance1, transpose, sum));
            A::scale(&sum, R::half())
        },
    }
}

/// Given a prior state and an observation, compute a posterior state
/// estimate.
///
/// `h` is the observation matrix, `ht` its transpose, `r` the covariance of
/// the observation noise, and `predicted` the observation that the model
/// expects of the prior state.
pub fn update<R: Scalar, A: LinearAlgebra<R>, const SS: usize, const OS: usize>(
    h: &Matrix<R, OS, SS>,
    ht: &Matrix<R, SS, OS>,
    r: &Matrix<R, OS, OS>,
    predicted: &Vector<R, OS>,
    prior: &StateAndCovariance<R, SS>,
    observation: &Vector<R, OS>,
    covariance_method: CoverianceUpdateMethod,
) -> (outcome: Result<StateAndCovariance<R, SS>, Error>)
    ensures
        updates::<R, A, SS, OS>(
            *h,
            *ht,
            *r,
            *predicted,
            *prior,
            *observation,
            covariance_method,
            outcome,
        ),
{
    let p = prior.covariance();

    let hp = A::multiply(h, p);
    let hpht = A::multiply(&hp, ht);
    let s = A::plus(&hpht, r);
    assert(multiplies::<R, A, OS, SS, OS>(hp, *ht, hpht));

    let inverse = A::invert(&s);
    assert(inverts::<R, A, OS>(s, inverse));
    let s_inv = match inverse {
        Some(v) => v,
        None => {
            return Err(Error::from(ErrorKind::CovarianceNotPositiveSemiDefinite));
        },
    };

    let pht = A::multiply(p, ht);
    let k_gain = A::multiply(&pht, &s_inv);
    assert(multiplies::<R, A, SS, SS, OS>(*p, *ht, pht));

    let innovation = A::minus(observation, predicted);
    let correction = A::multiply(&k_gain, &innovation);
    let state = A::plus(prior.state(), &correction);
    assert(multiplies::<R, A, SS, OS, 1>(k_gain, innovation, correction));

    let kh = A::multiply(&k_gain, h);
    let one = Matrix::<R, SS, SS>::identity();
    let one_minus_kh = A::minus(&one, &kh);
    assert(subtracts::<R, A, SS, SS>(one, kh, one_minus_kh));
    assert(gain_complement::<R, A, SS, OS>(k_gain, *h, one_minus_kh));

    let covariance = update_covariance::<R, A, SS, OS>(
        covariance_method,
        &k_gain,
        r,
        &one_minus_kh,
        p,
    );

    let posterior = StateAndCovariance::new(state, covariance);
    Ok(posterior)
}

/// Revise a filtered estimate by the smoothed estimate of the next time
/// step: one backward step of the Rauch-Tung-Striebel recursion.
///
/// `ft` is the transpose of the transition matrix and `prior` the
/// prediction made from `filt`.
pub fn smooth<R: Scalar, A: LinearAlgebra<R>, const SS: usize>(
    ft: &Matrix<R, SS, SS>,
    smooth_future: &StateAndCovariance<R, SS>,
    filt: &StateAndCovariance<R, SS>,
    prior: &StateAndCovariance<R, SS>,
) -> (outcome: Result<StateAndCovariance<R, SS>, Error>)
    ensures
        smooths::<R, A, SS>(*ft, *smooth_future, *filt, *prior, outcome),
{
    let inverse = A::invert(prior.covariance());
    assert(inverts::<R, A, SS>(prior.covariance, inverse));
    let inv_prior_covariance = match inverse {
        Some(v) => v,
        None => {
            return Err(Error::from(ErrorKind::CovarianceNotPositiveSemiDefinite));
        },
    };

    let right = A::multiply(ft, &inv_prior_covariance);
    let j = A::multiply(filt.covariance(), &right);
    assert(multiplies::<R, A, SS, SS, SS>(*ft, inv_prior_covariance, right));

    let residuals = A::minus(smooth_future.state(), prior.state());
    let correction = A::multiply(&j, &residuals);
    let state = A::plus(filt.state(), &correction);
    assert(multiplies::<R, A, SS, SS, 1>(j, residuals, correction));

    let covar_residuals = A::minus(smooth_future.covariance(), prior.covariance());
    let jt = j.transpose();
    let covar_right = A::multiply(&covar_residuals, &jt);
    let covar_correction = A::multiply(&j, &covar_right);
    let covariance = A::plus(filt.covariance(), &covar_correction);
    assert(multiplies::<R, A, SS, SS, SS>(covar_residuals, jt, covar_right));
    assert(multiplies::<R, A, SS, SS, SS>(j, covar_right, covar_correction));

    let smoothed = StateAndCovariance::new(state, covariance);
    assert(smoother_gain::<R, A, SS>(*ft, filt.covariance, inv_prior_covariance, j));
    Ok(smoothed)
}

} // verus!
