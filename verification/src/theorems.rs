//! What holds of the equations and of the engine, whatever the models and
//! the arithmetic.
use crate::algebra::{
    adds, invert_determined, inverts, minus_determined, multiplies, multiply_determined,
    plus_determined, scale_determined, scales, subtracts, LinearAlgebra,
};
use crate::equations::{
    corrects, gain_complement, innovation_covariance, joseph_left, joseph_right, kalman_gain,
    not_positive_definite, posterior_covariance, posterior_state, predicts, revises,
    smoothed_covariance, smoothed_state, smoother_gain, smooths, symmetric_covariance, updates,
};
use crate::error::{Error, ErrorKind};
use crate::matrix::{Matrix, Vector};
use crate::model::CoverianceUpdateMethod;
use crate::scalar::Scalar;
use crate::state_and_covariance::StateAndCovariance;
use vstd::prelude::*;

verus! {

/// Whether the operations that lead to the posterior state are functions:
/// those of the innovation covariance, of its inverse, of the gain and of
/// the correction of the state.
pub open spec fn state_arithmetic_determined<
    R: Scalar,
    A: LinearAlgebra<R>,
    const SS: usize,
    const OS: usize,
>() -> bool {
    &&& multiply_determined::<R, A, OS, SS, SS>()
    &&& multiply_determined::<R, A, OS, SS, OS>()
    &&& plus_determined::<R, A, OS, OS>()
    &&& invert_determined::<R, A, OS>()
    &&& multiply_determined::<R, A, SS, SS, OS>()
    &&& multiply_determined::<R, A, SS, OS, OS>()
    &&& minus_determined::<R, A, OS, 1>()
    &&& multiply_determined::<R, A, SS, OS, 1>()
    &&& plus_determined::<R, A, SS, 1>()
}

/// Whether the operations that lead from the gain to the posterior
/// covariance are functions.
pub open spec fn covariance_arithmetic_determined<
    R: Scalar,
    A: LinearAlgebra<R>,
    const SS: usize,
    const OS: usize,
>() -> bool {
    &&& multiply_determined::<R, A, SS, OS, SS>()
    &&& minus_determined::<R, A, SS, SS>()
    &&& multiply_determined::<R, A, SS, SS, SS>()
    &&& plus_determined::<R, A, SS, SS>()
    &&& scale_determined::<R, A, SS, SS>()
    &&& multiply_determined::<R, A, SS, OS, OS>()
}

/// Whether the operations of a prediction are functions.
pub open spec fn prediction_arithmetic_determined<
    R: Scalar,
    A: LinearAlgebra<R>,
    const SS: usize,
>() -> bool {
    &&& multiply_determined::<R, A, SS, SS, 1>()
    &&& multiply_determined::<R, A, SS, SS, SS>()
    &&& plus_determined::<R, A, SS, SS>()
}

/// Whether the operations of a backward step of the smoother are functions.
pub open spec fn smoothing_arithmetic_determined<
    R: Scalar,
    A: LinearAlgebra<R>,
    const SS: usize,
>() -> bool {
    &&& invert_determined::<R, A, SS>()
    &&& multiply_determined::<R, A, SS, SS, SS>()
    &&& minus_determined::<R, A, SS, 1>()
    &&& multiply_determined::<R, A, SS, SS, 1>()
    &&& plus_determined::<R, A, SS, 1>()
    &&& minus_determined::<R, A, SS, SS>()
    &&& plus_determined::<R, A, SS, SS>()
}

/// An update fails in one way only: the inversion of the innovation
/// covariance failed, and the failure says that the covariance is not
/// positive definite.
pub proof fn lemma_update_fails_without_inverse<
    R: Scalar,
    A: LinearAlgebra<R>,
    const SS: usize,
    const OS: usize,
>(
    h: Matrix<R, OS, SS>,
    ht: Matrix<R, SS, OS>,
    r: Matrix<R, OS, OS>,
    predicted: Vector<R, OS>,
    prior: StateAndCovariance<R, SS>,
    observation: Vector<R, OS>,
    covariance_method: CoverianceUpdateMethod,
    outcome: Result<StateAndCovariance<R, SS>, Error>,
)
    requires
        updates::<R, A, SS, OS>(
            h,
            ht,
            r,
            predicted,
            prior,
            observation,
            covariance_method,
            outcome,
        ),
        outcome is Err,
    ensures
        outcome->Err_0.kind == ErrorKind::CovarianceNotPositiveSemiDefinite,
        exists|s: Matrix<R, OS, OS>|
            innovation_covariance::<R, A, SS, OS>(h, ht, r, prior.covariance, s)
                && #[trigger] inverts::<R, A, OS>(s, None),
{
}

/// Where the inversion of the innovation covariance may fail, the update
/// may fail, and with the failure that says so.
pub proof fn lemma_update_without_inverse_fails<
    R: Scalar,
    A: LinearAlgebra<R>,
    const SS: usize,
    const OS: usize,
>(
    h: Matrix<R, OS, SS>,
    ht: Matrix<R, SS, OS>,
    r: Matrix<R, OS, OS>,
    predicted: Vector<R, OS>,
    prior: StateAndCovariance<R, SS>,
    observation: Vector<R, OS>,
    covariance_method: CoverianceUpdateMethod,
    s: Matrix<R, OS, OS>,
)
    requires
        innovation_covariance::<R, A, SS, OS>(h, ht, r, prior.covariance, s),
        inverts::<R, A, OS>(s, None),
    ensures
        updates::<R, A, SS, OS>(
            h,
            ht,
            r,
            predicted,
            prior,
            observation,
            covariance_method,
            Err(not_positive_definite()),
        ),
{
}

/// A backward step of the smoother fails in one way only: the inversion of
/// the covariance of the prediction failed, and the failure says that the
/// covariance is not positive definite.
pub proof fn lemma_smoothing_fails_without_inverse<
    R: Scalar,
    A: LinearAlgebra<R>,
    const SS: usize,
>(
    ft: Matrix<R, SS, SS>,
    smooth_future: StateAndCovariance<R, SS>,
    filt: StateAndCovariance<R, SS>,
    prior: StateAndCovariance<R, SS>,
    outcome: Result<StateAndCovariance<R, SS>, Error>,
)
    requires
        smooths::<R, A, SS>(ft, smooth_future, filt, prior, outcome),
        outcome is Err,
    ensures
        outcome->Err_0.kind == ErrorKind::CovarianceNotPositiveSemiDefinite,
        inverts::<R, A, SS>(prior.covariance, None),
{
}

/// Where the inversion of the covariance of the prediction may fail, the
/// backward step may fail, and with the failure that says so.
pub proof fn lemma_smoothing_without_inverse_fails<
    R: Scalar,
    A: LinearAlgebra<R>,
    const SS: usize,
>(
    ft: Matrix<R, SS, SS>,
    smooth_future: StateAndCovariance<R, SS>,
    filt: StateAndCovariance<R, SS>,
    prior: StateAndCovariance<R, SS>,
)
    requires
        inverts::<R, A, SS>(prior.covariance, None),
    ensures
        smooths::<R, A, SS>(ft, smooth_future, filt, prior, Err(not_positive_definite())),
{
}

/// With an arithmetic that is a function, the innovation covariance is a
/// function of the matrices that it is made of.
pub proof fn lemma_innovation_covariance_determined<
    R: Scalar,
    A: LinearAlgebra<R>,
    const SS: usize,
    const OS: usize,
>(
    h: Matrix<R, OS, SS>,
    ht: Matrix<R, SS, OS>,
    r: Matrix<R, OS, OS>,
    p: Matrix<R, SS, SS>,
    s1: Matrix<R, OS, OS>,
    s2: Matrix<R, OS, OS>,
)
    requires
        multiply_determined::<R, A, OS, SS, SS>(),
        multiply_determined::<R, A, OS, SS, OS>(),
        plus_determined::<R, A, OS, OS>(),
        innovation_covariance::<R, A, SS, OS>(h, ht, r, p, s1),
        innovation_covariance::<R, A, SS, OS>(h, ht, r, p, s2),
    ensures
        s1 == s2,
{
}

/// With an arithmetic that is a function, the Kalman gain is a function of
/// the matrices that it is made of.
pub proof fn lemma_kalman_gain_determined<
    R: Scalar,
    A: LinearAlgebra<R>,
    const SS: usize,
    const OS: usize,
>(
    ht: Matrix<R, SS, OS>,
    p: Matrix<R, SS, SS>,
    s_inv: Matrix<R, OS, OS>,
    k1: Matrix<R, SS, OS>,
    k2: Matrix<R, SS, OS>,
)
    requires
        multiply_determined::<R, A, SS, SS, OS>(),
        multiply_determined::<R, A, SS, OS, OS>(),
        kalman_gain::<R, A, SS, OS>(ht, p, s_inv, k1),
        kalman_gain::<R, A, SS, OS>(ht, p, s_inv, k2),
    ensures
        k1 == k2,
{
}

/// With an arithmetic that is a function, the posterior state is a function
/// of the gain, the prior state, the observation and the observation that
/// the model expects.
pub proof fn lemma_posterior_state_determined<
    R: Scalar,
    A: LinearAlgebra<R>,
    const SS: usize,
    const OS: usize,
>(
    k: Matrix<R, SS, OS>,
    x: Vector<R, SS>,
    observation: Vector<R, OS>,
    predicted: Vector<R, OS>,
    state1: Vector<R, SS>,
    state2: Vector<R, SS>,
)
    requires
        minus_determined::<R, A, OS, 1>(),
        multiply_determined::<R, A, SS, OS, 1>(),
        plus_determined::<R, A, SS, 1>(),
        posterior_state::<R, A, SS, OS>(k, x, observation, predicted, state1),
        posterior_state::<R, A, SS, OS>(k, x, observation, predicted, state2),
    ensures
        state1 == state2,
{
}

/// The posterior state does not depend on the covariance update method.
///
/// With an arithmetic that is a function on the way to the state, two
/// updates of one prior by one observation, by whichever methods, fail
/// together or succeed together, and where they succeed their posterior
/// states are equal.
pub proof fn lemma_state_does_not_depend_on_method<
    R: Scalar,
    A: LinearAlgebra<R>,
    const SS: usize,
    const OS: usize,
>(
    h: Matrix<R, OS, SS>,
    ht: Matrix<R, SS, OS>,
    r: Matrix<R, OS, OS>,
    predicted: Vector<R, OS>,
    prior: StateAndCovariance<R, SS>,
    observation: Vector<R, OS>,
    method1: CoverianceUpdateMethod,
    outcome1: Result<StateAndCovariance<R, SS>, Error>,
    method2: CoverianceUpdateMethod,
    outcome2: Result<StateAndCovariance<R, SS>, Error>,
)
    requires
        state_arithmetic_determined::<R, A, SS, OS>(),
        updates::<R, A, SS, OS>(h, ht, r, predicted, prior, observation, method1, outcome1),
        updates::<R, A, SS, OS>(h, ht, r, predicted, prior, observation, method2, outcome2),
    ensures
        outcome1 is Ok <==> outcome2 is Ok,
        outcome1 is Ok ==> outcome1->Ok_0.state == outcome2->Ok_0.state,
        outcome1 is Err ==> outcome1 == outcome2,
{
    let (s1, inverse1) = choose|s: Matrix<R, OS, OS>, inverse: Option<Matrix<R, OS, OS>>|
        {
            &&& innovation_covariance::<R, A, SS, OS>(h, ht, r, prior.covariance, s)
            &&& #[trigger] inverts::<R, A, OS>(s, inverse)
            &&& match inverse {
                Some(s_inv) => outcome1 is Ok && corrects::<R, A, SS, OS>(
                    h,
                    ht,
                    r,
                    predicted,
                    s_inv,
                    prior,
                    observation,
                    method1,
                    outcome1->Ok_0,
                ),
                None => outcome1 == Err::<StateAndCovariance<R, SS>, Error>(
                    not_positive_definite(),
                ),
            }
        };
    let (s2, inverse2) = choose|s: Matrix<R, OS, OS>, inverse: Option<Matrix<R, OS, OS>>|
        {
            &&& innovation_covariance::<R, A, SS, OS>(h, ht, r, prior.covariance, s)
            &&& #[trigger] inverts::<R, A, OS>(s, inverse)
            &&& match inverse {
                Some(s_inv) => outcome2 is Ok && corrects::<R, A, SS, OS>(
                    h,
                    ht,
                    r,
                    predicted,
                    s_inv,
                    prior,
                    observation,
                    method2,
                    outcome2->Ok_0,
                ),
                None => outcome2 == Err::<StateAndCovariance<R, SS>, Error>(
                    not_positive_definite(),
                ),
            }
        };
    lemma_innovation_covariance_determined::<R, A, SS, OS>(h, ht, r, prior.covariance, s1, s2);
    assert(inverse1 == inverse2);
    if let Some(s_inv) = inverse1 {
        let posterior1 = outcome1->Ok_0;
        let posterior2 = outcome2->Ok_0;
        let (k1, c1) = choose|k: Matrix<R, SS, OS>, one_minus_kh: Matrix<R, SS, SS>|
            {
                &&& kalman_gain::<R, A, SS, OS>(ht, prior.covariance, s_inv, k)
                &&& posterior_state::<R, A, SS, OS>(
                    k,
                    prior.state,
                    observation,
                    predicted,
                    posterior1.state,
                )
                &&& #[trigger] gain_complement::<R, A, SS, OS>(k, h, one_minus_kh)
                &&& posterior_covariance::<R, A, SS, OS>(
                    method1,
                    k,
                    r,
                    one_minus_kh,
                    prior.covariance,
                    posterior1.covariance,
                )
            };
        let (k2, c2) = choose|k: Matrix<R, SS, OS>, one_minus_kh: Matrix<R, SS, SS>|
            {
                &&& kalman_gain::<R, A, SS, OS>(ht, prior.covariance, s_inv, k)
                &&& posterior_state::<R, A, SS, OS>(
                    k,
                    prior.state,
                    observation,
                    predicted,
                    posterior2.state,
                )
                &&& #[trigger] gain_complement::<R, A, SS, OS>(k, h, one_minus_kh)
                &&& posterior_covariance::<R, A, SS, OS>(
                    method2,
                    k,
                    r,
                    one_minus_kh,
                    prior.covariance,
                    posterior2.covariance,
                )
            };
        lemma_kalman_gain_determined::<R, A, SS, OS>(ht, prior.covariance, s_inv, k1, k2);
        lemma_posterior_state_determined::<R, A, SS, OS>(
            k1,
            prior.state,
            observation,
            predicted,
            posterior1.state,
            posterior2.state,
        );
    }
}

/// With an arithmetic that is a function, `I - K H` is a function of the
/// gain and the observation matrix.
pub proof fn lemma_gain_complement_determined<
    R: Scalar,
    A: LinearAlgebra<R>,
    const SS: usize,
    const OS: usize,
>(k: Matrix<R, SS, OS>, h: Matrix<R, OS, SS>, c1: Matrix<R, SS, SS>, c2: Matrix<R, SS, SS>)
    requires
        multiply_determined::<R, A, SS, OS, SS>(),
        minus_determined::<R, A, SS, SS>(),
        gain_complement::<R, A, SS, OS>(k, h, c1),
        gain_complement::<R, A, SS, OS>(k, h, c2),
    ensures
        c1 == c2,
{
    let (kh1, one1) = choose|kh: Matrix<R, SS, SS>, one: Matrix<R, SS, SS>|
        {
            &&& multiplies::<R, A, SS, OS, SS>(k, h, kh)
            &&& one.is_identity()
            &&& #[trigger] subtracts::<R, A, SS, SS>(one, kh, c1)
        };
    let (kh2, one2) = choose|kh: Matrix<R, SS, SS>, one: Matrix<R, SS, SS>|
        {
            &&& multiplies::<R, A, SS, OS, SS>(k, h, kh)
            &&& one.is_identity()
            &&& #[trigger] subtracts::<R, A, SS, SS>(one, kh, c2)
        };
    Matrix::<R, SS, SS>::lemma_one_identity(one1, one2);
}

/// With an arithmetic that is a function, the posterior covariance of each
/// method is a function of the matrices that it is made of.
pub proof fn lemma_posterior_covariance_determined<
    R: Scalar,
    A: LinearAlgebra<R>,
    const SS: usize,
    const OS: usize,
>(
    covariance_method: CoverianceUpdateMethod,
    k: Matrix<R, SS, OS>,
    r: Matrix<R, OS, OS>,
    one_minus_kh: Matrix<R, SS, SS>,
    p: Matrix<R, SS, SS>,
    covariance1: Matrix<R, SS, SS>,
    covariance2: Matrix<R, SS, SS>,
)
    requires
        covariance_arithmetic_determined::<R, A, SS, OS>(),
        posterior_covariance::<R, A, SS, OS>(
            covariance_method,
            k,
            r,
            one_minus_kh,
            p,
            covariance1,
        ),
        posterior_covariance::<R, A, SS, OS>(
            covariance_method,
            k,
            r,
            one_minus_kh,
            p,
            covariance2,
        ),
    ensures
        covariance1 == covariance2,
{
    match covariance_method {
        CoverianceUpdateMethod::OptimalKalman => {},
        CoverianceUpdateMethod::OptimalKalmanForcedSymmetric => {
            let (c1, ct1, sum1) = choose|
                c: Matrix<R, SS, SS>,
                ct: Matrix<R, SS, SS>,
                sum: Matrix<R, SS, SS>,
            |
                {
                    &&& multiplies::<R, A, SS, SS, SS>(one_minus_kh, p, c)
                    &&& ct.is_transpose_of(c)
                    &&& #[trigger] adds::<R, A, SS, SS>(c, ct, sum)
                    &&& scales::<R, A, SS, SS>(sum, R::half_value(), covariance1)
                };
            let (c2, ct2, sum2) = choose|
                c: Matrix<R, SS, SS>,
                ct: Matrix<R, SS, SS>,
                sum: Matrix<R, SS, SS>,
            |
                {
                    &&& multiplies::<R, A, SS, SS, SS>(one_minus_kh, p, c)
                    &&& ct.is_transpose_of(c)
                    &&& #[trigger] adds::<R, A, SS, SS>(c, ct, sum)
                    &&& scales::<R, A, SS, SS>(sum, R::half_value(), covariance2)
                };
            Matrix::<R, SS, SS>::lemma_one_transpose(ct1, ct2, c1);
        },
        CoverianceUpdateMethod::JosephForm => {
            let (left1, right1) = choose|left: Matrix<R, SS, SS>, right: Matrix<R, SS, SS>|
                {
                    &&& joseph_left::<R, A, SS>(one_minus_kh, p, left)
                    &&& joseph_right::<R, A, SS, OS>(k, r, right)
                    &&& #[trigger] adds::<R, A, SS, SS>(left, right, covariance1)
                };
            let (left2, right2) = choose|left: Matrix<R, SS, SS>, right: Matrix<R, SS, SS>|
                {
                    &&& joseph_left::<R, A, SS>(one_minus_kh, p, left)
                    &&& joseph_right::<R, A, SS, OS>(k, r, right)
                    &&& #[trigger] adds::<R, A, SS, SS>(left, right, covariance2)
                };
            lemma_joseph_left_determined::<R, A, SS>(one_minus_kh, p, left1, left2);
            lemma_joseph_right_determined::<R, A, SS, OS>(k, r, right1, right2);
        },
    }
}

/// With an arithmetic that is a function, the first term of the Joseph form
/// is a function of the matrices that it is made of.
pub proof fn lemma_joseph_left_determined<R: Scalar, A: LinearAlgebra<R>, const SS: usize>(
    one_minus_kh: Matrix<R, SS, SS>,
    p: Matrix<R, SS, SS>,
    left1: Matrix<R, SS, SS>,
    left2: Matrix<R, SS, SS>,
)
    requires
        multiply_determined::<R, A, SS, SS, SS>(),
        joseph_left::<R, A, SS>(one_minus_kh, p, left1),
        joseph_left::<R, A, SS>(one_minus_kh, p, left2),
    ensures
        left1 == left2,
{
    let (c1, t1) = choose|c: Matrix<R, SS, SS>, transpose: Matrix<R, SS, SS>|
        {
            &&& multiplies::<R, A, SS, SS, SS>(one_minus_kh, p, c)
            &&& transpose.is_transpose_of(one_minus_kh)
            &&& #[trigger] multiplies::<R, A, SS, SS, SS>(c, transpose, left1)
        };
    let (c2, t2) = choose|c: Matrix<R, SS, SS>, transpose: Matrix<R, SS, SS>|
        {
            &&& multiplies::<R, A, SS, SS, SS>(one_minus_kh, p, c)
            &&& transpose.is_transpose_of(one_minus_kh)
            &&& #[trigger] multiplies::<R, A, SS, SS, SS>(c, transpose, left2)
        };
    Matrix::<R, SS, SS>::lemma_one_transpose(t1, t2, one_minus_kh);
}

/// With an arithmetic that is a function, the second term of the Joseph
/// form is a function of the matrices that it is made of.
pub proof fn lemma_joseph_right_determined<
    R: Scalar,
    A: LinearAlgebra<R>,
    const SS: usize,
    const OS: usize,
>(k: Matrix<R, SS, OS>, r: Matrix<R, OS, OS>, right1: Matrix<R, SS, SS>, right2: Matrix<R, SS, SS>)
    requires
        multiply_determined::<R, A, SS, OS, OS>(),
        multiply_determined::<R, A, SS, OS, SS>(),
        joseph_right::<R, A, SS, OS>(k, r, right1),
        joseph_right::<R, A, SS, OS>(k, r, right2),
    ensures
        right1 == right2,
{
    let (kr1, kt1) = choose|kr: Matrix<R, SS, OS>, kt: Matrix<R, OS, SS>|
        {
            &&& multiplies::<R, A, SS, OS, OS>(k, r, kr)
            &&& kt.is_transpose_of(k)
            &&& #[trigger] multiplies::<R, A, SS, OS, SS>(kr, kt, right1)
        };
    let (kr2, kt2) = choose|kr: Matrix<R, SS, OS>, kt: Matrix<R, OS, SS>|
        {
            &&& multiplies::<R, A, SS, OS, OS>(k, r, kr)
            &&& kt.is_transpose_of(k)
            &&& #[trigger] multiplies::<R, A, SS, OS, SS>(kr, kt, right2)
        };
    Matrix::<R, OS, SS>::lemma_one_transpose(kt1, kt2, k);
}

/// With an arithmetic that is a function, the update is a function: one
/// prior, one observation and one method have one outcome.
pub proof fn lemma_update_determined<
    R: Scalar,
    A: LinearAlgebra<R>,
    const SS: usize,
    const OS: usize,
>(
    h: Matrix<R, OS, SS>,
    ht: Matrix<R, SS, OS>,
    r: Matrix<R, OS, OS>,
    predicted: Vector<R, OS>,
    prior: StateAndCovariance<R, SS>,
    observation: Vector<R, OS>,
    covariance_method: CoverianceUpdateMethod,
    outcome1: Result<StateAndCovariance<R, SS>, Error>,
    outcome2: Result<StateAndCovariance<R, SS>, Error>,
)
    requires
        state_arithmetic_determined::<R, A, SS, OS>(),
        covariance_arithmetic_determined::<R, A, SS, OS>(),
        updates::<R, A, SS, OS>(
            h,
            ht,
            r,
            predicted,
            prior,
            observation,
            covariance_method,
            outcome1,
        ),
        updates::<R, A, SS, OS>(
            h,
            ht,
            r,
            predicted,
            prior,
            observation,
            covariance_method,
            outcome2,
        ),
    ensures
        outcome1 == outcome2,
{
    lemma_state_does_not_depend_on_method::<R, A, SS, OS>(
        h,
        ht,
        r,
        predicted,
        prior,
        observation,
        covariance_method,
        outcome1,
        covariance_method,
        outcome2,
    );
    if outcome1 is Ok {
        let posterior1 = outcome1->Ok_0;
        let posterior2 = outcome2->Ok_0;
        let (s1, inverse1) = choose|s: Matrix<R, OS, OS>, inverse: Option<Matrix<R, OS, OS>>|
            {
                &&& innovation_covariance::<R, A, SS, OS>(h, ht, r, prior.covariance, s)
                &&& #[trigger] inverts::<R, A, OS>(s, inverse)
                &&& inverse is Some
                &&& corrects::<R, A, SS, OS>(
                    h,
                    ht,
                    r,
                    predicted,
                    inverse->Some_0,
                    prior,
                    observation,
                    covariance_method,
                    posterior1,
                )
            };
        let (s2, inverse2) = choose|s: Matrix<R, OS, OS>, inverse: Option<Matrix<R, OS, OS>>|
            {
                &&& innovation_covariance::<R, A, SS, OS>(h, ht, r, prior.covariance, s)
                &&& #[trigger] inverts::<R, A, OS>(s, inverse)
                &&& inverse is Some
                &&& corrects::<R, A, SS, OS>(
                    h,
                    ht,
                    r,
                    predicted,
                    inverse->Some_0,
                    prior,
                    observation,
                    covariance_method,
                    posterior2,
                )
            };
        lemma_innovation_covariance_determined::<R, A, SS, OS>(
            h,
            ht,
            r,
            prior.covariance,
            s1,
            s2,
        );
        let s_inv = inverse1->Some_0;
        assert(inverse2->Some_0 == s_inv);
        let (k1, c1) = choose|k: Matrix<R, SS, OS>, one_minus_kh: Matrix<R, SS, SS>|
            {
                &&& kalman_gain::<R, A, SS, OS>(ht, prior.covariance, s_inv, k)
                &&& posterior_state::<R, A, SS, OS>(
                    k,
                    prior.state,
                    observation,
                    predicted,
                    posterior1.state,
                )
                &&& #[trigger] gain_complement::<R, A, SS, OS>(k, h, one_minus_kh)
                &&& posterior_covariance::<R, A, SS, OS>(
                    covariance_method,
                    k,
                    r,
                    one_minus_kh,
                    prior.covariance,
                    posterior1.covariance,
                )
            };
        let (k2, c2) = choose|k: Matrix<R, SS, OS>, one_minus_kh: Matrix<R, SS, SS>|
            {
                &&& kalman_gain::<R, A, SS, OS>(ht, prior.covariance, s_inv, k)
                &&& posterior_state::<R, A, SS, OS>(
                    k,
                    prior.state,
                    observation,
                    predicted,
                    posterior2.state,
                )
                &&& #[trigger] gain_complement::<R, A, SS, OS>(k, h, one_minus_kh)
                &&& posterior_covariance::<R, A, SS, OS>(
                    covariance_method,
                    k,
                    r,
                    one_minus_kh,
                    prior.covariance,
                    posterior2.covariance,
                )
            };
        lemma_kalman_gain_determined::<R, A, SS, OS>(ht, prior.covariance, s_inv, k1, k2);
        lemma_gain_complement_determined::<R, A, SS, OS>(k1, h, c1, c2);
        lemma_posterior_covariance_determined::<R, A, SS, OS>(
            covariance_method,
            k1,
            r,
            c1,
            prior.covariance,
            posterior1.covariance,
            posterior2.covariance,
        );
    }
}

/// With an arithmetic that is a function, the prediction is a function of
/// the previous estimate.
pub proof fn lemma_prediction_determined<R: Scalar, A: LinearAlgebra<R>, const SS: usize>(
    f: Matrix<R, SS, SS>,
    ft: Matrix<R, SS, SS>,
    q: Matrix<R, SS, SS>,
    previous: StateAndCovariance<R, SS>,
    prediction1: StateAndCovariance<R, SS>,
    prediction2: StateAndCovariance<R, SS>,
)
    requires
        prediction_arithmetic_determined::<R, A, SS>(),
        predicts::<R, A, SS>(f, ft, q, previous, prediction1),
        predicts::<R, A, SS>(f, ft, q, previous, prediction2),
    ensures
        prediction1 == prediction2,
{
}

/// With an arithmetic that is a function, a backward step of the smoother is
/// a function: three estimates have one outcome.
pub proof fn lemma_smoothing_determined<R: Scalar, A: LinearAlgebra<R>, const SS: usize>(
    ft: Matrix<R, SS, SS>,
    smooth_future: StateAndCovariance<R, SS>,
    filt: StateAndCovariance<R, SS>,
    prior: StateAndCovariance<R, SS>,
    outcome1: Result<StateAndCovariance<R, SS>, Error>,
    outcome2: Result<StateAndCovariance<R, SS>, Error>,
)
    requires
        smoothing_arithmetic_determined::<R, A, SS>(),
        smooths::<R, A, SS>(ft, smooth_future, filt, prior, outcome1),
        smooths::<R, A, SS>(ft, smooth_future, filt, prior, outcome2),
    ensures
        outcome1 == outcome2,
{
    let inverse1 = choose|inverse: Option<Matrix<R, SS, SS>>|
        {
            &&& #[trigger] inverts::<R, A, SS>(prior.covariance, inverse)
            &&& match inverse {
                Some(inv_prior_covariance) => outcome1 is Ok && revises::<R, A, SS>(
                    ft,
                    inv_prior_covariance,
                    smooth_future,
                    filt,
                    prior,
                    outcome1->Ok_0,
                ),
                None => outcome1 == Err::<StateAndCovariance<R, SS>, Error>(
                    not_positive_definite(),
                ),
            }
        };
    let inverse2 = choose|inverse: Option<Matrix<R, SS, SS>>|
        {
            &&& #[trigger] inverts::<R, A, SS>(prior.covariance, inverse)
            &&& match inverse {
                Some(inv_prior_covariance) => outcome2 is Ok && revises::<R, A, SS>(
                    ft,
                    inv_prior_covariance,
                    smooth_future,
                    filt,
                    prior,
                    outcome2->Ok_0,
                ),
                None => outcome2 == Err::<StateAndCovariance<R, SS>, Error>(
                    not_positive_definite(),
                ),
            }
        };
    assert(inverse1 == inverse2);
    if let Some(inv) = inverse1 {
        let smoothed1 = outcome1->Ok_0;
        let smoothed2 = outcome2->Ok_0;
        let j1 = choose|j: Matrix<R, SS, SS>|
            {
                &&& #[trigger] smoother_gain::<R, A, SS>(ft, filt.covariance, inv, j)
                &&& smoothed_state::<R, A, SS>(
                    j,
                    filt.state,
                    smooth_future.state,
                    prior.state,
                    smoothed1.state,
                )
                &&& smoothed_covariance::<R, A, SS>(
                    j,
                    filt.covariance,
                    smooth_future.covariance,
                    prior.covariance,
                    smoothed1.covariance,
                )
            };
        let j2 = choose|j: Matrix<R, SS, SS>|
            {
                &&& #[trigger] smoother_gain::<R, A, SS>(ft, filt.covariance, inv, j)
                &&& smoothed_state::<R, A, SS>(
                    j,
                    filt.state,
                    smooth_future.state,
                    prior.state,
                    smoothed2.state,
                )
                &&& smoothed_covariance::<R, A, SS>(
                    j,
                    filt.covariance,
                    smooth_future.covariance,
                    prior.covariance,
                    smoothed2.covariance,
                )
            };
        assert(j1 == j2);
        assert(smoothed1.state == smoothed2.state);
        lemma_smoothed_covariance_determined::<R, A, SS>(
            j1,
            filt.covariance,
            smooth_future.covariance,
            prior.covariance,
            smoothed1.covariance,
            smoothed2.covariance,
        );
    }
}

/// With an arithmetic that is a function, the smoothed covariance is a
/// function of the matrices that it is made of.
pub proof fn lemma_smoothed_covariance_determined<
    R: Scalar,
    A: LinearAlgebra<R>,
    const SS: usize,
>(
    j: Matrix<R, SS, SS>,
    filt_covariance: Matrix<R, SS, SS>,
    future_covariance: Matrix<R, SS, SS>,
    prior_covariance: Matrix<R, SS, SS>,
    covariance1: Matrix<R, SS, SS>,
    covariance2: Matrix<R, SS, SS>,
)
    requires
        minus_determined::<R, A, SS, SS>(),
        multiply_determined::<R, A, SS, SS, SS>(),
        plus_determined::<R, A, SS, SS>(),
        smoothed_covariance::<R, A, SS>(
            j,
            filt_covariance,
            future_covariance,
            prior_covariance,
            covariance1,
        ),
        smoothed_covariance::<R, A, SS>(
            j,
            filt_covariance,
            future_covariance,
            prior_covariance,
            covariance2,
        ),
    ensures
        covariance1 == covariance2,
{
    let (residuals1, jt1, right1, correction1) = choose|
        residuals: Matrix<R, SS, SS>,
        jt: Matrix<R, SS, SS>,
        right: Matrix<R, SS, SS>,
        correction: Matrix<R, SS, SS>,
    |
        {
            &&& subtracts::<R, A, SS, SS>(future_covariance, prior_covariance, residuals)
            &&& jt.is_transpose_of(j)
            &&& #[trigger] multiplies::<R, A, SS, SS, SS>(residuals, jt, right)
            &&& #[trigger] multiplies::<R, A, SS, SS, SS>(j, right, correction)
            &&& adds::<R, A, SS, SS>(filt_covariance, correction, covariance1)
        };
    let (residuals2, jt2, right2, correction2) = choose|
        residuals: Matrix<R, SS, SS>,
        jt: Matrix<R, SS, SS>,
        right: Matrix<R, SS, SS>,
        correction: Matrix<R, SS, SS>,
    |
        {
            &&& subtracts::<R, A, SS, SS>(future_covariance, prior_covariance, residuals)
            &&& jt.is_transpose_of(j)
            &&& #[trigger] multiplies::<R, A, SS, SS, SS>(residuals, jt, right)
            &&& #[trigger] multiplies::<R, A, SS, SS, SS>(j, right, correction)
            &&& adds::<R, A, SS, SS>(filt_covariance, correction, covariance2)
        };
    Matrix::<R, SS, SS>::lemma_one_transpose(jt1, jt2, j);
}

/// Whether `A::plus` adds entry by entry at one size, by the operation `sum_of`
/// of the scalars.
pub open spec fn plus_is_entrywise<R: Scalar, A: LinearAlgebra<R>, const M: usize, const N: usize>(
    sum_of: spec_fn(R, R) -> R,
) -> bool {
    forall|a: Matrix<R, M, N>, b: Matrix<R, M, N>, sum: Matrix<R, M, N>| #[trigger]
        adds::<R, A, M, N>(a, b, sum) ==> forall|i: int, j: int|
            0 <= i < M && 0 <= j < N ==> #[trigger] sum.at(i, j) == sum_of(a.at(i, j), b.at(i, j))
}

/// Whether `A::scale` scales entry by entry at one size, by the operation
/// `product_of` of the scalars.
pub open spec fn scale_is_entrywise<
    R: Scalar,
    A: LinearAlgebra<R>,
    const M: usize,
    const N: usize,
>(product_of: spec_fn(R, R) -> R) -> bool {
    forall|a: Matrix<R, M, N>, factor: R, scaled: Matrix<R, M, N>| #[trigger]
        scales::<R, A, M, N>(a, factor, scaled) ==> forall|i: int, j: int|
            0 <= i < M && 0 <= j < N ==> #[trigger] scaled.at(i, j) == product_of(
                a.at(i, j),
                factor,
            )
}

/// Whether an operation of the scalars gives the same result for its
/// arguments in either order.
pub open spec fn commutes<R>(sum_of: spec_fn(R, R) -> R) -> bool {
    forall|x: R, y: R| #[trigger] sum_of(x, y) == sum_of(y, x)
}

/// The covariance of the method `OptimalKalmanForcedSymmetric` is symmetric,
/// entry for entry, in any arithmetic that adds matrices entry by entry and
/// in either order, and that scales them entry by entry.
pub proof fn lemma_forced_symmetric_covariance_is_symmetric<
    R: Scalar,
    A: LinearAlgebra<R>,
    const SS: usize,
>(
    one_minus_kh: Matrix<R, SS, SS>,
    p: Matrix<R, SS, SS>,
    covariance: Matrix<R, SS, SS>,
    sum_of: spec_fn(R, R) -> R,
    product_of: spec_fn(R, R) -> R,
)
    requires
        plus_is_entrywise::<R, A, SS, SS>(sum_of),
        commutes(sum_of),
        scale_is_entrywise::<R, A, SS, SS>(product_of),
        symmetric_covariance::<R, A, SS>(one_minus_kh, p, covariance),
    ensures
        covariance.is_transpose_of(covariance),
{
    let (c, ct, sum) = choose|c: Matrix<R, SS, SS>, ct: Matrix<R, SS, SS>, sum: Matrix<R, SS, SS>|
        {
            &&& multiplies::<R, A, SS, SS, SS>(one_minus_kh, p, c)
            &&& ct.is_transpose_of(c)
            &&& #[trigger] adds::<R, A, SS, SS>(c, ct, sum)
            &&& scales::<R, A, SS, SS>(sum, R::half_value(), covariance)
        };
    assert forall|i: int, j: int| 0 <= i < SS && 0 <= j < SS implies #[trigger] covariance.at(
        i,
        j,
    ) == covariance.at(j, i) by {
        assert(sum.at(i, j) == sum_of(c.at(i, j), ct.at(i, j)));
        assert(sum.at(j, i) == sum_of(c.at(j, i), ct.at(j, i)));
        assert(ct.at(i, j) == c.at(j, i));
        assert(ct.at(j, i) == c.at(i, j));
        assert(sum_of(c.at(i, j), c.at(j, i)) == sum_of(c.at(j, i), c.at(i, j)));
        assert(covariance.at(i, j) == product_of(sum.at(i, j), R::half_value()));
        assert(covariance.at(j, i) == product_of(sum.at(j, i), R::half_value()));
    }
}

} // verus!
