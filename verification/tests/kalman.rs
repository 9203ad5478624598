use adskalman::equations;
use adskalman::{
    Binary32, Binary64, CoverianceUpdateMethod, Error, ErrorKind, KalmanFilterNoControl,
    LinearAlgebra, LinearObservation, LinearTransition, Matrix, ObservationModelLinear,
    StateAndCovariance, TransitionModelLinearNoControl, Vector,
};
use approx::RelativeEq;
use nalgebra::linalg::Cholesky;
use nalgebra::SMatrix;

// Double precision arithmetic, done by nalgebra.

struct Doubles;

fn pack<const M: usize, const N: usize>(m: &SMatrix<f64, M, N>) -> Matrix<Binary64, M, N> {
    Matrix::new(core::array::from_fn(|i| {
        core::array::from_fn(|j| Binary64::from_bits(m[(i, j)].to_bits()))
    }))
}

fn unpack<const M: usize, const N: usize>(m: &Matrix<Binary64, M, N>) -> SMatrix<f64, M, N> {
    SMatrix::from_fn(|i, j| f64::from_bits(m.data[i][j].to_bits()))
}

impl LinearAlgebra<Binary64> for Doubles {
    fn multiply<const M: usize, const K: usize, const N: usize>(
        a: &Matrix<Binary64, M, K>,
        b: &Matrix<Binary64, K, N>,
    ) -> Matrix<Binary64, M, N> {
        pack(&(unpack(a) * unpack(b)))
    }

    fn plus<const M: usize, const N: usize>(
        a: &Matrix<Binary64, M, N>,
        b: &Matrix<Binary64, M, N>,
    ) -> Matrix<Binary64, M, N> {
        pack(&(unpack(a) + unpack(b)))
    }

    fn minus<const M: usize, const N: usize>(
        a: &Matrix<Binary64, M, N>,
        b: &Matrix<Binary64, M, N>,
    ) -> Matrix<Binary64, M, N> {
        pack(&(unpack(a) - unpack(b)))
    }

    fn scale<const M: usize, const N: usize>(
        a: &Matrix<Binary64, M, N>,
        factor: Binary64,
    ) -> Matrix<Binary64, M, N> {
        pack(&(unpack(a) * f64::from_bits(factor.to_bits())))
    }

    fn invert<const N: usize>(a: &Matrix<Binary64, N, N>) -> Option<Matrix<Binary64, N, N>> {
        Cholesky::new(unpack(a)).map(|chol| pack(&chol.inverse()))
    }
}

// Single precision arithmetic, done by nalgebra.

struct Singles;

fn pack32<const M: usize, const N: usize>(m: &SMatrix<f32, M, N>) -> Matrix<Binary32, M, N> {
    Matrix::new(core::array::from_fn(|i| {
        core::array::from_fn(|j| Binary32::from_bits(m[(i, j)].to_bits()))
    }))
}

fn unpack32<const M: usize, const N: usize>(m: &Matrix<Binary32, M, N>) -> SMatrix<f32, M, N> {
    SMatrix::from_fn(|i, j| f32::from_bits(m.data[i][j].to_bits()))
}

impl LinearAlgebra<Binary32> for Singles {
    fn multiply<const M: usize, const K: usize, const N: usize>(
        a: &Matrix<Binary32, M, K>,
        b: &Matrix<Binary32, K, N>,
    ) -> Matrix<Binary32, M, N> {
        pack32(&(unpack32(a) * unpack32(b)))
    }

    fn plus<const M: usize, const N: usize>(
        a: &Matrix<Binary32, M, N>,
        b: &Matrix<Binary32, M, N>,
    ) -> Matrix<Binary32, M, N> {
        pack32(&(unpack32(a) + unpack32(b)))
    }

    fn minus<const M: usize, const N: usize>(
        a: &Matrix<Binary32, M, N>,
        b: &Matrix<Binary32, M, N>,
    ) -> Matrix<Binary32, M, N> {
        pack32(&(unpack32(a) - unpack32(b)))
    }

    fn scale<const M: usize, const N: usize>(
        a: &Matrix<Binary32, M, N>,
        factor: Binary32,
    ) -> Matrix<Binary32, M, N> {
        pack32(&(unpack32(a) * f32::from_bits(factor.to_bits())))
    }

    fn invert<const N: usize>(a: &Matrix<Binary32, N, N>) -> Option<Matrix<Binary32, N, N>> {
        Cholesky::new(unpack32(a)).map(|chol| pack32(&chol.inverse()))
    }
}

// Values.

fn matrix<const M: usize, const N: usize>(rows: [[f64; N]; M]) -> Matrix<Binary64, M, N> {
    pack(&SMatrix::<f64, M, N>::from_fn(|i, j| rows[i][j]))
}

fn rows<const M: usize, const N: usize>(m: &Matrix<Binary64, M, N>) -> [[f64; N]; M] {
    core::array::from_fn(|i| core::array::from_fn(|j| f64::from_bits(m.data[i][j].to_bits())))
}

fn vector<const N: usize>(components: [f64; N]) -> Vector<Binary64, N> {
    pack(&SMatrix::<f64, N, 1>::from_fn(|i, _| components[i]))
}

fn components<const N: usize>(v: &Vector<Binary64, N>) -> [f64; N] {
    core::array::from_fn(|i| f64::from_bits(v.data[i][0].to_bits()))
}

fn estimate<const SS: usize>(
    state: [f64; SS],
    covariance: [[f64; SS]; SS],
) -> StateAndCovariance<Binary64, SS> {
    StateAndCovariance::new(vector(state), matrix(covariance))
}

const METHODS: [CoverianceUpdateMethod; 3] = [
    CoverianceUpdateMethod::OptimalKalman,
    CoverianceUpdateMethod::OptimalKalmanForcedSymmetric,
    CoverianceUpdateMethod::JosephForm,
];

// Models.

type Motion<const SS: usize> = LinearTransition<Binary64, Doubles, SS>;

type Sensor<const SS: usize, const OS: usize> = LinearObservation<Binary64, Doubles, SS, OS>;

/// A random walk on a line: `F = 1`, `Q = q`.
fn walk(q: f64) -> Motion<1> {
    LinearTransition::new(matrix([[1.0]]), matrix([[q]]))
}

/// A sensor that sees the position of a walk: `H = 1`, `R = r`.
fn gauge(r: f64) -> Sensor<1, 1> {
    LinearObservation::new(matrix([[1.0]]), matrix([[r]]))
}

/// Position and velocity on a line; the velocity is constant but for noise.
fn constant_velocity(dt: f64, noise_scale: f64) -> Motion<2> {
    let t33 = dt * dt * dt / 3.0;
    let t22 = dt * dt / 2.0;
    LinearTransition::new(
        matrix([[1.0, dt], [0.0, 1.0]]),
        matrix([[t33 * noise_scale, t22 * noise_scale], [t22 * noise_scale, dt * noise_scale]]),
    )
}

/// A sensor that sees the position, with the given variance.
fn position_sensor(variance: f64) -> Sensor<2, 1> {
    LinearObservation::new(matrix([[1.0, 0.0]]), matrix([[variance]]))
}

/// A sensor that sees position and velocity.
fn full_sensor(variance: f64) -> Sensor<2, 2> {
    LinearObservation::new(
        matrix([[1.0, 0.0], [0.0, 1.0]]),
        matrix([[variance, 0.0], [0.0, variance]]),
    )
}

fn is_symmetric<const N: usize>(m: &Matrix<Binary64, N, N>) -> bool {
    let m = unpack(m);
    m.relative_eq(&m.transpose(), f64::EPSILON, 1e-5)
}

fn not_positive_definite() -> Error {
    Error::from(ErrorKind::CovarianceNotPositiveSemiDefinite)
}

// The models.

#[test]
fn linear_transition_holds_its_matrices() {
    let model = constant_velocity(0.5, 2.0);
    assert_eq!(rows(model.transition_model()), [[1.0, 0.5], [0.0, 1.0]]);
    assert_eq!(rows(model.transition_model_transpose()), [[1.0, 0.0], [0.5, 1.0]]);
    assert_eq!(
        rows(model.transition_noise_covariance()),
        [[0.125 / 3.0 * 2.0, 0.25], [0.25, 1.0]]
    );
}

#[test]
fn linear_observation_holds_its_matrices() {
    let model = position_sensor(0.25);
    assert_eq!(rows(model.observation_matrix()), [[1.0, 0.0]]);
    assert_eq!(rows(model.observation_matrix_transpose()), [[1.0], [0.0]]);
    assert_eq!(rows(model.observation_noise_covariance()), [[0.25]]);
}

#[test]
fn linear_observation_expects_h_times_the_state() {
    let model: Sensor<2, 2> = LinearObservation::new(
        matrix([[1.0, 2.0], [0.0, -1.0]]),
        matrix([[1.0, 0.0], [0.0, 1.0]]),
    );
    assert_eq!(components(&model.evaluate(&vector([3.0, 0.5]))), [4.0, -0.5]);
}

// Prediction.

#[test]
fn predict_is_f_x_and_f_p_ft_plus_q() {
    let model = constant_velocity(0.5, 2.0);
    let previous = estimate([1.0, 4.0], [[1.0, 0.25], [0.25, 2.0]]);
    let prediction = model.predict(&previous);
    assert_eq!(components(prediction.state()), [3.0, 4.0]);
    assert_eq!(
        rows(prediction.covariance()),
        [[1.75 + 0.125 / 3.0 * 2.0, 1.25 + 0.25], [1.25 + 0.25, 3.0]]
    );
}

#[test]
fn predict_of_the_equations_is_the_predict_of_the_model() {
    let model = constant_velocity(0.25, 1.0);
    let previous = estimate([-2.0, 0.5], [[3.0, 1.0], [1.0, 2.0]]);
    let by_equations = equations::predict::<Binary64, Doubles, 2>(
        model.transition_model(),
        model.transition_model_transpose(),
        model.transition_noise_covariance(),
        &previous,
    );
    assert_eq!(by_equations, model.predict(&previous));
}

#[test]
fn predict_multiplies_by_the_transpose_that_the_model_supplies() {
    // F is not symmetric, so F P F differs from F P F^T.
    let model: Motion<2> =
        LinearTransition::new(matrix([[1.0, 1.0], [0.0, 1.0]]), matrix([[0.0, 0.0], [0.0, 0.0]]));
    let previous = estimate([0.0, 0.0], [[1.0, 0.0], [0.0, 1.0]]);
    let prediction = model.predict(&previous);
    assert_eq!(rows(prediction.covariance()), [[2.0, 1.0], [1.0, 1.0]]);
}

// Update.

#[test]
fn update_in_one_dimension() {
    // P = 2, R = 2: S = 4, K = 1/2, x' = 0 + (3 - 0) / 2, P' = 1.
    let sensor = gauge(2.0);
    let prior = estimate([0.0], [[2.0]]);
    for method in METHODS {
        let posterior = sensor.update(&prior, &vector([3.0]), method).unwrap();
        assert_eq!(components(posterior.state()), [1.5]);
        assert_eq!(rows(posterior.covariance()), [[1.0]]);
    }
}

#[test]
fn update_in_one_dimension_with_a_gain_of_three_quarters() {
    // P = 3, R = 1: S = 4, K = 3/4, x' = 1 + 3/4 (5 - 1) = 4.
    // I - K H = 1/4: the optimal covariance is 3/4, and the Joseph form
    // 1/4 * 3 * 1/4 + 3/4 * 1 * 3/4 = 3/16 + 9/16.
    let sensor = gauge(1.0);
    let prior = estimate([1.0], [[3.0]]);
    for method in METHODS {
        let posterior = sensor.update(&prior, &vector([5.0]), method).unwrap();
        assert_eq!(components(posterior.state()), [4.0]);
        assert_eq!(rows(posterior.covariance()), [[0.75]]);
    }
}

#[test]
fn update_subtracts_what_the_model_expects() {
    // H = 2: the model expects 2 x. P = 1, R = 4: S = 8, K = 1/4,
    // x' = 3 + (10 - 6) / 4.
    let sensor: Sensor<1, 1> = LinearObservation::new(matrix([[2.0]]), matrix([[4.0]]));
    let prior = estimate([3.0], [[1.0]]);
    let posterior =
        sensor.update(&prior, &vector([10.0]), CoverianceUpdateMethod::OptimalKalman).unwrap();
    assert_eq!(components(posterior.state()), [4.0]);
    assert_eq!(rows(posterior.covariance()), [[0.5]]);
}

#[test]
fn update_of_the_equations_is_the_update_of_the_model() {
    let sensor = position_sensor(0.5);
    let prior = estimate([1.0, -1.0], [[2.0, 0.5], [0.5, 1.0]]);
    let observation = vector([1.75]);
    for method in METHODS {
        let by_equations = equations::update::<Binary64, Doubles, 2, 1>(
            sensor.observation_matrix(),
            sensor.observation_matrix_transpose(),
            sensor.observation_noise_covariance(),
            &sensor.evaluate(prior.state()),
            &prior,
            &observation,
            method,
        );
        assert_eq!(by_equations, sensor.update(&prior, &observation, method));
    }
}

#[test]
fn update_moves_the_unobserved_component_by_its_covariance() {
    // P = [[2, 1], [1, 2]], H = [1, 0], R = 2: S = 4, K = [1/2, 1/4].
    let sensor = position_sensor(2.0);
    let prior = estimate([0.0, 0.0], [[2.0, 1.0], [1.0, 2.0]]);
    let posterior =
        sensor.update(&prior, &vector([4.0]), CoverianceUpdateMethod::OptimalKalman).unwrap();
    assert_eq!(components(posterior.state()), [2.0, 1.0]);
    assert_eq!(rows(posterior.covariance()), [[1.0, 0.5], [0.5, 1.75]]);
}

#[test]
fn update_methods_agree_on_the_state() {
    let sensor = position_sensor(0.3);
    let prior = estimate([0.1, -0.7], [[1.3, 0.2], [0.2, 0.9]]);
    let observation = vector([0.45]);
    let optimal =
        sensor.update(&prior, &observation, CoverianceUpdateMethod::OptimalKalman).unwrap();
    for method in METHODS {
        let posterior = sensor.update(&prior, &observation, method).unwrap();
        assert_eq!(posterior.state(), optimal.state());
        assert!(unpack(posterior.covariance()).relative_eq(
            &unpack(optimal.covariance()),
            f64::EPSILON,
            1e-9
        ));
    }
}

#[test]
fn forced_symmetric_and_joseph_covariances_are_symmetric() {
    let motion = constant_velocity(0.1, 0.37);
    let sensor = position_sensor(0.21);
    let filter = KalmanFilterNoControl::new(&motion, &sensor);
    for method in [
        CoverianceUpdateMethod::OptimalKalmanForcedSymmetric,
        CoverianceUpdateMethod::JosephForm,
    ] {
        let mut current = estimate([0.3, 1.7], [[10.0, 0.3], [0.3, 7.0]]);
        for step in 0..40 {
            let observation = vector([0.17 * step as f64 + 0.05 * ((step * 7) % 5) as f64]);
            current = filter.step_with_options(&current, &observation, method).unwrap();
            assert!(is_symmetric(current.covariance()));
        }
    }
}

#[test]
fn forced_symmetric_covariance_is_the_mean_of_the_optimal_one_and_its_transpose() {
    let sensor = full_sensor(0.7);
    let prior = estimate([0.3, 1.7], [[1.1, 0.3], [0.3, 0.7]]);
    let observation = vector([0.2, 1.9]);
    let optimal =
        sensor.update(&prior, &observation, CoverianceUpdateMethod::OptimalKalman).unwrap();
    let forced = sensor
        .update(&prior, &observation, CoverianceUpdateMethod::OptimalKalmanForcedSymmetric)
        .unwrap();
    let c = unpack(optimal.covariance());
    assert_eq!(unpack(forced.covariance()), (c + c.transpose()) * 0.5);
    let forced = rows(forced.covariance());
    assert_eq!(forced[0][1], forced[1][0]);
}

#[test]
fn update_fails_where_the_innovation_covariance_is_zero() {
    let sensor = position_sensor(0.0);
    let prior = estimate([0.0, 1.0], [[0.0, 0.0], [0.0, 0.0]]);
    for method in METHODS {
        let failure = sensor.update(&prior, &vector([1.0]), method).unwrap_err();
        assert_eq!(failure.kind(), ErrorKind::CovarianceNotPositiveSemiDefinite);
        assert_eq!(failure, not_positive_definite());
    }
}

#[test]
fn update_fails_where_the_observation_matrix_is_singular_and_there_is_no_noise() {
    // H = 0 and R = 0: S = 0 whatever the prior covariance.
    let sensor: Sensor<2, 2> = LinearObservation::new(
        matrix([[0.0, 0.0], [0.0, 0.0]]),
        matrix([[0.0, 0.0], [0.0, 0.0]]),
    );
    let prior = estimate([0.0, 1.0], [[1.0, 0.0], [0.0, 1.0]]);
    let failure = sensor
        .update(&prior, &vector([1.0, 1.0]), CoverianceUpdateMethod::JosephForm)
        .unwrap_err();
    assert_eq!(failure.kind(), ErrorKind::CovarianceNotPositiveSemiDefinite);
}

#[test]
fn update_fails_where_the_innovation_covariance_is_indefinite() {
    let sensor: Sensor<2, 2> = LinearObservation::new(
        matrix([[1.0, 0.0], [0.0, 1.0]]),
        matrix([[0.0, 0.0], [0.0, 0.0]]),
    );
    let prior = estimate([0.0, 0.0], [[1.0, 2.0], [2.0, 1.0]]);
    assert_eq!(
        sensor.update(&prior, &vector([1.0, 1.0]), CoverianceUpdateMethod::OptimalKalman),
        Err(not_positive_definite())
    );
}

#[test]
fn update_in_single_precision() {
    let sensor: LinearObservation<Binary32, Singles, 1, 1> = LinearObservation::new(
        pack32(&SMatrix::<f32, 1, 1>::new(1.0)),
        pack32(&SMatrix::<f32, 1, 1>::new(2.0)),
    );
    let prior = StateAndCovariance::new(
        pack32(&SMatrix::<f32, 1, 1>::new(0.0)),
        pack32(&SMatrix::<f32, 1, 1>::new(2.0)),
    );
    let observation = pack32(&SMatrix::<f32, 1, 1>::new(3.0));
    for method in METHODS {
        let posterior = sensor.update(&prior, &observation, method).unwrap();
        assert_eq!(unpack32(posterior.state())[(0, 0)], 1.5);
        assert_eq!(unpack32(posterior.covariance())[(0, 0)], 1.0);
    }
}

// One step.

#[test]
fn step_predicts_and_updates() {
    // P = 1, Q = 1: the prior has P = 2. R = 2: see update_in_one_dimension.
    let motion = walk(1.0);
    let sensor = gauge(2.0);
    let filter = KalmanFilterNoControl::new(&motion, &sensor);
    let posterior = filter.step(&estimate([0.0], [[1.0]]), &vector([3.0])).unwrap();
    assert_eq!(components(posterior.state()), [1.5]);
    assert_eq!(rows(posterior.covariance()), [[1.0]]);
}

#[test]
fn step_is_the_step_with_the_forced_symmetric_method() {
    let motion = constant_velocity(0.3, 0.11);
    let sensor = position_sensor(0.27);
    let filter = KalmanFilterNoControl::new(&motion, &sensor);
    let previous = estimate([0.3, 1.7], [[1.1, 0.3], [0.3, 0.7]]);
    let observation = vector([0.9]);
    assert_eq!(
        filter.step(&previous, &observation),
        filter.step_with_options(
            &previous,
            &observation,
            CoverianceUpdateMethod::OptimalKalmanForcedSymmetric
        )
    );
}

#[test]
fn step_is_predict_then_update() {
    let motion = constant_velocity(0.3, 0.11);
    let sensor = position_sensor(0.27);
    let filter = KalmanFilterNoControl::new(&motion, &sensor);
    let previous = estimate([0.3, 1.7], [[1.1, 0.3], [0.3, 0.7]]);
    let observation = vector([0.9]);
    for method in METHODS {
        assert_eq!(
            filter.step_with_options(&previous, &observation, method),
            sensor.update(&motion.predict(&previous), &observation, method)
        );
    }
}

#[test]
fn step_with_a_missing_observation_returns_the_prediction() {
    let motion = constant_velocity(1.0, 0.1);
    let sensor = position_sensor(0.5);
    let filter = KalmanFilterNoControl::new(&motion, &sensor);
    let previous = estimate([0.0, 1.0], [[1.0, 0.0], [0.0, 1.0]]);
    assert_eq!(filter.step(&previous, &vector([f64::NAN])), Ok(motion.predict(&previous)));
    for method in METHODS {
        assert_eq!(
            filter.step_with_options(&previous, &vector([f64::NAN]), method),
            Ok(motion.predict(&previous))
        );
    }
}

#[test]
fn one_nan_component_makes_an_observation_missing() {
    let motion = constant_velocity(1.0, 0.1);
    let sensor = full_sensor(0.5);
    let filter = KalmanFilterNoControl::new(&motion, &sensor);
    let previous = estimate([0.0, 1.0], [[1.0, 0.0], [0.0, 1.0]]);
    let prediction = motion.predict(&previous);
    assert_eq!(filter.step(&previous, &vector([f64::NAN, 2.0])), Ok(prediction));
    assert_eq!(filter.step(&previous, &vector([2.0, f64::NAN])), Ok(prediction));
    assert_eq!(filter.step(&previous, &vector([f64::NAN, f64::NAN])), Ok(prediction));
    assert_ne!(filter.step(&previous, &vector([2.0, 2.0])), Ok(prediction));
}

#[test]
fn an_infinite_observation_is_not_missing() {
    let motion = walk(1.0);
    let sensor = gauge(2.0);
    let filter = KalmanFilterNoControl::new(&motion, &sensor);
    let previous = estimate([0.0], [[1.0]]);
    let posterior = filter.step(&previous, &vector([f64::INFINITY])).unwrap();
    assert_eq!(components(posterior.state()), [f64::INFINITY]);
}

#[test]
fn a_missing_observation_cannot_fail() {
    // Any update would fail here, for want of noise.
    let motion = walk(0.0);
    let sensor = gauge(0.0);
    let filter = KalmanFilterNoControl::new(&motion, &sensor);
    let previous = estimate([1.0], [[0.0]]);
    assert_eq!(filter.step(&previous, &vector([f64::NAN])), Ok(previous));
    assert_eq!(filter.step(&previous, &vector([1.0])), Err(not_positive_definite()));
}

// A time series.

fn observations_of_a_walk() -> Vec<Vector<Binary64, 1>> {
    [3.0, 1.0, f64::NAN, 2.5, 2.0].iter().map(|z| vector([*z])).collect()
}

#[test]
fn filter_returns_one_estimate_for_each_observation() {
    let motion = walk(1.0);
    let sensor = gauge(2.0);
    let filter = KalmanFilterNoControl::new(&motion, &sensor);
    let initial = estimate([0.0], [[1.0]]);
    for n in 0..=5 {
        let observations = &observations_of_a_walk()[..n];
        assert_eq!(filter.filter(&initial, observations).unwrap().len(), n);
    }
}

#[test]
fn filter_steps_from_each_posterior_to_the_next() {
    let motion = walk(1.0);
    let sensor = gauge(2.0);
    let filter = KalmanFilterNoControl::new(&motion, &sensor);
    let initial = estimate([0.0], [[1.0]]);
    let observations = observations_of_a_walk();
    let estimates = filter.filter(&initial, &observations).unwrap();
    let mut previous = initial;
    for (observation, estimate) in observations.iter().zip(estimates.iter()) {
        assert_eq!(filter.step(&previous, observation), Ok(*estimate));
        previous = *estimate;
    }
}

#[test]
fn filter_of_a_walk() {
    // Step 1: P 1 -> 2, K = 1/2, x = 1.5, P = 1.
    // Step 2: P 1 -> 2, K = 1/2, x = 1.5 + (1 - 1.5) / 2 = 1.25, P = 1.
    // Step 3: missing, x = 1.25, P = 2.
    // Step 4: P 2 -> 3, S = 5.
    let motion = walk(1.0);
    let sensor = gauge(2.0);
    let filter = KalmanFilterNoControl::new(&motion, &sensor);
    let estimates =
        filter.filter(&estimate([0.0], [[1.0]]), &observations_of_a_walk()).unwrap();
    assert_eq!(estimates[0], estimate([1.5], [[1.0]]));
    assert_eq!(estimates[1], estimate([1.25], [[1.0]]));
    assert_eq!(estimates[2], estimate([1.25], [[2.0]]));
    let k = 3.0 * (1.0 / 5.0);
    assert_eq!(components(estimates[3].state()), [1.25 + k * (2.5 - 1.25)]);
}

#[test]
fn filter_without_observations_returns_nothing() {
    let motion = walk(1.0);
    let sensor = gauge(2.0);
    let filter = KalmanFilterNoControl::new(&motion, &sensor);
    assert_eq!(filter.filter(&estimate([0.0], [[1.0]]), &[]), Ok(vec![]));
}

#[test]
fn filter_inplace_writes_what_filter_returns() {
    let motion = constant_velocity(0.5, 0.2);
    let sensor = position_sensor(0.4);
    let filter = KalmanFilterNoControl::new(&motion, &sensor);
    let initial = estimate([0.0, 0.0], [[4.0, 0.0], [0.0, 4.0]]);
    let observations: Vec<_> = [0.4, 1.1, f64::NAN, 2.2].iter().map(|z| vector([*z])).collect();
    let marker = estimate([-7.0, -7.0], [[7.0, 0.0], [0.0, 7.0]]);
    let mut buffer = vec![marker; 4];
    assert_eq!(filter.filter_inplace(&initial, &observations, &mut buffer), Ok(()));
    assert_eq!(Ok(buffer), filter.filter(&initial, &observations));
}

#[test]
fn filter_inplace_leaves_the_rest_of_a_longer_buffer() {
    let motion = walk(1.0);
    let sensor = gauge(2.0);
    let filter = KalmanFilterNoControl::new(&motion, &sensor);
    let initial = estimate([0.0], [[1.0]]);
    let observations = observations_of_a_walk();
    let marker = estimate([-7.0], [[7.0]]);
    let mut buffer = vec![marker; 8];
    assert_eq!(filter.filter_inplace(&initial, &observations[..2], &mut buffer), Ok(()));
    assert_eq!(buffer[0], estimate([1.5], [[1.0]]));
    assert_eq!(buffer[1], estimate([1.25], [[1.0]]));
    assert!(buffer[2..].iter().all(|slot| *slot == marker));
}

/// Two observations that are missing, then one that makes the update fail
/// for want of any noise, then one more.
fn observations_that_fail_at_the_third() -> Vec<Vector<Binary64, 1>> {
    [f64::NAN, f64::NAN, 1.0, 2.0].iter().map(|z| vector([*z])).collect()
}

#[test]
fn filter_inplace_stops_at_the_first_failure() {
    let motion = walk(0.0);
    let sensor = gauge(0.0);
    let filter = KalmanFilterNoControl::new(&motion, &sensor);
    let initial = estimate([5.0], [[0.0]]);
    let marker = estimate([-7.0], [[7.0]]);
    let mut buffer = vec![marker; 6];
    let outcome =
        filter.filter_inplace(&initial, &observations_that_fail_at_the_third(), &mut buffer);
    assert_eq!(outcome, Err(not_positive_definite()));
    assert_eq!(buffer[0], initial);
    assert_eq!(buffer[1], initial);
    assert!(buffer[2..].iter().all(|slot| *slot == marker));
}

#[test]
fn filter_returns_the_first_failure_and_nothing_else() {
    let motion = walk(0.0);
    let sensor = gauge(0.0);
    let filter = KalmanFilterNoControl::new(&motion, &sensor);
    let initial = estimate([5.0], [[0.0]]);
    let outcome = filter.filter(&initial, &observations_that_fail_at_the_third());
    assert_eq!(outcome.unwrap_err().kind(), ErrorKind::CovarianceNotPositiveSemiDefinite);
    assert_eq!(
        filter.filter(&initial, &observations_that_fail_at_the_third()[..2]),
        Ok(vec![initial, initial])
    );
}

// Smoothing.

#[test]
fn smooth_step_in_one_dimension() {
    // From the filtered x = 1.5, P = 1 the prediction is x = 1.5, P = 2, and
    // J = 1 (1 / 2). With the future x = 3.5, P = 1 the smoothed estimate is
    // x = 1.5 + (3.5 - 1.5) / 2 and P = 1 + ((1 - 2) / 2) / 2.
    let motion = walk(1.0);
    let sensor = gauge(2.0);
    let filter = KalmanFilterNoControl::new(&motion, &sensor);
    let forward = vec![estimate([1.5], [[1.0]]), estimate([3.5], [[1.0]])];
    let smoothed = filter.smooth_from_filtered(forward).unwrap();
    assert_eq!(smoothed, vec![estimate([2.5], [[0.75]]), estimate([3.5], [[1.0]])]);
}

#[test]
fn smooth_of_the_equations_in_one_dimension() {
    let outcome = equations::smooth::<Binary64, Doubles, 1>(
        &matrix([[1.0]]),
        &estimate([3.5], [[1.0]]),
        &estimate([1.5], [[1.0]]),
        &estimate([1.5], [[2.0]]),
    );
    assert_eq!(outcome, Ok(estimate([2.5], [[0.75]])));
}

#[test]
fn smooth_step_multiplies_by_the_transpose_of_the_transition_model() {
    // F = [[1, 1], [0, 1]], Q = 0, the filtered and the future covariance
    // are the identity. The prediction has P = F F^T = [[2, 1], [1, 1]],
    // whose inverse is [[1, -1], [-1, 2]], and J = F^T P^-1 = [[1, -1], [0, 1]].
    let motion: Motion<2> =
        LinearTransition::new(matrix([[1.0, 1.0], [0.0, 1.0]]), matrix([[0.0, 0.0], [0.0, 0.0]]));
    let sensor = position_sensor(1.0);
    let filter = KalmanFilterNoControl::new(&motion, &sensor);
    let filt = estimate([1.0, 2.0], [[1.0, 0.0], [0.0, 1.0]]);
    let future = estimate([5.0, 3.0], [[1.0, 0.0], [0.0, 1.0]]);
    let smoothed = filter.smooth_from_filtered(vec![filt, future]).unwrap();
    // The prior state is F x = [3, 2]; the residual is [2, 1].
    let state = components(smoothed[0].state());
    assert!((state[0] - 2.0).abs() < 1e-12);
    assert!((state[1] - 3.0).abs() < 1e-12);
    assert_eq!(smoothed[1], future);
}

#[test]
fn smooth_from_filtered_keeps_the_last_estimate() {
    let motion = constant_velocity(0.5, 0.2);
    let sensor = position_sensor(0.4);
    let filter = KalmanFilterNoControl::new(&motion, &sensor);
    let initial = estimate([0.0, 0.0], [[4.0, 0.0], [0.0, 4.0]]);
    let observations: Vec<_> =
        [0.4, 1.1, f64::NAN, 2.2, 2.4, 3.3].iter().map(|z| vector([*z])).collect();
    for n in 1..=observations.len() {
        let forward = filter.filter(&initial, &observations[..n]).unwrap();
        let smoothed = filter.smooth_from_filtered(forward.clone()).unwrap();
        assert_eq!(smoothed.len(), forward.len());
        assert_eq!(smoothed[n - 1], forward[n - 1]);
    }
}

#[test]
fn smooth_from_filtered_revises_the_earlier_estimates() {
    let motion = constant_velocity(0.5, 0.2);
    let sensor = position_sensor(0.4);
    let filter = KalmanFilterNoControl::new(&motion, &sensor);
    let initial = estimate([0.0, 0.0], [[4.0, 0.0], [0.0, 4.0]]);
    let observations: Vec<_> = [0.4, 1.1, 1.4, 2.2].iter().map(|z| vector([*z])).collect();
    let forward = filter.filter(&initial, &observations).unwrap();
    let smoothed = filter.smooth_from_filtered(forward.clone()).unwrap();
    for i in 0..3 {
        assert_ne!(smoothed[i], forward[i]);
    }
}

#[test]
fn smooth_from_filtered_of_a_short_series() {
    let motion = walk(1.0);
    let sensor = gauge(2.0);
    let filter = KalmanFilterNoControl::new(&motion, &sensor);
    assert_eq!(filter.smooth_from_filtered(vec![]), Ok(vec![]));
    let only = estimate([1.5], [[1.0]]);
    assert_eq!(filter.smooth_from_filtered(vec![only]), Ok(vec![only]));
}

#[test]
fn smooth_from_filtered_fails_where_the_prior_covariance_is_zero() {
    let motion = walk(0.0);
    let sensor = gauge(1.0);
    let filter = KalmanFilterNoControl::new(&motion, &sensor);
    let forward = vec![estimate([1.0], [[0.0]]), estimate([1.0], [[0.0]])];
    let failure = filter.smooth_from_filtered(forward).unwrap_err();
    assert_eq!(failure.kind(), ErrorKind::CovarianceNotPositiveSemiDefinite);
}

#[test]
fn smooth_from_filtered_fails_at_the_first_backward_step_that_fails() {
    // The last backward step to run, at the first estimate, is the one
    // that fails; the ones before it succeed.
    let motion = walk(0.0);
    let sensor = gauge(1.0);
    let filter = KalmanFilterNoControl::new(&motion, &sensor);
    let sound = estimate([1.0], [[1.0]]);
    let flat = estimate([1.0], [[0.0]]);
    assert!(filter.smooth_from_filtered(vec![sound, sound, sound]).is_ok());
    assert_eq!(
        filter.smooth_from_filtered(vec![flat, sound, sound]),
        Err(not_positive_definite())
    );
}

#[test]
fn smooth_is_filter_then_smooth_from_filtered() {
    let motion = constant_velocity(0.5, 0.2);
    let sensor = position_sensor(0.4);
    let filter = KalmanFilterNoControl::new(&motion, &sensor);
    let initial = estimate([0.0, 0.0], [[4.0, 0.0], [0.0, 4.0]]);
    let observations: Vec<_> =
        [0.4, 1.1, f64::NAN, 2.2, 2.4, 3.3].iter().map(|z| vector([*z])).collect();
    let forward = filter.filter(&initial, &observations).unwrap();
    let smoothed = filter.smooth(&initial, &observations).unwrap();
    assert_eq!(smoothed.len(), forward.len());
    assert_eq!(Ok(smoothed), filter.smooth_from_filtered(forward));
}

#[test]
fn smooth_returns_the_failure_of_the_filter() {
    let motion = walk(0.0);
    let sensor = gauge(0.0);
    let filter = KalmanFilterNoControl::new(&motion, &sensor);
    let initial = estimate([5.0], [[0.0]]);
    assert_eq!(
        filter.smooth(&initial, &observations_that_fail_at_the_third()),
        Err(not_positive_definite())
    );
}

#[test]
fn smooth_without_observations_returns_nothing() {
    let motion = walk(1.0);
    let sensor = gauge(2.0);
    let filter = KalmanFilterNoControl::new(&motion, &sensor);
    assert_eq!(filter.smooth(&estimate([0.0], [[1.0]]), &[]), Ok(vec![]));
}

// A model of the caller's.

/// A walk whose prediction is the caller's own: it doubles the state.
struct Doubling {
    one: Matrix<Binary64, 1, 1>,
}

impl TransitionModelLinearNoControl<Binary64, 1> for Doubling {
    type Algebra = Doubles;

    fn transition_model(&self) -> &Matrix<Binary64, 1, 1> {
        &self.one
    }

    fn transition_model_transpose(&self) -> &Matrix<Binary64, 1, 1> {
        &self.one
    }

    fn transition_noise_covariance(&self) -> &Matrix<Binary64, 1, 1> {
        &self.one
    }

    fn predict(&self, previous: &StateAndCovariance<Binary64, 1>) -> StateAndCovariance<Binary64, 1> {
        let state = unpack(previous.state()) * 2.0;
        StateAndCovariance::new(pack(&state), *previous.covariance())
    }
}

#[test]
fn the_filter_predicts_as_the_model_does() {
    let motion = Doubling { one: matrix([[1.0]]) };
    let sensor = gauge(1.0);
    let filter = KalmanFilterNoControl::new(&motion, &sensor);
    let previous = estimate([1.5], [[1.0]]);
    assert_eq!(filter.step(&previous, &vector([f64::NAN])), Ok(estimate([3.0], [[1.0]])));
}

// A track.

#[test]
fn a_tracked_position_becomes_more_certain_and_smoothing_adds_to_it() {
    let dt = 1.0;
    let motion = constant_velocity(dt, 0.01);
    let sensor = position_sensor(4.0);
    let filter = KalmanFilterNoControl::new(&motion, &sensor);

    // A true trajectory of constant velocity, seen through a noise that is
    // the same in every run.
    let mut seed: u64 = 0x2545_f491_4f6c_dd1d;
    let mut noise = move || {
        seed = seed.wrapping_mul(6364136223846793005).wrapping_add(1442695040888963407);
        ((seed >> 11) as f64 / (1u64 << 53) as f64 - 0.5) * 4.0
    };
    let truth: Vec<f64> = (0..50).map(|t| 3.0 + 0.7 * dt * t as f64).collect();
    let observations: Vec<_> = truth.iter().map(|position| vector([position + noise()])).collect();

    let initial = estimate([0.0, 0.0], [[100.0, 0.0], [0.0, 100.0]]);
    let forward = filter.filter(&initial, &observations).unwrap();
    let smoothed = filter.smooth(&initial, &observations).unwrap();
    assert_eq!(forward.len(), 50);
    assert_eq!(smoothed.len(), 50);

    let variance = |e: &StateAndCovariance<Binary64, 2>| rows(e.covariance())[0][0];
    for t in 1..50 {
        assert!(variance(&forward[t]) <= variance(&forward[t - 1]));
    }
    for t in 0..50 {
        assert!(variance(&smoothed[t]) <= variance(&forward[t]) * (1.0 + 1e-9));
        assert!(is_symmetric(smoothed[t].covariance()));
    }
    assert!(variance(&smoothed[10]) < variance(&forward[10]));
    assert_eq!(smoothed[49], forward[49]);

    let last = components(forward[49].state());
    assert!((last[0] - truth[49]).abs() < 3.0);
    assert!((last[1] - 0.7).abs() < 0.3);
}
