//! The arithmetic of the filter.
//!
//! The filter adds, subtracts, multiplies, scales and inverts matrices, and
//! does none of it itself: it is written against the interface below. What an
//! operation returns is up to the implementor. The filter fixes what it
//! hands to each operation and what it does with each result, and its
//! contracts say so through the relations of this module, each of which
//! holds of the arguments of an operation and a result that the operation
//! may return for them.
//!
//! An arithmetic that computes each result from the arguments alone makes
//! each of these relations a function. The predicates at the end of the
//! module say so of one operation at one size, and the filter is then a
//! function too.
use crate::matrix::Matrix;
use crate::scalar::Scalar;
use vstd::prelude::*;

verus! {

/// Matrix arithmetic over the scalars `R`.
pub trait LinearAlgebra<R: Scalar> {
    /// The product `a b`.
    fn multiply<const M: usize, const K: usize, const N: usize>(
        a: &Matrix<R, M, K>,
        b: &Matrix<R, K, N>,
    ) -> Matrix<R, M, N>;

    /// The sum `a + b`.
    fn plus<const M: usize, const N: usize>(a: &Matrix<R, M, N>, b: &Matrix<R, M, N>) -> Matrix<
        R,
        M,
        N,
    >;

    /// The difference `a - b`.
    fn minus<const M: usize, const N: usize>(a: &Matrix<R, M, N>, b: &Matrix<R, M, N>) -> Matrix<
        R,
        M,
        N,
    >;

    /// The matrix `a` with every entry multiplied by `factor`.
    fn scale<const M: usize, const N: usize>(a: &Matrix<R, M, N>, factor: R) -> Matrix<R, M, N>;

    /// The inverse of a symmetric positive definite matrix, taken by way of
    /// its Cholesky factorization; `None` where the factorization fails.
    fn invert<const N: usize>(a: &Matrix<R, N, N>) -> Option<Matrix<R, N, N>>;
}

/// Whether `A::multiply` may return `product` for `a` and `b`.
pub open spec fn multiplies<
    R: Scalar,
    A: LinearAlgebra<R>,
    const M: usize,
    const K: usize,
    const N: usize,
>(a: Matrix<R, M, K>, b: Matrix<R, K, N>, product: Matrix<R, M, N>) -> bool {
    call_ensures(A::multiply::<M, K, N>, (&a, &b), product)
}

/// Whether `A::plus` may return `sum` for `a` and `b`.
pub open spec fn adds<R: Scalar, A: LinearAlgebra<R>, const M: usize, const N: usize>(
    a: Matrix<R, M, N>,
    b: Matrix<R, M, N>,
    sum: Matrix<R, M, N>,
) -> bool {
    call_ensures(A::plus::<M, N>, (&a, &b), sum)
}

/// Whether `A::minus` may return `difference` for `a` and `b`.
pub open spec fn subtracts<R: Scalar, A: LinearAlgebra<R>, const M: usize, const N: usize>(
    a: Matrix<R, M, N>,
    b: Matrix<R, M, N>,
    difference: Matrix<R, M, N>,
) -> bool {
    call_ensures(A::minus::<M, N>, (&a, &b), difference)
}

/// Whether `A::scale` may return `scaled` for `a` and `factor`.
pub open spec fn scales<R: Scalar, A: LinearAlgebra<R>, const M: usize, const N: usize>(
    a: Matrix<R, M, N>,
    factor: R,
    scaled: Matrix<R, M, N>,
) -> bool {
    call_ensures(A::scale::<M, N>, (&a, factor), scaled)
}

/// Whether `A::invert` may return `inverse` for `a`.
pub open spec fn inverts<R: Scalar, A: LinearAlgebra<R>, const N: usize>(
    a: Matrix<R, N, N>,
    inverse: Option<Matrix<R, N, N>>,
) -> bool {
    call_ensures(A::invert::<N>, (&a,), inverse)
}

/// Whether `A::multiply` is a function at one size: for given arguments it
/// has one result.
pub open spec fn multiply_determined<
    R: Scalar,
    A: LinearAlgebra<R>,
    const M: usize,
    const K: usize,
    const N: usize,
>() -> bool {
    forall|a: Matrix<R, M, K>, b: Matrix<R, K, N>, p1: Matrix<R, M, N>, p2: Matrix<R, M, N>|
        #![trigger multiplies::<R, A, M, K, N>(a, b, p1), multiplies::<R, A, M, K, N>(a, b, p2)]
        multiplies::<R, A, M, K, N>(a, b, p1) && multiplies::<R, A, M, K, N>(a, b, p2) ==> p1
            == p2
}

/// Whether `A::plus` is a function at one size.
pub open spec fn plus_determined<R: Scalar, A: LinearAlgebra<R>, const M: usize, const N: usize>() -> bool {
    forall|a: Matrix<R, M, N>, b: Matrix<R, M, N>, s1: Matrix<R, M, N>, s2: Matrix<R, M, N>|
        #![trigger adds::<R, A, M, N>(a, b, s1), adds::<R, A, M, N>(a, b, s2)]
        adds::<R, A, M, N>(a, b, s1) && adds::<R, A, M, N>(a, b, s2) ==> s1 == s2
}

/// Whether `A::minus` is a function at one size.
pub open spec fn minus_determined<R: Scalar, A: LinearAlgebra<R>, const M: usize, const N: usize>() -> bool {
    forall|a: Matrix<R, M, N>, b: Matrix<R, M, N>, d1: Matrix<R, M, N>, d2: Matrix<R, M, N>|
        #![trigger subtracts::<R, A, M, N>(a, b, d1), subtracts::<R, A, M, N>(a, b, d2)]
        subtracts::<R, A, M, N>(a, b, d1) && subtracts::<R, A, M, N>(a, b, d2) ==> d1 == d2
}

/// Whether `A::scale` is a function at one size.
pub open spec fn scale_determined<R: Scalar, A: LinearAlgebra<R>, const M: usize, const N: usize>() -> bool {
    forall|a: Matrix<R, M, N>, factor: R, s1: Matrix<R, M, N>, s2: Matrix<R, M, N>|
        #![trigger scales::<R, A, M, N>(a, factor, s1), scales::<R, A, M, N>(a, factor, s2)]
        scales::<R, A, M, N>(a, factor, s1) && scales::<R, A, M, N>(a, factor, s2) ==> s1 == s2
}

/// Whether `A::invert` is a function at one size.
pub open spec fn invert_determined<R: Scalar, A: LinearAlgebra<R>, const N: usize>() -> bool {
    forall|a: Matrix<R, N, N>, i1: Option<Matrix<R, N, N>>, i2: Option<Matrix<R, N, N>>|
        #![trigger inverts::<R, A, N>(a, i1), inverts::<R, A, N>(a, i2)]
        inverts::<R, A, N>(a, i1) && inverts::<R, A, N>(a, i2) ==> i1 == i2
}

} // verus!
