//! An estimate: a state and the uncertainty about it.
use crate::matrix::{Matrix, Vector};
use crate::scalar::Scalar;
use vstd::prelude::*;

verus! {

/// The mean of a state estimate and its covariance.
///
/// The covariance of an estimate is meant to be symmetric. Nothing here
/// enforces that: it is up to whoever builds the value.
#[derive(Debug, PartialEq)]
pub struct StateAndCovariance<R, const SS: usize> {
    pub state: Vector<R, SS>,
    pub covariance: Matrix<R, SS, SS>,
}

impl<R: Copy, const SS: usize> Copy for StateAndCovariance<R, SS> {

}

impl<R: Copy, const SS: usize> Clone for StateAndCovariance<R, SS> {
    fn clone(&self) -> (r: Self)
        ensures
            r == *self,
    {
        *self
    }
}

impl<R: Scalar, const SS: usize> StateAndCovariance<R, SS> {
    /// The estimate with the given mean and covariance.
    pub fn new(state: Vector<R, SS>, covariance: Matrix<R, SS, SS>) -> (r: Self)
        ensures
            r == (StateAndCovariance { state, covariance }),
    {
        StateAndCovariance { state, covariance }
    }

    /// The mean of the estimate.
    pub fn state(&self) -> (s: &Vector<R, SS>)
        ensures
            *s == self.state,
    {
        &self.state
    }

    /// The covariance of the estimate.
    pub fn covariance(&self) -> (c: &Matrix<R, SS, SS>)
        ensures
            *c == self.covariance,
    {
        &self.covariance
    }
}

} // verus!
