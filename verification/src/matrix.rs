//! Matrices of a size fixed at compile time, and what can be done to them
//! without arithmetic.
use crate::scalar::Scalar;
use vstd::array::array_fill_for_copy_types;
use vstd::prelude::*;

verus! {

/// A matrix of `ROWS` rows and `COLS` columns, held row by row.
#[derive(Debug, PartialEq)]
pub struct Matrix<R, const ROWS: usize, const COLS: usize> {
    pub data: [[R; COLS]; ROWS],
}

/// A column vector of `N` components: a matrix of one column.
pub type Vector<R, const N: usize> = Matrix<R, N, 1>;

impl<R: Copy, const ROWS: usize, const COLS: usize> Copy for Matrix<R, ROWS, COLS> {

}

impl<R: Copy, const ROWS: usize, const COLS: usize> Clone for Matrix<R, ROWS, COLS> {
    fn clone(&self) -> (r: Self)
        ensures
            r == *self,
    {
        *self
    }
}

impl<R: Scalar, const ROWS: usize, const COLS: usize> Matrix<R, ROWS, COLS> {
    /// The entry in row `i` and column `j`.
    pub open spec fn at(self, i: int, j: int) -> R {
        self.data@[i]@[j]
    }

    /// Whether some entry is a NaN.
    pub open spec fn has_nan(self) -> bool {
        exists|i: int, j: int| 0 <= i < ROWS && 0 <= j < COLS && (#[trigger] self.at(i, j)).nan()
    }

    /// Whether `self` is the transpose of `other`: the entry of `self` in row
    /// `i` and column `j` is the entry of `other` in row `j` and column `i`.
    pub open spec fn is_transpose_of(self, other: Matrix<R, COLS, ROWS>) -> bool {
        forall|i: int, j: int|
            0 <= i < ROWS && 0 <= j < COLS ==> #[trigger] self.at(i, j) == other.at(j, i)
    }

    /// The matrix with the given rows.
    pub fn new(data: [[R; COLS]; ROWS]) -> (r: Self)
        ensures
            r.data == data,
    {
        Matrix { data }
    }

    /// Tell whether some entry is a NaN.
    pub fn any_nan(&self) -> (r: bool)
        ensures
            r == self.has_nan(),
    {
        let mut i: usize = 0;
        while i < ROWS
            invariant
                i <= ROWS,
                forall|k: int, j: int|
                    0 <= k < i && 0 <= j < COLS ==> !(#[trigger] self.at(k, j)).nan(),
            decreases ROWS - i,
        {
            let row: [R; COLS] = self.data[i];
            let mut j: usize = 0;
            while j < COLS
                invariant
                    i < ROWS,
                    j <= COLS,
                    row == self.data@[i as int],
                    forall|k: int, l: int|
                        0 <= k < i && 0 <= l < COLS ==> !(#[trigger] self.at(k, l)).nan(),
                    forall|l: int| 0 <= l < j ==> !(#[trigger] self.at(i as int, l)).nan(),
                decreases COLS - j,
            {
                if row[j].is_nan() {
                    assert(self.at(i as int, j as int).nan());
                    return true;
                }
                j += 1;
            }
            i += 1;
        }
        false
    }

    /// The transpose of the matrix.
    pub fn transpose(&self) -> (r: Matrix<R, COLS, ROWS>)
        ensures
            r.is_transpose_of(*self),
    {
        let mut data: [[R; ROWS]; COLS] = array_fill_for_copy_types(
            array_fill_for_copy_types(R::zero()),
        );
        let mut j: usize = 0;
        while j < COLS
            invariant
                j <= COLS,
                forall|l: int, i: int|
                    0 <= l < j && 0 <= i < ROWS ==> #[trigger] data@[l]@[i] == self.at(i, l),
            decreases COLS - j,
        {
            let mut column: [R; ROWS] = data[j];
            let mut i: usize = 0;
            while i < ROWS
                invariant
                    j < COLS,
                    i <= ROWS,
                    forall|k: int| 0 <= k < i ==> #[trigger] column@[k] == self.at(k, j as int),
                decreases ROWS - i,
            {
                let row: [R; COLS] = self.data[i];
                column[i] = row[j];
                i += 1;
            }
            data[j] = column;
            j += 1;
        }
        let r = Matrix { data };
        assert forall|l: int, i: int| 0 <= l < COLS && 0 <= i < ROWS implies #[trigger] r.at(l, i)
            == self.at(i, l) by {
            assert(data@[l]@[i] == self.at(i, l));
        }
        r
    }

    /// A matrix is its entries, and nothing else.
    pub proof fn lemma_extensional(a: Self, b: Self)
        requires
            forall|i: int, j: int|
                0 <= i < ROWS && 0 <= j < COLS ==> #[trigger] a.at(i, j) == b.at(i, j),
        ensures
            a == b,
    {
        assert forall|i: int| 0 <= i < ROWS implies a.data[i] == b.data[i] by {
            assert forall|j: int| 0 <= j < COLS implies a.data[i][j] == b.data[i][j] by {
                assert(a.at(i, j) == b.at(i, j));
            }
            assert(a.data[i] =~= b.data[i]);
        }
        assert(a.data =~= b.data);
    }

    /// A matrix has one transpose.
    pub proof fn lemma_one_transpose(a: Self, b: Self, other: Matrix<R, COLS, ROWS>)
        requires
            a.is_transpose_of(other),
            b.is_transpose_of(other),
        ensures
            a == b,
    {
        assert forall|i: int, j: int| 0 <= i < ROWS && 0 <= j < COLS implies #[trigger] a.at(i, j)
            == b.at(i, j) by {
            assert(a.at(i, j) == other.at(j, i));
            assert(b.at(i, j) == other.at(j, i));
        }
        Self::lemma_extensional(a, b);
    }
}

impl<R: Scalar, const N: usize> Matrix<R, N, N> {
    /// Whether the matrix is the identity: one on the diagonal, zero
    /// elsewhere.
    pub open spec fn is_identity(self) -> bool {
        forall|i: int, j: int|
            0 <= i < N && 0 <= j < N ==> #[trigger] self.at(i, j) == if i == j {
                R::one_value()
            } else {
                R::zero_value()
            }
    }

    /// The identity matrix.
    pub fn identity() -> (r: Self)
        ensures
            r.is_identity(),
    {
        let mut data: [[R; N]; N] = array_fill_for_copy_types(
            array_fill_for_copy_types(R::zero()),
        );
        let mut i: usize = 0;
        while i < N
            invariant
                i <= N,
                forall|k: int, j: int|
                    0 <= k < N && 0 <= j < N ==> #[trigger] data@[k]@[j] == if k == j && k < i {
                        R::one_value()
                    } else {
                        R::zero_value()
                    },
            decreases N - i,
        {
            let mut row: [R; N] = data[i];
            row[i] = R::one();
            data[i] = row;
            i += 1;
        }
        Matrix { data }
    }

    /// There is one identity matrix of each size.
    pub proof fn lemma_one_identity(a: Self, b: Self)
        requires
            a.is_identity(),
            b.is_identity(),
        ensures
            a == b,
    {
        assert forall|i: int, j: int| 0 <= i < N && 0 <= j < N implies #[trigger] a.at(i, j)
            == b.at(i, j) by {
            assert(b.at(i, j) == if i == j {
                R::one_value()
            } else {
                R::zero_value()
            });
        }
        Self::lemma_extensional(a, b);
    }
}

} // verus!
