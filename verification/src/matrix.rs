//! Dense matrices in row-major storage.
use crate::model::{lemma_offset, MatrixView};
use crate::scalar::Scalar;
use vstd::prelude::*;

verus! {

/// A dense matrix: `rows * cols` elements, row after row.
///
/// The element at (`r`, `c`) is `data[r * cols + c]`. Every operation asks that
/// its operands hold exactly one element for each position, and returns
/// matrices that do.
#[derive(Debug)]
pub struct Matrix<T> {
    pub rows: usize,
    pub cols: usize,
    pub data: Vec<T>,
}

impl<T> View for Matrix<T> {
    type V = MatrixView<T>;

    open spec fn view(&self) -> MatrixView<T> {
        MatrixView { rows: self.rows as nat, cols: self.cols as nat, data: self.data@ }
    }
}

/// `y` has the shape of `x`, and each of its elements is a value that `f` may
/// return for the element of `x` in the same place.
pub open spec fn mapped<T: Scalar, F: Fn(T) -> T>(f: F, x: MatrixView<T>, y: MatrixView<T>) -> bool {
    &&& x.same_shape(y)
    &&& y.data.len() == x.data.len()
    &&& forall|i: int| 0 <= i < x.data.len() ==> call_ensures(f, (x.data[i],), #[trigger] y.data[i])
}

impl<T: Scalar> Clone for Matrix<T> {
    fn clone(&self) -> (r: Matrix<T>)
        ensures
            r@ == self@,
    {
        let mut data: Vec<T> = Vec::new();
        let mut i: usize = 0;
        while i < self.data.len()
            invariant
                i <= self.data@.len(),
                data@ == self.data@.take(i as int),
            decreases self.data@.len() - i,
        {
            data.push(self.data[i]);
            proof {
                assert(self.data@.take(i + 1) =~= self.data@.take(i as int).push(self.data@[i as int]));
            }
            i += 1;
        }
        proof {
            assert(self.data@.take(i as int) =~= self.data@);
        }
        Matrix { rows: self.rows, cols: self.cols, data }
    }
}

impl<T: Scalar> Matrix<T> {
    /// The zero-filled matrix of the given shape.
    pub fn new(rows: usize, cols: usize) -> (r: Matrix<T>)
        ensures
            r@ == MatrixView::<T>::zeros(rows as nat, cols as nat),
            r@.wf(),
    {
        let mut data: Vec<T> = Vec::new();
        let mut i: usize = 0;
        while i < rows
            invariant
                i <= rows,
                data@.len() == i * cols,
                forall|k: int| 0 <= k < data@.len() ==> data@[k] == T::zero_value(),
            decreases rows - i,
        {
            let mut j: usize = 0;
            while j < cols
                invariant
                    i < rows,
                    j <= cols,
                    data@.len() == i * cols + j,
                    forall|k: int| 0 <= k < data@.len() ==> data@[k] == T::zero_value(),
                decreases cols - j,
            {
                data.push(T::zero());
                j += 1;
            }
            proof {
                assert(i * cols + cols == (i + 1) * cols) by (nonlinear_arith);
            }
            i += 1;
        }
        let r = Matrix { rows, cols, data };
        proof {
            assert(r@.data =~= MatrixView::<T>::zeros(rows as nat, cols as nat).data);
        }
        r
    }

    /// The element at (`row`, `col`).
    pub fn get(&self, row: usize, col: usize) -> (r: T)
        requires
            self@.wf(),
            row < self.rows,
            col < self.cols,
        ensures
            r == self@.at(row as int, col as int),
    {
        let len = self.data.len();
        proof {
            lemma_offset(self.rows as nat, self.cols as nat, row as int, col as int);
            assert(row * self.cols + col < len);
            assert(0 <= row * self.cols) by (nonlinear_arith);
        }
        self.data[row * self.cols + col]
    }

    /// Replaces the element at (`row`, `col`) by `value`.
    pub fn set(&mut self, row: usize, col: usize, value: T)
        requires
            old(self)@.wf(),
            row < old(self).rows,
            col < old(self).cols,
        ensures
            final(self)@ == old(self)@.with(row as int, col as int, value),
            final(self)@.wf(),
    {
        let len = self.data.len();
        proof {
            lemma_offset(self.rows as nat, self.cols as nat, row as int, col as int);
            assert(row * self.cols + col < len);
            assert(0 <= row * self.cols) by (nonlinear_arith);
        }
        self.data.set(row * self.cols + col, value);
    }

    /// The transposed matrix.
    pub fn transpose(&self) -> (r: Matrix<T>)
        requires
            self@.wf(),
        ensures
            r@ == self@.transpose(),
            r@.wf(),
    {
        let ghost goal = self@.transpose();
        let mut data: Vec<T> = Vec::new();
        let mut j: usize = 0;
        proof {
            assert(self.rows * self.cols == self.cols * self.rows) by (nonlinear_arith);
        }
        while j < self.cols
            invariant
                self@.wf(),
                goal == self@.transpose(),
                self.rows * self.cols == self.cols * self.rows,
                j <= self.cols,
                data@.len() == j * self.rows,
                forall|k: int| 0 <= k < data@.len() ==> data@[k] == goal.data[k],
            decreases self.cols - j,
        {
            let mut i: usize = 0;
            while i < self.rows
                invariant
                    self@.wf(),
                    goal == self@.transpose(),
                    self.rows * self.cols == self.cols * self.rows,
                    j < self.cols,
                    i <= self.rows,
                    data@.len() == j * self.rows + i,
                    forall|k: int| 0 <= k < data@.len() ==> data@[k] == goal.data[k],
                decreases self.rows - i,
            {
                proof {
                    lemma_offset(self.cols as nat, self.rows as nat, j as int, i as int);
                }
                data.push(self.get(i, j));
                i += 1;
            }
            proof {
                assert(j * self.rows + self.rows == (j + 1) * self.rows) by (nonlinear_arith);
            }
            j += 1;
        }
        let r = Matrix { rows: self.cols, cols: self.rows, data };
        proof {
            assert(r@.data =~= goal.data);
        }
        r
    }

    /// The elementwise sum of two matrices of one shape.
    pub fn add(&self, other: &Matrix<T>) -> (r: Matrix<T>)
        requires
            self@.wf(),
            other@.wf(),
            self@.same_shape(other@),
        ensures
            r@ == self@.sum(other@),
            r@.wf(),
    {
        let mut data: Vec<T> = Vec::new();
        let mut i: usize = 0;
        while i < self.data.len()
            invariant
                self.data@.len() == other.data@.len(),
                i <= self.data@.len(),
                data@.len() == i,
                forall|k: int| 0 <= k < i ==> data@[k] == self@.sum(other@).data[k],
            decreases self.data@.len() - i,
        {
            data.push(self.data[i].plus(other.data[i]));
            i += 1;
        }
        let r = Matrix { rows: self.rows, cols: self.cols, data };
        proof {
            assert(r@.data =~= self@.sum(other@).data);
        }
        r
    }

    /// The elementwise difference of two matrices of one shape.
    pub fn sub(&self, other: &Matrix<T>) -> (r: Matrix<T>)
        requires
            self@.wf(),
            other@.wf(),
            self@.same_shape(other@),
        ensures
            r@ == self@.difference(other@),
            r@.wf(),
    {
        let mut data: Vec<T> = Vec::new();
        let mut i: usize = 0;
        while i < self.data.len()
            invariant
                self.data@.len() == other.data@.len(),
                i <= self.data@.len(),
                data@.len() == i,
                forall|k: int| 0 <= k < i ==> data@[k] == self@.difference(other@).data[k],
            decreases self.data@.len() - i,
        {
            data.push(self.data[i].minus(other.data[i]));
            i += 1;
        }
        let r = Matrix { rows: self.rows, cols: self.cols, data };
        proof {
            assert(r@.data =~= self@.difference(other@).data);
        }
        r
    }

    /// The matrix product of `self` and `other`, where `self` has as many
    /// columns as `other` has rows.
    pub fn mul(&self, other: &Matrix<T>) -> (r: Matrix<T>)
        requires
            self@.wf(),
            other@.wf(),
            self.cols == other.rows,
        ensures
            r@ == self@.product(other@),
            r@.wf(),
    {
        let ghost goal = self@.product(other@);
        let mut data: Vec<T> = Vec::new();
        let mut i: usize = 0;
        while i < self.rows
            invariant
                self@.wf(),
                other@.wf(),
                self.cols == other.rows,
                goal == self@.product(other@),
                i <= self.rows,
                data@.len() == i * other.cols,
                forall|k: int| 0 <= k < data@.len() ==> data@[k] == goal.data[k],
            decreases self.rows - i,
        {
            let mut j: usize = 0;
            while j < other.cols
                invariant
                    self@.wf(),
                    other@.wf(),
                    self.cols == other.rows,
                    goal == self@.product(other@),
                    i < self.rows,
                    j <= other.cols,
                    data@.len() == i * other.cols + j,
                    forall|k: int| 0 <= k < data@.len() ==> data@[k] == goal.data[k],
                decreases other.cols - j,
            {
                let mut acc = T::zero();
                let mut k: usize = 0;
                while k < self.cols
                    invariant
                        self@.wf(),
                        other@.wf(),
                        self.cols == other.rows,
                        i < self.rows,
                        j < other.cols,
                        k <= self.cols,
                        acc == self@.dot(other@, i as int, j as int, k as nat),
                    decreases self.cols - k,
                {
                    acc = acc.plus(self.get(i, k).times(other.get(k, j)));
                    k += 1;
                }
                proof {
                    lemma_offset(self.rows as nat, other.cols as nat, i as int, j as int);
                }
                data.push(acc);
                j += 1;
            }
            proof {
                assert(i * other.cols + other.cols == (i + 1) * other.cols) by (nonlinear_arith);
            }
            i += 1;
        }
        let r = Matrix { rows: self.rows, cols: other.cols, data };
        proof {
            assert(r@.data =~= goal.data);
        }
        r
    }

    /// Every element multiplied by `scalar`.
    pub fn mul_scalar(&self, scalar: T) -> (r: Matrix<T>)
        requires
            self@.wf(),
        ensures
            r@ == self@.scaled(scalar),
            r@.wf(),
    {
        let mut data: Vec<T> = Vec::new();
        let mut i: usize = 0;
        while i < self.data.len()
            invariant
                i <= self.data@.len(),
                data@.len() == i,
                forall|k: int| 0 <= k < i ==> data@[k] == self@.scaled(scalar).data[k],
            decreases self.data@.len() - i,
        {
            data.push(self.data[i].times(scalar));
            i += 1;
        }
        let r = Matrix { rows: self.rows, cols: self.cols, data };
        proof {
            assert(r@.data =~= self@.scaled(scalar).data);
        }
        r
    }

    /// The elementwise product of two matrices of one shape.
    pub fn hadamard(&self, other: &Matrix<T>) -> (r: Matrix<T>)
        requires
            self@.wf(),
            other@.wf(),
            self@.same_shape(other@),
        ensures
            r@ == self@.hadamard(other@),
            r@.wf(),
    {
        let mut data: Vec<T> = Vec::new();
        let mut i: usize = 0;
        while i < self.data.len()
            invariant
                self.data@.len() == other.data@.len(),
                i <= self.data@.len(),
                data@.len() == i,
                forall|k: int| 0 <= k < i ==> data@[k] == self@.hadamard(other@).data[k],
            decreases self.data@.len() - i,
        {
            data.push(self.data[i].times(other.data[i]));
            i += 1;
        }
        let r = Matrix { rows: self.rows, cols: self.cols, data };
        proof {
            assert(r@.data =~= self@.hadamard(other@).data);
        }
        r
    }

    /// Applies `f` to every element.
    pub fn map<F: Fn(T) -> T>(&self, f: F) -> (r: Matrix<T>)
        requires
            forall|i: int| 0 <= i < self.data@.len() ==> call_requires(f, (self.data@[i],)),
        ensures
            mapped(f, self@, r@),
    {
        Self::static_map(self, f)
    }

    /// Applies `f` to every element of `matrix`.
    pub fn static_map<F: Fn(T) -> T>(matrix: &Matrix<T>, f: F) -> (r: Matrix<T>)
        requires
            forall|i: int| 0 <= i < matrix.data@.len() ==> call_requires(f, (matrix.data@[i],)),
        ensures
            mapped(f, matrix@, r@),
    {
        let mut data: Vec<T> = Vec::new();
        let mut i: usize = 0;
        while i < matrix.data.len()
            invariant
                forall|k: int| 0 <= k < matrix.data@.len() ==> call_requires(f, (matrix.data@[k],)),
                i <= matrix.data@.len(),
                data@.len() == i,
                forall|k: int| 0 <= k < i ==> call_ensures(f, (matrix.data@[k],), #[trigger] data@[k]),
            decreases matrix.data@.len() - i,
        {
            data.push(f(matrix.data[i]));
            i += 1;
        }
        Matrix { rows: matrix.rows, cols: matrix.cols, data }
    }

    /// The column vector that holds the elements of `arr` from top to bottom.
    pub fn from_array(arr: &[T]) -> (r: Matrix<T>)
        ensures
            r@ == MatrixView::column(arr@),
            r@.wf(),
    {
        let mut data: Vec<T> = Vec::new();
        let mut i: usize = 0;
        while i < arr.len()
            invariant
                i <= arr@.len(),
                data@ == arr@.take(i as int),
            decreases arr@.len() - i,
        {
            data.push(arr[i]);
            proof {
                assert(arr@.take(i + 1) =~= arr@.take(i as int).push(arr@[i as int]));
            }
            i += 1;
        }
        proof {
            assert(arr@.take(i as int) =~= arr@);
        }
        Matrix { rows: arr.len(), cols: 1, data }
    }

    /// The elements in row-major order.
    pub fn to_array(&self) -> (r: Vec<T>)
        ensures
            r@ == self@.data,
    {
        self.clone().data
    }

    /// A matrix of the given shape, each element a fresh draw from the closed
    /// range from minus one to one.
    pub fn random(rows: usize, cols: usize) -> (r: Matrix<T>)
        ensures
            r@.rows == rows,
            r@.cols == cols,
            r@.wf(),
            r@.within_unit(),
    {
        let mut data: Vec<T> = Vec::new();
        let mut i: usize = 0;
        while i < rows
            invariant
                i <= rows,
                data@.len() == i * cols,
                forall|k: int| 0 <= k < data@.len() ==> (#[trigger] data@[k]).within_unit(),
            decreases rows - i,
        {
            let mut j: usize = 0;
            while j < cols
                invariant
                    i < rows,
                    j <= cols,
                    data@.len() == i * cols + j,
                    forall|k: int| 0 <= k < data@.len() ==> (#[trigger] data@[k]).within_unit(),
                decreases cols - j,
            {
                data.push(T::sample());
                j += 1;
            }
            proof {
                assert(i * cols + cols == (i + 1) * cols) by (nonlinear_arith);
            }
            i += 1;
        }
        Matrix { rows, cols, data }
    }

    /// Draws every element afresh from the closed range from minus one to one.
    pub fn randomize(&mut self)
        ensures
            final(self)@.rows == old(self)@.rows,
            final(self)@.cols == old(self)@.cols,
            final(self)@.data.len() == old(self)@.data.len(),
            final(self)@.within_unit(),
    {
        let mut i: usize = 0;
        while i < self.data.len()
            invariant
                self.rows == old(self).rows,
                self.cols == old(self).cols,
                self.data@.len() == old(self).data@.len(),
                i <= self.data@.len(),
                forall|k: int| 0 <= k < i ==> (#[trigger] self.data@[k]).within_unit(),
            decreases self.data@.len() - i,
        {
            self.data.set(i, T::sample());
            i += 1;
        }
    }
}

} // verus!
