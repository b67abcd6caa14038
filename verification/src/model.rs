//! The mathematical model of a dense matrix, and the operations on it.
use crate::scalar::Scalar;
use vstd::prelude::*;

verus! {

/// A matrix as a value: its shape, and its elements in row-major order.
pub struct MatrixView<T> {
    pub rows: nat,
    pub cols: nat,
    pub data: Seq<T>,
}

impl<T: Scalar> MatrixView<T> {
    /// There is exactly one element for each position.
    pub open spec fn wf(self) -> bool {
        self.data.len() == self.rows * self.cols
    }

    /// The element in row `row` and column `col`.
    pub open spec fn at(self, row: int, col: int) -> T {
        self.data[row * self.cols + col]
    }

    pub open spec fn same_shape(self, other: Self) -> bool {
        self.rows == other.rows && self.cols == other.cols
    }

    /// All elements lie in the closed range from minus one to one.
    pub open spec fn within_unit(self) -> bool {
        forall|i: int| 0 <= i < self.data.len() ==> (#[trigger] self.data[i]).within_unit()
    }

    /// The matrix of the given shape whose elements are all zero.
    pub open spec fn zeros(rows: nat, cols: nat) -> Self {
        MatrixView { rows, cols, data: Seq::new(rows * cols, |i: int| T::zero_value()) }
    }

    /// The column vector that holds `values` from top to bottom.
    pub open spec fn column(values: Seq<T>) -> Self {
        MatrixView { rows: values.len(), cols: 1, data: values }
    }

    /// `self` with the element at (`row`, `col`) replaced by `value`.
    pub open spec fn with(self, row: int, col: int, value: T) -> Self {
        MatrixView { data: self.data.update(row * self.cols + col, value), ..self }
    }

    /// Rows and columns exchanged: the element at (c, r) is `self.at(r, c)`.
    pub open spec fn transpose(self) -> Self {
        MatrixView {
            rows: self.cols,
            cols: self.rows,
            data: Seq::new(
                self.rows * self.cols,
                |i: int| self.at(i % (self.rows as int), i / (self.rows as int)),
            ),
        }
    }

    /// The elementwise sum.
    pub open spec fn sum(self, other: Self) -> Self {
        MatrixView {
            data: Seq::new(self.data.len(), |i: int| self.data[i].sum(other.data[i])),
            ..self
        }
    }

    /// The elementwise difference.
    pub open spec fn difference(self, other: Self) -> Self {
        MatrixView {
            data: Seq::new(self.data.len(), |i: int| self.data[i].difference(other.data[i])),
            ..self
        }
    }

    /// The elementwise product.
    pub open spec fn hadamard(self, other: Self) -> Self {
        MatrixView {
            data: Seq::new(self.data.len(), |i: int| self.data[i].product(other.data[i])),
            ..self
        }
    }

    /// Every element multiplied by `factor`, which stands on the right.
    pub open spec fn scaled(self, factor: T) -> Self {
        MatrixView {
            data: Seq::new(self.data.len(), |i: int| self.data[i].product(factor)),
            ..self
        }
    }

    /// The sum of the first `k` terms of the dot product of row `row` of `self`
    /// and column `col` of `other`, added up from zero in the order of the index.
    pub open spec fn dot(self, other: Self, row: int, col: int, k: nat) -> T
        decreases k,
    {
        if k == 0 {
            T::zero_value()
        } else {
            self.dot(other, row, col, (k - 1) as nat).sum(
                self.at(row, k - 1).product(other.at(k - 1, col)),
            )
        }
    }

    /// The matrix product: the element at (r, c) is the dot product of row r of
    /// `self` and column c of `other`.
    pub open spec fn product(self, other: Self) -> Self {
        MatrixView {
            rows: self.rows,
            cols: other.cols,
            data: Seq::new(
                self.rows * other.cols,
                |i: int| self.dot(other, i / (other.cols as int), i % (other.cols as int), self.cols),
            ),
        }
    }
}

/// Position (`row`, `col`) of a matrix with `cols` columns has an offset of its
/// own below `rows * cols`, from which the row and the column can be read back.
pub proof fn lemma_offset(rows: nat, cols: nat, row: int, col: int)
    requires
        0 <= row < rows,
        0 <= col < cols,
    ensures
        0 <= row * cols + col < rows * cols,
        (row * cols + col) / (cols as int) == row,
        (row * cols + col) % (cols as int) == col,
{
    let c = cols as int;
    assert(row * c + c <= rows * c) by (nonlinear_arith)
        requires
            0 <= row < rows,
            c > 0,
    ;
    assert(0 <= row * c) by (nonlinear_arith)
        requires
            0 <= row,
            c > 0,
    ;
    vstd::arithmetic::div_mod::lemma_fundamental_div_mod_converse(row * c + col, c, row, col);
}

/// An offset below `rows * cols` names a position: a row below `rows` and a
/// column below `cols`.
pub proof fn lemma_position(rows: nat, cols: nat, i: int)
    requires
        0 <= i < rows * cols,
    ensures
        cols > 0,
        0 <= i / (cols as int) < rows,
        0 <= i % (cols as int) < cols,
        i == (i / (cols as int)) * cols + i % (cols as int),
{
    let c = cols as int;
    assert(c > 0) by (nonlinear_arith)
        requires
            0 <= i < rows * c,
            c >= 0,
    ;
    vstd::arithmetic::div_mod::lemma_fundamental_div_mod(i, c);
    vstd::arithmetic::div_mod::lemma_mod_bound(i, c);
    let q = i / c;
    assert(c * q == q * c) by (nonlinear_arith);
    assert(0 <= q < rows) by (nonlinear_arith)
        requires
            0 <= i < rows * c,
            i == q * c + i % c,
            0 <= i % c < c,
    ;
}

} // verus!
