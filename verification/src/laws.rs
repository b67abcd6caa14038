//! Identities that hold of the matrix operations.
use crate::model::{lemma_offset, lemma_position, MatrixView};
use crate::scalar::{LawfulScalar, Scalar};
use vstd::prelude::*;

verus! {

/// The element at (`col`, `row`) of the transposed matrix is the element at
/// (`row`, `col`) of the matrix itself.
pub proof fn lemma_transpose_at<T: Scalar>(m: MatrixView<T>, row: int, col: int)
    requires
        m.wf(),
        0 <= row < m.rows,
        0 <= col < m.cols,
    ensures
        m.transpose().at(col, row) == m.at(row, col),
        m.transpose().wf(),
{
    lemma_offset(m.cols, m.rows, col, row);
    assert(m.rows * m.cols == m.cols * m.rows) by (nonlinear_arith);
}

/// Transposing twice gives the matrix back.
pub proof fn lemma_transpose_twice<T: Scalar>(m: MatrixView<T>)
    requires
        m.wf(),
    ensures
        m.transpose().transpose() == m,
{
    let t = m.transpose();
    let tt = t.transpose();
    assert(m.rows * m.cols == m.cols * m.rows) by (nonlinear_arith);
    assert forall|i: int| 0 <= i < m.data.len() implies tt.data[i] == m.data[i] by {
        lemma_position(m.rows, m.cols, i);
        let row = i / (m.cols as int);
        let col = i % (m.cols as int);
        lemma_offset(m.cols, m.rows, col, row);
    }
    assert(tt.data =~= m.data);
}

/// Adding a matrix and then subtracting the same matrix gives the first
/// operand back, where the scalars are exact.
pub proof fn lemma_sum_then_difference<T: LawfulScalar>(a: MatrixView<T>, b: MatrixView<T>)
    requires
        a.wf(),
        b.wf(),
        a.same_shape(b),
    ensures
        a.sum(b).difference(b) == a,
{
    let back = a.sum(b).difference(b);
    assert forall|i: int| 0 <= i < a.data.len() implies back.data[i] == a.data[i] by {
        T::difference_undoes_sum(a.data[i], b.data[i]);
    }
    assert(back.data =~= a.data);
}

/// A dot product of the transposed operands, taken in exchanged order, is the
/// dot product of the operands themselves.
pub proof fn lemma_dot_of_transposed<T: LawfulScalar>(
    a: MatrixView<T>,
    b: MatrixView<T>,
    row: int,
    col: int,
    k: nat,
)
    requires
        a.wf(),
        b.wf(),
        a.cols == b.rows,
        0 <= row < a.rows,
        0 <= col < b.cols,
        k <= a.cols,
    ensures
        b.transpose().dot(a.transpose(), col, row, k) == a.dot(b, row, col, k),
    decreases k,
{
    if k > 0 {
        lemma_dot_of_transposed(a, b, row, col, (k - 1) as nat);
        lemma_transpose_at(a, row, k - 1);
        lemma_transpose_at(b, k - 1, col);
        T::product_commutes(a.at(row, k - 1), b.at(k - 1, col));
    }
}

/// The transpose of a product is the product of the transposes in exchanged
/// order, where the scalars are exact.
pub proof fn lemma_transpose_of_product<T: LawfulScalar>(a: MatrixView<T>, b: MatrixView<T>)
    requires
        a.wf(),
        b.wf(),
        a.cols == b.rows,
    ensures
        a.product(b).transpose() == b.transpose().product(a.transpose()),
{
    let left = a.product(b).transpose();
    let right = b.transpose().product(a.transpose());
    assert(a.rows * b.cols == b.cols * a.rows) by (nonlinear_arith);
    assert(left.data.len() == right.data.len());
    assert forall|i: int| 0 <= i < left.data.len() implies left.data[i] == right.data[i] by {
        lemma_position(b.cols, a.rows, i);
        let col = i / (a.rows as int);
        let row = i % (a.rows as int);
        lemma_offset(a.rows, b.cols, row, col);
        lemma_dot_of_transposed(a, b, row, col, a.cols);
    }
    assert(left.data =~= right.data);
}

/// Scaling by one changes nothing, where the scalars are exact.
pub proof fn lemma_scaled_by_one<T: LawfulScalar>(a: MatrixView<T>)
    ensures
        a.scaled(T::one_value()) == a,
{
    let s = a.scaled(T::one_value());
    assert forall|i: int| 0 <= i < a.data.len() implies s.data[i] == a.data[i] by {
        T::one_is_right_identity(a.data[i]);
    }
    assert(s.data =~= a.data);
}

/// Scaling by zero gives the zero matrix of the same shape, where the scalars
/// are exact.
pub proof fn lemma_scaled_by_zero<T: LawfulScalar>(a: MatrixView<T>)
    requires
        a.wf(),
    ensures
        a.scaled(T::zero_value()) == MatrixView::<T>::zeros(a.rows, a.cols),
{
    let s = a.scaled(T::zero_value());
    let z = MatrixView::<T>::zeros(a.rows, a.cols);
    assert forall|i: int| 0 <= i < a.data.len() implies s.data[i] == z.data[i] by {
        T::zero_annihilates(a.data[i]);
    }
    assert(s.data =~= z.data);
}

/// A column vector is the column of its own elements: flattening it and
/// building a column from the result gives it back.
pub proof fn lemma_column_of_elements<T: Scalar>(a: MatrixView<T>)
    requires
        a.wf(),
        a.cols == 1,
    ensures
        MatrixView::column(a.data) == a,
{
    assert(a.rows * 1 == a.rows) by (nonlinear_arith);
}

} // verus!
