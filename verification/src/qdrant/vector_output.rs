//! The forms of a vector in a query result.

use vstd::prelude::*;

use super::{DenseVector, MultiDenseVector, SparseVector, VectorView};

verus! {

/// A vector as current servers send it.
pub enum Vector<T> {
    Dense(DenseVector<T>),
    Sparse(SparseVector<T>),
    MultiDense(MultiDenseVector<T>),
}

impl<T> View for Vector<T> {
    type V = VectorView<T>;

    open spec fn view(&self) -> VectorView<T> {
        match self {
            Vector::Dense(dense) => VectorView::Dense(dense.data@),
            Vector::Sparse(sparse) => VectorView::Sparse {
                indices: sparse.indices@,
                values: sparse.values@,
            },
            Vector::MultiDense(multi) => VectorView::MultiDense(multi@),
        }
    }
}

} // verus!
