//! The forms of the vectors of a point.

use vstd::prelude::*;

use super::{NamedVectorsOutput, VectorOutput};

verus! {

/// The vectors of a point: one without a name, or several by name.
pub enum VectorsOptions<T> {
    Vector(VectorOutput<T>),
    Vectors(NamedVectorsOutput<T>),
}

} // verus!
