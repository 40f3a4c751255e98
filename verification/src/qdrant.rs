//! The parts of a Qdrant query result that a record batch is built from.
//!
//! A vector component is a single-precision float on the wire. Nothing here computes with it,
//! so the vector types are generic over the component; a [`ScoredPoint`] carries components
//! by their IEEE 754 bit pattern.

use std::collections::HashMap;

use qdrant_client::qdrant::Value;
use vstd::prelude::*;

pub mod point_id;
pub mod vector_output;
pub mod vectors_output;

verus! {

/// A payload value: carried through, never looked into.
#[verifier::external_type_specification]
#[verifier::external_body]
pub struct ExValue(Value);

/// The identifier of a point.
pub struct PointId {
    pub point_id_options: Option<point_id::PointIdOptions>,
}

/// A dense vector.
pub struct DenseVector<T> {
    pub data: Vec<T>,
}

/// A sparse vector: `values[i]` stands at position `indices[i]`.
#[derive(Debug)]
pub struct SparseVector<T> {
    pub indices: Vec<u32>,
    pub values: Vec<T>,
}

/// Several dense vectors under one name.
pub struct MultiDenseVector<T> {
    pub vectors: Vec<DenseVector<T>>,
}

/// The positions of a sparse vector in the flat format.
pub struct SparseIndices {
    pub data: Vec<u32>,
}

/// One vector of a point. Current servers fill `vector`; older ones describe the vector by the
/// flat fields `data`, `indices` and `vectors_count`.
pub struct VectorOutput<T> {
    pub data: Vec<T>,
    pub indices: Option<SparseIndices>,
    pub vectors_count: Option<u32>,
    pub vector: Option<vector_output::Vector<T>>,
}

/// The named vectors of a point, each name once: see [`NamedVectorsOutput::wf`].
pub struct NamedVectorsOutput<T> {
    pub vectors: Vec<(String, VectorOutput<T>)>,
}

/// The vectors of a point.
pub struct VectorsOutput<T> {
    pub vectors_options: Option<vectors_output::VectorsOptions<T>>,
}

/// A point of a query result. Vector components are IEEE 754 bit patterns.
pub struct ScoredPoint {
    pub id: Option<PointId>,
    pub payload: HashMap<String, Value>,
    pub vectors: Option<VectorsOutput<u32>>,
}

/// The identifier of a point, as a value.
pub enum IdView {
    Num(u64),
    Uuid(Seq<char>),
}

/// A vector, as a value.
#[verifier::ext_equal]
pub enum VectorView<T> {
    Dense(Seq<T>),
    Sparse { indices: Seq<u32>, values: Seq<T> },
    MultiDense(Seq<Seq<T>>),
}

/// A [`VectorOutput`], as a value.
#[verifier::ext_equal]
pub struct VectorOutputView<T> {
    pub data: Seq<T>,
    pub indices: Option<Seq<u32>>,
    pub vectors_count: Option<u32>,
    pub vector: Option<VectorView<T>>,
}

/// The vectors of a point, as a value.
#[verifier::ext_equal]
pub enum VectorsView<T> {
    Unnamed(VectorOutputView<T>),
    Named(Seq<(Seq<char>, VectorOutputView<T>)>),
    Missing,
}

impl View for PointId {
    type V = Option<IdView>;

    open spec fn view(&self) -> Option<IdView> {
        match self.point_id_options {
            Some(options) => Some(options@),
            None => None,
        }
    }
}

impl<T> View for MultiDenseVector<T> {
    type V = Seq<Seq<T>>;

    open spec fn view(&self) -> Seq<Seq<T>> {
        Seq::new(self.vectors@.len(), |i: int| self.vectors@[i].data@)
    }
}

impl<T> View for VectorOutput<T> {
    type V = VectorOutputView<T>;

    open spec fn view(&self) -> VectorOutputView<T> {
        VectorOutputView {
            data: self.data@,
            indices: match self.indices {
                Some(indices) => Some(indices.data@),
                None => None,
            },
            vectors_count: self.vectors_count,
            vector: match self.vector {
                Some(vector) => Some(vector@),
                None => None,
            },
        }
    }
}

impl<T> View for NamedVectorsOutput<T> {
    type V = Seq<(Seq<char>, VectorOutputView<T>)>;

    open spec fn view(&self) -> Seq<(Seq<char>, VectorOutputView<T>)> {
        Seq::new(self.vectors@.len(), |i: int| (self.vectors@[i].0@, self.vectors@[i].1@))
    }
}

/// Whether each name occurs once.
pub open spec fn names_distinct<T>(named: Seq<(Seq<char>, VectorOutputView<T>)>) -> bool {
    forall|i: int, j: int|
        0 <= i < j < named.len() ==> (#[trigger] named[i]).0 != (#[trigger] named[j]).0
}

impl<T> NamedVectorsOutput<T> {
    /// Whether each name occurs once.
    pub open spec fn wf(&self) -> bool {
        names_distinct(self@)
    }
}

impl<T> View for VectorsOutput<T> {
    type V = VectorsView<T>;

    open spec fn view(&self) -> VectorsView<T> {
        match self.vectors_options {
            Some(vectors_output::VectorsOptions::Vector(output)) => VectorsView::Unnamed(output@),
            Some(vectors_output::VectorsOptions::Vectors(named)) => VectorsView::Named(named@),
            None => VectorsView::Missing,
        }
    }
}

/// The vectors of a point that may have none, as a value.
pub open spec fn vectors_view<T>(vectors: Option<VectorsOutput<T>>) -> VectorsView<T> {
    match vectors {
        Some(vectors) => vectors@,
        None => VectorsView::Missing,
    }
}

/// The identifier of a point that may have none, as a value.
pub open spec fn id_view(id: Option<PointId>) -> Option<IdView> {
    match id {
        Some(id) => id@,
        None => None,
    }
}

} // verus!
