//! Which vector an output of a point describes, by the fields of the output.

use vstd::arithmetic::div_mod::{
    lemma_div_multiples_vanish, lemma_fundamental_div_mod, lemma_mod_multiples_basic,
};
use vstd::prelude::*;

use crate::arrow::deserialize::{
    content, lookup, nested, split, splits_evenly, table_view, Vector,
};
use crate::laws::{law_lookup_by_name, law_lookup_has_no_more};
use crate::qdrant::vector_output;
use crate::qdrant::vectors_output::VectorsOptions;
use crate::qdrant::{
    vectors_view, NamedVectorsOutput, SparseIndices, VectorOutput, VectorView, VectorsOutput,
};

verus! {

/// Data splits exactly where its length is a multiple of a count that is not zero.
pub proof fn law_splits_where_length_is_a_multiple(len: nat, count: u32)
    ensures
        splits_evenly(len, count) <==> count > 0 && exists|size: nat|
            len == #[trigger] (size * count),
{
    if count > 0 {
        if splits_evenly(len, count) {
            lemma_fundamental_div_mod(len as int, count as int);
            let size = len / (count as nat);
            assert(len == size * count) by (nonlinear_arith)
                requires
                    len == count * size,
            ;
        }
        if exists|size: nat| len == #[trigger] (size * count) {
            let size = choose|size: nat| len == #[trigger] (size * count);
            lemma_mod_multiples_basic(size as int, count as int);
        }
    }
}

/// The vectors of a split take the data from left to right: each value of each vector is the value
/// of the data at its place.
pub proof fn law_split_keeps_places<T>(data: Seq<T>, count: u32, vectors: Seq<Vec<T>>, size: nat)
    requires
        count > 0,
        data.len() == size * count,
        nested(vectors) == split(data, count),
    ensures
        vectors.len() == count,
        forall|i: int| 0 <= i < count ==> (#[trigger] vectors[i])@.len() == size,
        forall|i: int, j: int|
            0 <= i < count && 0 <= j < size ==> (#[trigger] vectors[i]@[j]) == data[i * size + j],
{
    assert(nested(vectors).len() == vectors.len());
    assert forall|i: int| 0 <= i < count implies (#[trigger] vectors[i])@.len() == size by {
        lemma_split_place(data, count, size, i);
        assert(nested(vectors)[i] == vectors[i]@);
    }
    assert forall|i: int, j: int| 0 <= i < count && 0 <= j < size implies (
    #[trigger] vectors[i]@[j]) == data[i * size + j] by {
        lemma_split_place(data, count, size, i);
        assert(nested(vectors)[i] == vectors[i]@);
        assert(split(data, count)[i][j] == data[i * size + j]);
    }
}

/// A vector of a split holds as many values as the others, from its place in the data on.
proof fn lemma_split_place<T>(data: Seq<T>, count: u32, size: nat, i: int)
    requires
        0 <= i < count,
        data.len() == size * count,
    ensures
        split(data, count)[i].len() == size,
        forall|j: int|
            0 <= j < size ==> (#[trigger] split(data, count)[i][j]) == data[i * size + j],
{
    assert(size * count == count * size) by (nonlinear_arith);
    lemma_div_multiples_vanish(size as int, count as int);
    let start = i * size;
    let end = (i + 1) * size;
    assert(0 <= start && end == start + size && end <= count * size) by (nonlinear_arith)
        requires
            0 <= i < count,
            size >= 0,
            start == i * size,
            end == (i + 1) * size,
    ;
    assert(split(data, count)[i] == data.subrange(start, end));
}

/// In the current format, a vector is what stands in the output, whatever the flat fields hold.
pub proof fn law_current_vector_is_kept<T>(output: VectorOutput<T>)
    ensures
        match output.vector {
            Some(vector_output::Vector::Dense(dense)) => content(output@) == Some(
                VectorView::Dense(dense.data@),
            ),
            Some(vector_output::Vector::Sparse(sparse)) => content(output@) == Some(
                VectorView::Sparse { indices: sparse.indices@, values: sparse.values@ },
            ),
            Some(vector_output::Vector::MultiDense(multi)) => {
                &&& content(output@) is Some
                &&& content(output@)->0 is MultiDense
                &&& content(output@)->0->MultiDense_0.len() == multi.vectors@.len()
                &&& forall|i: int|
                    0 <= i < multi.vectors@.len() ==> content(output@)->0->MultiDense_0[i]
                        == #[trigger] multi.vectors@[i].data@
            },
            None => true,
        },
{
}

/// Flat data with a count that its length is a multiple of is a multi-vector, with or without
/// indices: as many vectors as the count says, all equally long, and together the data.
pub proof fn law_flat_multi_vector<T>(output: VectorOutput<T>, size: nat)
    requires
        output.vector is None,
        output.vectors_count is Some,
        output.vectors_count->0 > 0,
        output.data@.len() == size * output.vectors_count->0,
    ensures
        content(output@) is Some,
        content(output@)->0 is MultiDense,
        content(output@)->0->MultiDense_0.len() == output.vectors_count->0,
        forall|i: int|
            0 <= i < output.vectors_count->0 ==> (
            #[trigger] content(output@)->0->MultiDense_0[i]).len() == size,
        content(output@)->0->MultiDense_0.flatten() == output.data@,
{
    let count = output.vectors_count->0;
    law_splits_where_length_is_a_multiple(output.data@.len(), count);
    assert(splits_evenly(output.data@.len(), count)) by {
        assert(output.data@.len() == size * count);
    }
    crate::laws::law_split_is_lossless(output.data@, count);
    assert(size * count == count * size) by (nonlinear_arith);
    lemma_div_multiples_vanish(size as int, count as int);
}

/// A count that the length of flat data is no multiple of counts for nothing: the data is sparse
/// where there are indices, and dense otherwise.
pub proof fn law_flat_sparse_or_dense<T>(output: VectorOutput<T>)
    requires
        output.vector is None,
        output.vectors_count is Some ==> output.vectors_count->0 == 0 || forall|size: nat|
            output.data@.len() != #[trigger] (size * output.vectors_count->0),
    ensures
        match output.indices {
            Some(SparseIndices { data }) => content(output@) == Some(
                VectorView::Sparse { indices: data@, values: output.data@ },
            ),
            None => content(output@) == if output.data@.len() == 0 {
                None
            } else {
                Some(VectorView::Dense(output.data@))
            },
        },
{
    if output.vectors_count is Some {
        law_splits_where_length_is_a_multiple(output.data@.len(), output.vectors_count->0);
    }
}

/// A vector and its value hold the same.
pub proof fn law_vector_values<T>(vector: Vector<T>)
    ensures
        match vector {
            Vector::Dense(data) => vector@ == VectorView::Dense(data@),
            Vector::Sparse(sparse) => vector@ == (VectorView::Sparse {
                indices: sparse.indices@,
                values: sparse.values@,
            }),
            Vector::MultiDense(vectors) => {
                &&& vector@ is MultiDense
                &&& vector@->MultiDense_0.len() == vectors@.len()
                &&& forall|i: int|
                    0 <= i < vectors@.len() ==> vector@->MultiDense_0[i]
                        == #[trigger] vectors@[i]@
            },
        },
{
}

/// Named vectors are valid exactly where no two of them have the same name, however many they are.
pub proof fn law_named_vectors_are_valid<T>(named: NamedVectorsOutput<T>)
    ensures
        named.wf() <==> forall|i: int, j: int|
            0 <= i < j < named.vectors@.len() ==> (#[trigger] named.vectors@[i]).0@ != (
            #[trigger] named.vectors@[j]).0@,
{
    assert forall|i: int| 0 <= i < named.vectors@.len() implies named.vectors@[i].0@ == (
    #[trigger] named@[i]).0 by {}
    if named.wf() {
        assert forall|i: int, j: int| 0 <= i < j < named.vectors@.len() implies (
        #[trigger] named.vectors@[i]).0@ != (#[trigger] named.vectors@[j]).0@ by {
            assert(named@[i].0 != named@[j].0);
        }
    }
    if forall|i: int, j: int|
        0 <= i < j < named.vectors@.len() ==> (#[trigger] named.vectors@[i]).0@ != (
        #[trigger] named.vectors@[j]).0@ {
        assert forall|i: int, j: int| 0 <= i < j < named@.len() implies (#[trigger] named@[i]).0
            != (#[trigger] named@[j]).0 by {
            assert(named.vectors@[i].0@ != named.vectors@[j].0@);
        }
    }
}

/// A lookup table has every named vector with content under its name, and no name besides.
pub proof fn law_table_of_named_vectors<T>(
    named: NamedVectorsOutput<T>,
    table: Map<Seq<char>, Vector<T>>,
)
    requires
        named.wf(),
        table_view(table) == lookup(
            vectors_view(
                Some(VectorsOutput { vectors_options: Some(VectorsOptions::Vectors(named)) }),
            ),
        ),
    ensures
        forall|i: int|
            0 <= i < named.vectors@.len() ==> {
                let (name, output) = #[trigger] named.vectors@[i];
                match content(output@) {
                    Some(vector) => table.contains_key(name@) && table[name@]@ == vector,
                    None => !table.contains_key(name@),
                }
            },
        forall|name: Seq<char>| #[trigger]
            table.contains_key(name) ==> exists|i: int|
                0 <= i < named.vectors@.len() && (#[trigger] named.vectors@[i]).0@ == name,
{
    assert forall|i: int| 0 <= i < named.vectors@.len() implies {
        let (name, output) = #[trigger] named.vectors@[i];
        match content(output@) {
            Some(vector) => table.contains_key(name@) && table[name@]@ == vector,
            None => !table.contains_key(name@),
        }
    } by {
        law_lookup_by_name(named, i);
        let name = named.vectors@[i].0@;
        assert(named@[i].0 == name);
        assert(table_view(table).contains_key(name) == table.contains_key(name));
    }
    assert forall|name: Seq<char>| #[trigger] table.contains_key(name) implies exists|i: int|
        0 <= i < named.vectors@.len() && (#[trigger] named.vectors@[i]).0@ == name by {
        assert(table_view(table).contains_key(name));
        if forall|i: int| 0 <= i < named@.len() ==> (#[trigger] named@[i]).0 != name {
            law_lookup_has_no_more(named, name);
        } else {
            let i = choose|i: int| 0 <= i < named@.len() && (#[trigger] named@[i]).0 == name;
            assert(named.vectors@[i].0@ == name);
        }
    }
}

/// A lookup table has a vector without a name under `vector`, and no name besides.
pub proof fn law_table_of_one_vector<T>(
    output: VectorOutput<T>,
    table: Map<Seq<char>, Vector<T>>,
)
    requires
        table_view(table) == lookup(
            vectors_view(
                Some(VectorsOutput { vectors_options: Some(VectorsOptions::Vector(output)) }),
            ),
        ),
    ensures
        table.contains_key("vector"@) <==> content(output@) is Some,
        content(output@) is Some ==> table["vector"@]@ == content(output@)->0,
        forall|name: Seq<char>| #[trigger] table.contains_key(name) ==> name == "vector"@,
{
    let view = table_view(table);
    assert(view.contains_key("vector"@) == table.contains_key("vector"@));
    if table.contains_key("vector"@) {
        assert(view["vector"@] == table["vector"@]@);
    }
    assert forall|name: Seq<char>| #[trigger] table.contains_key(name) implies name
        == "vector"@ by {
        assert(view.contains_key(name));
    }
}

/// A point without vectors has an empty lookup table.
pub proof fn law_table_without_vectors<T>(table: Map<Seq<char>, Vector<T>>)
    requires
        table_view(table) == lookup(vectors_view(None::<VectorsOutput<T>>)) || table_view(table)
            == lookup(vectors_view(Some(VectorsOutput::<T> { vectors_options: None }))),
    ensures
        forall|name: Seq<char>| !#[trigger] table.contains_key(name),
{
    assert forall|name: Seq<char>| !#[trigger] table.contains_key(name) by {
        assert(table_view(table).contains_key(name) == table.contains_key(name));
    }
}

} // verus!
