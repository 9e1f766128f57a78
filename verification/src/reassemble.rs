//! Result reassembly: the flat answer of the backend is cut into one vector
//! per item.

use crate::error::{PipelineError, PipelineErrorView};
use vstd::arithmetic::div_mod::lemma_fundamental_div_mod;
use vstd::prelude::*;
use vstd::slice::{slice_subrange, slice_to_vec};
use vstd::string::StringExecFns;

verus! {

/// One embedding of the response, with the position of its item in the request.
#[derive(Debug, PartialEq)]
pub struct EmbeddingData<T> {
    pub embedding: Vec<T>,
    pub index: usize,
    pub object: String,
}

/// Mathematical model of an [`EmbeddingData`].
pub struct EmbeddingDataView<T> {
    pub embedding: Seq<T>,
    pub index: nat,
    pub object: Seq<char>,
}

impl<T> View for EmbeddingData<T> {
    type V = EmbeddingDataView<T>;

    open spec fn view(&self) -> EmbeddingDataView<T> {
        EmbeddingDataView {
            embedding: self.embedding@,
            index: self.index as nat,
            object: self.object@,
        }
    }
}

/// The model of each embedding of a list, in order.
pub open spec fn data_view<T>(data: Seq<EmbeddingData<T>>) -> Seq<EmbeddingDataView<T>> {
    Seq::new(data.len(), |i: int| data[i]@)
}

/// Whether `flat_len` values can be dealt out evenly to `num_items` items.
pub open spec fn splits_evenly(flat_len: nat, num_items: nat) -> bool {
    num_items > 0 && flat_len % num_items == 0
}

/// The `i`-th run of `dim` values of `flat`.
pub open spec fn chunk<T>(flat: Seq<T>, dim: nat, i: int) -> Seq<T> {
    flat.subrange(i * dim, i * dim + dim)
}

/// The embedding of item `i` when `flat` is cut into runs of `dim` values.
pub open spec fn embedding_at<T>(flat: Seq<T>, dim: nat, i: int) -> EmbeddingDataView<T> {
    EmbeddingDataView { embedding: chunk(flat, dim, i), index: i as nat, object: "embedding"@ }
}

/// What splitting `flat` among `num_items` items gives: `num_items` vectors
/// of `flat.len() / num_items` values each, in order, each tagged with its
/// position; or a dimension mismatch where the values cannot be dealt out
/// evenly.
pub open spec fn split_spec<T>(flat: Seq<T>, num_items: nat) -> Result<
    Seq<EmbeddingDataView<T>>,
    PipelineErrorView,
> {
    if splits_evenly(flat.len(), num_items) {
        let dim = flat.len() / num_items;
        Ok(Seq::new(num_items, |i: int| embedding_at(flat, dim, i)))
    } else {
        Err(PipelineErrorView::DimensionMismatch { flat_len: flat.len(), num_items })
    }
}

/// Where the values split evenly, the runs tile `flat`: run `i` lies inside it.
pub proof fn lemma_chunk_in_bounds(flat_len: nat, num_items: nat, i: int)
    requires
        splits_evenly(flat_len, num_items),
        0 <= i < num_items,
    ensures
        (flat_len / num_items) * num_items == flat_len,
        0 <= i * (flat_len / num_items),
        i * (flat_len / num_items) + flat_len / num_items <= flat_len,
{
    let dim = flat_len / num_items;
    lemma_fundamental_div_mod(flat_len as int, num_items as int);
    assert(dim * num_items == num_items * dim) by (nonlinear_arith);
    assert(0 <= i * dim && i * dim + dim <= dim * num_items) by (nonlinear_arith)
        requires
            0 <= i < num_items,
            0 <= dim,
    ;
}

/// The vectors of a list of embeddings, in order.
pub open spec fn embeddings_of<T>(data: Seq<EmbeddingDataView<T>>) -> Seq<Seq<T>> {
    Seq::new(data.len(), |i: int| data[i].embedding)
}

/// The first `count` runs of `dim` values, joined, are the first `count * dim`
/// values.
proof fn lemma_chunks_join<T>(flat: Seq<T>, dim: nat, count: nat)
    requires
        count * dim <= flat.len(),
    ensures
        Seq::new(count, |i: int| chunk(flat, dim, i)).flatten() == flat.take((count * dim) as int),
    decreases count,
{
    let runs = Seq::new(count, |i: int| chunk(flat, dim, i));
    if count == 0 {
        assert(runs =~= Seq::<Seq<T>>::empty());
        assert(flat.take(0) =~= Seq::<T>::empty());
    } else {
        let before = (count - 1) as nat;
        assert(before * dim + dim == count * dim) by (nonlinear_arith)
            requires
                before + 1 == count,
        ;
        lemma_chunks_join(flat, dim, before);
        let front = Seq::new(before, |i: int| chunk(flat, dim, i));
        let last = chunk(flat, dim, before as int);
        assert(runs =~= front.push(last));
        front.lemma_flatten_push(last);
        assert(flat.take((before * dim) as int) + last =~= flat.take((count * dim) as int));
    }
}

/// Splitting loses nothing and invents nothing: where the values split
/// evenly there is one vector per item, each of the same length and tagged
/// with its position, and the vectors joined in order are the input again.
pub proof fn lemma_split_preserves_values<T>(flat: Seq<T>, num_items: nat)
    requires
        splits_evenly(flat.len(), num_items),
    ensures
        split_spec(flat, num_items) is Ok,
        split_spec(flat, num_items)->Ok_0.len() == num_items,
        forall|i: int|
            0 <= i < num_items ==> {
                let item = #[trigger] split_spec(flat, num_items)->Ok_0[i];
                &&& item.index == i
                &&& item.embedding.len() == flat.len() / num_items
                &&& item.embedding == chunk(flat, flat.len() / num_items, i)
            },
        embeddings_of(split_spec(flat, num_items)->Ok_0).flatten() == flat,
{
    let dim = flat.len() / num_items;
    let data = split_spec(flat, num_items)->Ok_0;
    assert forall|i: int| 0 <= i < num_items implies (#[trigger] data[i]).embedding.len()
        == dim by {
        lemma_chunk_in_bounds(flat.len(), num_items, i);
    }
    lemma_fundamental_div_mod(flat.len() as int, num_items as int);
    assert(num_items * dim == flat.len()) by (nonlinear_arith)
        requires
            flat.len() == num_items * dim + 0,
    ;
    lemma_chunks_join(flat, dim, num_items);
    assert(embeddings_of(data) =~= Seq::new(num_items, |i: int| chunk(flat, dim, i)));
    assert(flat.take(flat.len() as int) =~= flat);
}

/// Cuts the flat answer of the backend into one embedding per item.
///
/// Item `i` receives the `i`-th run of `flat.len() / num_items` values and the
/// index `i`. Nothing is truncated or padded: where `num_items` is zero or
/// does not divide the number of values, the answer is rejected as a
/// dimension mismatch.
pub fn split<T: Copy>(flat: &[T], num_items: usize) -> (result: Result<
    Vec<EmbeddingData<T>>,
    PipelineError,
>)
    ensures
        result is Ok <==> splits_evenly(flat@.len(), num_items as nat),
        match result {
            Ok(data) => split_spec(flat@, num_items as nat) == Ok::<_, PipelineErrorView>(
                data_view(data@),
            ),
            Err(e) => split_spec(flat@, num_items as nat) == Err::<
                Seq<EmbeddingDataView<T>>,
                _,
            >(e@),
        },
{
    if num_items == 0 || flat.len() % num_items != 0 {
        return Err(PipelineError::DimensionMismatch { flat_len: flat.len(), num_items });
    }
    let dim: usize = flat.len() / num_items;
    let mut data: Vec<EmbeddingData<T>> = Vec::new();
    let mut i: usize = 0;
    while i < num_items
        invariant
            splits_evenly(flat@.len(), num_items as nat),
            dim == flat@.len() / (num_items as nat),
            flat@.len() <= usize::MAX,
            i <= num_items,
            data.len() == i,
            forall|j: int|
                0 <= j < i ==> (#[trigger] data[j])@ == embedding_at(flat@, dim as nat, j),
        decreases num_items - i,
    {
        proof {
            lemma_chunk_in_bounds(flat@.len(), num_items as nat, i as int);
        }
        let start: usize = i * dim;
        let embedding = slice_to_vec(slice_subrange(flat, start, start + dim));
        data.push(EmbeddingData { embedding, index: i, object: String::from_str("embedding") });
        i += 1;
    }
    proof {
        assert(data_view(data@) =~= Seq::new(
            num_items as nat,
            |i: int| embedding_at(flat@, dim as nat, i),
        ));
    }
    Ok(data)
}

} // verus!
