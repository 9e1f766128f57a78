//! Batch assembly: many token sequences become one contiguous id buffer and
//! one length per item.

use crate::error::{PipelineError, PipelineErrorView};
use vstd::prelude::*;

verus! {

/// The token ids that the tokenizer produced for one input item, in its order.
pub type TokenSequence = Vec<u32>;

/// Sum of a sequence of lengths.
pub open spec fn total(lengths: Seq<nat>) -> nat
    decreases lengths.len(),
{
    if lengths.len() == 0 {
        0
    } else {
        total(lengths.drop_last()) + lengths.last()
    }
}

/// The lengths of a batch as natural numbers.
pub open spec fn lengths_view(lengths: Seq<usize>) -> Seq<nat> {
    lengths.map_values(|l: usize| l as nat)
}

/// The length of each sequence, in order.
pub open spec fn lengths_of(sequences: Seq<Seq<u32>>) -> Seq<nat> {
    Seq::new(sequences.len(), |i: int| sequences[i].len())
}

/// Mathematical model of a [`BatchBuffer`].
pub struct BatchBufferView {
    /// All token ids, item after item.
    pub ids: Seq<u32>,
    /// How many of the ids belong to each item.
    pub lengths: Seq<nat>,
}

impl BatchBufferView {
    /// The lengths account for every id, and for nothing more.
    pub open spec fn well_formed(self) -> bool {
        total(self.lengths) == self.ids.len()
    }

    /// Number of items in the batch.
    pub open spec fn num_items(self) -> nat {
        self.lengths.len()
    }

    /// Position in `ids` at which item `i` starts.
    pub open spec fn offset(self, i: int) -> nat {
        total(self.lengths.take(i))
    }

    /// The ids of item `i`, cut out of the buffer by the recorded lengths.
    pub open spec fn item(self, i: int) -> Seq<u32> {
        self.ids.subrange(self.offset(i) as int, (self.offset(i) + self.lengths[i]) as int)
    }
}

/// The batch that a list of token sequences assembles to: the sequences
/// concatenated in their order, and the length of each in the same order.
pub open spec fn assembled(sequences: Seq<Seq<u32>>) -> BatchBufferView {
    BatchBufferView { ids: sequences.flatten(), lengths: lengths_of(sequences) }
}

/// One flattened batch, as the inference backend takes it.
#[derive(Debug, PartialEq, Eq)]
pub struct BatchBuffer {
    ids: Vec<u32>,
    lengths: Vec<usize>,
}

impl View for BatchBuffer {
    type V = BatchBufferView;

    closed spec fn view(&self) -> BatchBufferView {
        BatchBufferView { ids: self.ids@, lengths: lengths_view(self.lengths@) }
    }
}

impl BatchBuffer {
    #[verifier::type_invariant]
    spec fn consistent(self) -> bool {
        self@.well_formed()
    }

    /// The flattened token ids.
    pub fn ids(&self) -> (ids: &Vec<u32>)
        ensures
            ids@ == self@.ids,
            self@.well_formed(),
    {
        proof {
            use_type_invariant(self);
        }
        &self.ids
    }

    /// The number of ids of each item.
    pub fn lengths(&self) -> (lengths: &Vec<usize>)
        ensures
            lengths_view(lengths@) == self@.lengths,
            lengths@.len() == self@.num_items(),
            self@.well_formed(),
    {
        proof {
            use_type_invariant(self);
        }
        &self.lengths
    }

    /// Number of items in the batch.
    pub fn num_items(&self) -> (n: usize)
        ensures
            n == self@.num_items(),
    {
        self.lengths.len()
    }

    /// Number of token ids over all items.
    pub fn total_tokens(&self) -> (n: usize)
        ensures
            n == self@.ids.len(),
            n == total(self@.lengths),
    {
        proof {
            use_type_invariant(self);
        }
        self.ids.len()
    }
}

/// Appending one sequence adds its length to the total.
pub proof fn lemma_total_push(lengths: Seq<nat>, last: nat)
    ensures
        total(lengths.push(last)) == total(lengths) + last,
{
    assert(lengths.push(last).drop_last() =~= lengths);
}

/// The lengths of an assembled batch sum to the number of its ids.
pub proof fn lemma_assembled_well_formed(sequences: Seq<Seq<u32>>)
    ensures
        assembled(sequences).well_formed(),
    decreases sequences.len(),
{
    if sequences.len() == 0 {
        assert(lengths_of(sequences) =~= Seq::<nat>::empty());
    } else {
        let front = sequences.drop_last();
        let last = sequences.last();
        lemma_assembled_well_formed(front);
        assert(sequences =~= front.push(last));
        front.lemma_flatten_push(last);
        assert(lengths_of(sequences) =~= lengths_of(front).push(last.len()));
        lemma_total_push(lengths_of(front), last.len());
    }
}

/// The recorded lengths cut the buffer at the item boundaries: item `i` of an
/// assembled batch is the `i`-th sequence that went in.
pub proof fn lemma_assembled_item(sequences: Seq<Seq<u32>>, i: int)
    requires
        0 <= i < sequences.len(),
    ensures
        assembled(sequences).item(i) == sequences[i],
        assembled(sequences).offset(i) + sequences[i].len() <= assembled(sequences).ids.len(),
    decreases sequences.len(),
{
    let front = sequences.drop_last();
    let last = sequences.last();
    let batch = assembled(sequences);
    assert(sequences =~= front.push(last));
    front.lemma_flatten_push(last);
    assert(batch.ids == front.flatten() + last);
    if i == sequences.len() - 1 {
        assert(batch.lengths.take(i) =~= lengths_of(front));
        lemma_assembled_well_formed(front);
        assert(batch.item(i) =~= last);
    } else {
        lemma_assembled_item(front, i);
        assert(batch.lengths.take(i) =~= assembled(front).lengths.take(i));
        assert(batch.lengths[i] == assembled(front).lengths[i]);
        assert(batch.item(i) =~= assembled(front).item(i));
    }
}

/// Flattens the token sequences of a request into one batch.
///
/// The ids are concatenated in the order of the items, and the length of each
/// sequence is recorded in the same order. A list without items is rejected; an
/// item without tokens is not.
pub fn assemble(sequences: &Vec<TokenSequence>) -> (batch: Result<BatchBuffer, PipelineError>)
    ensures
        sequences.len() == 0 ==> batch is Err && batch->Err_0@ == PipelineErrorView::EmptyBatch,
        sequences.len() > 0 ==> batch is Ok && batch->Ok_0@ == assembled(sequences.deep_view()),
{
    if sequences.len() == 0 {
        return Err(PipelineError::EmptyBatch);
    }
    let ghost model = sequences.deep_view();
    let mut ids: Vec<u32> = Vec::new();
    let mut lengths: Vec<usize> = Vec::new();
    let mut i: usize = 0;
    proof {
        assert(model.take(0) =~= Seq::<Seq<u32>>::empty());
        assert(lengths_of(model.take(0)) =~= Seq::<nat>::empty());
        assert(lengths_view(lengths@) =~= Seq::<nat>::empty());
    }
    while i < sequences.len()
        invariant
            i <= sequences.len(),
            model == sequences.deep_view(),
            ids@ == model.take(i as int).flatten(),
            lengths_view(lengths@) == lengths_of(model.take(i as int)),
        decreases sequences.len() - i,
    {
        let sequence = &sequences[i];
        let ghost before = ids@;
        ids.extend_from_slice(sequence.as_slice());
        lengths.push(sequence.len());
        proof {
            let done = model.take(i as int);
            assert(model[i as int] == sequence@);
            assert(model.take(i + 1) =~= done.push(sequence@));
            done.lemma_flatten_push(sequence@);
            assert(ids@ =~= before + sequence@);
            assert(lengths_view(lengths@) =~= lengths_of(done).push(
                sequence@.len(),
            ));
            assert(lengths_of(model.take(i + 1)) =~= lengths_of(done).push(sequence@.len()));
        }
        i += 1;
    }
    proof {
        assert(model.take(i as int) =~= model);
        lemma_assembled_well_formed(model);
    }
    Ok(BatchBuffer { ids, lengths })
}

} // verus!
