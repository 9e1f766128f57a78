//! The service as its network handler sees it: the shared state, and the one
//! operation that answers an embedding request.

use crate::batch::{assembled, lengths_view, total, BatchBufferView};
use crate::error::{ErrorClass, PipelineError};
use crate::input::InputData;
use crate::orchestrator::{
    lemma_script_runs_to_the_end, lemma_script_unfolds, lemma_served_shape, served, Event,
    Request,
};
use crate::response::{response_view, EmbeddingOutput};
use crate::tokenization::{gathered, outcomes_view, tokenize_batch, CheckedTokenizer};
use std::sync::Arc;
use vstd::pervasive::unreached;
use vstd::prelude::*;

verus! {

/// The tokenizer, with its settings checked, and the handle of the loaded
/// model. Both are made once, when the service starts, and shared by all
/// requests.
pub struct ModelContext<M> {
    pub tokenizer: CheckedTokenizer,
    pub model: M,
}

/// What every request handler shares.
pub struct AppState<M> {
    /// Name under which the model is served.
    pub name: String,
    pub ctx: Arc<ModelContext<M>>,
}

/// The model of what a backend said.
pub open spec fn reply_view<T>(reply: Result<Vec<T>, String>) -> Result<Seq<T>, Seq<char>> {
    match reply {
        Ok(flat) => Ok(flat@),
        Err(detail) => Err(detail@),
    }
}

/// Whether `lengths` accounts for every id of `ids`: the shape in which alone a
/// batch is handed to a backend.
pub open spec fn is_sound_batch(ids: Seq<u32>, lengths: Seq<usize>) -> bool {
    total(lengths_view(lengths)) == ids.len()
}

/// Whether `reply` is something that `backend` may answer to `batch`.
pub open spec fn answers<M, T, F: Fn(&M, &Vec<u32>, &Vec<usize>) -> Result<Vec<T>, String>>(
    backend: F,
    model: &M,
    batch: BatchBufferView,
    reply: Result<Seq<T>, Seq<char>>,
) -> bool {
    exists|ids: &Vec<u32>, lengths: &Vec<usize>, said: Result<Vec<T>, String>|
        {
            &&& ids@ == batch.ids
            &&& lengths_view(lengths@) == batch.lengths
            &&& #[trigger] backend.ensures((model, ids, lengths), said)
            &&& reply_view(said) == reply
        }
}

/// Whether a request for `items` can have come to `result`, given that the
/// tokenizer said `outcomes` and the backend `reply`.
pub open spec fn explains<M, T, F: Fn(&M, &Vec<u32>, &Vec<usize>) -> Result<Vec<T>, String>>(
    state: &AppState<M>,
    backend: F,
    items: Seq<Seq<char>>,
    outcomes: Seq<Result<Seq<u32>, Seq<char>>>,
    reply: Result<Seq<T>, Seq<char>>,
    result: Result<EmbeddingOutput<T>, PipelineError>,
) -> bool {
    &&& outcomes.len() == items.len()
    &&& response_view(result) == served(state.name@, items, outcomes, reply)
    &&& items.len() > 0 && gathered(outcomes) is Ok ==> answers(
        backend,
        &state.ctx.model,
        assembled(gathered(outcomes)->Ok_0),
        reply,
    )
}

/// Answers one embedding request.
///
/// The items are tokenized in parallel, flattened into one batch, handed to
/// `backend` together with the model handle, and the backend's answer is dealt
/// out to the items in their order. The backend is called at most once, and
/// only with a batch whose lengths account for every id.
///
/// A request without items fails as an empty batch before the tokenizer runs.
/// Beyond that the tokenizer and the backend decide: the result is what
/// [`served`] gives for what the tokenizer said of each item and for what the
/// backend answered to the assembled batch.
///
/// Admission is the caller's business: a handler calls this once the request
/// holds its slot, and gives the slot back when the call has returned.
pub fn handle_embedding_request<M, T, F>(
    state: &AppState<M>,
    input: InputData,
    backend: F,
) -> (result: Result<EmbeddingOutput<T>, PipelineError>) where
    T: Copy,
    F: Fn(&M, &Vec<u32>, &Vec<usize>) -> Result<Vec<T>, String>,

    requires
        forall|ids: &Vec<u32>, lengths: &Vec<usize>|
            is_sound_batch(ids@, lengths@) ==> #[trigger] backend.requires(
                (&state.ctx.model, ids, lengths),
            ),
    ensures
        input@.len() == 0 ==> result matches Err(PipelineError::EmptyBatch),
        result matches Ok(output) ==> {
            &&& input@.len() > 0
            &&& output@.model == state.name@
            &&& output@.object == "list"@
            &&& output@.data.len() == input@.len()
            &&& forall|i: int| 0 <= i < input@.len() ==> (#[trigger] output@.data[i]).index == i
        },
        result matches Err(error) ==> (error@.class() == ErrorClass::ClientInput <==> input@.len()
            == 0),
        exists|outcomes: Seq<Result<Seq<u32>, Seq<char>>>, reply: Result<Seq<T>, Seq<char>>|
            #[trigger] explains(state, backend, input@, outcomes, reply, result),
{
    let request = Request::<T>::receive(state.name.clone(), input);
    let ghost start = request@;
    let request = request.step(Event::Admit);
    let request = request.step(Event::Begin);
    // A request that has failed ignores what follows, so the tokenizer and the
    // backend are only asked while the request waits for them.
    let outcomes = match request.pending_items() {
        Some(items) => tokenize_batch(&state.ctx.tokenizer, items),
        None => Vec::new(),
    };
    let ghost said = outcomes_view(outcomes@);
    let request = request.step(Event::Tokenized(outcomes));
    let request = request.step(Event::Assemble);
    let reply = match request.pending_batch() {
        Some(batch) => backend(&state.ctx.model, batch.ids(), batch.lengths()),
        None => Err(String::new()),
    };
    let ghost answered = reply_view(reply);
    let request = request.step(Event::Inferred(reply));
    let request = request.step(Event::Reassemble);
    proof {
        lemma_script_unfolds(start, said, answered);
        lemma_script_runs_to_the_end(start.model, input@, said, answered);
        lemma_served_shape(start.model, input@, said, answered);
    }
    match request.into_outcome() {
        Some(result) => {
            proof {
                assert(explains(state, backend, input@, said, answered, result));
            }
            result
        },
        None => unreached(),
    }
}

} // verus!
