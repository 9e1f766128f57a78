//! The life of one request, as a state machine. The machine decides; whoever
//! drives it waits for a slot, runs the tokenizer and calls the backend, and
//! reports back what happened.

use crate::batch::{
    assemble, assembled, lemma_assembled_item, lemma_assembled_well_formed, lengths_of, total,
    BatchBuffer, BatchBufferView, TokenSequence,
};
use crate::error::{ErrorClass, PipelineError, PipelineErrorView};
use crate::input::InputData;
use crate::reassemble::{chunk, embeddings_of, lemma_split_preserves_values, splits_evenly};
use crate::response::{respond, response, EmbeddingOutput, EmbeddingOutputView};
use crate::tokenization::{gather, gathered, lemma_gathered, outcomes_view, TokenizationOutcome};
use vstd::prelude::*;

verus! {

/// Where a request stands.
#[derive(Clone, Copy, Debug, PartialEq, Eq, Structural)]
pub enum Stage {
    Received,
    Admitted,
    Tokenizing,
    Assembling,
    Inferring,
    Reassembling,
    Completed,
    Failed,
}

impl Stage {
    /// A request that completed or failed goes nowhere else.
    pub open spec fn is_terminal(self) -> bool {
        self == Stage::Completed || self == Stage::Failed
    }

    /// The stage that follows when nothing goes wrong.
    pub open spec fn successor(self) -> Stage {
        match self {
            Stage::Received => Stage::Admitted,
            Stage::Admitted => Stage::Tokenizing,
            Stage::Tokenizing => Stage::Assembling,
            Stage::Assembling => Stage::Inferring,
            Stage::Inferring => Stage::Reassembling,
            Stage::Reassembling => Stage::Completed,
            Stage::Completed => Stage::Completed,
            Stage::Failed => Stage::Failed,
        }
    }
}

/// What moves a request on.
#[derive(Debug)]
pub enum Event<T> {
    /// The admission controller granted a slot.
    Admit,
    /// Work on the admitted request begins.
    Begin,
    /// The tokenizer has run on every item; the outcomes are in request order.
    Tokenized(Vec<TokenizationOutcome>),
    /// The token sequences are to be flattened into a batch.
    Assemble,
    /// The backend answered, or reported a fault.
    Inferred(Result<Vec<T>, String>),
    /// The backend's answer is to be dealt out to the items.
    Reassemble,
}

/// Mathematical model of an [`Event`].
pub enum EventView<T> {
    Admit,
    Begin,
    Tokenized(Seq<Result<Seq<u32>, Seq<char>>>),
    Assemble,
    Inferred(Result<Seq<T>, Seq<char>>),
    Reassemble,
}

impl<T> View for Event<T> {
    type V = EventView<T>;

    open spec fn view(&self) -> EventView<T> {
        match self {
            Event::Admit => EventView::Admit,
            Event::Begin => EventView::Begin,
            Event::Tokenized(outcomes) => EventView::Tokenized(outcomes_view(outcomes@)),
            Event::Assemble => EventView::Assemble,
            Event::Inferred(Ok(flat)) => EventView::Inferred(Ok(flat@)),
            Event::Inferred(Err(detail)) => EventView::Inferred(Err(detail@)),
            Event::Reassemble => EventView::Reassemble,
        }
    }
}

/// The stage of a request, with what the request holds at that stage.
#[derive(Debug)]
pub enum Phase<T> {
    Received { items: Vec<String> },
    Admitted { items: Vec<String> },
    Tokenizing { items: Vec<String> },
    Assembling { sequences: Vec<TokenSequence> },
    Inferring { batch: BatchBuffer },
    Reassembling { num_items: usize, total_tokens: usize, flat: Vec<T> },
    Completed { output: EmbeddingOutput<T> },
    Failed { error: PipelineError },
}

/// Mathematical model of a [`Phase`].
pub enum PhaseView<T> {
    Received { items: Seq<Seq<char>> },
    Admitted { items: Seq<Seq<char>> },
    Tokenizing { items: Seq<Seq<char>> },
    Assembling { sequences: Seq<Seq<u32>> },
    Inferring { batch: BatchBufferView },
    Reassembling { num_items: nat, total_tokens: nat, flat: Seq<T> },
    Completed { output: EmbeddingOutputView<T> },
    Failed { error: PipelineErrorView },
}

impl<T> PhaseView<T> {
    pub open spec fn stage(self) -> Stage {
        match self {
            PhaseView::Received { .. } => Stage::Received,
            PhaseView::Admitted { .. } => Stage::Admitted,
            PhaseView::Tokenizing { .. } => Stage::Tokenizing,
            PhaseView::Assembling { .. } => Stage::Assembling,
            PhaseView::Inferring { .. } => Stage::Inferring,
            PhaseView::Reassembling { .. } => Stage::Reassembling,
            PhaseView::Completed { .. } => Stage::Completed,
            PhaseView::Failed { .. } => Stage::Failed,
        }
    }
}

impl<T> View for Phase<T> {
    type V = PhaseView<T>;

    open spec fn view(&self) -> PhaseView<T> {
        match self {
            Phase::Received { items } => PhaseView::Received { items: items.deep_view() },
            Phase::Admitted { items } => PhaseView::Admitted { items: items.deep_view() },
            Phase::Tokenizing { items } => PhaseView::Tokenizing { items: items.deep_view() },
            Phase::Assembling { sequences } => PhaseView::Assembling {
                sequences: sequences.deep_view(),
            },
            Phase::Inferring { batch } => PhaseView::Inferring { batch: batch@ },
            Phase::Reassembling { num_items, total_tokens, flat } => PhaseView::Reassembling {
                num_items: *num_items as nat,
                total_tokens: *total_tokens as nat,
                flat: flat@,
            },
            Phase::Completed { output } => PhaseView::Completed { output: output@ },
            Phase::Failed { error } => PhaseView::Failed { error: error@ },
        }
    }
}

/// Mathematical model of a [`Request`].
pub struct RequestView<T> {
    /// Name of the model that serves the request.
    pub model: Seq<char>,
    pub phase: PhaseView<T>,
}

impl<T> RequestView<T> {
    /// A request as it comes in.
    pub open spec fn received(model: Seq<char>, items: Seq<Seq<char>>) -> RequestView<T> {
        RequestView { model, phase: PhaseView::Received { items } }
    }

    pub open spec fn stage(self) -> Stage {
        self.phase.stage()
    }

    /// The request after `event`. An event that does not belong to the stage of
    /// the request changes nothing, and neither does a list of outcomes that has
    /// not one outcome per item.
    pub open spec fn step(self, event: EventView<T>) -> RequestView<T> {
        let phase = match (self.phase, event) {
            (PhaseView::Received { items }, EventView::Admit) => PhaseView::Admitted { items },
            (PhaseView::Admitted { items }, EventView::Begin) => if items.len() == 0 {
                PhaseView::Failed { error: PipelineErrorView::EmptyBatch }
            } else {
                PhaseView::Tokenizing { items }
            },
            (PhaseView::Tokenizing { items }, EventView::Tokenized(outcomes)) => if outcomes.len()
                != items.len() {
                self.phase
            } else {
                match gathered(outcomes) {
                    Ok(sequences) => PhaseView::Assembling { sequences },
                    Err(error) => PhaseView::Failed { error },
                }
            },
            (PhaseView::Assembling { sequences }, EventView::Assemble) => if sequences.len()
                == 0 {
                PhaseView::Failed { error: PipelineErrorView::EmptyBatch }
            } else {
                PhaseView::Inferring { batch: assembled(sequences) }
            },
            (PhaseView::Inferring { batch }, EventView::Inferred(Ok(flat))) => {
                PhaseView::Reassembling {
                    num_items: batch.num_items(),
                    total_tokens: batch.ids.len(),
                    flat,
                }
            },
            (PhaseView::Inferring { .. }, EventView::Inferred(Err(detail))) => PhaseView::Failed {
                error: PipelineErrorView::Inference { detail },
            },
            (
                PhaseView::Reassembling { num_items, total_tokens, flat },
                EventView::Reassemble,
            ) => match response(self.model, num_items, total_tokens, flat) {
                Ok(output) => PhaseView::Completed { output },
                Err(error) => PhaseView::Failed { error },
            },
            (phase, _) => phase,
        };
        RequestView { model: self.model, phase }
    }

    /// The request after the given events, in order.
    pub open spec fn run(self, events: Seq<EventView<T>>) -> RequestView<T>
        decreases events.len(),
    {
        if events.len() == 0 {
            self
        } else {
            self.run(events.drop_last()).step(events.last())
        }
    }

    /// What the caller is told, once the request has ended.
    pub open spec fn outcome(self) -> Option<Result<EmbeddingOutputView<T>, PipelineErrorView>> {
        match self.phase {
            PhaseView::Completed { output } => Some(Ok(output)),
            PhaseView::Failed { error } => Some(Err(error)),
            _ => None,
        }
    }
}

/// The events of a request that is driven from arrival to its end without
/// interruption.
pub open spec fn script<T>(
    outcomes: Seq<Result<Seq<u32>, Seq<char>>>,
    reply: Result<Seq<T>, Seq<char>>,
) -> Seq<EventView<T>> {
    seq![
        EventView::Admit,
        EventView::Begin,
        EventView::Tokenized(outcomes),
        EventView::Assemble,
        EventView::Inferred(reply),
        EventView::Reassemble,
    ]
}

/// What a request comes to, given what the tokenizer said of each of its
/// items and what the backend answered.
///
/// A request without items fails as an empty batch, whatever the tokenizer and
/// the backend would have said. Otherwise the first rejected item fails the
/// request; then a fault of the backend does; then an answer that cannot be
/// dealt out evenly does. What is left is the response.
pub open spec fn served<T>(
    model: Seq<char>,
    items: Seq<Seq<char>>,
    outcomes: Seq<Result<Seq<u32>, Seq<char>>>,
    reply: Result<Seq<T>, Seq<char>>,
) -> Result<EmbeddingOutputView<T>, PipelineErrorView> {
    if items.len() == 0 {
        Err(PipelineErrorView::EmptyBatch)
    } else {
        match gathered(outcomes) {
            Err(error) => Err(error),
            Ok(sequences) => match reply {
                Err(detail) => Err(PipelineErrorView::Inference { detail }),
                Ok(flat) => response(model, sequences.len(), sequences.flatten().len(), flat),
            },
        }
    }
}

/// Running one more event is one more step.
pub proof fn lemma_run_push<T>(
    state: RequestView<T>,
    events: Seq<EventView<T>>,
    event: EventView<T>,
)
    ensures
        state.run(events.push(event)) == state.run(events).step(event),
{
    assert(events.push(event).drop_last() =~= events);
}

/// A request that completed or failed stays as it is, whatever comes after.
pub proof fn lemma_terminal_is_final<T>(state: RequestView<T>, events: Seq<EventView<T>>)
    requires
        state.stage().is_terminal(),
    ensures
        state.run(events) == state,
    decreases events.len(),
{
    if events.len() > 0 {
        lemma_terminal_is_final(state, events.drop_last());
    }
}

/// No stage is skipped and none is entered twice: one event leaves the request
/// where it is, moves it to the next stage, or fails it. The model name never
/// changes.
pub proof fn lemma_step_follows_the_order<T>(state: RequestView<T>, event: EventView<T>)
    ensures
        state.step(event).model == state.model,
        state.step(event).stage() == state.stage() || state.step(event).stage()
            == state.stage().successor() || state.step(event).stage() == Stage::Failed,
        state.step(event).stage() == state.stage() ==> state.step(event) == state,
{
}

/// A request without items fails as the caller's error before it reaches the
/// tokenizer: whatever events arrive, it is never found tokenizing or beyond,
/// and where it has failed, it has failed as an empty batch.
pub proof fn lemma_empty_request_never_reaches_tokenization<T>(
    model: Seq<char>,
    events: Seq<EventView<T>>,
)
    ensures
        ({
            let end = RequestView::<T>::received(model, Seq::empty()).run(events);
            &&& end.stage() == Stage::Received || end.stage() == Stage::Admitted || end.stage()
                == Stage::Failed
            &&& end.stage() == Stage::Failed ==> end.phase == (PhaseView::<T>::Failed {
                error: PipelineErrorView::EmptyBatch,
            })
            &&& end.phase matches PhaseView::Received { items } ==> items.len() == 0
            &&& end.phase matches PhaseView::Admitted { items } ==> items.len() == 0
        }),
    decreases events.len(),
{
    if events.len() > 0 {
        lemma_empty_request_never_reaches_tokenization(model, events.drop_last());
    }
}

/// The run of a request that is driven through without interruption, step by
/// step.
pub proof fn lemma_script_unfolds<T>(
    start: RequestView<T>,
    outcomes: Seq<Result<Seq<u32>, Seq<char>>>,
    reply: Result<Seq<T>, Seq<char>>,
)
    ensures
        start.run(script(outcomes, reply)) == start.step(EventView::Admit).step(
            EventView::Begin,
        ).step(EventView::Tokenized(outcomes)).step(EventView::Assemble).step(
            EventView::Inferred(reply),
        ).step(EventView::Reassemble),
{
    let e0 = Seq::<EventView<T>>::empty();
    let e1 = e0.push(EventView::Admit);
    let e2 = e1.push(EventView::Begin);
    let e3 = e2.push(EventView::Tokenized(outcomes));
    let e4 = e3.push(EventView::Assemble);
    let e5 = e4.push(EventView::Inferred(reply));
    let e6 = e5.push(EventView::Reassemble);
    assert(script(outcomes, reply) =~= e6);
    assert(start.run(e0) == start);
    lemma_run_push(start, e0, EventView::Admit);
    lemma_run_push(start, e1, EventView::Begin);
    lemma_run_push(start, e2, EventView::Tokenized(outcomes));
    lemma_run_push(start, e3, EventView::Assemble);
    lemma_run_push(start, e4, EventView::Inferred(reply));
    lemma_run_push(start, e5, EventView::Reassemble);
}

/// A request that is driven through without interruption ends, and ends as
/// [`served`] says.
pub proof fn lemma_script_runs_to_the_end<T>(
    model: Seq<char>,
    items: Seq<Seq<char>>,
    outcomes: Seq<Result<Seq<u32>, Seq<char>>>,
    reply: Result<Seq<T>, Seq<char>>,
)
    requires
        outcomes.len() == items.len(),
    ensures
        RequestView::<T>::received(model, items).run(script(outcomes, reply)).outcome() == Some(
            served(model, items, outcomes, reply),
        ),
{
    lemma_script_unfolds(RequestView::<T>::received(model, items), outcomes, reply);
    lemma_gathered(outcomes);
    if items.len() > 0 {
        if let Ok(sequences) = gathered(outcomes) {
            assert(assembled(sequences).num_items() == sequences.len());
        }
    }
}

/// What holds of every request, whatever the tokenizer and the backend said.
///
/// A response has one embedding per item, each of the same length and tagged
/// with its position, under the name of the model. A failure is the caller's
/// fault exactly when the request had no items; a tokenization failure names
/// an item of the request; a dimension mismatch reports the number of items and
/// the length of an answer that they do not divide.
pub proof fn lemma_served_shape<T>(
    model: Seq<char>,
    items: Seq<Seq<char>>,
    outcomes: Seq<Result<Seq<u32>, Seq<char>>>,
    reply: Result<Seq<T>, Seq<char>>,
)
    requires
        outcomes.len() == items.len(),
    ensures
        match served(model, items, outcomes, reply) {
            Ok(output) => {
                &&& items.len() > 0
                &&& reply is Ok
                &&& output.model == model
                &&& output.object == "list"@
                &&& output.prompt_tokens == output.total_tokens
                &&& output.data.len() == items.len()
                &&& forall|i: int|
                    0 <= i < items.len() ==> (#[trigger] output.data[i]).index == i
                        && output.data[i].embedding.len() == reply->Ok_0.len() / items.len()
                &&& embeddings_of(output.data).flatten() == reply->Ok_0
            },
            Err(error) => {
                &&& error.class() == ErrorClass::ClientInput <==> items.len() == 0
                &&& items.len() == 0 ==> error == PipelineErrorView::EmptyBatch
                &&& error matches PipelineErrorView::Tokenization { index, .. } ==> index
                    < items.len()
                &&& error matches PipelineErrorView::Inference { detail } ==> reply == Err::<
                    Seq<T>,
                    _,
                >(detail)
                &&& error matches PipelineErrorView::DimensionMismatch { flat_len, num_items }
                    ==> {
                    &&& num_items == items.len()
                    &&& reply matches Ok(flat)
                    &&& flat.len() == flat_len
                    &&& flat_len % num_items != 0
                }
            },
        },
{
    lemma_gathered(outcomes);
    if items.len() > 0 {
        if let Ok(sequences) = gathered(outcomes) {
            if let Ok(flat) = reply {
                if splits_evenly(flat.len(), items.len()) {
                    lemma_split_preserves_values(flat, items.len());
                }
            }
        }
    }
}

/// Order survives the pipeline. Where every item of a request was tokenized
/// and the backend answered with a number of values that the number of items
/// divides, the request completes with one embedding per item: the embedding
/// at position `i` carries the index `i` and holds the `i`-th run of the
/// answer, and what the backend was given at position `i` are the tokens of
/// item `i`. The runs joined in order are the whole answer, and the token count
/// is the number of ids of all items.
pub proof fn lemma_order_survives_the_pipeline<T>(
    model: Seq<char>,
    items: Seq<Seq<char>>,
    sequences: Seq<Seq<u32>>,
    flat: Seq<T>,
)
    requires
        items.len() > 0,
        sequences.len() == items.len(),
        splits_evenly(flat.len(), items.len()),
    ensures
        ({
            let outcomes = Seq::new(sequences.len(), |i: int| Ok::<_, Seq<char>>(sequences[i]));
            let dim = flat.len() / items.len();
            &&& served(model, items, outcomes, Ok(flat)) matches Ok(output)
            &&& output.model == model
            &&& output.total_tokens == total(lengths_of(sequences))
            &&& output.data.len() == items.len()
            &&& forall|i: int|
                0 <= i < items.len() ==> (#[trigger] output.data[i]).index == i
                    && output.data[i].embedding == chunk(flat, dim, i)
            &&& embeddings_of(output.data).flatten() == flat
            &&& forall|i: int|
                0 <= i < items.len() ==> #[trigger] assembled(sequences).item(i) == sequences[i]
        }),
{
    let outcomes = Seq::new(sequences.len(), |i: int| Ok::<_, Seq<char>>(sequences[i]));
    assert forall|i: int| 0 <= i < items.len() implies #[trigger] assembled(sequences).item(i)
        == sequences[i] by {
        lemma_assembled_item(sequences, i);
    }
    lemma_gathered(outcomes);
    assert(gathered(outcomes) is Ok) by {
        if gathered(outcomes) is Err {
            let index = gathered(outcomes)->Err_0->Tokenization_index as int;
            assert(outcomes[index] is Err);
        }
    }
    assert(gathered(outcomes)->Ok_0 =~= sequences) by {
        let got = gathered(outcomes)->Ok_0;
        assert forall|i: int| 0 <= i < sequences.len() implies got[i] == sequences[i] by {
            assert(outcomes[i] == Ok::<_, Seq<char>>(got[i]));
        }
    }
    lemma_assembled_well_formed(sequences);
    lemma_split_preserves_values(flat, items.len());
}

/// An answer of the backend that cannot be dealt out evenly fails the
/// request. Nothing is cut off and nothing is filled in.
pub proof fn lemma_uneven_answer_fails<T>(
    model: Seq<char>,
    items: Seq<Seq<char>>,
    outcomes: Seq<Result<Seq<u32>, Seq<char>>>,
    flat: Seq<T>,
)
    requires
        items.len() > 0,
        outcomes.len() == items.len(),
        gathered(outcomes) is Ok,
        flat.len() % items.len() != 0,
    ensures
        served(model, items, outcomes, Ok(flat)) == Err::<EmbeddingOutputView<T>, _>(
            PipelineErrorView::DimensionMismatch { flat_len: flat.len(), num_items: items.len() },
        ),
{
    lemma_gathered(outcomes);
}

/// One request on its way through the pipeline.
#[derive(Debug)]
pub struct Request<T> {
    model: String,
    phase: Phase<T>,
}

impl<T> View for Request<T> {
    type V = RequestView<T>;

    closed spec fn view(&self) -> RequestView<T> {
        RequestView { model: self.model@, phase: self.phase@ }
    }
}

impl<T: Copy> Request<T> {
    /// Takes in a request for the model named `model`.
    pub fn receive(model: String, input: InputData) -> (request: Request<T>)
        ensures
            request@ == RequestView::<T>::received(model@, input@),
    {
        Request { model, phase: Phase::Received { items: input.into_items() } }
    }

    /// Where the request stands.
    pub fn stage(&self) -> (stage: Stage)
        ensures
            stage == self@.stage(),
    {
        match &self.phase {
            Phase::Received { .. } => Stage::Received,
            Phase::Admitted { .. } => Stage::Admitted,
            Phase::Tokenizing { .. } => Stage::Tokenizing,
            Phase::Assembling { .. } => Stage::Assembling,
            Phase::Inferring { .. } => Stage::Inferring,
            Phase::Reassembling { .. } => Stage::Reassembling,
            Phase::Completed { .. } => Stage::Completed,
            Phase::Failed { .. } => Stage::Failed,
        }
    }

    /// The items that wait for the tokenizer, while the request is tokenizing.
    pub fn pending_items(&self) -> (items: Option<&Vec<String>>)
        ensures
            match items {
                Some(items) => self@.phase == (PhaseView::<T>::Tokenizing {
                    items: items.deep_view(),
                }),
                None => self@.stage() != Stage::Tokenizing,
            },
    {
        match &self.phase {
            Phase::Tokenizing { items } => Some(items),
            _ => None,
        }
    }

    /// The batch that waits for the backend, while the request is inferring.
    pub fn pending_batch(&self) -> (batch: Option<&BatchBuffer>)
        ensures
            match batch {
                Some(batch) => self@.phase == (PhaseView::<T>::Inferring { batch: batch@ }),
                None => self@.stage() != Stage::Inferring,
            },
    {
        match &self.phase {
            Phase::Inferring { batch } => Some(batch),
            _ => None,
        }
    }

    /// Moves the request on by one event.
    pub fn step(self, event: Event<T>) -> (next: Request<T>)
        ensures
            next@ == self@.step(event@),
    {
        let Request { model, phase } = self;
        let phase = match (phase, event) {
            (Phase::Received { items }, Event::Admit) => Phase::Admitted { items },
            (Phase::Admitted { items }, Event::Begin) => if items.len() == 0 {
                Phase::Failed { error: PipelineError::EmptyBatch }
            } else {
                Phase::Tokenizing { items }
            },
            (Phase::Tokenizing { items }, Event::Tokenized(outcomes)) => if outcomes.len()
                != items.len() {
                Phase::Tokenizing { items }
            } else {
                match gather(outcomes) {
                    Ok(sequences) => Phase::Assembling { sequences },
                    Err(error) => Phase::Failed { error },
                }
            },
            (Phase::Assembling { sequences }, Event::Assemble) => match assemble(&sequences) {
                Ok(batch) => Phase::Inferring { batch },
                Err(error) => Phase::Failed { error },
            },
            (Phase::Inferring { batch }, Event::Inferred(Ok(flat))) => Phase::Reassembling {
                num_items: batch.num_items(),
                total_tokens: batch.total_tokens(),
                flat,
            },
            (Phase::Inferring { .. }, Event::Inferred(Err(detail))) => Phase::Failed {
                error: PipelineError::Inference { detail },
            },
            (Phase::Reassembling { num_items, total_tokens, flat }, Event::Reassemble) => {
                match respond(model.clone(), num_items, total_tokens, flat.as_slice()) {
                    Ok(output) => Phase::Completed { output },
                    Err(error) => Phase::Failed { error },
                }
            },
            (phase, _) => phase,
        };
        Request { model, phase }
    }

    /// What the caller is told: the response or the failure of a request that
    /// has ended, and nothing while it is under way.
    pub fn into_outcome(self) -> (outcome: Option<Result<EmbeddingOutput<T>, PipelineError>>)
        ensures
            match outcome {
                Some(Ok(output)) => self@.outcome() == Some(
                    Ok::<_, PipelineErrorView>(output@),
                ),
                Some(Err(error)) => self@.outcome() == Some(
                    Err::<EmbeddingOutputView<T>, _>(error@),
                ),
                None => self@.outcome() is None,
            },
    {
        match self.phase {
            Phase::Completed { output } => Some(Ok(output)),
            Phase::Failed { error } => Some(Err(error)),
            _ => None,
        }
    }
}

} // verus!
