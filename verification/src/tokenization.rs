//! The tokenization adapter: text becomes token ids through an outside
//! tokenizer, item by item, and the outcomes of a batch are gathered in the
//! order of the request.

use crate::batch::TokenSequence;
use crate::error::{PipelineError, PipelineErrorView};
use crate::template::{
    check_template, is_first_fault, piece_texts, template_is_sound, SpecialTokenEntry,
    TemplateError, TextTemplate,
};
use rayon::iter::{IntoParallelRefIterator, ParallelIterator};
use tokenizers::processors::template::{SpecialToken, TemplateProcessing};
use tokenizers::processors::PostProcessorWrapper;
use tokenizers::{PostProcessor, Tokenizer};
use vstd::prelude::*;

verus! {

/// `tokenizers::Tokenizer`, carried through as an opaque value: nothing is
/// known of what is inside.
#[verifier::external_type_specification]
#[verifier::external_body]
pub struct ExTokenizer(tokenizers::Tokenizer);

/// Why the tokenizer rejected one item.
#[derive(Debug, PartialEq, Eq)]
pub struct TokenizationError {
    /// What the tokenizer reported.
    pub detail: String,
}

impl View for TokenizationError {
    type V = Seq<char>;

    open spec fn view(&self) -> Seq<char> {
        self.detail@
    }
}

/// What tokenizing one item gave: its token ids, or the tokenizer's complaint.
pub type TokenizationOutcome = Result<TokenSequence, TokenizationError>;

/// Mathematical model of a list of tokenization outcomes.
pub open spec fn outcomes_view(outcomes: Seq<TokenizationOutcome>) -> Seq<
    Result<Seq<u32>, Seq<char>>,
> {
    Seq::new(
        outcomes.len(),
        |i: int|
            match outcomes[i] {
                Ok(ids) => Ok(ids@),
                Err(e) => Err(e@),
            },
    )
}

/// How a tokenizer shortens what is too long: the length it cuts to, and the
/// number of tokens that two pieces of a cut text share.
#[derive(Clone, Copy, Debug, PartialEq, Eq, Structural)]
pub struct Truncation {
    pub max_length: usize,
    pub stride: usize,
}

/// Whether a tokenizer with these settings can cut a text of any length.
///
/// `added` is the number of special tokens that the tokenizer puts around one
/// text. They count towards `max_length`, so they must fit into it; and unless
/// nothing at all is left for the text, the stride must be shorter than what
/// is left.
pub open spec fn truncation_is_sound(truncation: Option<Truncation>, added: usize) -> bool {
    match truncation {
        None => true,
        Some(t) => {
            &&& added <= t.max_length
            &&& t.max_length == added || t.stride < t.max_length - added
        },
    }
}

/// Truncation settings that a tokenizer cannot work with.
#[derive(Clone, Copy, Debug, PartialEq, Eq, Structural)]
pub struct TokenizerSettingsError {
    pub truncation: Truncation,
    /// Number of special tokens that the tokenizer adds to one text.
    pub added_tokens: usize,
}

/// Decides whether truncation settings can be worked with.
pub fn check_settings(truncation: Option<Truncation>, added_tokens: usize) -> (verdict: Result<
    (),
    TokenizerSettingsError,
>)
    ensures
        verdict is Ok <==> truncation_is_sound(truncation, added_tokens),
        verdict matches Err(e) ==> truncation == Some(e.truncation) && e.added_tokens
            == added_tokens,
{
    match truncation {
        None => Ok(()),
        Some(t) => {
            if added_tokens <= t.max_length && (t.max_length == added_tokens || t.stride
                < t.max_length - added_tokens) {
                Ok(())
            } else {
                Err(TokenizerSettingsError { truncation: t, added_tokens })
            }
        },
    }
}

/// Which post-processor a tokenizer carries.
#[derive(Clone, Copy, Debug, PartialEq, Eq, Structural)]
pub enum PostProcessorKind {
    Absent,
    Bert,
    Roberta,
    ByteLevel,
    Template,
    Sequence,
}

/// Whether a tokenizer can post-process every text.
///
/// The processors with fixed special tokens can, and so can a tokenizer that
/// has none. A template can where it was built from plain values that were
/// found sound; one that came with the tokenizer cannot be looked into. A
/// sequence of processors cannot be looked into either.
pub open spec fn processor_is_sound(
    kind: PostProcessorKind,
    template: Option<TextTemplate>,
) -> bool {
    match kind {
        PostProcessorKind::Absent
        | PostProcessorKind::Bert
        | PostProcessorKind::Roberta
        | PostProcessorKind::ByteLevel => true,
        PostProcessorKind::Template => template matches Some(t) && template_is_sound(t),
        PostProcessorKind::Sequence => false,
    }
}

/// Why a tokenizer is not taken into service.
#[derive(Debug, PartialEq, Eq)]
pub enum TokenizerError {
    /// Its truncation settings leave no room to cut a long text.
    Truncation(TokenizerSettingsError),
    /// It carries a post-processor that cannot be looked into.
    Processor(PostProcessorKind),
    /// The template that it was to be given is not sound.
    Template(TemplateError),
    /// The tokenizer library refused to build the template.
    Builder(String),
}

/// Decides whether a post-processor that came with a tokenizer can stay.
pub fn check_processor(kind: PostProcessorKind) -> (verdict: Result<(), TokenizerError>)
    ensures
        verdict is Ok <==> processor_is_sound(kind, None),
        verdict is Err ==> verdict == Err::<(), _>(TokenizerError::Processor(kind)),
{
    match kind {
        PostProcessorKind::Template | PostProcessorKind::Sequence => Err(
            TokenizerError::Processor(kind),
        ),
        _ => Ok(()),
    }
}

/// `TokenizerImpl::get_post_processor`, with the variants of
/// `PostProcessorWrapper` told apart. Nothing is claimed of the value.
#[verifier::external_body]
fn read_processor_kind(tokenizer: &Tokenizer) -> (kind: PostProcessorKind) {
    match tokenizer.get_post_processor() {
        None => PostProcessorKind::Absent,
        Some(PostProcessorWrapper::Bert(_)) => PostProcessorKind::Bert,
        Some(PostProcessorWrapper::Roberta(_)) => PostProcessorKind::Roberta,
        Some(PostProcessorWrapper::ByteLevel(_)) => PostProcessorKind::ByteLevel,
        Some(PostProcessorWrapper::Template(_)) => PostProcessorKind::Template,
        Some(PostProcessorWrapper::Sequence(_)) => PostProcessorKind::Sequence,
    }
}

/// `TemplateProcessing::builder()` with `try_single`, `special_tokens` and
/// `build`, over special tokens made by `SpecialToken::new`, and
/// `TokenizerImpl::with_post_processor` to put the result in the place of the
/// tokenizer's post-processor. The pieces are handed over as written down; the
/// builder's refusal comes back as its text. Nothing is claimed of the
/// tokenizer that comes back.
#[verifier::external_body]
fn install_template(
    tokenizer: Tokenizer,
    pieces: Vec<String>,
    table: &Vec<SpecialTokenEntry>,
) -> (installed: Result<Tokenizer, String>) {
    let made =
        table.iter().map(|t| SpecialToken::new(t.id.clone(), t.ids.clone(), t.tokens.clone()));
    let tokens = made.collect::<Result<Vec<_>, _>>().map_err(|e| e.to_string())?;
    let mut builder = TemplateProcessing::builder();
    builder.try_single(pieces)?.special_tokens(tokens);
    let processor = builder.build().map_err(|e| e.to_string())?;
    let mut tokenizer = tokenizer;
    tokenizer.with_post_processor(Some(processor));
    Ok(tokenizer)
}

/// `TokenizerImpl::get_truncation`: the `max_length` and the `stride` of the
/// truncation that is set, if any. Nothing is claimed of the values.
#[verifier::external_body]
fn read_truncation(tokenizer: &Tokenizer) -> (truncation: Option<Truncation>) {
    tokenizer.get_truncation().map(|t| Truncation { max_length: t.max_length, stride: t.stride })
}

/// `TokenizerImpl::get_post_processor` and, where one is set,
/// `PostProcessor::added_tokens`: the number of tokens that the post-processor
/// adds, to one text or to a pair. Nothing is claimed of the value.
#[verifier::external_body]
fn read_added_tokens(tokenizer: &Tokenizer, is_pair: bool) -> (added: Option<usize>) {
    tokenizer.get_post_processor().map(|processor| processor.added_tokens(is_pair))
}

/// A tokenizer together with what decides whether it can be run on every
/// text: its truncation settings and its post-processor, read from it once and
/// found sound. The tokenizer is out of reach from then on, so they stay what
/// they were.
#[derive(Debug)]
pub struct CheckedTokenizer {
    tokenizer: Tokenizer,
    truncation: Option<Truncation>,
    added_tokens: usize,
    processor: PostProcessorKind,
    template: Option<TextTemplate>,
}

impl CheckedTokenizer {
    /// The truncation that is set, if any.
    pub closed spec fn truncation_spec(&self) -> Option<Truncation> {
        self.truncation
    }

    /// Number of special tokens that the tokenizer adds to one text.
    pub closed spec fn added_tokens_spec(&self) -> usize {
        self.added_tokens
    }

    /// The kind of post-processor that the tokenizer carries.
    pub closed spec fn processor_spec(&self) -> PostProcessorKind {
        self.processor
    }

    /// The template that the tokenizer was given, if it was given one.
    pub closed spec fn template_spec(&self) -> Option<TextTemplate> {
        self.template
    }

    /// Whether the tokenizer can be run on every text.
    pub open spec fn is_sound(&self) -> bool {
        &&& truncation_is_sound(self.truncation_spec(), self.added_tokens_spec())
        &&& processor_is_sound(self.processor_spec(), self.template_spec())
    }

    #[verifier::type_invariant]
    spec fn sound(&self) -> bool {
        self.is_sound()
    }

    /// Takes a tokenizer into service as it is.
    ///
    /// A tokenizer with a template or a sequence of processors is refused,
    /// because neither can be looked into: a template is given through
    /// [`CheckedTokenizer::with_template`]. A tokenizer whose truncation
    /// settings leave no room to cut a long text is refused as well.
    pub fn new(tokenizer: Tokenizer) -> (checked: Result<CheckedTokenizer, TokenizerError>)
        ensures
            match checked {
                Ok(t) => t.is_sound() && t.template_spec() is None,
                Err(TokenizerError::Processor(kind)) => !processor_is_sound(kind, None),
                Err(TokenizerError::Truncation(e)) => !truncation_is_sound(
                    Some(e.truncation),
                    e.added_tokens,
                ),
                Err(_) => false,
            },
    {
        let processor = read_processor_kind(&tokenizer);
        match check_processor(processor) {
            Ok(()) => {},
            Err(e) => {
                return Err(e);
            },
        }
        let truncation = read_truncation(&tokenizer);
        let added_tokens: usize = match read_added_tokens(&tokenizer, false) {
            Some(added) => added,
            None => 0,
        };
        match check_settings(truncation, added_tokens) {
            Ok(()) => Ok(
                CheckedTokenizer { tokenizer, truncation, added_tokens, processor, template: None },
            ),
            Err(e) => Err(TokenizerError::Truncation(e)),
        }
    }

    /// Takes a tokenizer into service with the given template in the place of
    /// its post-processor.
    ///
    /// A template that is not sound is refused, and the first thing that is
    /// wrong with it is named. Whether a sound template is built, and how many
    /// tokens it adds, the tokenizer library says; with what it says the
    /// truncation settings are checked as in [`CheckedTokenizer::new`].
    ///
    /// The template says which tokens frame a text and nothing else: the token
    /// ids of a tokenizer do not depend on more.
    pub fn with_template(tokenizer: Tokenizer, template: TextTemplate) -> (checked: Result<
        CheckedTokenizer,
        TokenizerError,
    >)
        ensures
            !template_is_sound(template) <==> checked matches Err(TokenizerError::Template(_)),
            match checked {
                Ok(t) => {
                    &&& t.is_sound()
                    &&& t.processor_spec() == PostProcessorKind::Template
                    &&& t.template_spec() == Some(template)
                },
                Err(TokenizerError::Template(fault)) => is_first_fault(template, fault),
                Err(TokenizerError::Truncation(e)) => !truncation_is_sound(
                    Some(e.truncation),
                    e.added_tokens,
                ),
                Err(TokenizerError::Builder(_)) => true,
                Err(TokenizerError::Processor(_)) => false,
            },
    {
        match check_template(&template) {
            Ok(()) => {},
            Err(fault) => {
                return Err(TokenizerError::Template(fault));
            },
        }
        let pieces = piece_texts(&template.single);
        let tokenizer = match install_template(tokenizer, pieces, &template.special_tokens) {
            Ok(tokenizer) => tokenizer,
            Err(detail) => {
                return Err(TokenizerError::Builder(detail));
            },
        };
        let truncation = read_truncation(&tokenizer);
        let added_tokens: usize = match read_added_tokens(&tokenizer, false) {
            Some(added) => added,
            None => 0,
        };
        match check_settings(truncation, added_tokens) {
            Ok(()) => Ok(
                CheckedTokenizer {
                    tokenizer,
                    truncation,
                    added_tokens,
                    processor: PostProcessorKind::Template,
                    template: Some(template),
                },
            ),
            Err(e) => Err(TokenizerError::Truncation(e)),
        }
    }

    /// The truncation that is set, if any.
    pub fn truncation(&self) -> (truncation: Option<Truncation>)
        ensures
            truncation == self.truncation_spec(),
            self.is_sound(),
    {
        proof {
            use_type_invariant(self);
        }
        self.truncation
    }

    /// Number of special tokens that the tokenizer adds to one text.
    pub fn added_tokens(&self) -> (added: usize)
        ensures
            added == self.added_tokens_spec(),
            self.is_sound(),
    {
        proof {
            use_type_invariant(self);
        }
        self.added_tokens
    }

    /// The kind of post-processor that the tokenizer carries.
    pub fn processor(&self) -> (kind: PostProcessorKind)
        ensures
            kind == self.processor_spec(),
            self.is_sound(),
    {
        proof {
            use_type_invariant(self);
        }
        self.processor
    }
}

/// `tokenizers::Tokenizer::encode` on one text, followed by
/// `Encoding::get_ids`: the ids of the encoding, or the text of the error.
///
/// `encode` cuts a text that is too long with `Encoding::truncate`, which
/// panics unless the stride is shorter than the length it cuts to, and it
/// subtracts the number of added tokens from `max_length` first where special
/// tokens are asked for. A template panics where a piece names a special token
/// that its table lacks or stands for a second text, and where it is handed
/// the output of another template inside a sequence. The `requires` leaves out
/// the tokenizers on which any of these goes wrong. Nothing is claimed of the
/// ids: they depend on the tokenizer's vocabulary and settings, and with
/// dropout configured even on chance.
#[verifier::external_body]
fn encode_ids(tokenizer: &CheckedTokenizer, text: &str, add_special_tokens: bool) -> (outcome:
    Result<TokenSequence, String>)
    requires
        truncation_is_sound(
            tokenizer.truncation_spec(),
            if add_special_tokens {
                tokenizer.added_tokens_spec()
            } else {
                0
            },
        ),
        processor_is_sound(tokenizer.processor_spec(), tokenizer.template_spec()),
{
    match tokenizer.tokenizer.encode(text, add_special_tokens) {
        Ok(encoding) => Ok(encoding.get_ids().to_vec()),
        Err(e) => Err(e.to_string()),
    }
}

/// Tokenizes one item, special tokens included.
///
/// An empty text is handed to the tokenizer like any other. Whether the item is
/// accepted, and with which ids, is the tokenizer's decision alone.
pub fn tokenize(tokenizer: &CheckedTokenizer, text: &str) -> (outcome: TokenizationOutcome) {
    proof {
        use_type_invariant(tokenizer);
    }
    // The text goes to the tokenizer as it is, with special tokens asked for;
    // what the tokenizer said is passed on as the outcome of the item.
    let encoded = encode_ids(tokenizer, text, true);
    outcome_from_encoding(encoded)
}

/// rayon's `par_iter().map(..).collect()` over the items, with [`tokenize`] as
/// the mapped function. Collecting an indexed parallel iterator into a `Vec`
/// keeps one result per item, at the item's position. A panic of the mapped
/// function would pass through, so the `requires` is that of the tokenizer
/// call inside [`tokenize`].
#[verifier::external_body]
fn tokenize_in_parallel(tokenizer: &CheckedTokenizer, items: &Vec<String>) -> (outcomes: Vec<
    TokenizationOutcome,
>)
    requires
        tokenizer.is_sound(),
    ensures
        outcomes.len() == items.len(),
{
    items.par_iter().map(|text| tokenize(tokenizer, text.as_str())).collect()
}

/// Tokenizes every item of a batch, the items side by side.
///
/// There is one outcome per item, at the item's position. What each outcome
/// is, is the tokenizer's decision alone.
pub fn tokenize_batch(tokenizer: &CheckedTokenizer, items: &Vec<String>) -> (outcomes: Vec<
    TokenizationOutcome,
>)
    ensures
        outcomes.len() == items.len(),
{
    proof {
        use_type_invariant(tokenizer);
    }
    tokenize_in_parallel(tokenizer, items)
}

/// The outcome that stands for what the tokenizer said of one item: the same
/// ids, or a failure that carries the tokenizer's report.
pub open spec fn encoding_outcome(encoded: Result<TokenSequence, String>) -> TokenizationOutcome {
    match encoded {
        Ok(ids) => Ok(ids),
        Err(detail) => Err(TokenizationError { detail }),
    }
}

/// Turns what the tokenizer said of one item into the outcome of that item.
///
/// The ids are kept as they are, in their order; a report of the tokenizer
/// becomes the detail of a [`TokenizationError`]. An empty list of ids is an
/// outcome like any other.
pub fn outcome_from_encoding(encoded: Result<TokenSequence, String>) -> (outcome:
    TokenizationOutcome)
    ensures
        outcome == encoding_outcome(encoded),
{
    match encoded {
        Ok(ids) => Ok(ids),
        Err(detail) => Err(TokenizationError { detail }),
    }
}

/// What a list of outcomes gathers to: every token sequence, in order, where
/// each item was tokenized; otherwise the failure of the first item that was
/// not, with its position.
pub open spec fn gathered(outcomes: Seq<Result<Seq<u32>, Seq<char>>>) -> Result<
    Seq<Seq<u32>>,
    PipelineErrorView,
>
    decreases outcomes.len(),
{
    if outcomes.len() == 0 {
        Ok(Seq::empty())
    } else {
        match gathered(outcomes.drop_last()) {
            Err(e) => Err(e),
            Ok(sequences) => match outcomes.last() {
                Ok(ids) => Ok(sequences.push(ids)),
                Err(detail) => Err(
                    PipelineErrorView::Tokenization {
                        index: (outcomes.len() - 1) as nat,
                        detail,
                    },
                ),
            },
        }
    }
}

/// Whether item `index` failed and no item before it did.
pub open spec fn is_first_failure(outcomes: Seq<Result<Seq<u32>, Seq<char>>>, index: int) -> bool {
    &&& 0 <= index < outcomes.len()
    &&& outcomes[index] is Err
    &&& forall|j: int| 0 <= j < index ==> (#[trigger] outcomes[j]) is Ok
}

/// Gathering succeeds exactly when every item was tokenized, and then keeps
/// each sequence at its item's position; it fails with the first failure
/// otherwise, and with no other.
pub proof fn lemma_gathered(outcomes: Seq<Result<Seq<u32>, Seq<char>>>)
    ensures
        match gathered(outcomes) {
            Ok(sequences) => {
                &&& sequences.len() == outcomes.len()
                &&& forall|i: int|
                    0 <= i < outcomes.len() ==> (#[trigger] outcomes[i]) == Ok::<_, Seq<char>>(
                        sequences[i],
                    )
            },
            Err(e) => {
                &&& e matches PipelineErrorView::Tokenization { index, detail }
                &&& is_first_failure(outcomes, index as int)
                &&& outcomes[index as int] == Err::<Seq<u32>, _>(detail)
            },
        },
    decreases outcomes.len(),
{
    if outcomes.len() > 0 {
        lemma_gathered(outcomes.drop_last());
        let front = outcomes.drop_last();
        assert forall|i: int| 0 <= i < front.len() implies front[i] == outcomes[i] by {}
        match gathered(front) {
            Err(e) => {},
            Ok(sequences) => {
                assert forall|j: int| 0 <= j < front.len() implies (#[trigger] outcomes[j])
                    is Ok by {
                    assert(front[j] == outcomes[j]);
                }
            },
        }
    }
}

/// Collects the outcomes of a batch, in the order of the request.
///
/// One failed item fails the batch: the error names the first item that the
/// tokenizer rejected and carries what it reported.
pub fn gather(outcomes: Vec<TokenizationOutcome>) -> (result: Result<
    Vec<TokenSequence>,
    PipelineError,
>)
    ensures
        match result {
            Ok(sequences) => gathered(outcomes_view(outcomes@)) == Ok::<_, PipelineErrorView>(
                sequences.deep_view(),
            ),
            Err(e) => gathered(outcomes_view(outcomes@)) == Err::<Seq<Seq<u32>>, _>(e@),
        },
{
    let ghost all = outcomes@;
    let ghost model = outcomes_view(all);
    let mut sequences: Vec<TokenSequence> = Vec::new();
    proof {
        assert(model.take(0) =~= Seq::empty());
        assert(sequences.deep_view() =~~= Seq::<Seq<u32>>::empty());
    }
    for outcome in it: outcomes
        invariant
            it.seq() == all,
            model == outcomes_view(all),
            sequences.len() == it.index(),
            gathered(model.take(it.index())) == Ok::<_, PipelineErrorView>(sequences.deep_view()),
    {
        let ghost done = model.take(it.index());
        proof {
            assert(outcome == all[it.index()]);
            assert(model.take(it.index() + 1).drop_last() =~= done);
            assert(model.take(it.index() + 1).last() == model[it.index()]);
        }
        match outcome {
            Ok(ids) => {
                let ghost before = sequences.deep_view();
                sequences.push(ids);
                proof {
                    assert(sequences.deep_view() =~~= before.push(ids@));
                }
            },
            Err(e) => {
                proof {
                    lemma_gathered_stays_failed(model, it.index() + 1);
                }
                let index: usize = sequences.len();
                return Err(PipelineError::Tokenization { index, detail: e.detail });
            },
        }
    }
    proof {
        assert(model.take(all.len() as int) =~= model);
    }
    Ok(sequences)
}

/// Once a prefix of the outcomes has failed, the outcomes after it change
/// nothing.
proof fn lemma_gathered_stays_failed(outcomes: Seq<Result<Seq<u32>, Seq<char>>>, prefix: int)
    requires
        0 <= prefix <= outcomes.len(),
        gathered(outcomes.take(prefix)) is Err,
    ensures
        gathered(outcomes) == gathered(outcomes.take(prefix)),
    decreases outcomes.len() - prefix,
{
    if prefix < outcomes.len() {
        assert(outcomes.take(prefix + 1).drop_last() =~= outcomes.take(prefix));
        lemma_gathered_stays_failed(outcomes, prefix + 1);
    } else {
        assert(outcomes.take(prefix) =~= outcomes);
    }
}

} // verus!
