//! The response of the service: the embeddings of a request, with the token
//! count that was spent on them.

use crate::error::{PipelineError, PipelineErrorView};
use crate::reassemble::{data_view, split, split_spec, EmbeddingData, EmbeddingDataView};
use vstd::prelude::*;
use vstd::string::StringExecFns;

verus! {

/// Token accounting of one request. Embedding spends tokens on the prompt
/// only, so both counts are the number of token ids in the batch.
#[derive(Clone, Copy, Debug, PartialEq, Eq, Structural)]
pub struct Usage {
    pub prompt_tokens: usize,
    pub total_tokens: usize,
}

/// The answer to a request that completed.
#[derive(Debug, PartialEq)]
pub struct EmbeddingOutput<T> {
    /// Name of the model that served the request.
    pub model: String,
    pub object: String,
    pub usage: Usage,
    /// One embedding per item, in the order of the request.
    pub data: Vec<EmbeddingData<T>>,
}

/// Mathematical model of an [`EmbeddingOutput`].
pub struct EmbeddingOutputView<T> {
    pub model: Seq<char>,
    pub object: Seq<char>,
    pub prompt_tokens: nat,
    pub total_tokens: nat,
    pub data: Seq<EmbeddingDataView<T>>,
}

impl<T> View for EmbeddingOutput<T> {
    type V = EmbeddingOutputView<T>;

    open spec fn view(&self) -> EmbeddingOutputView<T> {
        EmbeddingOutputView {
            model: self.model@,
            object: self.object@,
            prompt_tokens: self.usage.prompt_tokens as nat,
            total_tokens: self.usage.total_tokens as nat,
            data: data_view(self.data@),
        }
    }
}

/// The response to a batch of `num_items` items and `total_tokens` token ids
/// for which the backend answered `flat`: the answer split among the items,
/// under the model's name and with the token count; or the dimension mismatch
/// that the split found.
pub open spec fn response<T>(
    model: Seq<char>,
    num_items: nat,
    total_tokens: nat,
    flat: Seq<T>,
) -> Result<EmbeddingOutputView<T>, PipelineErrorView> {
    match split_spec(flat, num_items) {
        Ok(data) => Ok(
            EmbeddingOutputView {
                model,
                object: "list"@,
                prompt_tokens: total_tokens,
                total_tokens,
                data,
            },
        ),
        Err(e) => Err(e),
    }
}

/// The model of a result of [`respond`].
pub open spec fn response_view<T>(result: Result<EmbeddingOutput<T>, PipelineError>) -> Result<
    EmbeddingOutputView<T>,
    PipelineErrorView,
> {
    match result {
        Ok(output) => Ok(output@),
        Err(e) => Err(e@),
    }
}

/// Builds the response from the backend's flat answer.
pub fn respond<T: Copy>(
    model: String,
    num_items: usize,
    total_tokens: usize,
    flat: &[T],
) -> (result: Result<EmbeddingOutput<T>, PipelineError>)
    ensures
        response_view(result) == response(model@, num_items as nat, total_tokens as nat, flat@),
{
    match split(flat, num_items) {
        Ok(data) => Ok(
            EmbeddingOutput {
                model,
                object: String::from_str("list"),
                usage: Usage { prompt_tokens: total_tokens, total_tokens },
                data,
            },
        ),
        Err(e) => Err(e),
    }
}

} // verus!
