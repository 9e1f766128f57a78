//! The failure taxonomy of the pipeline and how each failure is reported.

use vstd::prelude::*;
use vstd::string::StringExecFns;

verus! {

/// Who is to blame for a failure: the caller's input, or the service itself.
#[derive(Clone, Copy, Debug, PartialEq, Eq, Structural)]
pub enum ErrorClass {
    /// The request itself is invalid; reported like a 4xx status.
    ClientInput,
    /// A backend or internal fault; reported like a 5xx status.
    ServerInternal,
}

/// Every way in which a request can fail.
#[derive(Debug, PartialEq, Eq)]
pub enum PipelineError {
    /// The request holds no item at all.
    EmptyBatch,
    /// The request body is larger than the admission limit.
    PayloadTooLarge { size: usize, limit: usize },
    /// The tokenizer rejected the item at `index`; `detail` is kept for the log.
    Tokenization { index: usize, detail: String },
    /// The inference backend failed or is unavailable; `detail` is kept for the log.
    Inference { detail: String },
    /// The backend answered with a number of values that the number of items
    /// does not divide.
    DimensionMismatch { flat_len: usize, num_items: usize },
}

/// Mathematical model of a [`PipelineError`].
pub enum PipelineErrorView {
    EmptyBatch,
    PayloadTooLarge { size: nat, limit: nat },
    Tokenization { index: nat, detail: Seq<char> },
    Inference { detail: Seq<char> },
    DimensionMismatch { flat_len: nat, num_items: nat },
}

impl PipelineErrorView {
    /// Only an empty batch and an oversized payload are the caller's fault.
    pub open spec fn class(self) -> ErrorClass {
        match self {
            PipelineErrorView::EmptyBatch => ErrorClass::ClientInput,
            PipelineErrorView::PayloadTooLarge { .. } => ErrorClass::ClientInput,
            _ => ErrorClass::ServerInternal,
        }
    }

    /// The text shown to the caller. It depends on the kind of failure alone, so
    /// nothing a backend said is ever forwarded.
    pub open spec fn message(self) -> Seq<char> {
        match self {
            PipelineErrorView::EmptyBatch => "input is empty"@,
            PipelineErrorView::PayloadTooLarge { .. } => "payload too large"@,
            PipelineErrorView::Tokenization { .. } => "tokenization failed"@,
            PipelineErrorView::Inference { .. } => "inference failed"@,
            PipelineErrorView::DimensionMismatch { .. } => "embedding dimension mismatch"@,
        }
    }

    /// What a backend reported, for the log; empty where no backend was involved.
    pub open spec fn detail(self) -> Seq<char> {
        match self {
            PipelineErrorView::Tokenization { detail, .. } => detail,
            PipelineErrorView::Inference { detail } => detail,
            _ => Seq::empty(),
        }
    }
}

impl View for PipelineError {
    type V = PipelineErrorView;

    open spec fn view(&self) -> PipelineErrorView {
        match self {
            PipelineError::EmptyBatch => PipelineErrorView::EmptyBatch,
            PipelineError::PayloadTooLarge { size, limit } => PipelineErrorView::PayloadTooLarge {
                size: *size as nat,
                limit: *limit as nat,
            },
            PipelineError::Tokenization { index, detail } => PipelineErrorView::Tokenization {
                index: *index as nat,
                detail: detail@,
            },
            PipelineError::Inference { detail } => PipelineErrorView::Inference { detail: detail@ },
            PipelineError::DimensionMismatch { flat_len, num_items } => {
                PipelineErrorView::DimensionMismatch {
                    flat_len: *flat_len as nat,
                    num_items: *num_items as nat,
                }
            },
        }
    }
}

impl PipelineError {
    /// Classifies the failure as the caller's or the service's.
    pub fn class(&self) -> (class: ErrorClass)
        ensures
            class == self@.class(),
    {
        match self {
            PipelineError::EmptyBatch => ErrorClass::ClientInput,
            PipelineError::PayloadTooLarge { .. } => ErrorClass::ClientInput,
            _ => ErrorClass::ServerInternal,
        }
    }

    /// The text shown to the caller.
    pub fn message(&self) -> (text: String)
        ensures
            text@ == self@.message(),
    {
        match self {
            PipelineError::EmptyBatch => String::from_str("input is empty"),
            PipelineError::PayloadTooLarge { .. } => String::from_str("payload too large"),
            PipelineError::Tokenization { .. } => String::from_str("tokenization failed"),
            PipelineError::Inference { .. } => String::from_str("inference failed"),
            PipelineError::DimensionMismatch { .. } => String::from_str(
                "embedding dimension mismatch",
            ),
        }
    }

    /// What a backend reported, for the log.
    pub fn detail(&self) -> (text: String)
        ensures
            text@ == self@.detail(),
    {
        match self {
            PipelineError::Tokenization { detail, .. } => detail.clone(),
            PipelineError::Inference { detail } => detail.clone(),
            _ => String::new(),
        }
    }
}

} // verus!
