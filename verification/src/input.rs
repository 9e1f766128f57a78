//! What a caller submits: one text, or an ordered list of texts.

use vstd::prelude::*;
use vstd::string::StringExecFns;

verus! {

/// The texts of a request. A single text is a batch of one.
#[derive(Debug, PartialEq, Eq)]
pub enum InputData {
    Single(String),
    Batch(Vec<String>),
}

impl View for InputData {
    type V = Seq<Seq<char>>;

    /// The items of the request, in the order in which they were submitted.
    open spec fn view(&self) -> Seq<Seq<char>> {
        match self {
            InputData::Single(text) => seq![text@],
            InputData::Batch(texts) => texts.deep_view(),
        }
    }
}

impl InputData {
    /// The items of the request, in the order in which they were submitted.
    pub fn into_items(self) -> (items: Vec<String>)
        ensures
            items.deep_view() == self@,
    {
        match self {
            InputData::Single(text) => {
                let items = vec![text];
                proof {
                    assert(items.deep_view() =~~= seq![text@]);
                }
                items
            },
            InputData::Batch(texts) => texts,
        }
    }
}

/// The body of an embedding request.
#[derive(Debug)]
pub struct EmbeddingRequest {
    pub input: InputData,
    /// The model that the caller asked for; `"default"` where none was named.
    pub model: String,
}

/// The model name of a request that names none.
pub fn default_model() -> (name: String)
    ensures
        name@ == "default"@,
{
    String::from_str("default")
}

} // verus!
