use embedding_pipeline::error::{ErrorClass, PipelineError};
use embedding_pipeline::input::InputData;
use embedding_pipeline::orchestrator::{Event, Request, Stage};
use embedding_pipeline::reassemble::EmbeddingData;
use embedding_pipeline::response::{EmbeddingOutput, Usage};
use embedding_pipeline::tokenization::TokenizationError;

fn batch(texts: &[&str]) -> InputData {
    InputData::Batch(texts.iter().map(|t| t.to_string()).collect())
}

fn received(texts: &[&str]) -> Request<f32> {
    Request::receive("mini".to_string(), batch(texts))
}

fn embedding(values: Vec<f32>, index: usize) -> EmbeddingData<f32> {
    EmbeddingData { embedding: values, index, object: "embedding".to_string() }
}

#[test]
fn a_request_passes_through_every_stage_in_order() {
    let request = received(&["a b", "c"]);
    assert_eq!(request.stage(), Stage::Received);
    let request = request.step(Event::Admit);
    assert_eq!(request.stage(), Stage::Admitted);
    let request = request.step(Event::Begin);
    assert_eq!(request.stage(), Stage::Tokenizing);
    assert_eq!(request.pending_items(), Some(&vec!["a b".to_string(), "c".to_string()]));
    let request = request.step(Event::Tokenized(vec![Ok(vec![1, 2]), Ok(vec![3])]));
    assert_eq!(request.stage(), Stage::Assembling);
    let request = request.step(Event::Assemble);
    assert_eq!(request.stage(), Stage::Inferring);
    {
        let pending = request.pending_batch().unwrap();
        assert_eq!(pending.ids(), &vec![1, 2, 3]);
        assert_eq!(pending.lengths(), &vec![2, 1]);
    }
    let request = request.step(Event::Inferred(Ok(vec![0.25, 0.5, 0.75, 1.0])));
    assert_eq!(request.stage(), Stage::Reassembling);
    let request = request.step(Event::Reassemble);
    assert_eq!(request.stage(), Stage::Completed);
    assert_eq!(
        request.into_outcome(),
        Some(Ok(EmbeddingOutput {
            model: "mini".to_string(),
            object: "list".to_string(),
            usage: Usage { prompt_tokens: 3, total_tokens: 3 },
            data: vec![embedding(vec![0.25, 0.5], 0), embedding(vec![0.75, 1.0], 1)],
        }))
    );
}

#[test]
fn a_request_under_way_has_no_outcome() {
    assert_eq!(received(&["a"]).into_outcome(), None);
    assert_eq!(received(&["a"]).step(Event::Admit).step(Event::Begin).into_outcome(), None);
}

#[test]
fn a_request_without_items_fails_before_tokenizing() {
    let request = received(&[]).step(Event::Admit);
    assert_eq!(request.stage(), Stage::Admitted);
    let request = request.step(Event::Begin);
    assert_eq!(request.stage(), Stage::Failed);
    assert_eq!(request.pending_items(), None);
    let request = request.step(Event::Tokenized(vec![Ok(vec![1])]));
    assert_eq!(request.stage(), Stage::Failed);
    let error = request.into_outcome().unwrap().unwrap_err();
    assert_eq!(error, PipelineError::EmptyBatch);
    assert_eq!(error.class(), ErrorClass::ClientInput);
    assert_eq!(error.message(), "input is empty");
}

#[test]
fn an_event_of_another_stage_changes_nothing() {
    let request = received(&["a"]);
    let request = request.step(Event::Begin);
    assert_eq!(request.stage(), Stage::Received);
    let request = request.step(Event::Tokenized(vec![Ok(vec![1])]));
    assert_eq!(request.stage(), Stage::Received);
    let request = request.step(Event::Inferred(Ok(vec![1.0])));
    assert_eq!(request.stage(), Stage::Received);
    let request = request.step(Event::Admit).step(Event::Admit).step(Event::Reassemble);
    assert_eq!(request.stage(), Stage::Admitted);
    let request = request.step(Event::Begin).step(Event::Assemble);
    assert_eq!(request.stage(), Stage::Tokenizing);
}

#[test]
fn one_rejected_item_fails_the_whole_request() {
    let request = received(&["a", "b", "c"]).step(Event::Admit).step(Event::Begin);
    let request = request.step(Event::Tokenized(vec![
        Ok(vec![1]),
        Err(TokenizationError { detail: "no such word".to_string() }),
        Ok(vec![2]),
    ]));
    assert_eq!(request.stage(), Stage::Failed);
    let error = request.into_outcome().unwrap().unwrap_err();
    assert_eq!(
        error,
        PipelineError::Tokenization { index: 1, detail: "no such word".to_string() }
    );
    assert_eq!(error.class(), ErrorClass::ServerInternal);
    assert_eq!(error.message(), "tokenization failed");
}

#[test]
fn a_backend_fault_fails_the_request() {
    let request = received(&["a"])
        .step(Event::Admit)
        .step(Event::Begin)
        .step(Event::Tokenized(vec![Ok(vec![1, 2])]))
        .step(Event::Assemble)
        .step(Event::Inferred(Err("out of memory".to_string())));
    assert_eq!(request.stage(), Stage::Failed);
    let error = request.into_outcome().unwrap().unwrap_err();
    assert_eq!(error, PipelineError::Inference { detail: "out of memory".to_string() });
    assert_eq!(error.class(), ErrorClass::ServerInternal);
    assert_eq!(error.message(), "inference failed");
}

#[test]
fn an_uneven_answer_fails_the_request() {
    let request = received(&["a", "b"])
        .step(Event::Admit)
        .step(Event::Begin)
        .step(Event::Tokenized(vec![Ok(vec![1]), Ok(vec![2])]))
        .step(Event::Assemble)
        .step(Event::Inferred(Ok(vec![1.0, 2.0, 3.0])));
    assert_eq!(request.stage(), Stage::Reassembling);
    let request = request.step(Event::Reassemble);
    assert_eq!(request.stage(), Stage::Failed);
    assert_eq!(
        request.into_outcome(),
        Some(Err(PipelineError::DimensionMismatch { flat_len: 3, num_items: 2 }))
    );
}

#[test]
fn outcomes_that_do_not_match_the_items_are_ignored() {
    let request = received(&["a", "b"]).step(Event::Admit).step(Event::Begin);
    let request = request.step(Event::Tokenized(Vec::new()));
    assert_eq!(request.stage(), Stage::Tokenizing);
    let request = request.step(Event::Tokenized(vec![Ok(vec![1])]));
    assert_eq!(request.stage(), Stage::Tokenizing);
    let request = request.step(Event::Tokenized(vec![Ok(vec![1]), Ok(vec![2]), Ok(vec![3])]));
    assert_eq!(request.stage(), Stage::Tokenizing);
    assert_eq!(request.pending_items(), Some(&vec!["a".to_string(), "b".to_string()]));
    let request = request.step(Event::Tokenized(vec![Ok(vec![1]), Ok(vec![2])]));
    assert_eq!(request.stage(), Stage::Assembling);
}

#[test]
fn a_finished_request_ignores_every_event() {
    let done = received(&["a"])
        .step(Event::Admit)
        .step(Event::Begin)
        .step(Event::Tokenized(vec![Ok(vec![7])]))
        .step(Event::Assemble)
        .step(Event::Inferred(Ok(vec![1.5])))
        .step(Event::Reassemble);
    assert_eq!(done.stage(), Stage::Completed);
    let done = done
        .step(Event::Admit)
        .step(Event::Begin)
        .step(Event::Tokenized(vec![Err(TokenizationError { detail: "late".to_string() })]))
        .step(Event::Assemble)
        .step(Event::Inferred(Err("late".to_string())))
        .step(Event::Reassemble);
    assert_eq!(done.stage(), Stage::Completed);
    let output = done.into_outcome().unwrap().unwrap();
    assert_eq!(output.data, vec![embedding(vec![1.5], 0)]);
    assert_eq!(output.usage, Usage { prompt_tokens: 1, total_tokens: 1 });
}
