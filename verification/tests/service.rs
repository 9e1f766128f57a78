use std::collections::HashMap;
use std::sync::atomic::{AtomicUsize, Ordering};
use std::sync::Arc;

use embedding_pipeline::error::{ErrorClass, PipelineError};
use embedding_pipeline::input::InputData;
use embedding_pipeline::response::Usage;
use embedding_pipeline::service::{handle_embedding_request, AppState, ModelContext};
use embedding_pipeline::template::{SpecialTokenEntry, TemplatePiece, TextTemplate};
use embedding_pipeline::tokenization::CheckedTokenizer;
use tokenizers::models::wordlevel::WordLevel;
use tokenizers::pre_tokenizers::whitespace::Whitespace;
use tokenizers::Tokenizer;

/// A stand-in for the model handle: the embedding length it answers with.
struct Mock {
    dim: usize,
}

fn vocabulary() -> HashMap<String, u32> {
    let mut vocab = HashMap::new();
    vocab.insert("[CLS]".to_string(), 101);
    vocab.insert("[SEP]".to_string(), 103);
    vocab.insert("hello".to_string(), 202);
    vocab.insert("world".to_string(), 303);
    vocab.insert("again".to_string(), 404);
    vocab
}

fn word_level() -> Tokenizer {
    let model = WordLevel::builder()
        .vocab(vocabulary())
        .unk_token("[UNK]".to_string())
        .build()
        .unwrap();
    let mut tokenizer = Tokenizer::new(model);
    tokenizer.with_pre_tokenizer(Some(Whitespace {}));
    tokenizer
}

fn special(id: &str, token_id: u32) -> SpecialTokenEntry {
    SpecialTokenEntry { id: id.to_string(), ids: vec![token_id], tokens: vec![id.to_string()] }
}

fn checked(frame: bool) -> CheckedTokenizer {
    if frame {
        let template = TextTemplate {
            single: vec![
                TemplatePiece::Special("[CLS]".to_string()),
                TemplatePiece::First,
                TemplatePiece::Special("[SEP]".to_string()),
            ],
            special_tokens: vec![special("[CLS]", 101), special("[SEP]", 103)],
        };
        CheckedTokenizer::with_template(word_level(), template).unwrap()
    } else {
        CheckedTokenizer::new(word_level()).unwrap()
    }
}

fn state(frame: bool, dim: usize) -> AppState<Mock> {
    AppState {
        name: "mini-embed".to_string(),
        ctx: Arc::new(ModelContext { tokenizer: checked(frame), model: Mock { dim } }),
    }
}

fn texts(items: &[&str]) -> InputData {
    InputData::Batch(items.iter().map(|t| t.to_string()).collect())
}

/// Answers with `dim` values per item: the item's first id (or zero), then its
/// position in the batch, then zeros.
fn mock_backend(mock: &Mock, ids: &Vec<u32>, lengths: &Vec<usize>) -> Result<Vec<f32>, String> {
    let mut flat = Vec::new();
    let mut start = 0;
    for (position, len) in lengths.iter().enumerate() {
        let first = if *len > 0 { ids[start] as f32 } else { 0.0 };
        for k in 0..mock.dim {
            flat.push(match k {
                0 => first,
                1 => position as f32,
                _ => 0.0,
            });
        }
        start += len;
    }
    Ok(flat)
}

#[test]
fn a_single_text_gets_one_embedding_with_index_zero() {
    let state = state(true, 4);
    let seen = std::sync::Mutex::new(Vec::new());
    let output = handle_embedding_request(
        &state,
        InputData::Single("hello".to_string()),
        |mock: &Mock, ids: &Vec<u32>, lengths: &Vec<usize>| {
            seen.lock().unwrap().push((ids.clone(), lengths.clone()));
            mock_backend(mock, ids, lengths)
        },
    )
    .unwrap();
    assert_eq!(*seen.lock().unwrap(), vec![(vec![101, 202, 103], vec![3])]);
    assert_eq!(output.model, "mini-embed");
    assert_eq!(output.object, "list");
    assert_eq!(output.usage, Usage { prompt_tokens: 3, total_tokens: 3 });
    assert_eq!(output.data.len(), 1);
    assert_eq!(output.data[0].embedding.len(), 4);
    assert_eq!(output.data[0].embedding, vec![101.0, 0.0, 0.0, 0.0]);
    assert_eq!(output.data[0].index, 0);
    assert_eq!(output.data[0].object, "embedding");
}

#[test]
fn an_item_without_tokens_still_gets_its_embedding() {
    let state = state(false, 6);
    let seen = std::sync::Mutex::new(Vec::new());
    let output = handle_embedding_request(
        &state,
        texts(&["hello world", "", "world again hello"]),
        |mock: &Mock, ids: &Vec<u32>, lengths: &Vec<usize>| {
            seen.lock().unwrap().push((ids.clone(), lengths.clone()));
            mock_backend(mock, ids, lengths)
        },
    )
    .unwrap();
    assert_eq!(
        *seen.lock().unwrap(),
        vec![(vec![202, 303, 303, 404, 202], vec![2, 0, 3])]
    );
    assert_eq!(output.usage, Usage { prompt_tokens: 5, total_tokens: 5 });
    assert_eq!(output.data.len(), 3);
    for (i, item) in output.data.iter().enumerate() {
        assert_eq!(item.embedding.len(), 6);
        assert_eq!(item.index, i);
    }
    assert_eq!(output.data[0].embedding[0], 202.0);
    assert_eq!(output.data[1].embedding[0], 0.0);
    assert_eq!(output.data[2].embedding[0], 303.0);
}

#[test]
fn embeddings_come_back_in_the_order_of_the_items() {
    let state = state(false, 3);
    let items = ["again", "hello", "world", "hello", "again again", "world hello"];
    let output = handle_embedding_request(&state, texts(&items), mock_backend).unwrap();
    let firsts: Vec<f32> = output.data.iter().map(|d| d.embedding[0]).collect();
    assert_eq!(firsts, vec![404.0, 202.0, 303.0, 202.0, 404.0, 303.0]);
    let positions: Vec<f32> = output.data.iter().map(|d| d.embedding[1]).collect();
    assert_eq!(positions, vec![0.0, 1.0, 2.0, 3.0, 4.0, 5.0]);
    let indices: Vec<usize> = output.data.iter().map(|d| d.index).collect();
    assert_eq!(indices, vec![0, 1, 2, 3, 4, 5]);
    assert_eq!(output.usage.total_tokens, 8);
}

#[test]
fn a_large_batch_keeps_its_order() {
    let state = state(false, 2);
    let words = ["hello", "world", "again"];
    let items: Vec<String> = (0..500).map(|i| words[(i * 7 + i / 3) % 3].to_string()).collect();
    let expected: Vec<f32> = (0..500)
        .map(|i| match (i * 7 + i / 3) % 3 {
            0 => 202.0,
            1 => 303.0,
            _ => 404.0,
        })
        .collect();
    let output =
        handle_embedding_request(&state, InputData::Batch(items), mock_backend).unwrap();
    assert_eq!(output.data.len(), 500);
    let firsts: Vec<f32> = output.data.iter().map(|d| d.embedding[0]).collect();
    assert_eq!(firsts, expected);
    for (i, item) in output.data.iter().enumerate() {
        assert_eq!(item.index, i);
    }
}

#[test]
fn an_empty_batch_fails_before_the_tokenizer_and_the_backend_run() {
    let state = state(true, 4);
    let calls = AtomicUsize::new(0);
    let outcome = handle_embedding_request(
        &state,
        InputData::Batch(Vec::new()),
        |_: &Mock, _: &Vec<u32>, _: &Vec<usize>| -> Result<Vec<f32>, String> {
            calls.fetch_add(1, Ordering::SeqCst);
            Ok(Vec::new())
        },
    );
    let error = outcome.unwrap_err();
    assert_eq!(error, PipelineError::EmptyBatch);
    assert_eq!(error.class(), ErrorClass::ClientInput);
    assert_eq!(error.message(), "input is empty");
    assert_eq!(calls.load(Ordering::SeqCst), 0);
}

#[test]
fn a_single_empty_text_is_not_an_empty_batch() {
    let state = state(false, 4);
    let output =
        handle_embedding_request(&state, InputData::Single(String::new()), mock_backend).unwrap();
    assert_eq!(output.data.len(), 1);
    assert_eq!(output.data[0].embedding, vec![0.0, 0.0, 0.0, 0.0]);
    assert_eq!(output.usage, Usage { prompt_tokens: 0, total_tokens: 0 });
}

#[test]
fn an_answer_that_does_not_divide_is_a_dimension_mismatch() {
    let state = state(false, 4);
    let outcome = handle_embedding_request(
        &state,
        texts(&["hello", "world", "again"]),
        |_: &Mock, _: &Vec<u32>, _: &Vec<usize>| Ok(vec![0.5f32; 10]),
    );
    let error = outcome.unwrap_err();
    assert_eq!(error, PipelineError::DimensionMismatch { flat_len: 10, num_items: 3 });
    assert_eq!(error.class(), ErrorClass::ServerInternal);
}

#[test]
fn a_rejected_item_fails_the_batch_and_spares_the_backend() {
    let state = state(false, 4);
    let calls = AtomicUsize::new(0);
    let outcome = handle_embedding_request(
        &state,
        texts(&["hello", "goodbye", "world", "farewell"]),
        |mock: &Mock, ids: &Vec<u32>, lengths: &Vec<usize>| {
            calls.fetch_add(1, Ordering::SeqCst);
            mock_backend(mock, ids, lengths)
        },
    );
    match outcome.unwrap_err() {
        PipelineError::Tokenization { index, detail } => {
            assert_eq!(index, 1);
            assert!(detail.contains("[UNK]"), "unexpected detail: {}", detail);
        }
        other => panic!("expected a tokenization failure, got {:?}", other),
    }
    assert_eq!(calls.load(Ordering::SeqCst), 0);
}

#[test]
fn a_backend_fault_is_a_server_error() {
    let state = state(true, 4);
    let outcome = handle_embedding_request(
        &state,
        InputData::Single("hello".to_string()),
        |_: &Mock, _: &Vec<u32>, _: &Vec<usize>| -> Result<Vec<f32>, String> {
            Err("model is not loaded".to_string())
        },
    );
    let error = outcome.unwrap_err();
    assert_eq!(error, PipelineError::Inference { detail: "model is not loaded".to_string() });
    assert_eq!(error.class(), ErrorClass::ServerInternal);
    assert_eq!(error.message(), "inference failed");
}

#[test]
fn the_backend_is_called_once_with_lengths_that_sum_to_the_ids() {
    let state = state(true, 2);
    let calls = AtomicUsize::new(0);
    let output = handle_embedding_request(
        &state,
        texts(&["hello world", "again", "world world world"]),
        |mock: &Mock, ids: &Vec<u32>, lengths: &Vec<usize>| {
            calls.fetch_add(1, Ordering::SeqCst);
            assert_eq!(lengths, &vec![4, 3, 5]);
            assert_eq!(lengths.iter().sum::<usize>(), ids.len());
            mock_backend(mock, ids, lengths)
        },
    )
    .unwrap();
    assert_eq!(calls.load(Ordering::SeqCst), 1);
    assert_eq!(output.usage, Usage { prompt_tokens: 12, total_tokens: 12 });
}
