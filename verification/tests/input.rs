use embedding_pipeline::input::{default_model, EmbeddingRequest, InputData};

#[test]
fn a_single_text_is_a_batch_of_one() {
    assert_eq!(InputData::Single("hello".to_string()).into_items(), vec!["hello".to_string()]);
}

#[test]
fn a_batch_keeps_its_items_in_order() {
    let texts = vec!["b".to_string(), "a".to_string(), "".to_string(), "a".to_string()];
    assert_eq!(InputData::Batch(texts.clone()).into_items(), texts);
}

#[test]
fn an_empty_batch_has_no_items() {
    assert!(InputData::Batch(Vec::new()).into_items().is_empty());
}

#[test]
fn a_single_empty_text_is_still_one_item() {
    assert_eq!(InputData::Single(String::new()).into_items(), vec![String::new()]);
}

#[test]
fn a_request_that_names_no_model_asks_for_the_default() {
    assert_eq!(default_model(), "default");
    let request =
        EmbeddingRequest { input: InputData::Single("x".to_string()), model: default_model() };
    assert_eq!(request.model, "default");
    assert_eq!(request.input, InputData::Single("x".to_string()));
}
