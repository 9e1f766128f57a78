use embedding_pipeline::error::{ErrorClass, PipelineError};
use embedding_pipeline::reassemble::{split, EmbeddingData};

#[test]
fn split_deals_out_equal_runs_in_order() {
    let flat = vec![0.5f32, 1.5, 2.5, 3.5, 4.5, 5.5];
    let data = split(&flat, 3).unwrap();
    assert_eq!(
        data,
        vec![
            EmbeddingData { embedding: vec![0.5, 1.5], index: 0, object: "embedding".to_string() },
            EmbeddingData { embedding: vec![2.5, 3.5], index: 1, object: "embedding".to_string() },
            EmbeddingData { embedding: vec![4.5, 5.5], index: 2, object: "embedding".to_string() },
        ]
    );
}

#[test]
fn split_of_one_item_keeps_the_whole_answer() {
    let flat = vec![1.0f32, 2.0, 3.0, 4.0];
    let data = split(&flat, 1).unwrap();
    assert_eq!(data.len(), 1);
    assert_eq!(data[0].embedding, flat);
    assert_eq!(data[0].index, 0);
    assert_eq!(data[0].object, "embedding");
}

#[test]
fn split_rejects_an_answer_that_does_not_divide() {
    let flat = vec![1.0f32; 7];
    let outcome = split(&flat, 3);
    assert_eq!(outcome, Err(PipelineError::DimensionMismatch { flat_len: 7, num_items: 3 }));
    assert_eq!(outcome.unwrap_err().class(), ErrorClass::ServerInternal);
}

#[test]
fn split_rejects_zero_items() {
    let flat = vec![1.0f32; 4];
    assert_eq!(
        split(&flat, 0),
        Err(PipelineError::DimensionMismatch { flat_len: 4, num_items: 0 })
    );
    let nothing: Vec<f32> = Vec::new();
    assert_eq!(
        split(&nothing, 0),
        Err(PipelineError::DimensionMismatch { flat_len: 0, num_items: 0 })
    );
}

#[test]
fn split_of_an_empty_answer_gives_empty_vectors() {
    let nothing: Vec<f32> = Vec::new();
    let data = split(&nothing, 3).unwrap();
    assert_eq!(data.len(), 3);
    for (i, item) in data.iter().enumerate() {
        assert!(item.embedding.is_empty());
        assert_eq!(item.index, i);
    }
}

#[test]
fn split_rejects_fewer_values_than_items() {
    let flat = vec![9u32, 9];
    assert_eq!(
        split(&flat, 5),
        Err(PipelineError::DimensionMismatch { flat_len: 2, num_items: 5 })
    );
}

#[test]
fn split_runs_joined_are_the_answer_again() {
    let flat: Vec<u32> = (0..24).collect();
    for num_items in [1usize, 2, 3, 4, 6, 8, 12, 24] {
        let data = split(&flat, num_items).unwrap();
        assert_eq!(data.len(), num_items);
        let mut joined = Vec::new();
        for (i, item) in data.iter().enumerate() {
            assert_eq!(item.index, i);
            assert_eq!(item.embedding.len(), 24 / num_items);
            joined.extend_from_slice(&item.embedding);
        }
        assert_eq!(joined, flat);
    }
}
