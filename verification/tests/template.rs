use embedding_pipeline::template::{
    check_template, is_writable_id, piece_texts, table_holds, SpecialTokenEntry, TemplateError,
    TemplatePiece, TextTemplate,
};

fn entry(id: &str, ids: Vec<u32>) -> SpecialTokenEntry {
    let tokens = ids.iter().map(|_| id.to_string()).collect();
    SpecialTokenEntry { id: id.to_string(), ids, tokens }
}

fn named(id: &str) -> TemplatePiece {
    TemplatePiece::Special(id.to_string())
}

fn bert_like() -> TextTemplate {
    TextTemplate {
        single: vec![named("[CLS]"), TemplatePiece::First, named("[SEP]")],
        special_tokens: vec![entry("[CLS]", vec![101]), entry("[SEP]", vec![103])],
    }
}

#[test]
fn a_template_whose_pieces_are_all_in_the_table_is_sound() {
    assert_eq!(check_template(&bert_like()), Ok(()));
}

#[test]
fn a_template_of_the_text_alone_is_sound() {
    let template = TextTemplate { single: vec![TemplatePiece::First], special_tokens: Vec::new() };
    assert_eq!(check_template(&template), Ok(()));
    let empty = TextTemplate { single: Vec::new(), special_tokens: Vec::new() };
    assert_eq!(check_template(&empty), Ok(()));
}

#[test]
fn an_entry_that_no_piece_names_does_no_harm() {
    let mut template = bert_like();
    template.special_tokens.push(entry("[PAD]", vec![0]));
    assert_eq!(check_template(&template), Ok(()));
}

#[test]
fn a_piece_for_a_second_text_is_a_fault() {
    let mut template = bert_like();
    template.single.insert(1, TemplatePiece::Second);
    assert_eq!(check_template(&template), Err(TemplateError::SecondText { piece: 1 }));
}

#[test]
fn a_piece_that_names_a_missing_token_is_a_fault() {
    let mut template = bert_like();
    template.single.push(named("[MASK]"));
    assert_eq!(check_template(&template), Err(TemplateError::UnknownId { piece: 3 }));
    let bare = TextTemplate { single: vec![named("[CLS]")], special_tokens: Vec::new() };
    assert_eq!(check_template(&bare), Err(TemplateError::UnknownId { piece: 0 }));
}

#[test]
fn an_id_that_reads_as_something_else_is_a_fault() {
    for id in ["$B", "$A", "$", "$0", "[CLS]:1", ":", "a:b:c"] {
        let template = TextTemplate {
            single: vec![TemplatePiece::First, named(id)],
            special_tokens: vec![entry(id, vec![1])],
        };
        assert_eq!(
            check_template(&template),
            Err(TemplateError::UnwritableId { piece: 1 }),
            "id {:?}",
            id
        );
    }
}

#[test]
fn an_entry_with_more_ids_than_tokens_is_a_fault() {
    let mut template = bert_like();
    template.special_tokens[1].ids.push(104);
    assert_eq!(check_template(&template), Err(TemplateError::UnevenEntry { entry: 1 }));
}

#[test]
fn the_first_fault_is_the_one_that_is_named() {
    let template = TextTemplate {
        single: vec![named("[CLS]"), named("$B"), TemplatePiece::Second, named("[MASK]")],
        special_tokens: vec![
            SpecialTokenEntry { id: "[CLS]".to_string(), ids: vec![1, 2], tokens: Vec::new() },
        ],
    };
    assert_eq!(check_template(&template), Err(TemplateError::UnwritableId { piece: 1 }));
    let mut later = template.clone();
    later.single[1] = TemplatePiece::First;
    assert_eq!(check_template(&later), Err(TemplateError::SecondText { piece: 2 }));
    later.single[2] = TemplatePiece::First;
    assert_eq!(check_template(&later), Err(TemplateError::UnknownId { piece: 3 }));
    later.single.pop();
    assert_eq!(check_template(&later), Err(TemplateError::UnevenEntry { entry: 0 }));
}

#[test]
fn ids_are_writable_unless_they_start_with_a_dollar_or_hold_a_colon() {
    for id in ["[CLS]", "", "<s>", "a$", "é$b", "x y"] {
        assert!(is_writable_id(&id.to_string()), "id {:?}", id);
    }
    for id in ["$", "$B", "$[CLS]", ":", "a:", ":a", "é:é"] {
        assert!(!is_writable_id(&id.to_string()), "id {:?}", id);
    }
}

#[test]
fn the_table_is_searched_by_id() {
    let table = vec![entry("[CLS]", vec![101]), entry("", vec![5]), entry("[SEP]", vec![103])];
    assert!(table_holds(&table, &"[CLS]".to_string()));
    assert!(table_holds(&table, &"[SEP]".to_string()));
    assert!(table_holds(&table, &String::new()));
    assert!(!table_holds(&table, &"[MASK]".to_string()));
    assert!(!table_holds(&table, &"[CLS".to_string()));
    assert!(!table_holds(&Vec::new(), &"[CLS]".to_string()));
}

#[test]
fn pieces_are_written_down_in_their_order() {
    let pieces = vec![named("[CLS]"), TemplatePiece::First, TemplatePiece::Second, named("")];
    assert_eq!(
        piece_texts(&pieces),
        vec!["[CLS]".to_string(), "$A".to_string(), "$B".to_string(), String::new()]
    );
    assert!(piece_texts(&Vec::new()).is_empty());
}
