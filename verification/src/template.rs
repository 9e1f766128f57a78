//! The template by which a tokenizer frames one text with special tokens, held
//! as plain values so that it can be checked before a tokenizer is built on
//! it.

use vstd::prelude::*;
use vstd::string::{StrSliceExecFns, StringExecFns};

verus! {

/// One piece of a template.
#[derive(Debug, Clone, PartialEq, Eq)]
pub enum TemplatePiece {
    /// The tokens of the text.
    First,
    /// The tokens of the second text of a pair. A template for one text cannot
    /// use it.
    Second,
    /// The special token with this id.
    Special(String),
}

/// One special token of a template: the id by which pieces name it, and the
/// token ids and token texts that it stands for.
#[derive(Debug, Clone, PartialEq, Eq)]
pub struct SpecialTokenEntry {
    pub id: String,
    pub ids: Vec<u32>,
    pub tokens: Vec<String>,
}

/// The template for one text, with the table of its special tokens.
#[derive(Debug, Clone, PartialEq, Eq)]
pub struct TextTemplate {
    pub single: Vec<TemplatePiece>,
    pub special_tokens: Vec<SpecialTokenEntry>,
}

/// What is wrong with a template.
#[derive(Debug, Clone, Copy, PartialEq, Eq, Structural)]
pub enum TemplateError {
    /// The piece at this position stands for a second text.
    SecondText { piece: usize },
    /// The id of the piece at this position cannot be written down as a piece:
    /// it starts with `$` or holds a `:`.
    UnwritableId { piece: usize },
    /// The piece at this position names a special token that the table lacks.
    UnknownId { piece: usize },
    /// The table entry at this position has not one token text per token id.
    UnevenEntry { entry: usize },
}

/// Whether a special-token id, written down as a piece, is read back as that
/// id: a leading `$` would make it a text, and a `:` would cut it short.
pub open spec fn is_writable(id: Seq<char>) -> bool {
    (id.len() == 0 || id[0] != '$') && forall|i: int| 0 <= i < id.len() ==> id[i] != ':'
}

/// Whether the table holds a special token with this id.
pub open spec fn table_has(table: Seq<SpecialTokenEntry>, id: Seq<char>) -> bool {
    exists|k: int| 0 <= k < table.len() && (#[trigger] table[k]).id@ == id
}

/// What is wrong with the piece at position `at`, if anything.
pub open spec fn piece_fault(
    piece: TemplatePiece,
    at: usize,
    table: Seq<SpecialTokenEntry>,
) -> Option<TemplateError> {
    match piece {
        TemplatePiece::First => None,
        TemplatePiece::Second => Some(TemplateError::SecondText { piece: at }),
        TemplatePiece::Special(id) => if !is_writable(id@) {
            Some(TemplateError::UnwritableId { piece: at })
        } else if !table_has(table, id@) {
            Some(TemplateError::UnknownId { piece: at })
        } else {
            None
        },
    }
}

/// Whether an entry has one token text per token id.
pub open spec fn is_even(entry: SpecialTokenEntry) -> bool {
    entry.ids@.len() == entry.tokens@.len()
}

/// Whether every piece of the template is in order.
pub open spec fn pieces_are_sound(template: TextTemplate) -> bool {
    forall|i: int|
        0 <= i < template.single@.len() ==> piece_fault(
            #[trigger] template.single@[i],
            i as usize,
            template.special_tokens@,
        ) is None
}

/// Whether a tokenizer can frame every text by this template: no piece stands
/// for a second text, every special token that a piece names is in the table
/// under an id that can be written down, and every entry of the table is even.
pub open spec fn template_is_sound(template: TextTemplate) -> bool {
    &&& pieces_are_sound(template)
    &&& forall|k: int|
        0 <= k < template.special_tokens@.len() ==> is_even(#[trigger] template.special_tokens@[k])
}

/// Whether `fault` is the first thing that is wrong with the template: the
/// pieces come before the table, and each in its order.
pub open spec fn is_first_fault(template: TextTemplate, fault: TemplateError) -> bool {
    let pieces = template.single@;
    let table = template.special_tokens@;
    match fault {
        TemplateError::UnevenEntry { entry } => {
            &&& pieces_are_sound(template)
            &&& entry < table.len()
            &&& !is_even(table[entry as int])
            &&& forall|k: int| 0 <= k < entry ==> is_even(#[trigger] table[k])
        },
        TemplateError::SecondText { piece }
        | TemplateError::UnwritableId { piece }
        | TemplateError::UnknownId { piece } => {
            &&& piece < pieces.len()
            &&& piece_fault(pieces[piece as int], piece, table) == Some(fault)
            &&& forall|i: int|
                0 <= i < piece ==> piece_fault(#[trigger] pieces[i], i as usize, table) is None
        },
    }
}

/// Decides whether an id can be written down as a piece.
pub fn is_writable_id(id: &String) -> (writable: bool)
    ensures
        writable == is_writable(id@),
{
    let text = id.as_str();
    let len: usize = text.unicode_len();
    if len > 0 && text.get_char(0) == '$' {
        return false;
    }
    let mut i: usize = 0;
    while i < len
        invariant
            len == text@.len(),
            text@ == id@,
            i <= len,
            forall|j: int| 0 <= j < i ==> id@[j] != ':',
        decreases len - i,
    {
        if text.get_char(i) == ':' {
            return false;
        }
        i += 1;
    }
    true
}

/// Looks an id up in the table of special tokens.
pub fn table_holds(table: &Vec<SpecialTokenEntry>, id: &String) -> (found: bool)
    ensures
        found == table_has(table@, id@),
{
    let mut k: usize = 0;
    while k < table.len()
        invariant
            k <= table.len(),
            forall|j: int| 0 <= j < k ==> (#[trigger] table@[j]).id@ != id@,
        decreases table.len() - k,
    {
        if table[k].id == *id {
            return true;
        }
        k += 1;
    }
    false
}

/// Checks a template, and names the first thing that is wrong with it.
pub fn check_template(template: &TextTemplate) -> (verdict: Result<(), TemplateError>)
    ensures
        verdict is Ok <==> template_is_sound(*template),
        verdict matches Err(fault) ==> is_first_fault(*template, fault),
{
    let mut i: usize = 0;
    while i < template.single.len()
        invariant
            i <= template.single@.len(),
            forall|j: int|
                0 <= j < i ==> piece_fault(
                    #[trigger] template.single@[j],
                    j as usize,
                    template.special_tokens@,
                ) is None,
        decreases template.single@.len() - i,
    {
        match &template.single[i] {
            TemplatePiece::First => {},
            TemplatePiece::Second => {
                return Err(TemplateError::SecondText { piece: i });
            },
            TemplatePiece::Special(id) => {
                if !is_writable_id(id) {
                    return Err(TemplateError::UnwritableId { piece: i });
                }
                if !table_holds(&template.special_tokens, id) {
                    return Err(TemplateError::UnknownId { piece: i });
                }
            },
        }
        i += 1;
    }
    let mut k: usize = 0;
    while k < template.special_tokens.len()
        invariant
            pieces_are_sound(*template),
            k <= template.special_tokens@.len(),
            forall|j: int| 0 <= j < k ==> is_even(#[trigger] template.special_tokens@[j]),
        decreases template.special_tokens@.len() - k,
    {
        if template.special_tokens[k].ids.len() != template.special_tokens[k].tokens.len() {
            return Err(TemplateError::UnevenEntry { entry: k });
        }
        k += 1;
    }
    Ok(())
}

/// How a piece is written down.
pub open spec fn piece_text(piece: TemplatePiece) -> Seq<char> {
    match piece {
        TemplatePiece::First => "$A"@,
        TemplatePiece::Second => "$B"@,
        TemplatePiece::Special(id) => id@,
    }
}

/// Writes the pieces of a template down, one text per piece, in their order.
pub fn piece_texts(pieces: &Vec<TemplatePiece>) -> (texts: Vec<String>)
    ensures
        texts@.len() == pieces@.len(),
        forall|i: int| 0 <= i < pieces@.len() ==> (#[trigger] texts@[i])@ == piece_text(pieces@[i]),
{
    let mut texts: Vec<String> = Vec::new();
    let mut i: usize = 0;
    while i < pieces.len()
        invariant
            i <= pieces@.len(),
            texts@.len() == i,
            forall|j: int| 0 <= j < i ==> (#[trigger] texts@[j])@ == piece_text(pieces@[j]),
        decreases pieces@.len() - i,
    {
        let text = match &pieces[i] {
            TemplatePiece::First => String::from_str("$A"),
            TemplatePiece::Second => String::from_str("$B"),
            TemplatePiece::Special(id) => id.clone(),
        };
        texts.push(text);
        i += 1;
    }
    texts
}

} // verus!
