//! Cleans SRT-style subtitle documents: drops cues that carry attribution or
//! advertising text and renumbers the cues that remain.
use vstd::prelude::*;

pub mod encoding;
pub mod laws;
pub mod reconstruct;
pub mod rules;
pub mod text;

use crate::encoding::{decode_input, decoded_text, guessed_encoding};
use crate::reconstruct::{clean_spec, clean_text};
use crate::rules::RuleTable;

verus! {

/// A cleaned document: the cleaned text and the name of the encoding the
/// input was read as.
pub struct CleanedDocument {
    pub encoding: String,
    pub text: String,
}

/// Decodes raw subtitle bytes and cleans the decoded text.
pub fn clean_document(rules: &RuleTable, data: &[u8]) -> (r: CleanedDocument)
    requires
        data@.len() <= usize::MAX / 8,
    ensures
        r.encoding@ == guessed_encoding(data@),
        r.text@ == clean_spec(rules@, decoded_text(data@)),
{
    let decoded = decode_input(data);
    let text = clean_text(rules, decoded.text.as_str());
    CleanedDocument { encoding: decoded.encoding, text }
}

} // verus!
