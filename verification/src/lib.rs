//! Reads the directive text of SRU tax filings into typed documents, checks forms against
//! their schemas, and writes Info documents back as text.
//!
//! A text is split into directives (`lexer`), the directives are read against the
//! productions of the two kinds of document (`grammar`, `sru_parser`) into the document
//! model (`sru`), and forms are validated against the schema registry (`forms`, `schema`).
//! `round_trip` proves that what is written is read back.
use vstd::prelude::*;

pub mod command;
pub mod forms;
pub mod grammar;
pub mod lexer;
pub mod round_trip;
pub mod schema;
pub mod sru;
pub mod sru_parser;
pub mod text;
pub mod timestamp;

verus! {

/// Tells whether a text is a document: 0 if it is, 1 if it is not.
pub fn validate_string(file: &str) -> (code: u8)
    ensures
        code == if sru_parser::parse_spec(file@) is Ok { 0u8 } else { 1u8 },
{
    match lexer::lex(file) {
        Err(_) => 1,
        Ok(tokens) => match sru_parser::parse_document(&tokens) {
            Err(_) => 1,
            Ok(_) => 0,
        },
    }
}

} // verus!
