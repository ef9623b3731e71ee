//! The tokens that the serializer consumes, and the errors it reports.
use vstd::prelude::*;

verus! {

/// The punctuation kinds of `pp_rs::token::Punct`; Verus reads its variants
/// from the declaration there, so the serializer can match on them.
#[verifier::external_type_specification]
pub struct ExPunct(pp_rs::token::Punct);

/// Where the preprocessor met a problem; carried through unchanged.
#[verifier::external_type_specification]
#[verifier::external_body]
pub struct ExLocation(pp_rs::token::Location);

/// What went wrong in the preprocessor; carried through unchanged.
#[verifier::external_type_specification]
#[verifier::external_body]
pub struct ExPreprocessorError(pp_rs::token::PreprocessorError);

/// One preprocessed token.
#[derive(Debug, PartialEq)]
pub enum TokenValue {
    /// A name, emitted verbatim.
    Ident(String),
    /// An integer literal, emitted in decimal.
    Integer(u64),
    /// A floating-point literal, held as the shortest decimal text that reads
    /// back to the value (`2`, `2.5`, `-0`, `inf`), as Rust's `Display` writes it.
    Float(String),
    /// An operator or delimiter.
    Punctuation(pp_rs::token::Punct),
    /// The tokens of a `#version` line after the directive name.
    Version(Vec<TokenValue>),
    /// The tokens of an `#extension` line after the directive name.
    Extension(Vec<TokenValue>),
    /// A `#pragma` line; never serialized.
    Pragma,
}

/// Why serialization stopped.
#[derive(Debug, PartialEq)]
pub enum SerializeError {
    /// The token source failed; its error is passed on unchanged.
    Source(pp_rs::token::PreprocessorError, pp_rs::token::Location),
    /// A `#version` or `#extension` line does not have the required shape.
    MalformedDirective,
    /// A `#pragma` line, which this serializer does not support.
    UnsupportedDirective,
}

/// Identifiers and numeric literals: their text would merge with a following one.
pub open spec fn is_word(t: TokenValue) -> bool {
    match t {
        TokenValue::Ident(_) | TokenValue::Integer(_) | TokenValue::Float(_) => true,
        _ => false,
    }
}

/// Whether a token is a word, as `is_word` says.
pub fn token_is_word(t: &TokenValue) -> (r: bool)
    ensures
        r == is_word(*t),
{
    match t {
        TokenValue::Ident(_) | TokenValue::Integer(_) | TokenValue::Float(_) => true,
        _ => false,
    }
}

} // verus!
