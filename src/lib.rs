//! Turns a stream of already preprocessed shader tokens back into canonical
//! source text: one space between adjacent words, a fixed spacing table for
//! punctuation, canonical numeric literals, and rebuilt `#version` /
//! `#extension` lines.
pub mod token;
pub mod render;
pub mod serializer;
