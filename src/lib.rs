//! Sequence diagrams from a small text notation: parsing, layout, a drawing
//! plan for the hand-drawn renderer, and a compact shareable token for the text.

pub mod ast;
pub mod parse;
pub mod layout;
pub mod codec;
pub mod paper;
pub mod draw;
pub mod diagram;
pub mod svg;
