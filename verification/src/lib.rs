//! A serializer that renders trees of values as ESTree-style JSON text,
//! in either a compact or a pretty (indented) layout, against a proved
//! specification of the exact text that each layout produces.

pub mod buffer;
pub mod estree;
pub mod formatter;
pub mod json;
pub mod laws;
pub mod sequences;
pub mod serializer;
pub mod structs;
