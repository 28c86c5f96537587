//! Bridges to outside crates: each item here calls one outside function and
//! states what the library relies on about it.
pub mod clock;
pub mod glob;
pub mod json;
pub mod num;
pub mod path;
pub mod regex;
pub mod utf8;
pub mod url;
