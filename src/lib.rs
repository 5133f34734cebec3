//! Lexical scanner for a small dynamically-typed scripting language.
#![allow(non_camel_case_types)]

pub mod laws;
pub mod model;
pub mod scanner;
pub mod token;
