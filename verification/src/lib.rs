//! Design parity checking: the decisions behind comparing a design reference
//! with its implementation, with their contracts.
use vstd::prelude::*;

pub mod text;
pub mod viewport;
pub mod issues;
pub mod error;
pub mod resource;
pub mod metrics;
pub mod cluster;
pub mod layout;
pub mod selectors;
pub mod content;
pub mod typography;
pub mod text_match;
pub mod figma;
pub mod playwright;
pub mod settings;
pub mod browser;
pub mod summary;
pub mod output;
pub mod cli;
pub mod ocr;
pub mod color;
pub mod ansi;
pub mod json;
pub mod encoding;
pub mod codegen;

verus! {
} // verus!
