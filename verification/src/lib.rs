//! Identifier/literal splicing engine over lexical token trees.
//!
//! A token sequence may hold *splice units*: bracket groups whose first
//! token is the punctuation `<` and whose last token is the punctuation
//! `>`.  The engine concatenates the identifier and literal fragments of
//! each unit into one fresh identifier, applying per-fragment case and
//! provenance modifiers, and returns the sequence with every unit replaced
//! by its resolved identifier.  All tokens outside splice units are kept
//! exactly as they were.

use vstd::prelude::*;

pub mod engine;
pub mod fold;
pub mod laws;
pub mod splice;
pub mod token;
