//! Static analysis of Solana smart-contract sources.
//!
//! The library works on a model of a parsed source file (`ast`): items,
//! attributes as token text, types as text, function bodies as expression
//! trees with spans. On that model it offers:
//!
//! - `query`: composable queries over the tree's nodes, with narrowing
//!   operators and the `or` / `and` / `not` combinators;
//! - `filters` and `scan`: the vulnerability heuristics over structs and
//!   function bodies;
//! - `rules`: rules built from identity, metadata and a query, and the
//!   built-in catalogue;
//! - `engine` and `analyzer`: registration under a configuration and the
//!   execution of rules over files, with statistics;
//! - `span_utils` and `signature`: mapping spans to locations, snippets,
//!   context listings and definition headers of the source text.
use vstd::prelude::*;

pub mod analysis;
pub mod analyzer;
pub mod ast;
pub mod division;
pub mod engine;
pub mod filters;
pub mod query;
pub mod rules;
pub mod scan;
pub mod signature;
pub mod span_utils;
pub mod text;

verus! {

} // verus!
