//! Callback-driven iteration with loop syntax.
//!
//! A callback-style iterator is a function that hands every element to a
//! caller-supplied callback and reports early termination through its own
//! two-state result. This crate turns a loop written over such a function,
//!
//! ```text
//! ('label:)? for <pattern> in <call> (break ((loop)? 'label),+)? { <body> }
//! ```
//!
//! into a call of that function with a relay closure as its last argument,
//! followed by a dispatcher that replays whatever jump the body asked for.
//!
//! - [`token`] holds the token trees that the loop is read from and that the
//!   expansion is made of.
//! - [`syntax`] reads a loop into its structured form; [`subgrammar`] asks the
//!   grammar of the host language about patterns and expressions.
//! - [`taxonomy`] derives the reasons for which a body may leave early.
//! - [`expand`] writes the expansion.
//! - [`relay`] says what the expansion does when it runs, and [`laws`] what
//!   holds of that for every loop and every body.

pub mod expand;
pub mod laws;
pub mod relay;
pub mod subgrammar;
pub mod syntax;
pub mod taxonomy;
pub mod token;

use crate::expand::expansion;
use crate::subgrammar::{call_shape_of, pattern_accepted};
use crate::syntax::{call_tokens, parsed_loop, pattern_tokens, CbitForExpr, LoopSpec, ParseError};
use crate::token::{source_text, toks, Token};
use vstd::prelude::*;

verus! {

/// Reads `input` as one loop and expands it.
///
/// Where the tokens are a loop, the result is its expansion; where they are
/// not, it is the leftmost reason why, and nothing is expanded.
pub fn cbit(input: &Vec<Token>) -> (output: Result<Vec<Token>, ParseError>)
    ensures
        match output {
            Ok(tokens) => parsed_loop(
                toks(input@),
                pattern_accepted(source_text(pattern_tokens(toks(input@)))),
                call_shape_of(source_text(call_tokens(toks(input@)))),
            ) matches Ok(spec) && toks(tokens@) == expansion(spec),
            Err(e) => parsed_loop(
                toks(input@),
                pattern_accepted(source_text(pattern_tokens(toks(input@)))),
                call_shape_of(source_text(call_tokens(toks(input@)))),
            ) == Err::<LoopSpec, ParseError>(e),
        },
{
    match CbitForExpr::parse(input) {
        Ok(parsed) => Ok(parsed.expand()),
        Err(e) => Err(e),
    }
}

} // verus!
