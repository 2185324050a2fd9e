//! The two sub-grammars that the loop grammar does not define itself:
//! expressions and patterns of the host language.
//!
//! Both are answered by `syn`, on source text. Nothing here is proved: each
//! answer is given a name, and the loop grammar is verified for every answer.

use vstd::prelude::*;

verus! {

/// What kind of expression a piece of source text is.
#[derive(Clone, Copy, PartialEq, Eq, Structural, Debug)]
pub enum CallShape {
    /// A call of a function: `callee(args)`.
    Function,
    /// A call of a method: `receiver.method(args)`.
    Method,
    /// An expression of any other shape.
    Other,
    /// Not an expression.
    Malformed,
}

/// The shape that `syn` finds in `source` when it reads all of it as one
/// expression.
pub uninterp spec fn call_shape_of(source: Seq<char>) -> CallShape;

/// Whether `syn` reads all of `source` as one pattern without a top-level `|`.
pub uninterp spec fn pattern_accepted(source: Seq<char>) -> bool;

/// Reads `source` with `syn::parse_str::<syn::Expr>` and tells the outermost
/// node of the expression: a call, a method call, another expression, or a
/// syntax error. The parser must consume the whole text.
#[verifier::external_body]
pub(crate) fn classify_call(source: &str) -> (shape: CallShape)
    ensures
        shape == call_shape_of(source@),
{
    match syn::parse_str::<syn::Expr>(source) {
        Ok(syn::Expr::Call(_)) => CallShape::Function,
        Ok(syn::Expr::MethodCall(_)) => CallShape::Method,
        Ok(_) => CallShape::Other,
        Err(_) => CallShape::Malformed,
    }
}

/// Reads `source` with `syn::Pat::parse_single` and tells whether it is a
/// pattern. The parser must consume the whole text.
#[verifier::external_body]
pub(crate) fn accepts_pattern(source: &str) -> (yes: bool)
    ensures
        yes == pattern_accepted(source@),
{
    syn::parse::Parser::parse_str(syn::Pat::parse_single, source).is_ok()
}

} // verus!
