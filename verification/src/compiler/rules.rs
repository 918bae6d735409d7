//! Operator precedence of the expression grammar.
use vstd::prelude::*;

verus! {

/// Binding strength of operators, from loosest to tightest; the order of the
/// variants is the order of precedence.
#[derive(Debug, Clone, Copy, PartialEq, Eq, PartialOrd, Ord)]
pub enum Precedence {
    NoBinding,
    Assignment,
    Or,
    And,
    Equality,
    Comparison,
    Term,
    Factor,
    To,
    Unary,
    Call,
    Primary,
}

} // verus!
