//! Front end of a small expression language: a tokenizer, a precedence
//! parser and a pass that binds names and attaches types to the tree.
//!
//! A text goes through the stages in order:
//!
//! 1. [`scanner::Scanner`] cuts it into tokens;
//! 2. [`parser::Parser`] builds the trees of its statements;
//! 3. [`passes::scope_pass::ScopePass`] attaches a type to each node that
//!    has one, and binds each declared name in a scope;
//! 4. [`compiler::Compiler`] gives the statements of the target program.
//!
//! Each stage stops at its first error. What each stage returns is stated
//! over a mathematical model of its input: the bytes of the text, the
//! models of the tokens, the models of the trees. The rules of the first
//! two stages stand in [`scanner::rules`] and [`parser::grammar`]; what
//! follows from them is proved beside them, in [`parser::shape`] and in
//! [`front_end`].

use vstd::prelude::*;

pub mod compiler;
pub mod front_end;
pub mod parser;
pub mod passes;
pub mod scanner;
pub mod util;

verus! {

/// Sum of two sizes.
pub fn add(left: usize, right: usize) -> (sum: usize)
    requires
        left + right <= usize::MAX,
    ensures
        sum == left + right,
{
    left + right
}

} // verus!
