//! Untyped lambda-calculus terms over host-supplied constants and symbols:
//! a postfix token parser and a substitution / beta-reduction engine.
use vstd::prelude::*;

pub mod expr;
pub mod laws;
pub mod token;

pub use expr::{Env, Expr, ParseError};
pub use token::{SigmaRules, Token, Types};
