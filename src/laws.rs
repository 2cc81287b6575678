use vstd::prelude::*;
use crate::expr::{Expr, ParseError};
use crate::token::{Token, Types};

verus! {

/// How many operands the first `n` tokens leave on the stack: one more for
/// each identifier or constant, one fewer for each marker.
pub open spec fn net_operands<T: Types>(toks: Seq<Token<T>>, n: nat) -> int
    decreases n,
{
    if n == 0 {
        0
    } else {
        net_operands(toks, (n - 1) as nat) + match toks[n - 1] {
            Token::Id(_) | Token::Val(_) => 1int,
            Token::Lambda | Token::Apply => -1int,
        }
    }
}

/// When the first `n` tokens raise no error, the stack holds exactly
/// `net_operands(toks, n)` expressions.
pub proof fn lemma_stack_size<T: Types>(toks: Seq<Token<T>>, n: nat)
    requires
        n <= toks.len(),
        Expr::<T>::stack_after(toks, n) is Ok,
    ensures
        Expr::<T>::stack_after(toks, n)->Ok_0.len() == net_operands(toks, n),
    decreases n,
{
    if n > 0 {
        if Expr::<T>::stack_after(toks, (n - 1) as nat) is Ok {
            lemma_stack_size(toks, (n - 1) as nat);
        }
    }
}

/// Parsing fails with `EOF` whenever every token is processed without error
/// and the operand count it leaves is not exactly one.
pub proof fn lemma_unbalanced_is_eof<T: Types>(toks: Seq<Token<T>>)
    requires
        Expr::<T>::stack_after(toks, toks.len()) is Ok,
        net_operands(toks, toks.len()) != 1,
    ensures
        Expr::<T>::parsed(toks) == Err::<Expr<T>, ParseError<T>>(ParseError::EOF),
{
    lemma_stack_size(toks, toks.len());
}

/// Processing tokens only ever fails with `Underflow` or `NotAVar`.
pub proof fn lemma_token_errors<T: Types>(toks: Seq<Token<T>>, n: nat)
    ensures
        match Expr::<T>::stack_after(toks, n) {
            Ok(_) => true,
            Err(e) => e is Underflow || e is NotAVar,
        },
    decreases n,
{
    if n > 0 {
        lemma_token_errors(toks, (n - 1) as nat);
    }
}

/// Parsing is total: every finite token sequence gives an expression or one
/// of `Underflow`, `NotAVar` and `EOF`.
pub proof fn lemma_parse_total<T: Types>(toks: Seq<Token<T>>)
    ensures
        match Expr::<T>::parsed(toks) {
            Ok(_) => true,
            Err(e) => e is Underflow || e is NotAVar || e is EOF,
        },
{
    lemma_token_errors(toks, toks.len());
}

/// Substituting for a symbol that is not free in an expression gives the
/// expression back, whatever the replacement.
pub proof fn lemma_subst_not_free<T: Types>(e: Expr<T>, v: T::Sym, r: Expr<T>)
    requires
        !e.free_in(v),
    ensures
        e.substituted(v, r) == e,
    decreases e,
{
    match e {
        Expr::Lambda(a, b) => {
            if a != v {
                lemma_subst_not_free(*b, v, r);
            }
        },
        Expr::App(f, x) => {
            lemma_subst_not_free(*f, v, r);
            lemma_subst_not_free(*x, v, r);
        },
        _ => {},
    }
}

} // verus!
