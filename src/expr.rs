use vstd::prelude::*;
use vstd::std_specs::convert::IntoSpec;
use crate::token::{Token, Types};

verus! {

/// A lambda-calculus expression; every node owns its children.
#[derive(Debug, PartialEq)]
pub enum Expr<T: Types> {
    Lambda(T::Sym, Box<Expr<T>>),
    Val(T::Val),
    Var(T::Sym),
    App(Box<Expr<T>>, Box<Expr<T>>),
}

impl<T: Types> Expr<T> {
    /// A structural copy of the expression.
    pub fn duplicate(&self) -> (r: Self)
        ensures
            r == *self,
        decreases self,
    {
        match self {
            Expr::Lambda(a, b) => Expr::Lambda(T::dup_sym(a), Box::new(b.duplicate())),
            Expr::Val(v) => Expr::Val(T::dup_val(v)),
            Expr::Var(s) => Expr::Var(T::dup_sym(s)),
            Expr::App(f, x) => Expr::App(Box::new(f.duplicate()), Box::new(x.duplicate())),
        }
    }
}

impl<T: Types> Expr<T> {
    /// A boxed constant.
    pub fn val<B>(v: B) -> (r: Box<Self>)
        where
            B: Into<T::Val>,
        ensures
            B::obeys_into_spec() ==> *r == Expr::<T>::Val(v.into_spec()),
    {
        Box::new(Expr::Val(v.into()))
    }

    /// A boxed lambda binding `arg` in `body`.
    pub fn lambda<B>(arg: B, body: Box<Self>) -> (r: Box<Self>)
        where
            B: Into<T::Sym>,
        ensures
            B::obeys_into_spec() ==> *r == Expr::<T>::Lambda(arg.into_spec(), body),
    {
        Box::new(Expr::Lambda(arg.into(), body))
    }

    /// A boxed variable.
    pub fn var<B>(name: B) -> (r: Box<Self>)
        where
            B: Into<T::Sym>,
        ensures
            B::obeys_into_spec() ==> *r == Expr::<T>::Var(name.into_spec()),
    {
        Box::new(Expr::Var(name.into()))
    }

    /// A boxed application of `func` to `arg`.
    pub fn apply(func: Box<Self>, arg: Box<Self>) -> (r: Box<Self>)
        ensures
            *r == Expr::<T>::App(func, arg),
    {
        Box::new(Expr::App(func, arg))
    }

    /// Whether `v` occurs in the expression outside every lambda that binds it.
    pub open spec fn free_in(self, v: T::Sym) -> bool
        decreases self,
    {
        match self {
            Expr::Lambda(a, b) => a != v && b.free_in(v),
            Expr::Val(_) => false,
            Expr::Var(s) => s == v,
            Expr::App(f, x) => f.free_in(v) || x.free_in(v),
        }
    }

    /// The expression with every free occurrence of `v` replaced by `r`.
    ///
    /// A lambda that binds `v` shadows it: its body is left as it is. Binders
    /// are never renamed, so a free symbol of `r` may be captured by a lambda
    /// of the expression that binds the same symbol.
    pub open spec fn substituted(self, v: T::Sym, r: Expr<T>) -> Expr<T>
        decreases self,
    {
        match self {
            Expr::Lambda(a, b) => if a == v {
                self
            } else {
                Expr::Lambda(a, Box::new(b.substituted(v, r)))
            },
            Expr::Val(_) => self,
            Expr::Var(s) => if s == v {
                r
            } else {
                self
            },
            Expr::App(f, x) => Expr::App(
                Box::new(f.substituted(v, r)),
                Box::new(x.substituted(v, r)),
            ),
        }
    }

    /// An application whose function is a lambda.
    pub open spec fn is_redex(self) -> bool {
        &&& self is App
        &&& *self->App_0 is Lambda
    }

    /// One beta step on a redex: the lambda's body with its binder replaced
    /// by the argument.
    pub open spec fn reduced(self) -> Expr<T>
        recommends
            self.is_redex(),
    {
        match self {
            Expr::App(f, x) => match *f {
                Expr::Lambda(a, b) => b.substituted(a, *x),
                _ => self,
            },
            _ => self,
        }
    }

    /// The expression with every free occurrence of `var` replaced by a copy
    /// of `exp`, built as a new tree; `self` is only read.
    ///
    /// A lambda that binds `var` is copied as it is, body included.
    pub fn substitute(&self, var: &T::Sym, exp: &Self) -> (r: Box<Self>)
        ensures
            *r == self.substituted(*var, *exp),
        decreases self,
    {
        match self {
            Expr::Var(v) => if T::same_sym(v, var) {
                Box::new(exp.duplicate())
            } else {
                Box::new(Expr::Var(T::dup_sym(v)))
            },
            Expr::Lambda(a, b) => if T::same_sym(a, var) {
                Box::new(self.duplicate())
            } else {
                Box::new(Expr::Lambda(T::dup_sym(a), b.substitute(var, exp)))
            },
            Expr::App(f, x) => Box::new(Expr::App(f.substitute(var, exp), x.substitute(var, exp))),
            Expr::Val(v) => Box::new(Expr::Val(T::dup_val(v))),
        }
    }

    /// Replaces every free occurrence of `var` by a copy of `exp`.
    ///
    /// A lambda that binds `var` is left untouched, body included.
    pub fn subst(self, var: T::Sym, exp: Box<Self>) -> (r: Box<Self>)
        ensures
            *r == self.substituted(var, *exp),
    {
        self.substitute(&var, &exp)
    }

    /// Tells whether `beta_reduce` may be called on the expression.
    pub fn redex(&self) -> (r: bool)
        ensures
            r == self.is_redex(),
    {
        match self {
            Expr::App(f, _) => match &**f {
                Expr::Lambda(_, _) => true,
                _ => false,
            },
            _ => false,
        }
    }

    /// Performs one beta step: `(\a.b) x` becomes `b` with `x` for `a`.
    pub fn beta_reduce(self) -> (r: Box<Self>)
        requires
            self.is_redex(),
        ensures
            *r == self.reduced(),
    {
        match self {
            Expr::App(f, x) => match *f {
                Expr::Lambda(a, b) => (*b).subst(a, x),
                other => Box::new(Expr::App(Box::new(other), x)),
            },
            other => Box::new(other),
        }
    }
}

impl<T: Types> Expr<T> {
    /// The operand stack after one token, or the error that token raises.
    ///
    /// A lambda marker pops the body, then the binder, which must be a
    /// variable; an apply marker pops the argument, then the function.
    pub open spec fn push_token(stack: Seq<Expr<T>>, t: Token<T>) -> Result<
        Seq<Expr<T>>,
        ParseError<T>,
    > {
        match t {
            Token::Id(s) => Ok(stack.push(Expr::Var(s))),
            Token::Val(v) => Ok(stack.push(Expr::Val(v))),
            Token::Lambda => if stack.len() < 2 {
                Err(ParseError::Underflow)
            } else {
                match stack[stack.len() - 2] {
                    Expr::Var(s) => Ok(
                        stack.drop_last().drop_last().push(Expr::Lambda(s, Box::new(stack.last()))),
                    ),
                    _ => Err(ParseError::NotAVar),
                }
            },
            Token::Apply => if stack.len() < 2 {
                Err(ParseError::Underflow)
            } else {
                Ok(
                    stack.drop_last().drop_last().push(
                        Expr::App(Box::new(stack[stack.len() - 2]), Box::new(stack.last())),
                    ),
                )
            },
        }
    }

    /// The operand stack after the first `n` tokens, or the first error.
    pub open spec fn stack_after(toks: Seq<Token<T>>, n: nat) -> Result<
        Seq<Expr<T>>,
        ParseError<T>,
    >
        decreases n,
    {
        if n == 0 {
            Ok(Seq::empty())
        } else {
            match Self::stack_after(toks, (n - 1) as nat) {
                Ok(stack) => Self::push_token(stack, toks[n - 1]),
                Err(e) => Err(e),
            }
        }
    }

    /// What parsing the whole token sequence gives: the single expression
    /// left on the stack, `EOF` when zero or several are left, or the first
    /// error a token raised.
    pub open spec fn parsed(toks: Seq<Token<T>>) -> Result<Expr<T>, ParseError<T>> {
        match Self::stack_after(toks, toks.len()) {
            Ok(stack) => if stack.len() == 1 {
                Ok(stack[0])
            } else {
                Err(ParseError::EOF)
            },
            Err(e) => Err(e),
        }
    }

    proof fn lemma_error_sticks(toks: Seq<Token<T>>, i: nat, j: nat)
        requires
            i <= j,
            Self::stack_after(toks, i) is Err,
        ensures
            Self::stack_after(toks, j) == Self::stack_after(toks, i),
        decreases j,
    {
        if j > i {
            Self::lemma_error_sticks(toks, i, (j - 1) as nat);
        }
    }

    /// Parses a postfix token sequence into a single expression.
    pub fn parse(input: &[Token<T>]) -> (r: Result<Box<Self>, ParseError<T>>)
        ensures
            match r {
                Ok(e) => Self::parsed(input@) == Ok::<Expr<T>, ParseError<T>>(*e),
                Err(e) => Self::parsed(input@) == Err::<Expr<T>, ParseError<T>>(e),
            },
    {
        let mut stack: Vec<Expr<T>> = Vec::new();
        let mut i: usize = 0;
        while i < input.len()
            invariant
                i <= input@.len(),
                Self::stack_after(input@, i as nat) == Ok::<Seq<Expr<T>>, ParseError<T>>(stack@),
            decreases input@.len() - i,
        {
            match &input[i] {
                Token::Val(v) => stack.push(Expr::Val(T::dup_val(v))),
                Token::Id(s) => stack.push(Expr::Var(T::dup_sym(s))),
                Token::Lambda => {
                    let body = match stack.pop() {
                        Some(b) => b,
                        None => {
                            proof { Self::lemma_error_sticks(input@, (i + 1) as nat, input@.len()); }
                            return Err(ParseError::Underflow);
                        },
                    };
                    let arg = match stack.pop() {
                        Some(a) => a,
                        None => {
                            proof { Self::lemma_error_sticks(input@, (i + 1) as nat, input@.len()); }
                            return Err(ParseError::Underflow);
                        },
                    };
                    match arg {
                        Expr::Var(s) => stack.push(Expr::Lambda(s, Box::new(body))),
                        _ => {
                            proof { Self::lemma_error_sticks(input@, (i + 1) as nat, input@.len()); }
                            return Err(ParseError::NotAVar);
                        },
                    }
                },
                Token::Apply => {
                    let arg = match stack.pop() {
                        Some(b) => b,
                        None => {
                            proof { Self::lemma_error_sticks(input@, (i + 1) as nat, input@.len()); }
                            return Err(ParseError::Underflow);
                        },
                    };
                    let func = match stack.pop() {
                        Some(a) => a,
                        None => {
                            proof { Self::lemma_error_sticks(input@, (i + 1) as nat, input@.len()); }
                            return Err(ParseError::Underflow);
                        },
                    };
                    stack.push(Expr::App(Box::new(func), Box::new(arg)));
                },
            }
            i = i + 1;
        }
        if stack.len() == 1 {
            match stack.pop() {
                Some(e) => Ok(Box::new(e)),
                None => Err(ParseError::Underflow),
            }
        } else {
            Err(ParseError::EOF)
        }
    }
}

impl<T: Types> Clone for Expr<T> {
    fn clone(&self) -> (r: Self)
        ensures
            r == *self,
    {
        self.duplicate()
    }
}

/// Why a token sequence does not parse. `Unexpected` and `Mismatched` are
/// reserved for extensions of the grammar: the base grammar accepts every
/// token in every state.
#[derive(Debug)]
pub enum ParseError<T: Types> {
    Unexpected(Token<T>),
    Mismatched,
    Underflow,
    NotAVar,
    EOF,
}

/// A way of looking names up to expressions.
pub trait Env<T: Types> {
    fn subst(&self, name: T::Sym) -> Expr<T>;
}

} // verus!
