use vstd::prelude::*;
use vstd::std_specs::convert::IntoSpec;

verus! {

/// Behaviour of constants outside pure lambda application: how a constant
/// in function position combines with a constant argument.
pub trait SigmaRules: Sized {
    type Error: Sized + core::fmt::Debug;

    fn apply(f: Self, x: Self) -> Result<Self, Self::Error>;
}

/// The pair of types a host plugs in: constant values and symbols.
///
/// Symbols are compared and values and symbols duplicated through the
/// methods below. Their contracts (comparison is equality, a duplicate equals
/// its source) are what the parser and the substitution engine are proved
/// against, so an implementation must meet them.
pub trait Types {
    /// A "constant" value of the calculus.
    type Val: core::fmt::Debug + Clone + SigmaRules;

    /// An identifier, usually a string.
    type Sym: core::fmt::Debug + Clone + PartialEq;

    fn same_sym(a: &Self::Sym, b: &Self::Sym) -> (r: bool)
        ensures
            r == (*a == *b),
    ;

    fn dup_sym(s: &Self::Sym) -> (r: Self::Sym)
        ensures
            r == *s,
    ;

    fn dup_val(v: &Self::Val) -> (r: Self::Val)
        ensures
            r == *v,
    ;
}

/// The flat postfix encoding of an expression.
///
/// `\x.x` is `[Id(x), Id(x), Lambda]`; `f a` is `[Id(f), Id(a), Apply]`.
#[derive(Clone, Debug)]
pub enum Token<T: Types> {
    Id(T::Sym),
    Val(T::Val),
    Lambda,
    Apply,
}

impl<T: Types> Token<T> {
    /// An identifier token from anything that converts into a symbol.
    pub fn id<B>(name: B) -> (r: Token<T>)
        where
            B: Into<T::Sym>,
        ensures
            B::obeys_into_spec() ==> r == Token::<T>::Id(name.into_spec()),
    {
        Token::Id(name.into())
    }
}

} // verus!
