//! Literals in Rust syntax, read by the `syn` crate.
//!
//! Nothing in this file is proved: each function states what the parser is
//! relied on to return.
//!
//! The parser descends once for each level of brackets in its input, and the
//! parser of expressions once more for each operand of an operator or keyword.
//! Each function therefore takes only texts whose shape bounds that descent.
use vstd::prelude::*;
use crate::text::{flat_array, one_string, shallow};

verus! {

/// An integer literal as the parser splits it.
pub struct IntLiteral {
    /// The value in base-ten digits, behind a `-` where the literal is negated.
    pub digits: String,
    /// The type suffix, empty where the literal has none.
    pub suffix: String,
}

/// What `syn::parse_str::<syn::LitInt>` makes of `text`: the base-ten digits and
/// the suffix of the one integer literal that `text` consists of, or `None`
/// where `text` is no such literal.
pub uninterp spec fn int_literal(text: Seq<char>) -> Option<(Seq<char>, Seq<char>)>;

/// What `syn::parse_str::<syn::LitBool>` makes of `text`: the value of the one
/// boolean literal that `text` consists of, or `None`.
pub uninterp spec fn bool_literal(text: Seq<char>) -> Option<bool>;

/// What `syn::parse_str::<syn::LitStr>` makes of `text`: the unescaped content
/// of the one string literal that `text` consists of, or `None`.
pub uninterp spec fn str_literal(text: Seq<char>) -> Option<Seq<char>>;

/// What `syn::parse_str::<syn::ExprArray>` makes of `text`: one entry for each
/// element of the array expression, holding the element's base-ten digits where
/// it is an integer literal and `None` where it is any other expression; or
/// `None` where `text` is no array expression.
pub uninterp spec fn array_literal(text: Seq<char>) -> Option<Seq<Option<Seq<char>>>>;

/// Calls `syn::parse_str::<syn::LitInt>` and copies out `base10_digits()` and
/// `suffix()`. The result is a function of `text` alone, named by
/// [`int_literal`]. The brackets of `text` are bounded.
#[verifier::external_body]
pub(crate) fn parse_int_literal(text: &str) -> (r: Option<IntLiteral>)
    requires
        shallow(text@),
    ensures
        r is Some <==> int_literal(text@) is Some,
        r matches Some(lit) ==> int_literal(text@) == Some((lit.digits@, lit.suffix@)),
{
    match syn::parse_str::<syn::LitInt>(text) {
        Ok(lit) => Some(
            IntLiteral { digits: lit.base10_digits().to_string(), suffix: lit.suffix().to_string() },
        ),
        Err(_) => None,
    }
}

/// Calls `syn::parse_str::<syn::LitBool>` and copies out the literal's value.
/// The result is a function of `text` alone, named by [`bool_literal`]. The
/// brackets of `text` are bounded.
#[verifier::external_body]
pub(crate) fn parse_bool_literal(text: &str) -> (r: Option<bool>)
    requires
        shallow(text@),
    ensures
        r == bool_literal(text@),
{
    match syn::parse_str::<syn::LitBool>(text) {
        Ok(lit) => Some(lit.value),
        Err(_) => None,
    }
}

/// Calls `syn::parse_str::<syn::LitStr>` and `value()` on the literal.
/// The result is a function of `text` alone, named by [`str_literal`]. The
/// brackets of `text` are bounded, unless `text` is one pair of double quotes
/// with none between them, which the lexer reads as one token or refuses.
#[verifier::external_body]
pub(crate) fn parse_str_literal(text: &str) -> (r: Option<String>)
    requires
        shallow(text@) || one_string(text@),
    ensures
        r is Some <==> str_literal(text@) is Some,
        r matches Some(s) ==> str_literal(text@) == Some(s@),
{
    match syn::parse_str::<syn::LitStr>(text) {
        Ok(lit) => Some(lit.value()),
        Err(_) => None,
    }
}

/// Calls `syn::parse_str::<syn::ExprArray>` and maps each element to its
/// `base10_digits()` where it is an integer literal expression, to `None`
/// otherwise. The result is a function of `text` alone, named by
/// [`array_literal`]. `text` is a flat list between square brackets: it has
/// one level of brackets, and each of its elements is a short run of words and
/// numbers, so that no element is an expression of any depth.
#[verifier::external_body]
pub(crate) fn parse_array_literal(text: &str) -> (r: Option<Vec<Option<String>>>)
    requires
        flat_array(text@),
    ensures
        r is Some <==> array_literal(text@) is Some,
        r matches Some(elems) ==> array_literal(text@) == Some(elems.deep_view()),
{
    match syn::parse_str::<syn::ExprArray>(text) {
        Ok(array) => Some(
            array.elems.iter().map(
                |e|
                    match e {
                        syn::Expr::Lit(syn::ExprLit { lit: syn::Lit::Int(n), .. }) => Some(
                            n.base10_digits().to_string(),
                        ),
                        _ => None,
                    },
            ).collect(),
        ),
        Err(_) => None,
    }
}

} // verus!
