//! Which method prices an option.

use vstd::prelude::*;

verus! {

/// What of an option decides its method.
#[derive(Clone, Copy, Debug, PartialEq, Eq, Structural)]
pub struct Terms {
    /// Whether the contract permits American exercise.
    pub american: bool,
    /// Whether volatility is in price units rather than proportional returns.
    pub price_based: bool,
    /// Whether premiums use futures-style settlement.
    pub futures_style: bool,
    /// Whether the volatility is nought or the underlying's price is not above
    /// it, so that nothing is left to chance.
    pub degenerate: bool,
}

/// A method that prices an option.
#[derive(Clone, Copy, Debug, PartialEq, Eq, Structural)]
pub enum Method {
    /// The arithmetic tree.
    ArithmeticTree,
    /// The arithmetic closed form.
    Arithmetic,
    /// The intrinsic value alone.
    Deterministic,
    /// The lognormal tree.
    LognormalTree,
    /// The lognormal closed form.
    Lognormal,
}

/// The method that prices an option. The side path of a degenerate American
/// option goes on to the tree for its greeks.
pub open spec fn method(terms: Terms, side: bool) -> Method {
    if terms.price_based {
        if terms.american {
            Method::ArithmeticTree
        } else {
            Method::Arithmetic
        }
    } else if terms.degenerate && !(terms.american && side && !terms.futures_style) {
        Method::Deterministic
    } else if terms.american && !terms.futures_style {
        Method::LognormalTree
    } else {
        Method::Lognormal
    }
}

/// The method that prices an option.
pub fn method_of(terms: Terms, side: bool) -> (r: Method)
    ensures
        r == method(terms, side),
{
    if terms.price_based {
        if terms.american {
            Method::ArithmeticTree
        } else {
            Method::Arithmetic
        }
    } else if terms.american {
        if terms.degenerate && (!side || terms.futures_style) {
            Method::Deterministic
        } else if terms.futures_style {
            Method::Lognormal
        } else {
            Method::LognormalTree
        }
    } else if terms.degenerate {
        Method::Deterministic
    } else {
        Method::Lognormal
    }
}

/// Whether a quote has the greeks worked out once more by the side path, which
/// keeps the price: only the degenerate American lognormal option differs there.
pub open spec fn differs_beside_a_quote(terms: Terms, quoted: bool) -> bool {
    quoted && method(terms, false) != method(terms, true)
}

/// Whether a quote has the greeks worked out once more by the side path.
pub fn takes_side_path(terms: Terms, quoted: bool) -> (r: bool)
    ensures
        r == differs_beside_a_quote(terms, quoted),
{
    quoted && terms.american && !terms.price_based && !terms.futures_style && terms.degenerate
}

} // verus!
