//! The record produced by decoding one line of the response stream.

use vstd::prelude::*;

verus! {

/// One candidate domain, immutable once constructed.
#[derive(Debug, Clone, PartialEq, Eq)]
pub struct DomainResult {
    /// The candidate domain name.
    pub name: String,
    /// Whether the domain is available for registration.
    pub available: bool,
    /// Whether the domain is offered at a premium price.
    pub premium: bool,
}

/// The mathematical image of a [`DomainResult`].
pub struct DomainResultView {
    /// The candidate domain name, as a character sequence.
    pub name: Seq<char>,
    /// Whether the domain is available for registration.
    pub available: bool,
    /// Whether the domain is offered at a premium price.
    pub premium: bool,
}

impl View for DomainResult {
    type V = DomainResultView;

    open spec fn view(&self) -> DomainResultView {
        DomainResultView { name: self.name@, available: self.available, premium: self.premium }
    }
}

impl DomainResult {
    /// Builds a non-premium result.
    pub fn _new(name: String, available: bool) -> (r: Self)
        ensures
            r@ == (DomainResultView { name: name@, available, premium: false }),
    {
        Self { name, available, premium: false }
    }

    /// Builds a result with an explicit premium flag.
    pub fn new_with_premium(name: String, available: bool, premium: bool) -> (r: Self)
        ensures
            r@ == (DomainResultView { name: name@, available, premium }),
    {
        Self { name, available, premium }
    }
}

} // verus!
