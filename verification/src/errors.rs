//! Failure modes of the engine.
//!
//! Every failure is detected synchronously during resolution and aborts the
//! whole instantiation: no partial output is ever returned.

use vstd::prelude::*;

verus! {

/// Spec-level failure value, over sequences of characters.
pub enum SpecErr {
    /// The symbol has no replacement rule.
    UnknownSymbol(Seq<char>),
    /// The symbol is already being resolved in the current call chain.
    Cyclic(Seq<char>),
    /// A chosen fragment declares its gender more than once.
    MultiMarker(Seq<char>, Seq<char>),
    /// A resolved dependency carries no gender entry.  Mirrors a branch of
    /// the resolver that a successful resolution in fact always avoids.
    NoGender(Seq<char>),
    /// Fresh re-instantiations nest deeper than the engine's budget.
    TooDeep(Seq<char>),
    /// The structured source of a table could not be parsed.
    BadTable,
}

/// The error a failed instantiation returns.
#[derive(Debug)]
pub enum GenError {
    /// No rule is defined for this symbol.
    UnknownSymbol(String),
    /// This symbol depends, directly or not, on itself.
    CyclicDependency(String),
    /// A fragment of this symbol holds two or more inline gender markers;
    /// the second field is the offending fragment.
    MultipleGenderMarkers(String, String),
    /// A dependency was resolved and still carries no gender.
    GenderUnavailable(String),
    /// Fresh re-instantiations nest deeper than the engine's budget.
    RecursionLimit(String),
    /// The structured source handed to `add_json` could not be parsed.
    MalformedTable,
}

impl View for GenError {
    type V = SpecErr;

    open spec fn view(&self) -> SpecErr {
        match self {
            GenError::UnknownSymbol(s) => SpecErr::UnknownSymbol(s@),
            GenError::CyclicDependency(s) => SpecErr::Cyclic(s@),
            GenError::MultipleGenderMarkers(s, f) => SpecErr::MultiMarker(s@, f@),
            GenError::GenderUnavailable(s) => SpecErr::NoGender(s@),
            GenError::RecursionLimit(s) => SpecErr::TooDeep(s@),
            GenError::MalformedTable => SpecErr::BadTable,
        }
    }
}

} // verus!
