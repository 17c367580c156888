//! The single-value predicate capability: each predicate tests one value,
//! explains why a value did or did not satisfy it, and describes what it
//! demands, and the contracts tie each operation to a spec-level account.

use vstd::prelude::*;

verus! {

/// The binary outcome of testing one value against one predicate.
#[derive(Clone, Copy, Debug, PartialEq, Eq, Structural)]
pub enum MatcherResult {
    Matches,
    DoesNotMatch,
}

impl MatcherResult {
    /// Whether this outcome reports satisfaction.
    pub open spec fn is_match(self) -> bool {
        self is Matches
    }

    /// Chooses the first text on a match, the second otherwise.
    pub fn pick<'a>(self, matched: &'a str, not_matched: &'a str) -> (r: &'a str)
        ensures
            r@ == if self.is_match() {
                matched@
            } else {
                not_matched@
            },
    {
        match self {
            MatcherResult::Matches => matched,
            MatcherResult::DoesNotMatch => not_matched,
        }
    }
}

/// A predicate over single values of type `T`.
///
/// `sat`, `explanation` and `description` are the mathematical account of the
/// predicate; the three executable operations are each pinned to it.
pub trait Predicate<T> {
    /// Whether `v` satisfies this predicate.
    spec fn sat(&self, v: T) -> bool;

    /// The text `explain_match` returns for `v`.
    spec fn explanation(&self, v: T) -> Seq<char>;

    /// The text `describe` returns for the given polarity.
    spec fn description(&self, positive: bool) -> Seq<char>;

    /// Tests one value.
    fn matches(&self, v: &T) -> (r: MatcherResult)
        ensures
            r.is_match() <==> self.sat(*v),
    ;

    /// Explains why `v` did or did not satisfy this predicate.
    fn explain_match(&self, v: &T) -> (r: String)
        ensures
            r@ == self.explanation(*v),
    ;

    /// Describes what this predicate demands, framed positively or
    /// negatively.
    fn describe(&self, result: MatcherResult) -> (r: String)
        ensures
            r@ == self.description(result.is_match()),
    ;
}

/// The ability of a value to render itself as text for diagnostics.
pub trait DebugText {
    /// The text `to_text` returns.
    spec fn text(&self) -> Seq<char>;

    /// Renders the value.
    fn to_text(&self) -> (r: String)
        ensures
            r@ == self.text(),
    ;
}

} // verus!
