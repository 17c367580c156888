//! Concrete predicates over integers, and the text rendering of integers,
//! enough to exercise the positional matcher end to end.

use vstd::prelude::*;
use vstd::string::StringExecFns;
use crate::predicate::{DebugText, MatcherResult, Predicate};
use crate::text::{int_text, push_dec_u64};

verus! {

impl DebugText for i64 {
    open spec fn text(&self) -> Seq<char> {
        int_text(*self as int)
    }

    fn to_text(&self) -> (r: String) {
        let mut s = String::new();
        let v: i64 = *self;
        if v < 0 {
            s.append("-");
            let wide: i128 = v as i128;
            let mag: u64 = (-wide) as u64;
            push_dec_u64(&mut s, mag);
            proof {
                reveal_strlit("-");
                assert(s@ =~= int_text(v as int));
            }
        } else {
            push_dec_u64(&mut s, v as u64);
            proof {
                assert(s@ =~= int_text(v as int));
            }
        }
        s
    }
}

/// The description of an equality demand: `is equal to 7` or `isn't equal to
/// 7`, by polarity.
pub open spec fn eq_description(expected: i64, positive: bool) -> Seq<char> {
    (if positive {
        "is"@
    } else {
        "isn't"@
    }) + " equal to "@ + int_text(expected as int)
}

/// Satisfied exactly by one value.
pub struct EqPredicate {
    pub expected: i64,
}

impl Predicate<i64> for EqPredicate {
    open spec fn sat(&self, v: i64) -> bool {
        v == self.expected
    }

    open spec fn explanation(&self, v: i64) -> Seq<char> {
        "which "@ + eq_description(self.expected, v == self.expected)
    }

    open spec fn description(&self, positive: bool) -> Seq<char> {
        eq_description(self.expected, positive)
    }

    fn matches(&self, v: &i64) -> (r: MatcherResult) {
        if *v == self.expected {
            MatcherResult::Matches
        } else {
            MatcherResult::DoesNotMatch
        }
    }

    fn explain_match(&self, v: &i64) -> (r: String) {
        let mut s = "which ".to_owned();
        let outcome = self.matches(v);
        let d = self.describe(outcome);
        s.append(d.as_str());
        proof {
            assert(s@ =~= self.explanation(*v));
        }
        s
    }

    fn describe(&self, result: MatcherResult) -> (r: String) {
        let mut s = result.pick("is", "isn't").to_owned();
        s.append(" equal to ");
        let t = self.expected.to_text();
        s.append(t.as_str());
        proof {
            assert(s@ =~= self.description(result.is_match()));
        }
        s
    }
}

/// The description of a strict upper bound: `is less than 7` or `isn't less
/// than 7`, by polarity.
pub open spec fn lt_description(upper: i64, positive: bool) -> Seq<char> {
    (if positive {
        "is"@
    } else {
        "isn't"@
    }) + " less than "@ + int_text(upper as int)
}

/// Satisfied by values strictly below a bound.
pub struct LtPredicate {
    pub upper: i64,
}

impl Predicate<i64> for LtPredicate {
    open spec fn sat(&self, v: i64) -> bool {
        v < self.upper
    }

    open spec fn explanation(&self, v: i64) -> Seq<char> {
        "which "@ + lt_description(self.upper, v < self.upper)
    }

    open spec fn description(&self, positive: bool) -> Seq<char> {
        lt_description(self.upper, positive)
    }

    fn matches(&self, v: &i64) -> (r: MatcherResult) {
        if *v < self.upper {
            MatcherResult::Matches
        } else {
            MatcherResult::DoesNotMatch
        }
    }

    fn explain_match(&self, v: &i64) -> (r: String) {
        let mut s = "which ".to_owned();
        let outcome = self.matches(v);
        let d = self.describe(outcome);
        s.append(d.as_str());
        proof {
            assert(s@ =~= self.explanation(*v));
        }
        s
    }

    fn describe(&self, result: MatcherResult) -> (r: String) {
        let mut s = result.pick("is", "isn't").to_owned();
        s.append(" less than ");
        let t = self.upper.to_text();
        s.append(t.as_str());
        proof {
            assert(s@ =~= self.description(result.is_match()));
        }
        s
    }
}

} // verus!
