//! The positional matcher: holds one predicate per expected position, decides
//! whether every position of an observed sequence satisfies its predicate and
//! whether the lengths agree, and renders diagnostics when they do not.

use vstd::prelude::*;
use vstd::string::StringExecFns;
use crate::paired_walker::PairedWalker;
use crate::predicate::{DebugText, MatcherResult, Predicate};
use crate::text::{dec_rep, joined, lemma_joined_take_succ, push_dec_usize};

verus! {

/// The length of the overlapping prefix of two sequences of lengths `n` and
/// `m`.
pub open spec fn overlap(n: int, m: int) -> int {
    if n < m {
        n
    } else {
        m
    }
}

/// Whether the observed sequence satisfies the predicate list: equal lengths,
/// and every position satisfies its predicate.
pub open spec fn pointwise_matches<T, P: Predicate<T>>(preds: Seq<P>, obs: Seq<T>) -> bool {
    obs.len() == preds.len() && (forall|i: int|
        0 <= i < obs.len() ==> #[trigger] preds[i].sat(obs[i]))
}

/// The recorded text for one unsatisfied position.
pub open spec fn mismatch_entry<T: DebugText, P: Predicate<T>>(
    preds: Seq<P>,
    obs: Seq<T>,
    i: int,
) -> Seq<char> {
    "element #"@ + dec_rep(i as nat) + " is "@ + obs[i].text() + ", "@ + preds[i].explanation(
        obs[i],
    )
}

/// The mismatch entries for the positions below `upto`, in ascending
/// position order, one entry per unsatisfied position and none for satisfied
/// ones.
pub open spec fn mismatch_entries<T: DebugText, P: Predicate<T>>(
    preds: Seq<P>,
    obs: Seq<T>,
    upto: int,
) -> Seq<Seq<char>>
    decreases upto,
{
    if upto <= 0 {
        Seq::empty()
    } else if preds[upto - 1].sat(obs[upto - 1]) {
        mismatch_entries(preds, obs, upto - 1)
    } else {
        mismatch_entries(preds, obs, upto - 1).push(mismatch_entry(preds, obs, upto - 1))
    }
}

/// Each entry rendered as an indented bullet.
pub open spec fn bullet_lines(entries: Seq<Seq<char>>) -> Seq<Seq<char>> {
    entries.map_values(|e: Seq<char>| "  * "@ + e)
}

/// The size-mismatch message for an observed length `n` against an expected
/// length `m`.
pub open spec fn size_text(n: int, m: int) -> Seq<char> {
    "which has size "@ + dec_rep(n as nat) + " (expected "@ + dec_rep(m as nat) + ")"@
}

/// What `explain_match` returns: the matching message, the size-mismatch
/// message when only the lengths disagree, the singular framing for one
/// unsatisfied position, or the bulleted list for several. Content
/// mismatches take precedence over a length mismatch.
pub open spec fn explain_text<T: DebugText, P: Predicate<T>>(
    preds: Seq<P>,
    obs: Seq<T>,
) -> Seq<char> {
    let entries = mismatch_entries(preds, obs, overlap(obs.len() as int, preds.len() as int));
    if entries.len() == 0 {
        if obs.len() == preds.len() {
            "which matches all elements"@
        } else {
            size_text(obs.len() as int, preds.len() as int)
        }
    } else if entries.len() == 1 {
        "where "@ + entries[0]
    } else {
        "where:\n"@ + joined(bullet_lines(entries))
    }
}

/// One line of the matcher's description: the position number and the
/// positive description of its predicate.
pub open spec fn description_line<T, P: Predicate<T>>(preds: Seq<P>, i: int) -> Seq<char> {
    "  "@ + dec_rep(i as nat) + ". "@ + preds[i].description(true)
}

/// The description lines, one per predicate, in predicate-list order.
pub open spec fn description_lines<T, P: Predicate<T>>(preds: Seq<P>) -> Seq<Seq<char>> {
    Seq::new(preds.len(), |i: int| description_line::<T, P>(preds, i))
}

/// What `describe` returns: the verb by polarity, then every predicate's
/// positive description, numbered and indented.
pub open spec fn describe_text<T, P: Predicate<T>>(preds: Seq<P>, positive: bool) -> Seq<char> {
    (if positive {
        "has"@
    } else {
        "doesn't have"@
    }) + " elements satisfying respectively:\n"@ + joined(description_lines::<T, P>(preds))
}

proof fn lemma_entries_empty<T: DebugText, P: Predicate<T>>(preds: Seq<P>, obs: Seq<T>, k: int)
    requires
        forall|i: int| 0 <= i < k ==> #[trigger] preds[i].sat(obs[i]),
    ensures
        mismatch_entries(preds, obs, k).len() == 0,
    decreases k,
{
    if k > 0 {
        lemma_entries_empty(preds, obs, k - 1);
    }
}

proof fn lemma_entries_single<T: DebugText, P: Predicate<T>>(
    preds: Seq<P>,
    obs: Seq<T>,
    i: int,
    k: int,
)
    requires
        0 <= i,
        !preds[i].sat(obs[i]),
        forall|j: int| 0 <= j < k && j != i ==> #[trigger] preds[j].sat(obs[j]),
    ensures
        mismatch_entries(preds, obs, k) == if i < k {
            seq![mismatch_entry(preds, obs, i)]
        } else {
            Seq::<Seq<char>>::empty()
        },
    decreases k,
{
    if k > 0 {
        lemma_entries_single(preds, obs, i, k - 1);
        if k - 1 == i {
            assert(Seq::<Seq<char>>::empty().push(mismatch_entry(preds, obs, i)) =~= seq![
                mismatch_entry(preds, obs, i),
            ]);
        }
    }
}

proof fn lemma_entries_len_monotone<T: DebugText, P: Predicate<T>>(
    preds: Seq<P>,
    obs: Seq<T>,
    k1: int,
    k2: int,
)
    requires
        k1 <= k2,
    ensures
        mismatch_entries(preds, obs, k1).len() <= mismatch_entries(preds, obs, k2).len(),
    decreases k2 - k1,
{
    if k1 < k2 {
        lemma_entries_len_monotone(preds, obs, k1, k2 - 1);
    }
}

/// Law: when every overlapping position is satisfied but the lengths differ,
/// the explanation is exactly the size-mismatch message, never a
/// content-mismatch one.
pub proof fn lemma_size_mismatch_reported<T: DebugText, P: Predicate<T>>(preds: Seq<P>, obs: Seq<T>)
    requires
        obs.len() != preds.len(),
        forall|i: int|
            0 <= i < overlap(obs.len() as int, preds.len() as int)
                ==> #[trigger] preds[i].sat(obs[i]),
    ensures
        explain_text(preds, obs) == size_text(obs.len() as int, preds.len() as int),
{
    lemma_entries_empty(preds, obs, overlap(obs.len() as int, preds.len() as int));
}

/// Law: a single unsatisfied overlapping position `i` is reported with the
/// singular framing `where element #i is {value}, {explanation}`, with no
/// bullet formatting.
pub proof fn lemma_single_mismatch_reported<T: DebugText, P: Predicate<T>>(
    preds: Seq<P>,
    obs: Seq<T>,
    i: int,
)
    requires
        0 <= i < overlap(obs.len() as int, preds.len() as int),
        !preds[i].sat(obs[i]),
        forall|j: int|
            0 <= j < overlap(obs.len() as int, preds.len() as int) && j != i
                ==> #[trigger] preds[j].sat(obs[j]),
    ensures
        explain_text(preds, obs) == "where "@ + mismatch_entry(preds, obs, i),
{
    lemma_entries_single(preds, obs, i, overlap(obs.len() as int, preds.len() as int));
}

/// Law: two or more unsatisfied overlapping positions are reported under the
/// `where:` header as one indented bullet per unsatisfied position, in
/// ascending position order, with satisfied positions omitted entirely
/// (`mismatch_entries` records exactly the unsatisfied positions, in order).
pub proof fn lemma_multiple_mismatches_reported<T: DebugText, P: Predicate<T>>(
    preds: Seq<P>,
    obs: Seq<T>,
    i: int,
    j: int,
)
    requires
        0 <= i < j < overlap(obs.len() as int, preds.len() as int),
        !preds[i].sat(obs[i]),
        !preds[j].sat(obs[j]),
    ensures
        mismatch_entries(preds, obs, overlap(obs.len() as int, preds.len() as int)).len() >= 2,
        explain_text(preds, obs) == "where:\n"@ + joined(
            bullet_lines(mismatch_entries(preds, obs, overlap(obs.len() as int, preds.len() as int))),
        ),
{
    let c = overlap(obs.len() as int, preds.len() as int);
    assert(mismatch_entries(preds, obs, i + 1).len() >= 1);
    lemma_entries_len_monotone(preds, obs, i + 1, j);
    assert(mismatch_entries(preds, obs, j + 1).len() >= 2);
    lemma_entries_len_monotone(preds, obs, j + 1, c);
}

/// Law: the description enumerates every predicate's positive description
/// exactly once, numbered, in predicate-list order, whatever outcome is
/// being described — only the leading verb depends on the polarity.
pub proof fn lemma_describe_enumerates<T, P: Predicate<T>>(preds: Seq<P>, positive: bool)
    ensures
        description_lines::<T, P>(preds).len() == preds.len(),
        forall|i: int|
            0 <= i < preds.len() ==> description_lines::<T, P>(preds)[i] == "  "@ + dec_rep(
                i as nat,
            ) + ". "@ + preds[i].description(true),
        describe_text::<T, P>(preds, positive) == (if positive {
            "has"@
        } else {
            "doesn't have"@
        }) + " elements satisfying respectively:\n"@ + joined(description_lines::<T, P>(preds)),
{
}

/// An ordered list of predicates, one per expected position, set once at
/// construction.
pub struct PointwiseMatcher<P> {
    matchers: Vec<P>,
}

impl<P> View for PointwiseMatcher<P> {
    type V = Seq<P>;

    closed spec fn view(&self) -> Seq<P> {
        self.matchers@
    }
}

impl<P> PointwiseMatcher<P> {
    /// Builds a matcher from its predicate list.
    pub fn new(matchers: Vec<P>) -> (r: Self)
        ensures
            r@ == matchers@,
    {
        PointwiseMatcher { matchers }
    }

    /// Decides whether `actual` satisfies the predicate list: a match exactly
    /// when the lengths agree and every position satisfies its predicate.
    /// Stops at the first unsatisfied position.
    pub fn matches<T>(&self, actual: &[T]) -> (r: MatcherResult) where P: Predicate<T>
        ensures
            r.is_match() <==> pointwise_matches(self@, actual@),
    {
        let ghost preds = self@;
        let ghost obs = actual@;
        let mut walker = PairedWalker::new(actual, self.matchers.as_slice());
        loop
            invariant_except_break
                walker.wf(),
                walker.lefts() == obs,
                walker.rights() == preds,
                obs == actual@,
                preds == self@,
                walker.left_at() == walker.right_at(),
                !walker.mismatch_seen(),
                forall|j: int| 0 <= j < walker.left_at() ==> #[trigger] preds[j].sat(obs[j]),
            ensures
                obs == actual@,
                preds == self@,
                forall|j: int|
                    0 <= j < overlap(obs.len() as int, preds.len() as int)
                        ==> #[trigger] preds[j].sat(obs[j]),
                walker.size_query() == (obs.len() != preds.len()),
            decreases obs.len() + preds.len() - walker.left_at() - walker.right_at(),
        {
            match walker.next() {
                Some(pair) => {
                    let (element, matcher) = pair;
                    if let MatcherResult::DoesNotMatch = matcher.matches(element) {
                        return MatcherResult::DoesNotMatch;
                    }
                },
                None => {
                    break ;
                },
            }
        }
        if walker.has_size_mismatch() {
            MatcherResult::DoesNotMatch
        } else {
            MatcherResult::Matches
        }
    }

    /// Explains why `actual` did or did not satisfy the predicate list,
    /// visiting every overlapping position: the matching message, the
    /// size-mismatch message, the singular `where ...` framing, or the
    /// bulleted `where:` list, as `explain_text` states.
    pub fn explain_match<T: DebugText>(&self, actual: &[T]) -> (r: String) where P: Predicate<T>
        ensures
            r@ == explain_text(self@, actual@),
    {
        let ghost preds = self@;
        let ghost obs = actual@;
        let ghost pair_count = overlap(obs.len() as int, preds.len() as int);
        let observed_len: usize = actual.len();
        let mut walker = PairedWalker::new(actual, self.matchers.as_slice());
        let mut mismatches: Vec<String> = Vec::new();
        let mut idx: usize = 0;
        loop
            invariant_except_break
                observed_len == obs.len(),
                walker.wf(),
                walker.lefts() == obs,
                walker.rights() == preds,
                obs == actual@,
                preds == self@,
                walker.left_at() == idx,
                walker.right_at() == idx,
                idx <= obs.len(),
                idx <= preds.len(),
                !walker.mismatch_seen(),
                pair_count == overlap(obs.len() as int, preds.len() as int),
                mismatches@.map_values(|s: String| s@) == mismatch_entries(preds, obs, idx as int),
            ensures
                obs == actual@,
                preds == self@,
                pair_count == overlap(obs.len() as int, preds.len() as int),
                mismatches@.map_values(|s: String| s@) == mismatch_entries(preds, obs, pair_count),
                walker.size_query() == (obs.len() != preds.len()),
                walker.left_at() == obs.len(),
            decreases obs.len() + preds.len() - walker.left_at() - walker.right_at(),
        {
            match walker.next() {
                Some(pair) => {
                    proof {
                        assert(idx < obs.len() && idx < preds.len());
                    }
                    let (element, matcher) = pair;
                    if let MatcherResult::DoesNotMatch = matcher.matches(element) {
                        let mut entry = "element #".to_owned();
                        push_dec_usize(&mut entry, idx);
                        entry.append(" is ");
                        let shown = element.to_text();
                        entry.append(shown.as_str());
                        entry.append(", ");
                        let why = matcher.explain_match(element);
                        entry.append(why.as_str());
                        proof {
                            assert(entry@ =~= mismatch_entry(preds, obs, idx as int));
                            assert(mismatches@.push(entry).map_values(|s: String| s@)
                                =~= mismatch_entries(preds, obs, idx as int + 1));
                        }
                        mismatches.push(entry);
                    }
                    idx = idx + 1;
                },
                None => {
                    break ;
                },
            }
        }
        let ghost entries = mismatch_entries(preds, obs, pair_count);
        proof {
            assert(mismatches@.len() == entries.len());
        }
        if mismatches.len() == 0 {
            if !walker.has_size_mismatch() {
                "which matches all elements".to_owned()
            } else {
                let mut s = "which has size ".to_owned();
                push_dec_usize(&mut s, walker.left_size());
                s.append(" (expected ");
                push_dec_usize(&mut s, self.matchers.len());
                s.append(")");
                proof {
                    assert(s@ =~= explain_text(preds, obs));
                }
                s
            }
        } else if mismatches.len() == 1 {
            let mut s = "where ".to_owned();
            s.append(mismatches[0].as_str());
            proof {
                assert(mismatches@.map_values(|s: String| s@)[0] == mismatches@[0]@);
                assert(s@ =~= explain_text(preds, obs));
            }
            s
        } else {
            let mut s = "where:\n".to_owned();
            let ghost bullets = bullet_lines(entries);
            let mut j: usize = 0;
            while j < mismatches.len()
                invariant
                    j <= mismatches.len(),
                    obs == actual@,
                    preds == self@,
                    mismatches@.map_values(|s: String| s@) == entries,
                    pair_count == overlap(obs.len() as int, preds.len() as int),
                    entries == mismatch_entries(preds, obs, pair_count),
                    entries.len() >= 2,
                    bullets == bullet_lines(entries),
                    s@ == "where:\n"@ + joined(bullets.take(j as int)),
                decreases mismatches.len() - j,
            {
                if j > 0 {
                    s.append("\n");
                }
                s.append("  * ");
                s.append(mismatches[j].as_str());
                proof {
                    reveal_strlit("\n");
                    assert(mismatches@.map_values(|s: String| s@)[j as int] == mismatches@[
                        j as int
                    ]@);
                    assert(bullets[j as int] == "  * "@ + entries[j as int]);
                    lemma_joined_take_succ(bullets, j as int);
                    assert(s@ =~= "where:\n"@ + joined(bullets.take(j as int + 1)));
                }
                j = j + 1;
            }
            proof {
                assert(bullets.take(entries.len() as int) =~= bullets);
                assert(s@ =~= explain_text(preds, obs));
            }
            s
        }
    }

    /// Describes what the matcher demands, independent of any observed
    /// value: the verb by polarity, then every predicate's positive
    /// description, numbered and indented, in predicate-list order.
    pub fn describe<T>(&self, matcher_result: MatcherResult) -> (r: String) where P: Predicate<T>
        ensures
            r@ == describe_text::<T, P>(self@, matcher_result.is_match()),
    {
        let ghost preds = self@;
        let mut s = matcher_result.pick("has", "doesn't have").to_owned();
        s.append(" elements satisfying respectively:\n");
        let ghost header = s@;
        let ghost lines = description_lines::<T, P>(preds);
        let mut i: usize = 0;
        while i < self.matchers.len()
            invariant
                i <= self.matchers.len(),
                preds == self@,
                header == (if matcher_result.is_match() {
                    "has"@
                } else {
                    "doesn't have"@
                }) + " elements satisfying respectively:\n"@,
                lines == description_lines::<T, P>(preds),
                s@ == header + joined(lines.take(i as int)),
            decreases self.matchers.len() - i,
        {
            if i > 0 {
                s.append("\n");
            }
            s.append("  ");
            push_dec_usize(&mut s, i);
            s.append(". ");
            let d = self.matchers[i].describe(MatcherResult::Matches);
            s.append(d.as_str());
            proof {
                reveal_strlit("\n");
                assert(lines[i as int] == description_line::<T, P>(preds, i as int));
                lemma_joined_take_succ(lines, i as int);
                assert(s@ =~= header + joined(lines.take(i as int + 1)));
            }
            i = i + 1;
        }
        proof {
            assert(lines.take(preds.len() as int) =~= lines);
            assert(s@ =~= describe_text::<T, P>(preds, matcher_result.is_match()));
        }
        s
    }
}

} // verus!
