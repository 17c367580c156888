//! A forward-only walk over two sequences of possibly different lengths,
//! yielding pairs for the overlapping prefix and recording, once either side
//! runs out, whether the lengths disagreed.

use vstd::prelude::*;

verus! {

/// Walks an observed sequence (left) and a predicate list (right) in
/// lockstep. Created fresh for each pass and consumed exactly once: it is not
/// restartable.
pub struct PairedWalker<'a, L, R> {
    left: &'a [L],
    right: &'a [R],
    left_pos: usize,
    right_pos: usize,
    size_mismatch: bool,
}

impl<'a, L, R> PairedWalker<'a, L, R> {
    /// The left (observed) sequence.
    pub closed spec fn lefts(self) -> Seq<L> {
        self.left@
    }

    /// The right (predicate) sequence.
    pub closed spec fn rights(self) -> Seq<R> {
        self.right@
    }

    /// How many left elements have been consumed.
    pub closed spec fn left_at(self) -> int {
        self.left_pos as int
    }

    /// How many right elements have been consumed.
    pub closed spec fn right_at(self) -> int {
        self.right_pos as int
    }

    /// Whether a walk step has already seen one side end before the other.
    pub closed spec fn mismatch_seen(self) -> bool {
        self.size_mismatch
    }

    /// The positions never pass the ends of their sequences.
    pub open spec fn wf(self) -> bool {
        0 <= self.left_at() <= self.lefts().len() && 0 <= self.right_at() <= self.rights().len()
    }

    /// What `has_size_mismatch` reports: a mismatch was seen during the walk,
    /// or either side still has an unconsumed element.
    pub open spec fn size_query(self) -> bool {
        self.mismatch_seen() || self.left_at() < self.lefts().len() || self.right_at()
            < self.rights().len()
    }

    /// Starts a fresh walk over the two sequences.
    pub fn new(left: &'a [L], right: &'a [R]) -> (w: Self)
        ensures
            w.lefts() == left@,
            w.rights() == right@,
            w.left_at() == 0,
            w.right_at() == 0,
            !w.mismatch_seen(),
    {
        PairedWalker { left, right, left_pos: 0, right_pos: 0, size_mismatch: false }
    }

    /// One step of the walk. While both sides have an element it yields the
    /// pair at the current position. When the right side ends first, the rest
    /// of the left side is consumed (so that `left_size` reports the full
    /// observed count) and the mismatch is recorded; when the left side ends
    /// first, one right element is consumed and the mismatch is recorded;
    /// when both ended together, nothing changes.
    pub fn next(&mut self) -> (r: Option<(&'a L, &'a R)>)
        requires
            old(self).wf(),
        ensures
            final(self).wf(),
            final(self).lefts() == old(self).lefts(),
            final(self).rights() == old(self).rights(),
            ({
                let n = old(self).lefts().len() as int;
                let m = old(self).rights().len() as int;
                let i = old(self).left_at();
                let j = old(self).right_at();
                if i < n && j < m {
                    &&& r matches Some(p) && *p.0 == old(self).lefts()[i] && *p.1 == old(
                        self,
                    ).rights()[j]
                    &&& final(self).left_at() == i + 1
                    &&& final(self).right_at() == j + 1
                    &&& final(self).mismatch_seen() == old(self).mismatch_seen()
                } else if i < n {
                    &&& r is None
                    &&& final(self).left_at() == n
                    &&& final(self).right_at() == j
                    &&& final(self).mismatch_seen()
                } else if j < m {
                    &&& r is None
                    &&& final(self).left_at() == i
                    &&& final(self).right_at() == j + 1
                    &&& final(self).mismatch_seen()
                } else {
                    &&& r is None
                    &&& final(self).left_at() == i
                    &&& final(self).right_at() == j
                    &&& final(self).mismatch_seen() == old(self).mismatch_seen()
                }
            }),
    {
        if self.left_pos < self.left.len() && self.right_pos < self.right.len() {
            let l = &self.left[self.left_pos];
            let p = &self.right[self.right_pos];
            self.left_pos = self.left_pos + 1;
            self.right_pos = self.right_pos + 1;
            Some((l, p))
        } else if self.left_pos < self.left.len() {
            self.left_pos = self.left.len();
            self.size_mismatch = true;
            None
        } else if self.right_pos < self.right.len() {
            self.right_pos = self.right_pos + 1;
            self.size_mismatch = true;
            None
        } else {
            None
        }
    }

    /// Whether the two sequences turned out to have different lengths, as far
    /// as the walk so far can tell.
    pub fn has_size_mismatch(&self) -> (r: bool)
        ensures
            r == self.size_query(),
    {
        self.size_mismatch || self.left_pos < self.left.len() || self.right_pos < self.right.len()
    }

    /// The count of left (observed) elements consumed so far.
    pub fn left_size(&self) -> (r: usize)
        ensures
            r == self.left_at(),
    {
        self.left_pos
    }
}

} // verus!
