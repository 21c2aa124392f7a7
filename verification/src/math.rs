//! Rescaling a list of samples onto a target range.  The results are exact
//! rationals: numerators over the common denominator `max - min`.

use vstd::prelude::*;

verus! {

/// The least element of a non-empty sequence (zero for an empty one).
pub open spec fn seq_min(s: Seq<i64>) -> int
    decreases s.len(),
{
    if s.len() == 0 {
        0
    } else if s.len() == 1 {
        s[0] as int
    } else {
        let m = seq_min(s.drop_last());
        if s.last() < m {
            s.last() as int
        } else {
            m
        }
    }
}

/// The greatest element of a non-empty sequence (zero for an empty one).
pub open spec fn seq_max(s: Seq<i64>) -> int
    decreases s.len(),
{
    if s.len() == 0 {
        0
    } else if s.len() == 1 {
        s[0] as int
    } else {
        let m = seq_max(s.drop_last());
        if s.last() > m {
            s.last() as int
        } else {
            m
        }
    }
}

/// The minimum is a lower bound and is attained.
proof fn lemma_seq_min(s: Seq<i64>)
    requires
        s.len() >= 1,
    ensures
        forall|i: int| 0 <= i < s.len() ==> seq_min(s) <= #[trigger] s[i],
        exists|i: int| 0 <= i < s.len() && seq_min(s) == #[trigger] s[i],
    decreases s.len(),
{
    if s.len() == 1 {
        assert(seq_min(s) == s[0]);
    } else {
        lemma_seq_min(s.drop_last());
        assert(forall|i: int|
            0 <= i < s.len() - 1 ==> s[i] == #[trigger] s.drop_last()[i]);
        assert(s.last() == s[s.len() - 1]);
        assert forall|i: int| 0 <= i < s.len() implies seq_min(s) <= #[trigger] s[i] by {
            if i < s.len() - 1 {
                assert(seq_min(s.drop_last()) <= s.drop_last()[i]);
            }
        }
        let j = choose|j: int|
            0 <= j < s.drop_last().len() && seq_min(s.drop_last()) == #[trigger] s.drop_last()[j];
        if s.last() < seq_min(s.drop_last()) {
            assert(seq_min(s) == s[s.len() - 1]);
        } else {
            assert(seq_min(s) == s[j]);
        }
    }
}

/// The maximum is an upper bound and is attained.
proof fn lemma_seq_max(s: Seq<i64>)
    requires
        s.len() >= 1,
    ensures
        forall|i: int| 0 <= i < s.len() ==> seq_max(s) >= #[trigger] s[i],
        exists|i: int| 0 <= i < s.len() && seq_max(s) == #[trigger] s[i],
    decreases s.len(),
{
    if s.len() == 1 {
        assert(seq_max(s) == s[0]);
    } else {
        lemma_seq_max(s.drop_last());
        assert(forall|i: int|
            0 <= i < s.len() - 1 ==> s[i] == #[trigger] s.drop_last()[i]);
        assert(s.last() == s[s.len() - 1]);
        assert forall|i: int| 0 <= i < s.len() implies seq_max(s) >= #[trigger] s[i] by {
            if i < s.len() - 1 {
                assert(seq_max(s.drop_last()) >= s.drop_last()[i]);
            }
        }
        let j = choose|j: int|
            0 <= j < s.drop_last().len() && seq_max(s.drop_last()) == #[trigger] s.drop_last()[j];
        if s.last() > seq_max(s.drop_last()) {
            assert(seq_max(s) == s[s.len() - 1]);
        } else {
            assert(seq_max(s) == s[j]);
        }
    }
}

/// Rescales samples onto `start..end`, exactly, as rationals over the
/// common denominator `max - min`.
pub trait Normalize: Sized {
    /// The numerator each sample maps to.
    spec fn normalized_numers(&self, start: int, end: int) -> Seq<int>;

    /// The common denominator.
    spec fn normalized_denom(&self) -> int;

    /// The machine limits under which the rescaling arithmetic stays in
    /// `i64`.
    spec fn normalize_req(&self, start: int, end: int) -> bool;

    /// Maps each sample `x` to `(end - start) * (x - min) / (max - min) +
    /// start`, returned as the numerators over the denominator `max - min`.
    fn normalize(&self, start: i64, end: i64) -> (r: (Vec<i64>, i64))
        requires
            self.normalize_req(start as int, end as int),
        ensures
            r.0@.len() == self.normalized_numers(start as int, end as int).len(),
            forall|i: int|
                0 <= i < r.0@.len() ==> #[trigger] r.0@[i] as int
                    == self.normalized_numers(start as int, end as int)[i],
            r.1 as int == self.normalized_denom(),
    ;
}

impl Normalize for Vec<i64> {
    open spec fn normalized_numers(&self, start: int, end: int) -> Seq<int> {
        self@.map_values(
            |x: i64| (end - start) * (x - seq_min(self@)) + start * (seq_max(self@)
                - seq_min(self@)),
        )
    }

    open spec fn normalized_denom(&self) -> int {
        seq_max(self@) - seq_min(self@)
    }

    open spec fn normalize_req(&self, start: int, end: int) -> bool {
        &&& self@.len() >= 1
        &&& seq_min(self@) < seq_max(self@)
        &&& seq_max(self@) - seq_min(self@) <= i64::MAX
        &&& i64::MIN <= end - start <= i64::MAX
        &&& i64::MIN <= start * (seq_max(self@) - seq_min(self@)) <= i64::MAX
        &&& forall|i: int|
            0 <= i < self@.len() ==> i64::MIN <= (end - start) * (#[trigger] self@[i]
                - seq_min(self@)) <= i64::MAX
        &&& forall|i: int|
            0 <= i < self@.len() ==> i64::MIN <= (end - start) * (#[trigger] self@[i]
                - seq_min(self@)) + start * (seq_max(self@) - seq_min(self@)) <= i64::MAX
    }

    fn normalize(&self, start: i64, end: i64) -> (r: (Vec<i64>, i64)) {
        proof {
            lemma_seq_min(self@);
            lemma_seq_max(self@);
        }
        let mut min = self[0];
        let mut max = self[0];
        let mut i: usize = 1;
        while i < self.len()
            invariant
                1 <= i <= self@.len(),
                self@.len() >= 1,
                min == seq_min(self@.take(i as int)),
                max == seq_max(self@.take(i as int)),
            decreases self@.len() - i,
        {
            proof {
                assert(self@.take(i + 1).drop_last() =~= self@.take(i as int));
                assert(self@.take(i + 1).last() == self@[i as int]);
            }
            if self[i] < min {
                min = self[i];
            }
            if self[i] > max {
                max = self[i];
            }
            i += 1;
        }
        proof {
            assert(self@.take(self@.len() as int) =~= self@);
        }
        let denom = max - min;
        let offset = start * denom;
        let scale = end - start;
        let mut numers: Vec<i64> = Vec::new();
        let mut j: usize = 0;
        while j < self.len()
            invariant
                j <= self@.len(),
                min == seq_min(self@),
                max == seq_max(self@),
                scale == end - start,
                offset == start * (seq_max(self@) - seq_min(self@)),
                i64::MIN <= end - start <= i64::MAX,
                numers@.len() == j,
                self.normalize_req(start as int, end as int),
                forall|k: int|
                    0 <= k < j ==> #[trigger] numers@[k] as int == (end - start) * (
                    self@[k] - seq_min(self@)) + start * (seq_max(self@) - seq_min(
                        self@,
                    )),
            decreases self@.len() - j,
        {
            proof {
                lemma_seq_min(self@);
                lemma_seq_max(self@);
            }
            let numer = scale * (self[j] - min) + offset;
            numers.push(numer);
            j += 1;
        }
        (numers, denom)
    }
}

} // verus!
