//! The marker index: the user's cut points as a sorted list of timestamps,
//! with binary-search insertion, removal by position, and the hover-follow
//! rule that keeps the hovered segment in step with the playhead.
//!
//! A video with markers `m_0 <= ... <= m_{k-1}` has `k + 1` segments; the
//! segment the playhead at time `t` hovers is the number of markers at or
//! before `t`. `resync_from` finds that index by walking from a previous
//! index (seeks are usually local), and `segment_index_scan` by a full scan;
//! both are proved equal to the same count, so the incremental walk always
//! matches a re-scan from scratch.

use vstd::prelude::*;

verus! {

/// Sorted ascending (duplicates allowed).
pub open spec fn sorted(s: Seq<u64>) -> bool {
    forall|i: int, j: int| 0 <= i < j < s.len() ==> #[trigger] s[i] <= #[trigger] s[j]
}

/// How many markers lie at or before `t`: the hovered segment index.
pub open spec fn count_le(s: Seq<u64>, t: u64) -> int
    decreases s.len(),
{
    if s.len() == 0 {
        0
    } else {
        count_le(s.drop_last(), t) + if s.last() <= t { 1int } else { 0int }
    }
}

/// The count is between 0 and the length.
pub proof fn lemma_count_le_range(s: Seq<u64>, t: u64)
    ensures
        0 <= count_le(s, t) <= s.len(),
    decreases s.len(),
{
    if s.len() > 0 {
        lemma_count_le_range(s.drop_last(), t);
    }
}

/// In a partitioned sequence — everything before `k` at most `t`,
/// everything from `k` on above `t` — the count of elements at most `t`
/// is exactly `k`.
pub proof fn lemma_count_le_partition(s: Seq<u64>, t: u64, k: int)
    requires
        0 <= k <= s.len(),
        forall|j: int| 0 <= j < k ==> #[trigger] s[j] <= t,
        forall|j: int| k <= j < s.len() ==> #[trigger] s[j] > t,
    ensures
        count_le(s, t) == k,
    decreases s.len(),
{
    if s.len() > 0 {
        let d = s.drop_last();
        if k == s.len() {
            lemma_count_le_partition(d, t, k - 1);
        } else {
            lemma_count_le_partition(d, t, k);
        }
    }
}

/// The user's cut points, sorted ascending. The vector must only be
/// changed through `insert` and `remove`, which keep it sorted.
pub struct MarkerIndex {
    pub markers: Vec<u64>,
}

impl MarkerIndex {
    /// The index's invariant: the timestamps are sorted ascending.
    pub open spec fn wf(self) -> bool {
        sorted(self.markers@)
    }

    /// The timestamps, as a sequence.
    pub open spec fn view(self) -> Seq<u64> {
        self.markers@
    }

    pub fn new() -> (r: MarkerIndex)
        ensures
            r.wf(),
            r@ == Seq::<u64>::empty(),
    {
        MarkerIndex { markers: Vec::new() }
    }

    pub fn len(&self) -> (n: usize)
        ensures
            n == self@.len(),
    {
        self.markers.len()
    }

    pub fn is_empty(&self) -> (r: bool)
        ensures
            r == (self@.len() == 0),
    {
        self.markers.len() == 0
    }

    pub fn get(&self, i: usize) -> (t: u64)
        requires
            i < self@.len(),
        ensures
            t == self@[i as int],
    {
        self.markers[i]
    }

    /// There is always one more segment than there are markers.
    pub open spec fn spec_segment_count(self) -> int {
        self@.len() as int + 1
    }

    /// The number of segments the markers cut the video into.
    pub fn segment_count(&self) -> (n: usize)
        requires
            self@.len() < usize::MAX,
        ensures
            n == self.spec_segment_count(),
    {
        self.markers.len() + 1
    }

    /// Insert a timestamp, keeping the list sorted; equal timestamps are
    /// inserted after their duplicates. Returns the insertion position,
    /// which is the number of markers at or before the new one.
    pub fn insert(&mut self, t: u64) -> (idx: usize)
        requires
            old(self).wf(),
            old(self)@.len() < usize::MAX,
        ensures
            final(self).wf(),
            idx == count_le(old(self)@, t),
            final(self)@ == old(self)@.insert(idx as int, t),
            final(self)@.len() == old(self)@.len() + 1,
    {
        let ghost s = self.markers@;
        let mut lo: usize = 0;
        let mut hi: usize = self.markers.len();
        while lo < hi
            invariant
                0 <= lo <= hi <= s.len(),
                s == self.markers@,
                forall|j: int| 0 <= j < lo ==> #[trigger] s[j] <= t,
                forall|j: int| hi <= j < s.len() ==> #[trigger] s[j] > t,
                sorted(s),
            decreases hi - lo,
        {
            let mid = lo + (hi - lo) / 2;
            if self.markers[mid] <= t {
                lo = mid + 1;
            } else {
                hi = mid;
            }
        }
        proof {
            lemma_count_le_partition(s, t, lo as int);
        }
        self.markers.insert(lo, t);
        proof {
            let r = self.markers@;
            assert forall|i: int, j: int| 0 <= i < j < r.len()
                implies r[i] <= r[j] by {
                let l = lo as int;
                if i < l && j < l {
                    assert(r[i] == s[i] && r[j] == s[j]);
                } else if i < l && j == l {
                    assert(r[i] == s[i] && r[j] == t);
                } else if i < l && j > l {
                    assert(r[i] == s[i] && r[j] == s[j - 1]);
                    if j - 1 < l {
                        assert(s[j - 1] <= t);
                        assert(s[i] <= s[j - 1] || i == j - 1);
                    }
                } else if i == l && j > l {
                    assert(r[i] == t && r[j] == s[j - 1]);
                    assert(s[j - 1] > t);
                } else if i > l && j > l {
                    assert(r[i] == s[i - 1] && r[j] == s[j - 1]);
                }
            }
        }
        lo
    }

    /// Remove the marker at a position; the rest keep their order.
    pub fn remove(&mut self, i: usize) -> (t: u64)
        requires
            old(self).wf(),
            i < old(self)@.len(),
        ensures
            final(self).wf(),
            t == old(self)@[i as int],
            final(self)@ == old(self)@.remove(i as int),
            final(self)@.len() == old(self)@.len() - 1,
    {
        let ghost s = self.markers@;
        let t = self.markers.remove(i);
        proof {
            let r = self.markers@;
            assert forall|a: int, b: int| 0 <= a < b < r.len()
                implies r[a] <= r[b] by {
                let ii = i as int;
                if a < ii && b < ii {
                    assert(r[a] == s[a] && r[b] == s[b]);
                } else if a < ii && b >= ii {
                    assert(r[a] == s[a] && r[b] == s[b + 1]);
                } else {
                    assert(r[a] == s[a + 1] && r[b] == s[b + 1]);
                }
            }
        }
        t
    }

    /// The hovered segment index for playhead time `t`, found by scanning
    /// the whole list from scratch: the count of markers at or before `t`.
    pub fn segment_index_scan(&self, t: u64) -> (k: usize)
        ensures
            k == count_le(self@, t),
    {
        let ghost s = self.markers@;
        let mut k: usize = 0;
        let mut i: usize = 0;
        while i < self.markers.len()
            invariant
                0 <= i <= s.len(),
                s == self.markers@,
                k == count_le(s.take(i as int), t),
                k <= i,
            decreases s.len() - i,
        {
            proof {
                assert(s.take(i as int + 1).drop_last() =~= s.take(i as int));
                assert(s.take(i as int + 1).last() == s[i as int]);
            }
            if self.markers[i] <= t {
                k = k + 1;
            }
            i = i + 1;
        }
        proof {
            assert(s.take(s.len() as int) =~= s);
        }
        k
    }

    /// The hovered segment index for playhead time `t`, found by walking
    /// incrementally from a previous index: forward past markers at or
    /// before `t`, backward past markers above `t`. Matches
    /// `segment_index_scan` exactly, from any starting index.
    pub fn resync_from(&self, start: usize, t: u64) -> (k: usize)
        requires
            self.wf(),
            start <= self@.len(),
        ensures
            k == count_le(self@, t),
    {
        let ghost s = self.markers@;
        let len = self.markers.len();
        let mut k: usize = start;
        while k < len && self.markers[k] <= t
            invariant
                0 <= k <= len,
                len == s.len(),
                s == self.markers@,
                k > start ==> s[k - 1] <= t,
            decreases len - k,
        {
            k = k + 1;
        }
        while k > 0 && self.markers[k - 1] > t
            invariant
                0 <= k <= len,
                len == s.len(),
                s == self.markers@,
                k < len ==> s[k as int] > t,
            decreases k,
        {
            k = k - 1;
        }
        proof {
            assert forall|j: int| 0 <= j < k implies #[trigger] s[j] <= t by {
                assert(s[k - 1] <= t);
                if j < k - 1 {
                    assert(s[j] <= s[k - 1]);
                }
            }
            assert forall|j: int| k <= j < s.len() implies #[trigger] s[j] > t by {
                assert(s[k as int] > t);
                if j > k {
                    assert(s[k as int] <= s[j]);
                }
            }
            lemma_count_le_partition(s, t, k as int);
        }
        k
    }
}

} // verus!
