//! Monotone integer set with rank and select queries.
//!
//! The set stores unsigned integers in non-decreasing push order and answers
//! `rank` (how many stored elements are smaller than a value), `select` (the
//! k-th stored element) and `contains`.  The edge store pushes one entry per
//! directed edge occurrence, so equal values may repeat: a multigraph stores
//! the same `(src, dst)` key once per edge type.

use vstd::prelude::*;

verus! {

/// Whether a sequence of integers never decreases.
pub open spec fn non_decreasing(s: Seq<u64>) -> bool {
    forall|i: int, j: int| 0 <= i < j < s.len() ==> s[i] <= s[j]
}

/// Whether a sequence of integers strictly increases.
pub open spec fn strictly_increasing(s: Seq<u64>) -> bool {
    forall|i: int, j: int| 0 <= i < j < s.len() ==> s[i] < s[j]
}

/// A set of unsigned integers stored in non-decreasing order, supporting
/// sequential pushes and logarithmic rank, select and membership queries.
pub struct MonotoneIntegerSet {
    values: Vec<u64>,
    universe: u64,
}

impl MonotoneIntegerSet {
    /// The stored elements, in push order.
    pub closed spec fn seq(&self) -> Seq<u64> {
        self.values@
    }

    /// The exclusive upper bound declared for the stored elements.
    pub closed spec fn spec_universe(&self) -> u64 {
        self.universe
    }

    /// The stored order is sound: elements never decrease and stay below
    /// the declared universe bound.
    pub open spec fn inv(&self) -> bool {
        &&& non_decreasing(self.seq())
        &&& forall|i: int| 0 <= i < self.seq().len() ==> self.seq()[i] < self.spec_universe()
    }

    /// Returns an empty set whose elements will stay below `universe`.
    pub fn new(universe: u64) -> (r: MonotoneIntegerSet)
        ensures
            r.inv(),
            r.seq() == Seq::<u64>::empty(),
            r.spec_universe() == universe,
    {
        MonotoneIntegerSet { values: Vec::new(), universe }
    }

    /// Returns the number of stored elements.
    pub fn len(&self) -> (r: usize)
        ensures
            r == self.seq().len(),
    {
        self.values.len()
    }

    /// Returns whether the set stores no element.
    pub fn is_empty(&self) -> (r: bool)
        ensures
            r == (self.seq().len() == 0),
    {
        self.values.len() == 0
    }

    /// Appends a value.  The value must not be smaller than the last stored
    /// element and must lie below the universe bound; otherwise the push is
    /// rejected and the set is unchanged.
    pub fn push(&mut self, value: u64) -> (r: Result<(), String>)
        requires
            old(self).inv(),
        ensures
            final(self).inv(),
            final(self).spec_universe() == old(self).spec_universe(),
            r.is_ok() <==> ((old(self).seq().len() == 0 || old(self).seq().last() <= value)
                && value < old(self).spec_universe()),
            r.is_ok() ==> final(self).seq() == old(self).seq().push(value),
            r.is_err() ==> final(self).seq() == old(self).seq(),
    {
        if value >= self.universe {
            return Err(String::from_str(
                "Cannot push a value greater or equal to the declared universe.",
            ));
        }
        if self.values.len() > 0 {
            let last = self.values[self.values.len() - 1];
            if last > value {
                return Err(String::from_str(
                    "Cannot push a value smaller than the last pushed value.",
                ));
            }
        }
        self.values.push(value);
        proof {
            let s = self.values@;
            assert(forall|i: int, j: int|
                0 <= i < j < s.len() ==> #[trigger] s[i] <= #[trigger] s[j]) by {
                assert(forall|i: int| 0 <= i < s.len() - 1 ==> s[i] == old(self).seq()[i]);
            }
        }
        Ok(())
    }

    /// Returns how many stored elements are strictly smaller than `value`.
    /// When `value` is stored, this is also the index of its first
    /// occurrence.
    pub fn rank(&self, value: u64) -> (r: usize)
        requires
            self.inv(),
        ensures
            r <= self.seq().len(),
            forall|i: int| 0 <= i < r ==> self.seq()[i] < value,
            forall|i: int| r <= i < self.seq().len() ==> self.seq()[i] >= value,
    {
        let mut lo: usize = 0;
        let mut hi: usize = self.values.len();
        while lo < hi
            invariant
                self.inv(),
                lo <= hi <= self.seq().len(),
                forall|i: int| 0 <= i < lo ==> self.seq()[i] < value,
                forall|i: int| hi <= i < self.seq().len() ==> self.seq()[i] >= value,
            decreases hi - lo,
        {
            let mid = lo + (hi - lo) / 2;
            if self.values[mid] < value {
                lo = mid + 1;
            } else {
                hi = mid;
            }
        }
        lo
    }

    /// Returns the `index`-th smallest stored element, or an error when the
    /// index is out of range.
    pub fn select(&self, index: u64) -> (r: Result<u64, String>)
        ensures
            r.is_ok() <==> index < self.seq().len(),
            r.is_ok() ==> r.unwrap() == self.seq()[index as int],
    {
        if index < self.values.len() as u64 {
            Ok(self.values[index as usize])
        } else {
            Err(String::from_str("Given index is out of bound on this set."))
        }
    }

    /// Returns the `index`-th smallest stored element.
    pub fn unchecked_select(&self, index: usize) -> (r: u64)
        requires
            index < self.seq().len(),
        ensures
            r == self.seq()[index as int],
    {
        self.values[index]
    }

    /// Returns whether `value` is stored.
    pub fn contains(&self, value: u64) -> (r: bool)
        requires
            self.inv(),
        ensures
            r == self.seq().contains(value),
    {
        let k = self.rank(value);
        if k < self.values.len() && self.values[k] == value {
            proof {
                assert(self.seq().contains(value)) by {
                    assert(self.seq()[k as int] == value);
                }
            }
            true
        } else {
            proof {
                if self.seq().contains(value) {
                    let i = choose|i: int| 0 <= i < self.seq().len() && self.seq()[i] == value;
                    assert(i >= k);
                    assert(self.seq()[k as int] <= self.seq()[i]);
                }
            }
            false
        }
    }

    /// Returns a copy of the stored elements in increasing order.
    pub fn to_vec(&self) -> (r: Vec<u64>)
        ensures
            r@ == self.seq(),
    {
        let mut out: Vec<u64> = Vec::new();
        let mut i: usize = 0;
        while i < self.values.len()
            invariant
                i <= self.seq().len(),
                out@ == self.seq().take(i as int),
            decreases self.seq().len() - i,
        {
            out.push(self.values[i]);
            i = i + 1;
            proof {
                assert(out@ =~= self.seq().take(i as int));
            }
        }
        proof {
            assert(out@ =~= self.seq());
        }
        out
    }
}

} // verus!
