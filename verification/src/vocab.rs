//! Bidirectional dictionary from names to dense identifiers.
//!
//! Identifiers are assigned in strict insertion order starting at zero.  In
//! numeric-id mode a name is read as the decimal spelling of its identifier
//! and the reverse mapping is virtual until it is finalized; finalization
//! fails when the numeric identifiers leave gaps, so that after it the
//! identifiers are exactly `[0, len)` in both modes.

use vstd::prelude::*;
use crate::strnum::{
    spec_all_digits, spec_decimal_of, spec_num_of, lemma_decimal_round_trip,
    lemma_decimal_injective, parse_u32, u32_to_decimal,
};

verus! {

/// How many entries of a boolean sequence are set.
pub open spec fn spec_count_true(s: Seq<bool>) -> nat
    decreases s.len(),
{
    if s.len() == 0 {
        0
    } else {
        spec_count_true(s.drop_last()) + if s.last() {
            1nat
        } else {
            0nat
        }
    }
}

proof fn lemma_count_true_le(s: Seq<bool>)
    ensures
        spec_count_true(s) <= s.len(),
    decreases s.len(),
{
    if s.len() > 0 {
        lemma_count_true_le(s.drop_last());
    }
}

pub proof fn lemma_count_true_update(s: Seq<bool>, i: int)
    requires
        0 <= i < s.len(),
        !s[i],
    ensures
        spec_count_true(s.update(i, true)) == spec_count_true(s) + 1,
    decreases s.len(),
{
    let t = s.update(i, true);
    if i == s.len() - 1 {
        assert(t.drop_last() =~= s.drop_last());
    } else {
        assert(t.drop_last() =~= s.drop_last().update(i, true));
        lemma_count_true_update(s.drop_last(), i);
    }
}

/// When every entry of a boolean sequence is set, the count equals the
/// length.
proof fn lemma_count_true_full(s: Seq<bool>)
    requires
        spec_count_true(s) == s.len(),
    ensures
        forall|i: int| 0 <= i < s.len() ==> s[i],
    decreases s.len(),
{
    if s.len() > 0 {
        lemma_count_true_le(s.drop_last());
        lemma_count_true_full(s.drop_last());
        assert(forall|i: int|
            0 <= i < s.len() - 1 ==> s[i] == s.drop_last()[i]);
    }
}

/// A bidirectional dictionary between names and dense identifiers assigned
/// in insertion order.
pub struct Vocabulary {
    names: Vec<String>,
    numeric_present: Vec<bool>,
    numeric_count: u64,
    numeric_ids: bool,
}

impl Vocabulary {
    /// The stored names, in identifier order (empty while the numeric mode
    /// is virtual).
    pub closed spec fn names_seq(&self) -> Seq<Seq<char>> {
        self.names@.map_values(|s: String| s@)
    }

    /// Whether the dictionary reads names as decimal identifiers.
    pub closed spec fn is_numeric(&self) -> bool {
        self.numeric_ids
    }

    /// Which numeric identifiers have been inserted so far.
    pub closed spec fn numeric_seq(&self) -> Seq<bool> {
        self.numeric_present@
    }

    /// The number of identifiers: in numeric mode the span `[0, max+1)` of
    /// the inserted identifiers, otherwise the number of stored names.
    pub open spec fn spec_len(&self) -> nat {
        if self.is_numeric() {
            self.numeric_seq().len()
        } else {
            self.names_seq().len()
        }
    }

    /// The dictionary is sound: names are unique, and each mode leaves the
    /// other mode's storage empty.
    pub open spec fn inv(&self) -> bool {
        &&& (self.is_numeric() ==> self.names_seq().len() == 0)
        &&& (!self.is_numeric() ==> self.numeric_seq().len() == 0)
        &&& spec_count_true(self.numeric_seq()) == self.spec_numeric_count()
        &&& self.names_seq().len() <= u32::MAX as nat + 1
        &&& self.numeric_seq().len() <= u32::MAX as nat + 1
        &&& (forall|i: int, j: int|
            0 <= i < j < self.names_seq().len() ==> self.names_seq()[i] != self.names_seq()[j])
    }

    /// How many distinct numeric identifiers have been inserted.
    pub closed spec fn spec_numeric_count(&self) -> nat {
        self.numeric_count as nat
    }

    /// The identifier of a name: in numeric mode its decimal value when that
    /// value has been inserted, otherwise the index at which the name is
    /// stored.
    pub open spec fn spec_get(&self, name: Seq<char>) -> Option<u32> {
        if self.is_numeric() {
            if name.len() > 0 && spec_all_digits(name) && spec_num_of(name) <= u32::MAX
                && spec_num_of(name) < self.numeric_seq().len() && self.numeric_seq()[
                spec_num_of(name) as int] {
                Some(spec_num_of(name) as u32)
            } else {
                None
            }
        } else {
            if exists|i: int| 0 <= i < self.names_seq().len() && self.names_seq()[i] == name {
                Some((choose|i: int|
                    0 <= i < self.names_seq().len() && self.names_seq()[i] == name) as u32)
            } else {
                None
            }
        }
    }

    /// Returns an empty dictionary in plain (non-numeric) mode.
    pub fn new() -> (r: Vocabulary)
        ensures
            r.inv(),
            !r.is_numeric(),
            r.spec_len() == 0,
            r.names_seq() == Seq::<Seq<char>>::empty(),
    {
        let r = Vocabulary {
            names: Vec::new(),
            numeric_present: Vec::new(),
            numeric_count: 0,
            numeric_ids: false,
        };
        proof {
            assert(r.names_seq() =~= Seq::<Seq<char>>::empty());
        }
        r
    }

    /// Switches an empty dictionary between numeric and plain mode.
    pub fn set_numeric_ids(self, numeric_ids: bool) -> (r: Vocabulary)
        requires
            self.inv(),
            self.spec_len() == 0,
        ensures
            r.inv(),
            r.is_numeric() == numeric_ids,
            r.spec_len() == 0,
            r.names_seq() == self.names_seq(),
    {
        Vocabulary { numeric_ids, ..self }
    }

    /// Returns the number of identifiers.
    pub fn len(&self) -> (r: usize)
        ensures
            r == self.spec_len(),
    {
        if self.numeric_ids {
            self.numeric_present.len()
        } else {
            self.names.len()
        }
    }

    /// Returns whether the dictionary holds no identifier.
    pub fn is_empty(&self) -> (r: bool)
        ensures
            r == (self.spec_len() == 0),
    {
        self.len() == 0
    }

    /// Returns the identifier of a name, or `None` when the name is unknown
    /// (or, in numeric mode, not a decimal number that was inserted).
    pub fn get(&self, name: &str) -> (r: Option<u32>)
        requires
            self.inv(),
        ensures
            r == self.spec_get(name@),
    {
        if self.numeric_ids {
            match parse_u32(name) {
                None => None,
                Some(v) => {
                    if (v as usize) < self.numeric_present.len() && self.numeric_present[v as usize] {
                        Some(v)
                    } else {
                        None
                    }
                },
            }
        } else {
            let owned = String::from_str(name);
            let mut i: usize = 0;
            while i < self.names.len()
                invariant
                    self.inv(),
                    owned@ == name@,
                    i <= self.names_seq().len(),
                    forall|j: int| 0 <= j < i ==> self.names_seq()[j] != name@,
                decreases self.names_seq().len() - i,
            {
                if self.names[i] == owned {
                    proof {
                        assert(self.names_seq()[i as int] == name@);
                    }
                    return Some(i as u32);
                }
                i = i + 1;
            }
            None
        }
    }

    /// Inserts a name (or returns its existing identifier), skipping the
    /// validation of `insert`; the caller must know that the name is
    /// non-empty, that in numeric mode it is a decimal number, and that the
    /// identifier space is not exhausted.
    pub fn unchecked_insert(&mut self, name: &str) -> (r: (u32, bool))
        requires
            old(self).inv(),
            name@.len() > 0,
            old(self).is_numeric() ==> spec_all_digits(name@) && spec_num_of(name@) <= u32::MAX,
            !old(self).is_numeric() ==> old(self).names_seq().len() < u32::MAX,
        ensures
            final(self).inv(),
            final(self).is_numeric() == old(self).is_numeric(),
            r.1 == old(self).spec_get(name@).is_some(),
            r.1 ==> r.0 == old(self).spec_get(name@).unwrap() && *final(self) == *old(self),
            !r.1 && !old(self).is_numeric() ==> r.0 == old(self).spec_len() && final(self).names_seq() == old(self).names_seq().push(name@),
            !r.1 && old(self).is_numeric() ==> r.0 == spec_num_of(name@) && final(self).spec_len() >= old(self).spec_len(),
            final(self).spec_get(name@) == Some(r.0),
            r.0 < final(self).spec_len(),
            final(self).spec_len() >= old(self).spec_len(),
            !old(self).is_numeric() ==> final(self).spec_len() <= old(self).spec_len() + 1,
    {
        if self.numeric_ids {
            let v = match parse_u32(name) {
                Some(v) => v,
                None => 0,  // unreachable under the precondition
            };
            if (v as usize) < self.numeric_present.len() {
                if self.numeric_present[v as usize] {
                    return (v, true);
                }
                self.numeric_present.set(v as usize, true);
                proof {
                    lemma_count_true_update(old(self).numeric_seq(), v as int);
                    lemma_count_true_le(self.numeric_present@);
                }
                self.numeric_count = self.numeric_count + 1;
                return (v, false);
            }
            let mut len = self.numeric_present.len();
            while len < v as usize
                invariant
                    v as usize >= len >= old(self).numeric_seq().len(),
                    self.numeric_present@ =~= old(self).numeric_seq() + Seq::new(
                        (len - old(self).numeric_seq().len()) as nat,
                        |i: int| false,
                    ),
                    len == self.numeric_present@.len(),
                    self.numeric_ids == old(self).numeric_ids,
                    self.names@ == old(self).names@,
                    self.numeric_count == old(self).numeric_count,
                decreases v as usize - len,
            {
                self.numeric_present.push(false);
                len = len + 1;
                proof {
                    assert(self.numeric_present@ =~= old(self).numeric_seq() + Seq::new(
                        (len - old(self).numeric_seq().len()) as nat,
                        |i: int| false,
                    ));
                }
            }
            self.numeric_present.push(true);
            proof {
                lemma_count_true_le(old(self).numeric_seq());
                lemma_padded_count(old(self).numeric_seq(), self.numeric_present@);
                lemma_count_true_le(self.numeric_present@);
                assert(self.numeric_count + 1 == spec_count_true(self.numeric_present@));
                assert(spec_count_true(self.numeric_present@) <= self.numeric_present@.len());
                assert(self.numeric_present@.len() == v as nat + 1);
            }
            self.numeric_count = self.numeric_count + 1;
            (v, false)
        } else {
            let existing = self.get(name);
            match existing {
                Some(id) => (id, true),
                None => {
                    let id = self.names.len() as u32;
                    self.names.push(String::from_str(name));
                    proof {
                        assert(final(self).names_seq() =~= old(self).names_seq().push(name@));
                        assert(final(self).names_seq().last() == name@);
                        assert(final(self).spec_get(name@) == Some(id)) by {
                            let s = final(self).names_seq();
                            assert(s[id as int] == name@);
                            let w = choose|i: int| 0 <= i < s.len() && s[i] == name@;
                            assert(forall|i: int| 0 <= i < s.len() - 1 ==> s[i] != name@);
                        }
                    }
                    (id, false)
                },
            }
        }
    }

    /// Inserts a name and returns `(identifier, already_present)`.  Fails on
    /// an empty name, on a non-decimal name in numeric mode, and when the
    /// identifier space is exhausted; the dictionary is then unchanged.
    pub fn insert(&mut self, name: &str) -> (r: Result<(u32, bool), String>)
        requires
            old(self).inv(),
        ensures
            final(self).inv(),
            final(self).is_numeric() == old(self).is_numeric(),
            r.is_ok() <==> (name@.len() > 0 && (old(self).is_numeric() ==> spec_all_digits(name@)
                && spec_num_of(name@) <= u32::MAX) && (!old(self).is_numeric() ==> old(self).names_seq().len() < u32::MAX)),
            r.is_err() ==> *final(self) == *old(self),
            r.is_ok() ==> {
                let (id, present) = r.unwrap();
                &&& present == old(self).spec_get(name@).is_some()
                &&& (present ==> id == old(self).spec_get(name@).unwrap() && *final(self) == *old(self))
                &&& (!present && !old(self).is_numeric() ==> id == old(self).spec_len() && final(self).names_seq() == old(self).names_seq().push(name@))
                &&& final(self).spec_get(name@) == Some(id)
                &&& id < final(self).spec_len()
                &&& final(self).spec_len() >= old(self).spec_len()
                &&& (!old(self).is_numeric() ==> final(self).spec_len() <= old(self).spec_len()
                    + 1)
            },
    {
        if name.unicode_len() == 0 {
            return Err(String::from_str("The name of an element cannot be empty."));
        }
        if self.numeric_ids {
            if parse_u32(name).is_none() {
                return Err(String::from_str(
                    "The name cannot be parsed as a numeric identifier.",
                ));
            }
        } else {
            if self.names.len() >= u32::MAX as usize {
                return Err(String::from_str("The identifier space is exhausted."));
            }
        }
        Ok(self.unchecked_insert(name))
    }

    /// Returns the name of an identifier, or an error when the identifier is
    /// out of range.  In numeric mode the name is the decimal spelling of
    /// the identifier.
    pub fn translate(&self, id: u32) -> (r: Result<String, String>)
        requires
            self.inv(),
        ensures
            r.is_ok() <==> id < self.spec_len(),
            r.is_ok() ==> r.unwrap()@ == self.spec_name_of(id),
    {
        if self.numeric_ids {
            if (id as usize) < self.numeric_present.len() {
                Ok(u32_to_decimal(id))
            } else {
                Err(String::from_str("The given identifier is out of range."))
            }
        } else {
            if (id as usize) < self.names.len() {
                Ok(self.names[id as usize].clone())
            } else {
                Err(String::from_str("The given identifier is out of range."))
            }
        }
    }

    /// The name of an identifier: the stored name, or in numeric mode its
    /// decimal spelling.
    pub open spec fn spec_name_of(&self, id: u32) -> Seq<char> {
        if self.is_numeric() {
            spec_decimal_of(id as nat)
        } else {
            self.names_seq()[id as int]
        }
    }

    /// Returns the name of an identifier known to be in range.
    pub fn unchecked_translate(&self, id: u32) -> (r: String)
        requires
            self.inv(),
            id < self.spec_len(),
        ensures
            r@ == self.spec_name_of(id),
    {
        match self.translate(id) {
            Ok(name) => name,
            Err(_) => String::new(),  // unreachable under the precondition
        }
    }

    /// Finalizes the reverse mapping.  In numeric mode this fails when the
    /// inserted identifiers leave gaps in `[0, len)`; on success the stored
    /// names become the decimal spellings and the dictionary leaves numeric
    /// mode, so that identifiers are exactly `[0, len)` in both modes.
    pub fn build_reverse_mapping(&mut self) -> (r: Result<(), String>)
        requires
            old(self).inv(),
        ensures
            final(self).inv(),
            r.is_ok() <==> (old(self).is_numeric() ==> old(self).spec_numeric_count() == old(self).spec_len()),
            r.is_err() ==> *final(self) == *old(self),
            r.is_ok() ==> !final(self).is_numeric() && final(self).spec_len() == old(self).spec_len(),
            r.is_ok() && !old(self).is_numeric() ==> *final(self) == *old(self),
            r.is_ok() && old(self).is_numeric() ==> forall|i: int|
                0 <= i < final(self).names_seq().len() ==> final(self).names_seq()[i]
                    == spec_decimal_of(i as nat),
    {
        if !self.numeric_ids {
            return Ok(());
        }
        if self.numeric_count != self.numeric_present.len() as u64 {
            return Err(String::from_str(
                "The numeric identifiers leave gaps: the reverse mapping is not dense.",
            ));
        }
        proof {
            lemma_count_true_full(self.numeric_present@);
        }
        let n = self.numeric_present.len();
        let mut names: Vec<String> = Vec::new();
        let mut i: usize = 0;
        while i < n
            invariant
                i <= n <= u32::MAX as nat + 1,
                names@.len() == i,
                forall|j: int| 0 <= j < i ==> (#[trigger] names@[j])@ == spec_decimal_of(
                    j as nat,
                ),
            decreases n - i,
        {
            names.push(u32_to_decimal(i as u32));
            i = i + 1;
        }
        self.names = names;
        self.numeric_present = Vec::new();
        self.numeric_count = 0;
        self.numeric_ids = false;
        proof {
            assert(final(self).numeric_seq() =~= Seq::<bool>::empty());
            assert forall|a: int, b: int|
                0 <= a < b < final(self).names_seq().len() implies final(self).names_seq()[a]
                != final(self).names_seq()[b] by {
                lemma_decimal_injective(a as nat, b as nat);
            }
        }
        Ok(())
    }

    /// Returns a copy of the dictionary, for derived graphs that keep the
    /// same name space.
    pub fn duplicate(&self) -> (r: Vocabulary)
        requires
            self.inv(),
        ensures
            r.inv(),
            r.names_seq() == self.names_seq(),
            r.is_numeric() == self.is_numeric(),
            r.numeric_seq() == self.numeric_seq(),
            r.spec_numeric_count() == self.spec_numeric_count(),
            r.spec_len() == self.spec_len(),
    {
        let mut names: Vec<String> = Vec::new();
        let mut i: usize = 0;
        while i < self.names.len()
            invariant
                i <= self.names_seq().len(),
                names@.len() == i,
                forall|j: int| 0 <= j < i ==> (#[trigger] names@[j])@ == self.names_seq()[j],
            decreases self.names_seq().len() - i,
        {
            names.push(self.names[i].clone());
            i = i + 1;
        }
        let mut numeric_present: Vec<bool> = Vec::new();
        let mut k: usize = 0;
        while k < self.numeric_present.len()
            invariant
                k <= self.numeric_seq().len(),
                numeric_present@ =~= self.numeric_seq().take(k as int),
            decreases self.numeric_seq().len() - k,
        {
            numeric_present.push(self.numeric_present[k]);
            k = k + 1;
            proof {
                assert(numeric_present@ =~= self.numeric_seq().take(k as int));
            }
        }
        let r = Vocabulary {
            names,
            numeric_present,
            numeric_count: self.numeric_count,
            numeric_ids: self.numeric_ids,
        };
        proof {
            assert(r.names_seq() =~= self.names_seq());
            assert(r.numeric_seq() =~= self.numeric_seq());
        }
        r
    }
}

/// Padding a boolean sequence with zeros and one final one raises the count
/// by exactly one.
proof fn lemma_padded_count(base: Seq<bool>, padded: Seq<bool>)
    requires
        padded.len() > base.len(),
        forall|i: int| 0 <= i < base.len() ==> padded[i] == base[i],
        forall|i: int| base.len() <= i < padded.len() - 1 ==> !padded[i],
        padded.last(),
    ensures
        spec_count_true(padded) == spec_count_true(base) + 1,
    decreases padded.len(),
{
    if padded.len() == base.len() + 1 {
        assert(padded.drop_last() =~= base);
    } else {
        let shorter = padded.drop_last().drop_last().push(padded.last());
        assert(shorter.drop_last() =~= padded.drop_last().drop_last());
        lemma_padded_count(base, shorter);
        assert(spec_count_true(padded.drop_last()) == spec_count_true(
            padded.drop_last().drop_last(),
        ));
    }
}

} // verus!
