//! Typed vocabularies: a dictionary plus per-element type assignments.
//!
//! Node types are multi-label: each node carries an ordered list of zero or
//! more type identifiers, or no list at all when its types are unknown.
//! Edge types are single-label: each stored edge occurrence carries one
//! optional type identifier.  Usage counts are computed on demand from the
//! recorded assignments, so they can never go stale.

use vstd::prelude::*;
use crate::types::{NodeTypeT, EdgeTypeT};
use crate::vocab::Vocabulary;

verus! {

/// How many rows of a multi-label assignment contain the given type.
pub open spec fn spec_rows_with(ids: Seq<Option<Seq<NodeTypeT>>>, t: NodeTypeT) -> nat
    decreases ids.len(),
{
    if ids.len() == 0 {
        0
    } else {
        spec_rows_with(ids.drop_last(), t) + match ids.last() {
            Some(row) => if row.contains(t) {
                1nat
            } else {
                0nat
            },
            None => 0nat,
        }
    }
}

/// How many rows of a multi-label assignment are unknown.
pub open spec fn spec_unknown_rows(ids: Seq<Option<Seq<NodeTypeT>>>) -> nat
    decreases ids.len(),
{
    if ids.len() == 0 {
        0
    } else {
        spec_unknown_rows(ids.drop_last()) + if ids.last() is None {
            1nat
        } else {
            0nat
        }
    }
}

/// How many entries of a single-label assignment equal the given type.
pub open spec fn spec_entries_with(ids: Seq<Option<EdgeTypeT>>, t: EdgeTypeT) -> nat
    decreases ids.len(),
{
    if ids.len() == 0 {
        0
    } else {
        spec_entries_with(ids.drop_last(), t) + if ids.last() == Some(t) {
            1nat
        } else {
            0nat
        }
    }
}

/// How many entries of a single-label assignment are unknown.
pub open spec fn spec_unknown_entries(ids: Seq<Option<EdgeTypeT>>) -> nat
    decreases ids.len(),
{
    if ids.len() == 0 {
        0
    } else {
        spec_unknown_entries(ids.drop_last()) + if ids.last() is None {
            1nat
        } else {
            0nat
        }
    }
}

/// A node-type dictionary together with the ordered multi-label type lists
/// of the elements seen so far.
pub struct NodeTypeVocabulary {
    vocabulary: Vocabulary,
    ids: Vec<Option<Vec<NodeTypeT>>>,
}

impl NodeTypeVocabulary {
    /// The dictionary from type names to type identifiers.
    pub closed spec fn vocab(&self) -> Vocabulary {
        self.vocabulary
    }

    /// The recorded per-element type lists.
    pub closed spec fn ids_seq(&self) -> Seq<Option<Seq<NodeTypeT>>> {
        self.ids@.map_values(
            |row: Option<Vec<NodeTypeT>>|
                match row {
                    Some(v) => Some(v@),
                    None => None,
                },
        )
    }

    /// Every recorded type identifier is known to the dictionary.
    pub open spec fn inv(&self) -> bool {
        &&& self.vocab().inv()
        &&& forall|i: int, j: int|
            0 <= i < self.ids_seq().len() && self.ids_seq()[i] is Some && 0 <= j
                < self.ids_seq()[i].unwrap().len() ==> (#[trigger] self.ids_seq()[i].unwrap()[j])
                < self.vocab().spec_len()
    }

    /// Returns an empty node-type vocabulary.
    pub fn new() -> (r: NodeTypeVocabulary)
        ensures
            r.inv(),
            !r.vocab().is_numeric(),
            r.ids_seq() == Seq::<Option<Seq<NodeTypeT>>>::empty(),
            r.vocab().spec_len() == 0,
    {
        let r = NodeTypeVocabulary { vocabulary: Vocabulary::new(), ids: Vec::new() };
        proof {
            assert(r.ids_seq() =~= Seq::<Option<Seq<NodeTypeT>>>::empty());
        }
        r
    }

    /// Switches the empty inner dictionary between numeric and plain mode.
    pub fn set_numeric_ids(self, numeric_ids: bool) -> (r: NodeTypeVocabulary)
        requires
            self.inv(),
            self.vocab().spec_len() == 0,
        ensures
            r.inv(),
            r.vocab().is_numeric() == numeric_ids,
            r.vocab().spec_len() == 0,
            r.ids_seq() == self.ids_seq(),
    {
        NodeTypeVocabulary { vocabulary: self.vocabulary.set_numeric_ids(numeric_ids), ..self }
    }

    /// Returns the number of known node types.
    pub fn len(&self) -> (r: usize)
        ensures
            r == self.vocab().spec_len(),
    {
        self.vocabulary.len()
    }

    /// Returns whether no node type is known.
    pub fn is_empty(&self) -> (r: bool)
        ensures
            r == (self.vocab().spec_len() == 0),
    {
        self.vocabulary.is_empty()
    }

    /// Returns how many elements have no type list.
    pub fn get_unknown_count(&self) -> (r: u64)
        ensures
            r == spec_unknown_rows(self.ids_seq()),
    {
        let mut count: u64 = 0;
        let mut i: usize = 0;
        while i < self.ids.len()
            invariant
                i <= self.ids_seq().len(),
                count == spec_unknown_rows(self.ids_seq().take(i as int)),
                count <= i,
            decreases self.ids_seq().len() - i,
        {
            if self.ids[i].is_none() {
                count = count + 1;
            }
            i = i + 1;
            proof {
                assert(self.ids_seq().take(i as int).drop_last() =~= self.ids_seq().take(
                    i as int - 1,
                ));
            }
        }
        proof {
            assert(self.ids_seq().take(self.ids_seq().len() as int) =~= self.ids_seq());
        }
        count
    }

    /// Records the type list of the next element.  Each label is inserted
    /// into the dictionary; the call fails, recording nothing, when a label
    /// is empty or (in numeric mode) not a decimal number, or when two
    /// labels of the list resolve to the same type.
    pub fn insert_values(&mut self, labels: Option<Vec<String>>) -> (r: Result<
        Option<Vec<NodeTypeT>>,
        String,
    >)
        requires
            old(self).inv(),
        ensures
            final(self).inv(),
            final(self).vocab().is_numeric() == old(self).vocab().is_numeric(),
            labels is None ==> r == Result::<Option<Vec<NodeTypeT>>, String>::Ok(
                Option::<Vec<NodeTypeT>>::None,
            ) && final(self).ids_seq() == old(self).ids_seq().push(None),
            r.is_err() ==> final(self).ids_seq() == old(self).ids_seq(),
            r.is_ok() && labels is Some ==> {
                let row = r.unwrap();
                &&& row is Some
                &&& row.unwrap()@.len() == labels.unwrap()@.len()
                &&& final(self).ids_seq() == old(self).ids_seq().push(Some(row.unwrap()@))
                &&& (forall|a: int, b: int|
                    0 <= a < b < row.unwrap()@.len() ==> row.unwrap()@[a] != row.unwrap()@[b])
            },
    {
        let label_list = match labels {
            None => {
                self.ids.push(None);
                proof {
                    assert(final(self).ids_seq() =~= old(self).ids_seq().push(None));
                }
                return Ok(None);
            },
            Some(ls) => ls,
        };
        let ghost labels_ghost = labels;
        proof {
            assert(labels_ghost is Some);
        }
        let mut row: Vec<NodeTypeT> = Vec::new();
        let mut i: usize = 0;
        while i < label_list.len()
            invariant
                labels is Some,
                labels.unwrap()@ == label_list@,
                self.inv(),
                self.ids@ == old(self).ids@,
                self.vocab().is_numeric() == old(self).vocab().is_numeric(),
                i <= label_list@.len(),
                row@.len() == i,
                forall|a: int| 0 <= a < row@.len() ==> (#[trigger] row@[a]) < self.vocab().spec_len(),
                forall|a: int, b: int| 0 <= a < b < row@.len() ==> row@[a] != row@[b],
            decreases label_list@.len() - i,
        {
            let label = &label_list[i];
            let inserted = self.vocabulary.insert(label.as_str());
            let id = match inserted {
                Ok((id, _)) => id,
                Err(e) => {
                    proof {
                        assert(self.ids_seq() =~= old(self).ids_seq());
                    }
                    return Err(e);
                },
            };
            let mut j: usize = 0;
            let mut duplicate = false;
            while j < row.len()
                invariant
                    j <= row@.len(),
                    duplicate == exists|a: int| 0 <= a < j && row@[a] == id,
                decreases row@.len() - j,
            {
                if row[j] == id {
                    duplicate = true;
                }
                j = j + 1;
            }
            if duplicate {
                proof {
                    assert(self.ids_seq() =~= old(self).ids_seq());
                }
                return Err(String::from_str(
                    "Two type labels of one element resolve to the same type.",
                ));
            }
            row.push(id);
            i = i + 1;
        }
        let ghost row_view = row@;
        self.ids.push(Some(row.clone()));
        proof {
            assert(final(self).ids_seq() =~= old(self).ids_seq().push(Some(row_view)));
        }
        Ok(Some(row))
    }

    /// Returns the recorded type list of an element.
    pub fn get_ids_row(&self, i: usize) -> (r: Option<Vec<NodeTypeT>>)
        requires
            i < self.ids_seq().len(),
        ensures
            r is Some <==> self.ids_seq()[i as int] is Some,
            r is Some ==> r.unwrap()@ == self.ids_seq()[i as int].unwrap(),
    {
        self.ids[i].clone()
    }

    /// Returns how many elements are recorded.
    pub fn rows_len(&self) -> (r: usize)
        ensures
            r == self.ids_seq().len(),
    {
        self.ids.len()
    }

    /// Finalizes the dictionary's reverse mapping.
    pub fn build_reverse_mapping(&mut self) -> (r: Result<(), String>)
        requires
            old(self).inv(),
        ensures
            final(self).inv(),
            final(self).ids_seq() == old(self).ids_seq(),
            final(self).vocab().spec_len() >= old(self).vocab().spec_len(),
            r.is_ok() ==> !final(self).vocab().is_numeric() && final(self).vocab().spec_len()
                == old(self).vocab().spec_len(),
    {
        self.vocabulary.build_reverse_mapping()
    }

    /// Counts the elements whose type list contains `t`.
    pub fn count_rows_with(&self, t: NodeTypeT) -> (r: u64)
        ensures
            r == spec_rows_with(self.ids_seq(), t),
    {
        let mut count: u64 = 0;
        let mut i: usize = 0;
        while i < self.ids.len()
            invariant
                i <= self.ids_seq().len(),
                count == spec_rows_with(self.ids_seq().take(i as int), t),
                count <= i,
            decreases self.ids_seq().len() - i,
        {
            let mut hit = false;
            match &self.ids[i] {
                None => {},
                Some(row) => {
                    let mut j: usize = 0;
                    while j < row.len()
                        invariant
                            j <= row@.len(),
                            hit == exists|a: int| 0 <= a < j && row@[a] == t,
                        decreases row@.len() - j,
                    {
                        if row[j] == t {
                            hit = true;
                        }
                        j = j + 1;
                    }
                    proof {
                        assert(hit == row@.contains(t));
                    }
                },
            }
            if hit {
                count = count + 1;
            }
            i = i + 1;
            proof {
                assert(self.ids_seq().take(i as int).drop_last() =~= self.ids_seq().take(
                    i as int - 1,
                ));
            }
        }
        proof {
            assert(self.ids_seq().take(self.ids_seq().len() as int) =~= self.ids_seq());
        }
        count
    }

    /// Returns the identifier of a type name.
    pub fn get(&self, name: &str) -> (r: Option<NodeTypeT>)
        requires
            self.inv(),
        ensures
            r == self.vocab().spec_get(name@),
    {
        self.vocabulary.get(name)
    }

    /// Returns the name of a type identifier.
    pub fn translate(&self, id: NodeTypeT) -> (r: Result<String, String>)
        requires
            self.inv(),
        ensures
            r.is_ok() <==> id < self.vocab().spec_len(),
            r.is_ok() ==> r.unwrap()@ == self.vocab().spec_name_of(id),
    {
        self.vocabulary.translate(id)
    }
}

/// An edge-type dictionary together with the single optional type of every
/// stored edge occurrence.
pub struct EdgeTypeVocabulary {
    vocabulary: Vocabulary,
    ids: Vec<Option<EdgeTypeT>>,
}

impl EdgeTypeVocabulary {
    /// The dictionary from type names to type identifiers.
    pub closed spec fn vocab(&self) -> Vocabulary {
        self.vocabulary
    }

    /// The per-edge optional type identifiers, in edge order.
    pub closed spec fn ids_seq(&self) -> Seq<Option<EdgeTypeT>> {
        self.ids@
    }

    /// Every recorded type identifier is known to the dictionary.
    pub open spec fn inv(&self) -> bool {
        &&& self.vocab().inv()
        &&& forall|i: int|
            0 <= i < self.ids_seq().len() && self.ids_seq()[i] is Some
                ==> (#[trigger] self.ids_seq()[i]).unwrap() < self.vocab().spec_len()
    }

    /// Packs a finalized dictionary and a per-edge assignment into an
    /// edge-type vocabulary.
    pub fn from_structs(ids: Vec<Option<EdgeTypeT>>, vocabulary: Vocabulary) -> (r:
        EdgeTypeVocabulary)
        requires
            vocabulary.inv(),
            forall|i: int|
                0 <= i < ids@.len() && ids@[i] is Some ==> (#[trigger] ids@[i]).unwrap()
                    < vocabulary.spec_len(),
        ensures
            r.inv(),
            r.ids_seq() == ids@,
            r.vocab() == vocabulary,
    {
        EdgeTypeVocabulary { vocabulary, ids }
    }

    /// Returns the number of known edge types.
    pub fn len(&self) -> (r: usize)
        ensures
            r == self.vocab().spec_len(),
    {
        self.vocabulary.len()
    }

    /// Returns the type of a stored edge occurrence.
    pub fn get_edge_type(&self, edge_id: usize) -> (r: Option<EdgeTypeT>)
        requires
            edge_id < self.ids_seq().len(),
        ensures
            r == self.ids_seq()[edge_id as int],
    {
        self.ids[edge_id]
    }

    /// Returns how many edge occurrences are recorded.
    pub fn ids_len(&self) -> (r: usize)
        ensures
            r == self.ids_seq().len(),
    {
        self.ids.len()
    }

    /// Counts the stored edge occurrences of the given type.
    pub fn count_edges_with(&self, t: EdgeTypeT) -> (r: u64)
        ensures
            r == spec_entries_with(self.ids_seq(), t),
    {
        let mut count: u64 = 0;
        let mut i: usize = 0;
        while i < self.ids.len()
            invariant
                i <= self.ids_seq().len(),
                count == spec_entries_with(self.ids_seq().take(i as int), t),
                count <= i,
            decreases self.ids_seq().len() - i,
        {
            match self.ids[i] {
                Some(x) => {
                    if x == t {
                        count = count + 1;
                    }
                },
                None => {},
            }
            i = i + 1;
            proof {
                assert(self.ids_seq().take(i as int).drop_last() =~= self.ids_seq().take(
                    i as int - 1,
                ));
            }
        }
        proof {
            assert(self.ids_seq().take(self.ids_seq().len() as int) =~= self.ids_seq());
        }
        count
    }

    /// Counts the stored edge occurrences with no type.
    pub fn get_unknown_count(&self) -> (r: u64)
        ensures
            r == spec_unknown_entries(self.ids_seq()),
    {
        let mut count: u64 = 0;
        let mut i: usize = 0;
        while i < self.ids.len()
            invariant
                i <= self.ids_seq().len(),
                count == spec_unknown_entries(self.ids_seq().take(i as int)),
                count <= i,
            decreases self.ids_seq().len() - i,
        {
            if self.ids[i].is_none() {
                count = count + 1;
            }
            i = i + 1;
            proof {
                assert(self.ids_seq().take(i as int).drop_last() =~= self.ids_seq().take(
                    i as int - 1,
                ));
            }
        }
        proof {
            assert(self.ids_seq().take(self.ids_seq().len() as int) =~= self.ids_seq());
        }
        count
    }

    /// Returns the identifier of a type name.
    pub fn get(&self, name: &str) -> (r: Option<EdgeTypeT>)
        requires
            self.inv(),
        ensures
            r == self.vocab().spec_get(name@),
    {
        self.vocabulary.get(name)
    }

    /// Returns the name of a type identifier.
    pub fn translate(&self, id: EdgeTypeT) -> (r: Result<String, String>)
        requires
            self.inv(),
        ensures
            r.is_ok() <==> id < self.vocab().spec_len(),
            r.is_ok() ==> r.unwrap()@ == self.vocab().spec_name_of(id),
    {
        self.vocabulary.translate(id)
    }

    /// Returns a copy of the dictionary, for derived graphs that keep the
    /// same edge types.
    pub fn vocabulary_copy(&self) -> (r: Vocabulary)
        requires
            self.inv(),
        ensures
            r.inv(),
            r.names_seq() == self.vocab().names_seq(),
            r.is_numeric() == self.vocab().is_numeric(),
            r.spec_len() == self.vocab().spec_len(),
    {
        self.vocabulary.duplicate()
    }
}

} // verus!
