//! The table of branch labels.

use vstd::hash_map::StringHashMap;
use vstd::prelude::*;

verus! {

/// Maps each declared label to the position of the entry that follows its
/// declaration. A label that is declared again is bound anew: the last
/// declaration wins.
pub struct BranchTable {
    positions: StringHashMap<usize>,
}

impl View for BranchTable {
    type V = Map<Seq<char>, int>;

    closed spec fn view(&self) -> Map<Seq<char>, int> {
        Map::new(
            |label: Seq<char>| self.positions@.contains_key(label),
            |label: Seq<char>| self.positions@[label] as int,
        )
    }
}

impl BranchTable {
    /// A table without labels.
    pub fn new() -> (table: Self)
        ensures
            table@ == Map::<Seq<char>, int>::empty(),
    {
        BranchTable { positions: StringHashMap::new() }
    }

    /// Binds `label` to `position`, replacing an earlier binding of the label.
    pub fn insert(&mut self, label: String, position: usize)
        ensures
            final(self)@ == old(self)@.insert(label@, position as int),
    {
        self.positions.insert(label, position);
    }

    /// The position bound to `label`, if the label was declared.
    pub fn get(&self, label: &str) -> (position: Option<usize>)
        ensures
            match position {
                Some(p) => self@.contains_key(label@) && self@[label@] == p,
                None => !self@.contains_key(label@),
            },
    {
        match self.positions.get(label) {
            Some(p) => Some(*p),
            None => None,
        }
    }

    /// Whether `label` was declared.
    pub fn contains(&self, label: &str) -> (found: bool)
        ensures
            found == self@.contains_key(label@),
    {
        self.positions.contains_key(label)
    }

    /// The number of distinct labels.
    pub fn len(&self) -> (count: usize)
        ensures
            count == self@.dom().len(),
    {
        proof {
            broadcast use vstd::hash_map::group_hash_map_axioms;
            assert(self@.dom() =~= self.positions@.dom());
        }
        self.positions.len()
    }
}

} // verus!
