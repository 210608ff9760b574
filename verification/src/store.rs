//! The key-value store that the brokers keep their records in: one value
//! per principal, written by upsert and read back by an explicit lookup.

use vstd::prelude::*;
use crate::principal::Principal;

verus! {

/// One stored entry: a principal and the value kept for it.
pub struct Entry<V> {
    pub key: Principal,
    pub value: V,
}

/// A store of one value per principal.
pub struct Store<V> {
    entries: Vec<Entry<V>>,
}

/// Whether position `i` of the entries belongs to `key`.
pub open spec fn holds_at<V>(entries: Seq<Entry<V>>, i: int, key: Seq<u8>) -> bool {
    0 <= i < entries.len() && entries[i].key@ == key
}

impl<V> Store<V> {
    /// No principal has two entries. `new` establishes this and `set_key`
    /// keeps it.
    pub closed spec fn well_formed(&self) -> bool {
        forall|i: int, j: int|
            0 <= i < j < self.entries.len() ==> self.entries[i].key@ != self.entries[j].key@
    }

    /// The entries as a map from a principal's account hash to its value.
    pub closed spec fn view(&self) -> Map<Seq<u8>, V> {
        Map::new(
            |key: Seq<u8>| exists|i: int| holds_at(self.entries@, i, key),
            |key: Seq<u8>| self.entries[choose|i: int| holds_at(self.entries@, i, key)].value,
        )
    }

    /// An empty store.
    pub fn new() -> (store: Store<V>)
        ensures
            store.well_formed(),
            store@ == Map::<Seq<u8>, V>::empty(),
    {
        let store = Store { entries: Vec::new() };
        assert(store@ =~= Map::<Seq<u8>, V>::empty());
        store
    }

    /// The position of the principal's entry, if it has one.
    fn position(&self, key: &Principal) -> (at: Option<usize>)
        ensures
            at matches Some(i) ==> holds_at(self.entries@, i as int, key@),
            at is None ==> forall|i: int| !holds_at(self.entries@, i, key@),
    {
        let mut i: usize = 0;
        while i < self.entries.len()
            invariant
                i <= self.entries.len(),
                forall|j: int| 0 <= j < i ==> !holds_at(self.entries@, j, key@),
            decreases self.entries.len() - i,
        {
            if self.entries[i].key == *key {
                return Some(i);
            }
            i += 1;
        }
        None
    }

    /// Looks up the value kept for `key`. A missing entry is reported as
    /// such, not as a default value.
    pub fn get_key(&self, key: &Principal) -> (found: Option<&V>)
        requires
            self.well_formed(),
        ensures
            found matches Some(v) ==> self@.dom().contains(key@) && self@[key@] == *v,
            found is None <==> !self@.dom().contains(key@),
    {
        match self.position(key) {
            Some(i) => {
                proof {
                    let k = choose|k: int| holds_at(self.entries@, k, key@);
                    assert(holds_at(self.entries@, i as int, key@));
                    assert(k == i);
                }
                Some(&self.entries[i].value)
            },
            None => None,
        }
    }

    /// Stores `value` for `key`: overwrites the entry where there is one,
    /// creates it where there is none. Every other entry stays as it was.
    pub fn set_key(&mut self, key: Principal, value: V)
        requires
            old(self).well_formed(),
        ensures
            final(self).well_formed(),
            final(self)@ == old(self)@.insert(key@, value),
    {
        let ghost before = self.entries@;
        let entry = Entry { key, value };
        match self.position(&key) {
            Some(i) => {
                self.entries[i] = entry;
                proof {
                    let after = self.entries@;
                    assert forall|k: Seq<u8>, j: int|
                        holds_at(after, j, k) <==> holds_at(before, j, k) by {}
                    assert forall|a: int, b: int| 0 <= a < b < after.len() implies after[a].key@
                        != after[b].key@ by {
                        assert(after[a].key@ == before[a].key@);
                        assert(after[b].key@ == before[b].key@);
                    }
                    assert(self@ =~= old(self)@.insert(key@, value)) by {
                        assert forall|k: Seq<u8>| #[trigger] self@.dom().contains(k) implies self@[k]
                            == old(self)@.insert(key@, value)[k] by {
                            let j = choose|j: int| holds_at(after, j, k);
                            let m = choose|m: int| holds_at(before, m, k);
                            assert(holds_at(before, j, k));
                            assert(j == m);
                        }
                    }
                }
            },
            None => {
                self.entries.push(entry);
                proof {
                    let after = self.entries@;
                    let n = before.len() as int;
                    assert(holds_at(after, n, key@));
                    assert forall|a: int, b: int| 0 <= a < b < after.len() implies after[a].key@
                        != after[b].key@ by {
                        if b == n {
                            assert(!holds_at(before, a, key@));
                        } else {
                            assert(after[a].key@ == before[a].key@);
                            assert(after[b].key@ == before[b].key@);
                        }
                    }
                    assert forall|k: Seq<u8>, j: int| holds_at(after, j, k) <==> (holds_at(
                        before,
                        j,
                        k,
                    ) || (j == n && k == key@)) by {}
                    assert(self@ =~= old(self)@.insert(key@, value)) by {
                        assert forall|k: Seq<u8>| #[trigger] self@.dom().contains(k) implies self@[k]
                            == old(self)@.insert(key@, value)[k] by {
                            let j = choose|j: int| holds_at(after, j, k);
                            if k != key@ {
                                let m = choose|m: int| holds_at(before, m, k);
                                assert(holds_at(before, j, k));
                                assert(j == m);
                            }
                        }
                    }
                }
            },
        }
    }
}

/// What a name refers to in the host's storage.
#[derive(Clone, Copy, Debug, PartialEq, Eq, Structural)]
pub enum Named {
    /// Nothing is kept under the name.
    Missing,
    /// The name refers to a storage cell.
    Cell,
    /// The name refers to something that is no storage cell.
    Other,
}

/// How to read the value kept under a name.
#[derive(Clone, Copy, Debug, PartialEq, Eq, Structural)]
pub enum ReadStep {
    /// Nothing was ever stored: the value is the type's default.
    UseDefault,
    /// Read the cell the name refers to.
    ReadCell,
    /// The name cannot hold a value; the call fails.
    Refuse,
}

/// How to store a value under a name.
#[derive(Clone, Copy, Debug, PartialEq, Eq, Structural)]
pub enum WriteStep {
    /// Create a cell with the value and give it the name.
    CreateCell,
    /// Overwrite the cell the name refers to.
    WriteCell,
    /// The name cannot hold a value; the call fails.
    Refuse,
}

/// Decides how to read by name: a missing name reads as the default, a
/// cell is read, anything else is refused.
pub fn read_step(named: Named) -> (step: ReadStep)
    ensures
        named == Named::Missing <==> step == ReadStep::UseDefault,
        named == Named::Cell <==> step == ReadStep::ReadCell,
        named == Named::Other <==> step == ReadStep::Refuse,
{
    match named {
        Named::Missing => ReadStep::UseDefault,
        Named::Cell => ReadStep::ReadCell,
        Named::Other => ReadStep::Refuse,
    }
}

/// Decides how to store by name: a missing name gets a new cell, a cell is
/// overwritten, anything else is refused.
pub fn write_step(named: Named) -> (step: WriteStep)
    ensures
        named == Named::Missing <==> step == WriteStep::CreateCell,
        named == Named::Cell <==> step == WriteStep::WriteCell,
        named == Named::Other <==> step == WriteStep::Refuse,
{
    match named {
        Named::Missing => WriteStep::CreateCell,
        Named::Cell => WriteStep::WriteCell,
        Named::Other => WriteStep::Refuse,
    }
}

} // verus!
