//! The registry of escrows: a store keyed by identifier, which lists its
//! identifiers in ascending order.

use crate::error::ContractError;
use crate::state::{escrows_wf, Escrow, EscrowView};
use crate::text::{comes_before, id_before, lemma_id_order, same_text};
use vstd::prelude::*;
use vstd::string::*;

verus! {

/// Each identifier comes before all that follow it.
pub open spec fn ascending(keys: Seq<Seq<char>>) -> bool {
    forall|i: int, j: int| 0 <= i < j < keys.len() ==> id_before(keys[i], keys[j])
}

/// The contents of a list of identifiers, in the list's order.
pub open spec fn ids_view(ids: Seq<String>) -> Seq<Seq<char>> {
    Seq::new(ids.len(), |i: int| ids[i]@)
}

/// Some place holds the identifier.
spec fn has_key(keys: Seq<Seq<char>>, k: Seq<char>) -> bool {
    exists|i: int| 0 <= i < keys.len() && keys[i] == k
}

/// A place that holds the identifier.
spec fn place_of(keys: Seq<Seq<char>>, k: Seq<char>) -> int {
    choose|i: int| 0 <= i < keys.len() && keys[i] == k
}

/// The map from each identifier of a list to the escrow at its place.
spec fn pairs_map(keys: Seq<Seq<char>>, values: Seq<EscrowView>) -> Map<Seq<char>, EscrowView> {
    Map::new(|k: Seq<char>| has_key(keys, k), |k: Seq<char>| values[place_of(keys, k)])
}

/// In an ascending list no identifier stands at two places.
proof fn lemma_ascending_distinct(keys: Seq<Seq<char>>, i: int, j: int)
    requires
        ascending(keys),
        0 <= i < keys.len(),
        0 <= j < keys.len(),
        keys[i] == keys[j],
    ensures
        i == j,
{
    lemma_id_order(keys[i], keys[i], keys[i]);
    if i < j {
        assert(id_before(keys[i], keys[j]));
    }
    if j < i {
        assert(id_before(keys[j], keys[i]));
    }
}

/// The map of an ascending list holds each identifier with the escrow at
/// its place.
proof fn lemma_lookup(keys: Seq<Seq<char>>, values: Seq<EscrowView>, i: int)
    requires
        ascending(keys),
        keys.len() == values.len(),
        0 <= i < keys.len(),
    ensures
        pairs_map(keys, values).contains_key(keys[i]),
        pairs_map(keys, values)[keys[i]] == values[i],
{
    lemma_ascending_distinct(keys, i, place_of(keys, keys[i]));
}

/// Putting a pair into the lists puts it into the map.
proof fn lemma_insert(
    keys: Seq<Seq<char>>,
    values: Seq<EscrowView>,
    p: int,
    k: Seq<char>,
    v: EscrowView,
)
    requires
        keys.len() == values.len(),
        0 <= p <= keys.len(),
        ascending(keys),
        ascending(keys.insert(p, k)),
    ensures
        pairs_map(keys.insert(p, k), values.insert(p, v)) == pairs_map(keys, values).insert(k, v),
{
    let keys2 = keys.insert(p, k);
    let values2 = values.insert(p, v);
    let m2 = pairs_map(keys2, values2);
    let m1 = pairs_map(keys, values).insert(k, v);
    assert forall|x: Seq<char>| m2.contains_key(x) <==> m1.contains_key(x) by {
        if has_key(keys2, x) {
            let i = place_of(keys2, x);
            if i < p {
                assert(keys[i] == x);
            } else if i > p {
                assert(keys[i - 1] == x);
            }
        }
        if x == k {
            assert(keys2[p] == x);
        }
        if has_key(keys, x) {
            let i = place_of(keys, x);
            if i < p {
                assert(keys2[i] == x);
            } else {
                assert(keys2[i + 1] == x);
            }
        }
    }
    assert forall|x: Seq<char>| m2.contains_key(x) implies m2[x] == m1[x] by {
        let i = place_of(keys2, x);
        lemma_lookup(keys2, values2, i);
        if i < p {
            lemma_lookup(keys, values, i);
        } else if i > p {
            lemma_lookup(keys, values, i - 1);
        }
        if x == k {
            lemma_ascending_distinct(keys2, i, p);
        }
    }
}

/// Replacing an escrow in the list replaces it in the map.
proof fn lemma_update(keys: Seq<Seq<char>>, values: Seq<EscrowView>, p: int, v: EscrowView)
    requires
        keys.len() == values.len(),
        0 <= p < keys.len(),
        ascending(keys),
    ensures
        pairs_map(keys, values.update(p, v)) == pairs_map(keys, values).insert(keys[p], v),
{
    let values2 = values.update(p, v);
    let m2 = pairs_map(keys, values2);
    let m1 = pairs_map(keys, values).insert(keys[p], v);
    assert forall|x: Seq<char>| m2.contains_key(x) <==> m1.contains_key(x) by {
        assert(has_key(keys, keys[p]));
    }
    assert forall|x: Seq<char>| m2.contains_key(x) implies m2[x] == m1[x] by {
        let i = place_of(keys, x);
        lemma_lookup(keys, values2, i);
        lemma_lookup(keys, values, i);
        if x == keys[p] {
            lemma_ascending_distinct(keys, i, p);
        }
    }
}

/// Taking a pair out of the lists takes it out of the map, and leaves the
/// list ascending.
proof fn lemma_remove(keys: Seq<Seq<char>>, values: Seq<EscrowView>, p: int)
    requires
        keys.len() == values.len(),
        0 <= p < keys.len(),
        ascending(keys),
    ensures
        ascending(keys.remove(p)),
        pairs_map(keys.remove(p), values.remove(p)) == pairs_map(keys, values).remove(keys[p]),
{
    let keys2 = keys.remove(p);
    let values2 = values.remove(p);
    assert forall|i: int, j: int| 0 <= i < j < keys2.len() implies id_before(
        keys2[i],
        keys2[j],
    ) by {
        let a = if i < p {
            i
        } else {
            i + 1
        };
        let b = if j < p {
            j
        } else {
            j + 1
        };
        assert(id_before(keys[a], keys[b]));
    }
    let m2 = pairs_map(keys2, values2);
    let m1 = pairs_map(keys, values).remove(keys[p]);
    assert forall|x: Seq<char>| m2.contains_key(x) <==> m1.contains_key(x) by {
        if has_key(keys2, x) {
            let i = place_of(keys2, x);
            let a = if i < p {
                i
            } else {
                i + 1
            };
            if x == keys[p] {
                lemma_ascending_distinct(keys, a, p);
            }
        }
        if has_key(keys, x) && x != keys[p] {
            let i = place_of(keys, x);
            if i < p {
                assert(keys2[i] == x);
            } else {
                assert(keys2[i - 1] == x);
            }
        }
    }
    assert forall|x: Seq<char>| m2.contains_key(x) implies m2[x] == m1[x] by {
        let i = place_of(keys2, x);
        lemma_lookup(keys2, values2, i);
        let a = if i < p {
            i
        } else {
            i + 1
        };
        lemma_lookup(keys, values, a);
    }
}

/// An escrow under its identifier.
struct Entry {
    id: String,
    escrow: Escrow,
}

/// The identifiers of the entries, in their order.
spec fn keys_of(entries: Seq<Entry>) -> Seq<Seq<char>> {
    Seq::new(entries.len(), |i: int| entries[i].id@)
}

/// The escrows of the entries, in their order.
spec fn values_of(entries: Seq<Entry>) -> Seq<EscrowView> {
    Seq::new(entries.len(), |i: int| entries[i].escrow@)
}

/// The escrows on record, each under its identifier.
pub struct Registry {
    entries: Vec<Entry>,
}

impl View for Registry {
    type V = Map<Seq<char>, EscrowView>;

    closed spec fn view(&self) -> Map<Seq<char>, EscrowView> {
        pairs_map(self.keys(), self.values())
    }
}

impl Registry {
    /// The identifiers on record, in their stored order.
    closed spec fn keys(&self) -> Seq<Seq<char>> {
        keys_of(self.entries@)
    }

    /// The escrows on record, in their stored order.
    closed spec fn values(&self) -> Seq<EscrowView> {
        values_of(self.entries@)
    }

    /// The entries are kept in ascending order of their identifiers.
    #[verifier::type_invariant]
    closed spec fn ordered(&self) -> bool {
        ascending(self.keys())
    }

    /// A registry without escrows.
    pub fn new() -> (store: Self)
        ensures
            store@ == Map::<Seq<char>, EscrowView>::empty(),
    {
        let store = Registry { entries: Vec::new() };
        assert(store@ =~= Map::<Seq<char>, EscrowView>::empty());
        store
    }

    /// The place of the entry under the identifier.
    fn find(&self, id: &str) -> (r: Option<usize>)
        ensures
            match r {
                Some(i) => i < self.entries.len() && self.keys()[i as int] == id@,
                None => !has_key(self.keys(), id@),
            },
    {
        let mut k: usize = 0;
        while k < self.entries.len()
            invariant
                k <= self.entries.len(),
                forall|j: int| 0 <= j < k ==> self.keys()[j] != id@,
            decreases self.entries.len() - k,
        {
            if same_text(self.entries[k].id.as_str(), id) {
                return Some(k);
            }
            k += 1;
        }
        None
    }

    /// Whether an escrow is on record under the identifier.
    pub fn contains(&self, id: &str) -> (r: bool)
        ensures
            r == self@.contains_key(id@),
    {
        self.find(id).is_some()
    }

    /// A copy of the escrow on record under the identifier.
    pub fn load(&self, id: &str) -> (r: Result<Escrow, ContractError>)
        ensures
            match r {
                Ok(escrow) => self@.contains_key(id@) && escrow@ == self@[id@],
                Err(e) => !self@.contains_key(id@) && e == ContractError::NotFound,
            },
    {
        proof {
            use_type_invariant(self);
        }
        match self.find(id) {
            Some(i) => {
                proof {
                    lemma_lookup(self.keys(), self.values(), i as int);
                }
                Ok(self.entries[i].escrow.clone())
            },
            None => Err(ContractError::NotFound),
        }
    }

    /// Puts the escrow on record under the identifier, in place of the one
    /// that was there, if any.
    pub fn save(&mut self, id: &str, escrow: Escrow)
        ensures
            final(self)@ == old(self)@.insert(id@, escrow@),
    {
        proof {
            use_type_invariant(&*self);
        }
        match self.find(id) {
            Some(i) => {
                proof {
                    lemma_update(self.keys(), self.values(), i as int, escrow@);
                }
                let ghost keys = self.keys();
                let ghost values = self.values();
                let mut entries: Vec<Entry> = Vec::new();
                std::mem::swap(&mut self.entries, &mut entries);
                entries[i].escrow = escrow;
                assert(keys_of(entries@) =~= keys);
                assert(values_of(entries@) =~= values.update(i as int, escrow@));
                self.entries = entries;
            },
            None => {
                let ghost keys = self.keys();
                let ghost values = self.values();
                let mut p: usize = 0;
                while p < self.entries.len() && comes_before(self.entries[p].id.as_str(), id)
                    invariant
                        p <= self.entries.len(),
                        keys == self.keys(),
                        forall|j: int| 0 <= j < p ==> id_before(keys[j], id@),
                    decreases self.entries.len() - p,
                {
                    p += 1;
                }
                proof {
                    let keys2 = keys.insert(p as int, id@);
                    assert forall|i: int, j: int| 0 <= i < j < keys2.len() implies id_before(
                        keys2[i],
                        keys2[j],
                    ) by {
                        if j == p {
                            assert(id_before(keys[i], id@));
                        } else if i == p {
                            assert(keys2[j] == keys[j - 1]);
                            lemma_id_order(id@, keys[p as int], keys[j - 1]);
                            lemma_id_order(keys[p as int], id@, keys[j - 1]);
                            assert(keys[p as int] != id@);
                            if j - 1 > p {
                                assert(id_before(keys[p as int], keys[j - 1]));
                            }
                        } else {
                            let a = if i < p {
                                i
                            } else {
                                i - 1
                            };
                            let b = if j < p {
                                j
                            } else {
                                j - 1
                            };
                            assert(id_before(keys[a], keys[b]));
                        }
                    }
                    lemma_insert(keys, values, p as int, id@, escrow@);
                }
                let entry = Entry { id: id.to_owned(), escrow };
                let mut entries: Vec<Entry> = Vec::new();
                std::mem::swap(&mut self.entries, &mut entries);
                entries.insert(p, entry);
                assert(keys_of(entries@) =~= keys.insert(p as int, id@));
                assert(values_of(entries@) =~= values.insert(p as int, escrow@));
                self.entries = entries;
            },
        }
    }

    /// Puts the escrow on record under the identifier, unless one is on
    /// record under it already.
    pub fn insert_if_absent(&mut self, id: &str, escrow: Escrow) -> (r: Result<(), ContractError>)
        ensures
            old(self)@.contains_key(id@) ==> r == Err::<(), ContractError>(
                ContractError::AlreadyInUse,
            ) && final(self)@ == old(self)@,
            !old(self)@.contains_key(id@) ==> r is Ok && final(self)@ == old(self)@.insert(
                id@,
                escrow@,
            ),
    {
        if self.contains(id) {
            Err(ContractError::AlreadyInUse)
        } else {
            self.save(id, escrow);
            Ok(())
        }
    }

    /// Takes the escrow under the identifier off the record, if there is one.
    pub fn delete(&mut self, id: &str)
        ensures
            final(self)@ == old(self)@.remove(id@),
    {
        proof {
            use_type_invariant(&*self);
        }
        match self.find(id) {
            Some(i) => {
                let ghost keys = self.keys();
                let ghost values = self.values();
                proof {
                    lemma_remove(keys, values, i as int);
                }
                let mut entries: Vec<Entry> = Vec::new();
                std::mem::swap(&mut self.entries, &mut entries);
                let _ = entries.remove(i);
                assert(keys_of(entries@) =~= keys.remove(i as int));
                assert(values_of(entries@) =~= values.remove(i as int));
                self.entries = entries;
            },
            None => {
                assert(final(self)@ =~= old(self)@.remove(id@));
            },
        }
    }

    /// The identifiers on record, in ascending order.
    pub fn list_ids(&self) -> (ids: Vec<String>)
        ensures
            ascending(ids_view(ids@)),
            forall|k: Seq<char>| self@.contains_key(k) <==> ids_view(ids@).contains(k),
    {
        proof {
            use_type_invariant(self);
        }
        let mut ids: Vec<String> = Vec::new();
        let mut k: usize = 0;
        while k < self.entries.len()
            invariant
                k <= self.entries.len(),
                ids.len() == k,
                forall|i: int| 0 <= i < k ==> (#[trigger] ids[i])@ == self.keys()[i],
            decreases self.entries.len() - k,
        {
            ids.push(self.entries[k].id.clone());
            k += 1;
        }
        assert(ids_view(ids@) =~= self.keys());
        assert forall|x: Seq<char>| self@.contains_key(x) <==> ids_view(ids@).contains(x) by {
            if has_key(self.keys(), x) {
                let i = place_of(self.keys(), x);
                assert(ids_view(ids@)[i] == x);
            }
        }
        ids
    }

    /// Whether every escrow on record is well formed.
    pub fn all_well_formed(&self) -> (r: bool)
        ensures
            r == escrows_wf(self@),
    {
        proof {
            use_type_invariant(self);
        }
        let mut k: usize = 0;
        while k < self.entries.len()
            invariant
                k <= self.entries.len(),
                ascending(self.keys()),
                forall|i: int| 0 <= i < k ==> (#[trigger] self.values()[i]).wf(),
            decreases self.entries.len() - k,
        {
            if !self.entries[k].escrow.is_well_formed() {
                proof {
                    lemma_lookup(self.keys(), self.values(), k as int);
                    assert(!self@[self.keys()[k as int]].wf());
                }
                return false;
            }
            k += 1;
        }
        assert forall|id: Seq<char>| self@.contains_key(id) implies (#[trigger] self@[id]).wf() by {
            let i = place_of(self.keys(), id);
            lemma_lookup(self.keys(), self.values(), i);
            assert(self.values()[i].wf());
        }
        true
    }

    /// How many escrows are on record.
    pub fn len(&self) -> (n: usize)
        ensures
            self@.dom().finite(),
            n == self@.dom().len(),
    {
        proof {
            use_type_invariant(self);
            let keys = self.keys();
            assert forall|i: int, j: int|
                0 <= i < keys.len() && 0 <= j < keys.len() && i != j implies keys[i]
                != keys[j] by {
                if keys[i] == keys[j] {
                    lemma_ascending_distinct(keys, i, j);
                }
            }
            keys.unique_seq_to_set();
            vstd::seq_lib::seq_to_set_is_finite(keys);
            assert(self@.dom() =~= keys.to_set()) by {
                assert forall|k: Seq<char>| self@.dom().contains(k) <==> keys.to_set().contains(
                    k,
                ) by {
                    if has_key(keys, k) {
                        let i = place_of(keys, k);
                        assert(keys[i] == k);
                    }
                    if keys.contains(k) {
                        assert(has_key(keys, k));
                    }
                }
            }
        }
        self.entries.len()
    }
}

} // verus!
