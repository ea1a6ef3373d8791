//! A map from text to text, kept as a list of pairs with distinct keys.
use crate::collections::{
    entries_map, entry_keys, keys_unique, lemma_entries_get_at, lemma_entries_push,
    lemma_entries_update, lemma_keys_unique_prefix,
};
use crate::text::lemma_push_contains;
use vstd::prelude::*;

verus! {

/// The texts of a list of pairs.
pub open spec fn pairs_view(v: Seq<(String, String)>) -> Seq<(Seq<char>, Seq<char>)> {
    v.map_values(|p: (String, String)| (p.0@, p.1@))
}

/// A map from text to text. Each key occurs once.
#[derive(Debug)]
pub struct StringMap {
    entries: Vec<(String, String)>,
}

impl StringMap {
    #[verifier::type_invariant]
    spec fn keys_distinct(self) -> bool {
        keys_unique(pairs_view(self.entries@))
    }

    /// The pairs, in the order they were first inserted.
    pub closed spec fn pairs(&self) -> Seq<(Seq<char>, Seq<char>)> {
        pairs_view(self.entries@)
    }

    /// The map the pairs make.
    pub open spec fn map_view(&self) -> Map<Seq<char>, Seq<char>> {
        entries_map(self.pairs())
    }

    /// An empty map.
    pub fn new() -> (res: Self)
        ensures
            res.map_view() == Map::<Seq<char>, Seq<char>>::empty(),
            res.pairs() == Seq::<(Seq<char>, Seq<char>)>::empty(),
    {
        let res = StringMap { entries: Vec::new() };
        proof {
            assert(res.map_view() =~= Map::<Seq<char>, Seq<char>>::empty());
        }
        res
    }

    /// Where the pair with key `key` stands, if there is one.
    fn find(&self, key: &String) -> (res: Option<usize>)
        ensures
            match res {
                Some(i) => i < self.pairs().len() && self.pairs()[i as int].0 == key@,
                None => !entry_keys(self.pairs()).contains(key@),
            },
    {
        let mut i: usize = 0;
        while i < self.entries.len()
            invariant
                i <= self.entries@.len(),
                forall|j: int| 0 <= j < i ==> self.pairs()[j].0 != key@,
            decreases self.entries@.len() - i,
        {
            if self.entries[i].0 == *key {
                return Some(i);
            }
            i += 1;
        }
        proof {
            if entry_keys(self.pairs()).contains(key@) {
                let j = choose|j: int|
                    0 <= j < entry_keys(self.pairs()).len() && entry_keys(self.pairs())[j]
                        == key@;
                assert(self.pairs()[j].0 == key@);
            }
        }
        None
    }

    /// The value for `key`, if there is one.
    pub fn get(&self, key: &String) -> (res: Option<String>)
        ensures
            res is Some <==> self.map_view().dom().contains(key@),
            res matches Some(v) ==> v@ == self.map_view()[key@],
    {
        proof {
            use_type_invariant(self);
        }
        match self.find(key) {
            Some(i) => {
                proof {
                    lemma_entries_get_at(self.pairs(), i as int);
                }
                Some(self.entries[i].1.clone())
            },
            None => None,
        }
    }

    /// Sets the value of `key`: a key already present keeps its place, a new key goes last.
    pub fn insert(&mut self, key: String, value: String)
        ensures
            final(self).map_view() == old(self).map_view().insert(key@, value@),
    {
        proof {
            use_type_invariant(&*self);
        }
        let ghost before = self.pairs();
        let found = self.find(&key);
        let mut entries: Vec<(String, String)> = Vec::new();
        std::mem::swap(&mut entries, &mut self.entries);
        assert(pairs_view(entries@) == before);
        match found {
            Some(i) => {
                let ghost k = key@;
                let ghost v = value@;
                entries.set(i, (key, value));
                proof {
                    assert(pairs_view(entries@) =~= before.update(i as int, (k, v)));
                    lemma_entries_update(before, i as int, k, v);
                }
            },
            None => {
                let ghost k = key@;
                let ghost v = value@;
                entries.push((key, value));
                proof {
                    assert(pairs_view(entries@) =~= before.push((k, v)));
                    lemma_entries_push(before, k, v);
                }
            },
        }
        self.entries = entries;
    }

    /// Drops the pair with key `key`, if there is one; the others keep their order.
    pub fn remove(&mut self, key: &String)
        ensures
            final(self).map_view() == old(self).map_view().remove(key@),
    {
        proof {
            use_type_invariant(&*self);
        }
        let ghost before = self.pairs();
        let mut entries: Vec<(String, String)> = Vec::new();
        std::mem::swap(&mut entries, &mut self.entries);
        let mut kept: Vec<(String, String)> = Vec::new();
        let mut i: usize = 0;
        while i < entries.len()
            invariant
                pairs_view(entries@) == before,
                keys_unique(before),
                i <= entries@.len(),
                keys_unique(pairs_view(kept@)),
                entries_map(pairs_view(kept@)) == entries_map(before.take(i as int)).remove(key@),
                forall|k: Seq<char>| #[trigger] entry_keys(pairs_view(kept@)).contains(k) ==> entry_keys(before.take(i as int)).contains(k),
            decreases entries@.len() - i,
        {
            proof {
                assert(before.take(i + 1) == before.take(i as int).push(before[i as int]));
                lemma_keys_unique_prefix(before, i as int);
                lemma_entries_push(before.take(i as int), before[i as int].0, before[i as int].1);
            }
            if entries[i].0 != *key {
                let ghost k = entries@[i as int].0@;
                let ghost v = entries@[i as int].1@;
                let ghost kept_before = pairs_view(kept@);
                kept.push((entries[i].0.clone(), entries[i].1.clone()));
                proof {
                    assert(pairs_view(kept@) =~= kept_before.push((k, v)));
                    lemma_entries_push(kept_before, k, v);
                    assert(entries_map(pairs_view(kept@)) =~= entries_map(before.take(i + 1)).remove(key@));
                    assert(entry_keys(pairs_view(kept@)) == entry_keys(kept_before).push(k));
                    assert(entry_keys(before.take(i + 1)) == entry_keys(before.take(i as int)).push(k));
                    assert forall|x: Seq<char>| #[trigger] entry_keys(pairs_view(kept@)).contains(x) implies entry_keys(before.take(i + 1)).contains(x) by {
                        lemma_push_contains(entry_keys(kept_before), k, x);
                        lemma_push_contains(entry_keys(before.take(i as int)), k, x);
                    }
                }
            } else {
                proof {
                    assert(entries_map(pairs_view(kept@)) =~= entries_map(before.take(i + 1)).remove(key@));
                    assert(entry_keys(before.take(i + 1)) == entry_keys(before.take(i as int)).push(before[i as int].0));
                    assert forall|x: Seq<char>| #[trigger] entry_keys(pairs_view(kept@)).contains(x) implies entry_keys(before.take(i + 1)).contains(x) by {
                        lemma_push_contains(entry_keys(before.take(i as int)), before[i as int].0, x);
                    }
                }
            }
            i += 1;
        }
        proof {
            assert(before.take(entries@.len() as int) == before);
        }
        self.entries = kept;
    }

    /// Number of pairs.
    pub fn len(&self) -> (res: usize)
        ensures
            res == self.pairs().len(),
    {
        self.entries.len()
    }

    /// The pairs, in order.
    pub fn to_pairs(&self) -> (res: Vec<(String, String)>)
        ensures
            pairs_view(res@) == self.pairs(),
    {
        let mut res: Vec<(String, String)> = Vec::new();
        let mut i: usize = 0;
        while i < self.entries.len()
            invariant
                i <= self.entries@.len(),
                pairs_view(res@) == self.pairs().take(i as int),
            decreases self.entries@.len() - i,
        {
            let ghost before = res@;
            let k = self.entries[i].0.clone();
            let v = self.entries[i].1.clone();
            res.push((k, v));
            proof {
                assert(res@ == before.push((k, v)));
                assert(pairs_view(res@) =~= pairs_view(before).push((k@, v@)));
                assert(self.pairs()[i as int] == (k@, v@));
                assert(pairs_view(res@) =~= self.pairs().take(i + 1));
            }
            i += 1;
        }
        proof {
            assert(self.pairs().take(self.entries@.len() as int) == self.pairs());
        }
        res
    }

    /// The map made by inserting the pairs in order.
    pub fn from_pairs(pairs: Vec<(String, String)>) -> (res: Self)
        ensures
            res.map_view() == pairs_insert_all(Map::empty(), pairs_view(pairs@)),
    {
        let mut res = StringMap::new();
        let mut i: usize = 0;
        while i < pairs.len()
            invariant
                i <= pairs@.len(),
                res.map_view() == pairs_insert_all(Map::empty(), pairs_view(pairs@).take(i as int)),
            decreases pairs@.len() - i,
        {
            res.insert(pairs[i].0.clone(), pairs[i].1.clone());
            proof {
                assert(pairs_view(pairs@).take(i + 1).drop_last() == pairs_view(pairs@).take(i as int));
            }
            i += 1;
        }
        proof {
            assert(pairs_view(pairs@).take(pairs@.len() as int) == pairs_view(pairs@));
        }
        res
    }

    /// A copy of the map.
    pub fn clone_map(&self) -> (res: Self)
        ensures
            res.map_view() == self.map_view(),
    {
        proof {
            use_type_invariant(self);
        }
        let pairs = self.to_pairs();
        let res = StringMap { entries: pairs };
        proof {
            assert(res.pairs() == self.pairs());
        }
        res
    }
}

/// The map after inserting each pair in order.
pub open spec fn pairs_insert_all(
    m: Map<Seq<char>, Seq<char>>,
    pairs: Seq<(Seq<char>, Seq<char>)>,
) -> Map<Seq<char>, Seq<char>>
    decreases pairs.len(),
{
    if pairs.len() == 0 {
        m
    } else {
        pairs_insert_all(m, pairs.drop_last()).insert(pairs.last().0, pairs.last().1)
    }
}

/// Some pair has the key `k`.
pub open spec fn has_key(ps: Seq<(Seq<char>, Seq<char>)>, k: Seq<char>) -> bool {
    exists|i: int| 0 <= i < ps.len() && ps[i].0 == k
}

/// Inserting pairs in order into `m`: the keys are those of `m` and of the pairs, a key
/// of the pairs gets the value of its last pair, and another key keeps its value in `m`.
proof fn lemma_pairs_insert_all(m: Map<Seq<char>, Seq<char>>, ps: Seq<(Seq<char>, Seq<char>)>)
    ensures
        forall|k: Seq<char>|
            #[trigger] pairs_insert_all(m, ps).dom().contains(k) <==> (m.dom().contains(k) || has_key(ps, k)),
        forall|i: int|
            0 <= i < ps.len() && (forall|j: int| i < j < ps.len() ==> ps[j].0 != ps[i].0)
                ==> #[trigger] pairs_insert_all(m, ps)[ps[i].0] == ps[i].1,
        forall|k: Seq<char>|
            m.dom().contains(k) && !has_key(ps, k)
                ==> #[trigger] pairs_insert_all(m, ps)[k] == m[k],
    decreases ps.len(),
{
    if ps.len() > 0 {
        let rest = ps.drop_last();
        let last = ps.last();
        lemma_pairs_insert_all(m, rest);
        let before = pairs_insert_all(m, rest);
        assert forall|k: Seq<char>|
            #[trigger] pairs_insert_all(m, ps).dom().contains(k) <==> (m.dom().contains(k) || has_key(ps, k)) by {
            if has_key(ps, k) {
                let i = choose|i: int| 0 <= i < ps.len() && ps[i].0 == k;
                if i < rest.len() {
                    assert(rest[i].0 == k);
                }
            }
            if has_key(rest, k) {
                let i = choose|i: int| 0 <= i < rest.len() && rest[i].0 == k;
                assert(ps[i].0 == k);
            }
            assert(ps[ps.len() - 1] == last);
        }
        assert forall|i: int|
            0 <= i < ps.len() && (forall|j: int| i < j < ps.len() ==> ps[j].0 != ps[i].0)
                implies #[trigger] pairs_insert_all(m, ps)[ps[i].0] == ps[i].1 by {
            if i < ps.len() - 1 {
                assert(rest[i] == ps[i]);
                assert forall|j: int| i < j < rest.len() implies rest[j].0 != rest[i].0 by {
                    assert(rest[j] == ps[j]);
                }
                assert(ps[ps.len() - 1].0 != ps[i].0);
            }
        }
        assert forall|k: Seq<char>|
            m.dom().contains(k) && !has_key(ps, k)
                implies #[trigger] pairs_insert_all(m, ps)[k] == m[k] by {
            if has_key(rest, k) {
                let i = choose|i: int| 0 <= i < rest.len() && rest[i].0 == k;
                assert(ps[i].0 == k);
            }
            assert(ps[ps.len() - 1].0 != k);
        }
    }
}

/// The map made from pairs holds exactly their keys, each with the value of its last pair;
/// a single pair makes the map of that pair alone.
pub proof fn law_map_of_pairs(ps: Seq<(Seq<char>, Seq<char>)>, k: Seq<char>, v: Seq<char>)
    ensures
        forall|x: Seq<char>|
            #[trigger] pairs_insert_all(Map::empty(), ps).dom().contains(x) <==> has_key(ps, x),
        forall|i: int|
            0 <= i < ps.len() ==> #[trigger] pairs_insert_all(Map::empty(), ps).dom().contains(
                ps[i].0,
            ),
        forall|i: int|
            0 <= i < ps.len() && (forall|j: int| i < j < ps.len() ==> ps[j].0 != ps[i].0)
                ==> #[trigger] pairs_insert_all(Map::empty(), ps)[ps[i].0] == ps[i].1,
        pairs_insert_all(Map::empty(), seq![(k, v)]) == map![k => v],
{
    lemma_pairs_insert_all(Map::empty(), ps);
    assert forall|i: int| 0 <= i < ps.len() implies #[trigger] pairs_insert_all(
        Map::empty(),
        ps,
    ).dom().contains(ps[i].0) by {
        assert(has_key(ps, ps[i].0));
    }
    let one = seq![(k, v)];
    assert(one.drop_last() =~= Seq::<(Seq<char>, Seq<char>)>::empty());
    assert(one.last() == (k, v));
    assert(pairs_insert_all(Map::<Seq<char>, Seq<char>>::empty(), one.drop_last()) == Map::<
        Seq<char>,
        Seq<char>,
    >::empty());
    assert(pairs_insert_all(Map::empty(), one) == Map::<Seq<char>, Seq<char>>::empty().insert(k, v));
    assert(pairs_insert_all(Map::empty(), one) =~= map![k => v]);
}

} // verus!
