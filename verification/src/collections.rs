//! The ordered set and map of the `indexmap` crate, as the library uses them: an
//! `IndexSet<String>` of line hashes and an `IndexMap<String, String>` from line hash to line.
//!
//! Each is known to Verus by what it holds, in order (`set_items`, `map_entries`); the
//! wrappers below state what each method does to that, as the crate's source shows it.
use crate::pointers::{NestedTreeHashPointer, VersionHeadPointer};
use indexmap::{IndexMap, IndexSet};
use vstd::prelude::*;
use vstd::utf8::*;

verus! {

#[verifier::external_type_specification]
#[verifier::external_body]
#[verifier::reject_recursive_types(T)]
#[verifier::reject_recursive_types(S)]
pub struct ExIndexSet<T, S>(IndexSet<T, S>);

#[verifier::external_type_specification]
#[verifier::external_body]
#[verifier::reject_recursive_types(K)]
#[verifier::reject_recursive_types(V)]
#[verifier::reject_recursive_types(S)]
pub struct ExIndexMap<K, V, S>(IndexMap<K, V, S>);

/// The strings held by an `IndexSet<String>`, in insertion order.
pub uninterp spec fn set_items(s: IndexSet<String>) -> Seq<Seq<char>>;

/// The key/value pairs held by an `IndexMap<String, String>`, in order.
pub uninterp spec fn map_entries(m: IndexMap<String, String>) -> Seq<(Seq<char>, Seq<char>)>;

/// The keys of a sequence of pairs.
pub open spec fn entry_keys<V>(e: Seq<(Seq<char>, V)>) -> Seq<Seq<char>> {
    e.map_values(|p: (Seq<char>, V)| p.0)
}

/// Where a pair with key `k` stands, if there is one.
pub open spec fn key_index<V>(e: Seq<(Seq<char>, V)>, k: Seq<char>) -> int {
    choose|i: int| 0 <= i < e.len() && (#[trigger] e[i]).0 == k
}

/// The value paired with `k`, if some pair has key `k`.
pub open spec fn entries_get<V>(e: Seq<(Seq<char>, V)>, k: Seq<char>) -> Option<V> {
    if exists|i: int| 0 <= i < e.len() && (#[trigger] e[i]).0 == k {
        Some(e[key_index(e, k)].1)
    } else {
        None
    }
}

/// Byte-wise lexicographic order, the order of `String`'s `Ord`.
pub open spec fn bytes_lt(a: Seq<u8>, b: Seq<u8>) -> bool {
    exists|i: int|
        0 <= i <= a.len() && i <= b.len() && #[trigger] a.subrange(0, i) == b.subrange(0, i) && (
        (i < a.len() && i < b.len() && a[i] < b[i]) || (i == a.len() && i < b.len()))
}

/// `a` sorts before `b` as a `String`.
pub open spec fn string_lt(a: Seq<char>, b: Seq<char>) -> bool {
    bytes_lt(encode_utf8(a), encode_utf8(b))
}

/// The keys are in strictly increasing order.
pub open spec fn keys_sorted<V>(e: Seq<(Seq<char>, V)>) -> bool {
    forall|i: int, j: int| 0 <= i < j < e.len() ==> string_lt(#[trigger] e[i].0, #[trigger] e[j].0)
}

/// `IndexSet::new`: an empty set.
#[verifier::external_body]
pub(crate) fn set_new() -> (res: IndexSet<String>)
    ensures
        set_items(res) == Seq::<Seq<char>>::empty(),
{
    IndexSet::new()
}

/// `IndexSet::insert`: a value not yet held goes last and `true` is returned; a value
/// already held leaves the set as it was and `false` is returned.
#[verifier::external_body]
pub(crate) fn set_insert(s: &mut IndexSet<String>, value: String) -> (res: bool)
    ensures
        res == !set_items(*old(s)).contains(value@),
        res ==> set_items(*final(s)) == set_items(*old(s)).push(value@),
        !res ==> set_items(*final(s)) == set_items(*old(s)),
{
    s.insert(value)
}

/// `IndexSet::contains`.
#[verifier::external_body]
pub(crate) fn set_contains(s: &IndexSet<String>, value: &String) -> (res: bool)
    ensures
        res == set_items(*s).contains(value@),
{
    s.contains(value)
}

/// `IndexSet::len`.
#[verifier::external_body]
pub(crate) fn set_len(s: &IndexSet<String>) -> (res: usize)
    ensures
        res == set_items(*s).len(),
{
    s.len()
}

/// `IndexSet::get_index`: the value at position `index`, if there is one.
#[verifier::external_body]
pub(crate) fn set_get_index(s: &IndexSet<String>, index: usize) -> (res: Option<&String>)
    ensures
        res is Some <==> index < set_items(*s).len(),
        res matches Some(v) ==> v@ == set_items(*s)[index as int],
{
    s.get_index(index)
}

/// `&a - &b` (`Sub` for `IndexSet`): the values of `a` that `b` does not hold, in their
/// order in `a`.
#[verifier::external_body]
pub(crate) fn set_difference(a: &IndexSet<String>, b: &IndexSet<String>) -> (res: IndexSet<String>)
    ensures
        set_items(res) == set_items(*a).filter(|x: Seq<char>| !set_items(*b).contains(x)),
{
    a - b
}

/// `IndexSet::clone`: the same values in the same order.
#[verifier::external_body]
pub(crate) fn set_clone(s: &IndexSet<String>) -> (res: IndexSet<String>)
    ensures
        set_items(res) == set_items(*s),
{
    s.clone()
}

/// `IndexMap::new`: an empty map.
#[verifier::external_body]
pub(crate) fn map_new() -> (res: IndexMap<String, String>)
    ensures
        map_entries(res) == Seq::<(Seq<char>, Seq<char>)>::empty(),
{
    IndexMap::new()
}

/// `IndexMap::insert`: for a key already held, its value is replaced in place and the old
/// value returned; otherwise the pair goes last and `None` is returned.
#[verifier::external_body]
pub(crate) fn map_insert(m: &mut IndexMap<String, String>, key: String, value: String) -> (res:
    Option<String>)
    ensures
        match res {
            Some(old_value) => exists|i: int|
                0 <= i < map_entries(*old(m)).len() && #[trigger] map_entries(*old(m))[i].0
                    == key@ && old_value@ == map_entries(*old(m))[i].1 && map_entries(*final(m))
                    == map_entries(*old(m)).update(i, (key@, value@)),
            None => !entry_keys(map_entries(*old(m))).contains(key@) && map_entries(*final(m))
                == map_entries(*old(m)).push((key@, value@)),
        },
{
    m.insert(key, value)
}

/// `IndexMap::get`: the value stored for `key`, if any.
#[verifier::external_body]
pub(crate) fn map_get<'a>(m: &'a IndexMap<String, String>, key: &String) -> (res: Option<&'a String>)
    ensures
        res is Some <==> entries_get(map_entries(*m), key@) is Some,
        res matches Some(v) ==> v@ == entries_get(map_entries(*m), key@)->0,
{
    m.get(key)
}

/// `IndexMap::len`.
#[verifier::external_body]
pub(crate) fn map_len(m: &IndexMap<String, String>) -> (res: usize)
    ensures
        res == map_entries(*m).len(),
{
    m.len()
}

/// `IndexMap::get_index`: the pair at position `index`, if there is one.
#[verifier::external_body]
pub(crate) fn map_get_index(m: &IndexMap<String, String>, index: usize) -> (res: Option<
    (&String, &String),
>)
    ensures
        res is Some <==> index < map_entries(*m).len(),
        res matches Some(p) ==> p.0@ == map_entries(*m)[index as int].0 && p.1@ == map_entries(
            *m,
        )[index as int].1,
{
    m.get_index(index)
}

/// `IndexMap::sort_keys`: the same pairs, reordered by the keys' `Ord` (the keys of a map
/// are distinct, so the order is strict).
#[verifier::external_body]
pub(crate) fn map_sort_keys(m: &mut IndexMap<String, String>)
    ensures
        map_entries(*final(m)).to_multiset() == map_entries(*old(m)).to_multiset(),
        keys_sorted(map_entries(*final(m))),
{
    m.sort_keys()
}

/// `IndexMap::clone`: the same pairs in the same order.
#[verifier::external_body]
pub(crate) fn map_clone(m: &IndexMap<String, String>) -> (res: IndexMap<String, String>)
    ensures
        map_entries(res) == map_entries(*m),
{
    m.clone()
}

/// The pairs held by a tree's `IndexMap<String, VersionHeadPointer>` (from file name to version head pointer), in order.
pub uninterp spec fn file_children_entries(m: IndexMap<String, VersionHeadPointer>) -> Seq<(Seq<char>, VersionHeadPointer)>;

/// `IndexMap::new` for a tree's children from file name to version head pointer: an empty map.
#[verifier::external_body]
pub(crate) fn file_map_new() -> (res: IndexMap<String, VersionHeadPointer>)
    ensures
        file_children_entries(res) == Seq::<(Seq<char>, VersionHeadPointer)>::empty(),
{
    IndexMap::new()
}

/// `IndexMap::insert` for a tree's children: for a key already held, its value is
/// replaced in place; otherwise the pair goes last.
#[verifier::external_body]
pub(crate) fn file_map_insert(m: &mut IndexMap<String, VersionHeadPointer>, key: String, value: VersionHeadPointer) -> (res:
    Option<VersionHeadPointer>)
    ensures
        match res {
            Some(old_value) => exists|i: int|
                0 <= i < file_children_entries(*old(m)).len() && #[trigger] file_children_entries(*old(m))[i].0 == key@
                    && old_value == file_children_entries(*old(m))[i].1 && file_children_entries(*final(m))
                    == file_children_entries(*old(m)).update(i, (key@, value)),
            None => !entry_keys(file_children_entries(*old(m))).contains(key@) && file_children_entries(*final(m))
                == file_children_entries(*old(m)).push((key@, value)),
        },
{
    m.insert(key, value)
}

/// `IndexMap::get` for a tree's children: the value stored for `key`, if any.
#[verifier::external_body]
pub(crate) fn file_map_get<'a>(m: &'a IndexMap<String, VersionHeadPointer>, key: &String) -> (res: Option<&'a VersionHeadPointer>)
    ensures
        res is Some <==> entries_get(file_children_entries(*m), key@) is Some,
        res matches Some(v) ==> *v == entries_get(file_children_entries(*m), key@)->0,
{
    m.get(key)
}

/// `IndexMap::is_empty` for a tree's children.
#[verifier::external_body]
pub(crate) fn file_map_is_empty(m: &IndexMap<String, VersionHeadPointer>) -> (res: bool)
    ensures
        res == (file_children_entries(*m).len() == 0),
{
    m.is_empty()
}

/// `IndexMap::sort_keys` for a tree's children: the same pairs, reordered by the keys'
/// `Ord`.
#[verifier::external_body]
pub(crate) fn file_map_sort_keys(m: &mut IndexMap<String, VersionHeadPointer>)
    ensures
        file_children_entries(*final(m)).to_multiset() == file_children_entries(*old(m)).to_multiset(),
        keys_sorted(file_children_entries(*final(m))),
{
    m.sort_keys()
}

/// `IndexMap::clone` for a tree's children: the same pairs in the same order (the values'
/// `clone` gives back an equal value).
#[verifier::external_body]
pub(crate) fn file_map_clone(m: &IndexMap<String, VersionHeadPointer>) -> (res: IndexMap<String, VersionHeadPointer>)
    ensures
        file_children_entries(res) == file_children_entries(*m),
{
    m.clone()
}

/// The pairs held by a tree's `IndexMap<String, NestedTreeHashPointer>` (from folder name to nested tree pointer), in order.
pub uninterp spec fn dir_children_entries(m: IndexMap<String, NestedTreeHashPointer>) -> Seq<(Seq<char>, NestedTreeHashPointer)>;

/// `IndexMap::new` for a tree's children from folder name to nested tree pointer: an empty map.
#[verifier::external_body]
pub(crate) fn dir_map_new() -> (res: IndexMap<String, NestedTreeHashPointer>)
    ensures
        dir_children_entries(res) == Seq::<(Seq<char>, NestedTreeHashPointer)>::empty(),
{
    IndexMap::new()
}

/// `IndexMap::insert` for a tree's children: for a key already held, its value is
/// replaced in place; otherwise the pair goes last.
#[verifier::external_body]
pub(crate) fn dir_map_insert(m: &mut IndexMap<String, NestedTreeHashPointer>, key: String, value: NestedTreeHashPointer) -> (res:
    Option<NestedTreeHashPointer>)
    ensures
        match res {
            Some(old_value) => exists|i: int|
                0 <= i < dir_children_entries(*old(m)).len() && #[trigger] dir_children_entries(*old(m))[i].0 == key@
                    && old_value == dir_children_entries(*old(m))[i].1 && dir_children_entries(*final(m))
                    == dir_children_entries(*old(m)).update(i, (key@, value)),
            None => !entry_keys(dir_children_entries(*old(m))).contains(key@) && dir_children_entries(*final(m))
                == dir_children_entries(*old(m)).push((key@, value)),
        },
{
    m.insert(key, value)
}

/// `IndexMap::get` for a tree's children: the value stored for `key`, if any.
#[verifier::external_body]
pub(crate) fn dir_map_get<'a>(m: &'a IndexMap<String, NestedTreeHashPointer>, key: &String) -> (res: Option<&'a NestedTreeHashPointer>)
    ensures
        res is Some <==> entries_get(dir_children_entries(*m), key@) is Some,
        res matches Some(v) ==> *v == entries_get(dir_children_entries(*m), key@)->0,
{
    m.get(key)
}

/// `IndexMap::is_empty` for a tree's children.
#[verifier::external_body]
pub(crate) fn dir_map_is_empty(m: &IndexMap<String, NestedTreeHashPointer>) -> (res: bool)
    ensures
        res == (dir_children_entries(*m).len() == 0),
{
    m.is_empty()
}

/// `IndexMap::sort_keys` for a tree's children: the same pairs, reordered by the keys'
/// `Ord`.
#[verifier::external_body]
pub(crate) fn dir_map_sort_keys(m: &mut IndexMap<String, NestedTreeHashPointer>)
    ensures
        dir_children_entries(*final(m)).to_multiset() == dir_children_entries(*old(m)).to_multiset(),
        keys_sorted(dir_children_entries(*final(m))),
{
    m.sort_keys()
}

/// `IndexMap::clone` for a tree's children: the same pairs in the same order (the values'
/// `clone` gives back an equal value).
#[verifier::external_body]
pub(crate) fn dir_map_clone(m: &IndexMap<String, NestedTreeHashPointer>) -> (res: IndexMap<String, NestedTreeHashPointer>)
    ensures
        dir_children_entries(res) == dir_children_entries(*m),
{
    m.clone()
}

/// No two pairs share a key.
pub open spec fn keys_unique<V>(e: Seq<(Seq<char>, V)>) -> bool {
    entry_keys(e).no_duplicates()
}

/// The pairs read as a map from key to value.
pub open spec fn entries_map<V>(e: Seq<(Seq<char>, V)>) -> Map<Seq<char>, V> {
    Map::new(|k: Seq<char>| entry_keys(e).contains(k), |k: Seq<char>| entries_get(e, k)->0)
}

/// The pair at position `i` is what the map gives for its key.
pub proof fn lemma_entries_get_at<V>(e: Seq<(Seq<char>, V)>, i: int)
    requires
        keys_unique(e),
        0 <= i < e.len(),
    ensures
        entries_get(e, e[i].0) == Some(e[i].1),
        entry_keys(e).contains(e[i].0),
        entries_map(e).dom().contains(e[i].0),
        entries_map(e)[e[i].0] == e[i].1,
{
    let k = e[i].0;
    assert(exists|j: int| 0 <= j < e.len() && (#[trigger] e[j]).0 == k);
    let j = key_index(e, k);
    assert(entry_keys(e)[j] == e[j].0);
    assert(entry_keys(e)[i] == e[i].0);
    if j != i {
        assert(entry_keys(e)[j] != entry_keys(e)[i]);
    }
    assert(entries_get(e, k) == Some(e[j].1));
    assert(entry_keys(e).contains(k));
}

/// A key is held exactly when the map gives a value for it.
pub proof fn lemma_entries_get_none<V>(e: Seq<(Seq<char>, V)>, k: Seq<char>)
    ensures
        entry_keys(e).contains(k) <==> entries_get(e, k) is Some,
{
    if entry_keys(e).contains(k) {
        let i = choose|i: int| 0 <= i < entry_keys(e).len() && entry_keys(e)[i] == k;
        assert(e[i].0 == k);
    }
    if entries_get(e, k) is Some {
        let i = choose|i: int| 0 <= i < e.len() && (#[trigger] e[i]).0 == k;
        assert(entry_keys(e)[i] == k);
    }
}

/// A pair with a new key, put last, adds that key to the map.
pub proof fn lemma_entries_push<V>(e: Seq<(Seq<char>, V)>, k: Seq<char>, v: V)
    requires
        keys_unique(e),
        !entry_keys(e).contains(k),
    ensures
        keys_unique(e.push((k, v))),
        entries_map(e.push((k, v))) == entries_map(e).insert(k, v),
{
    let e2 = e.push((k, v));
    assert(entry_keys(e2) == entry_keys(e).push(k));
    assert forall|a: int, b: int|
        0 <= a < entry_keys(e2).len() && 0 <= b < entry_keys(e2).len() && a != b implies
        entry_keys(e2)[a] != entry_keys(e2)[b] by {
        if a < e.len() && b < e.len() {
            assert(entry_keys(e2)[a] == entry_keys(e)[a]);
            assert(entry_keys(e2)[b] == entry_keys(e)[b]);
        } else if a < e.len() {
            assert(entry_keys(e2)[a] == entry_keys(e)[a]);
        } else {
            assert(entry_keys(e2)[b] == entry_keys(e)[b]);
        }
    }
    assert forall|x: Seq<char>| #[trigger] entries_map(e2).dom().contains(x) <==> entries_map(
        e,
    ).insert(k, v).dom().contains(x) by {
        if entry_keys(e2).contains(x) {
            let i = choose|i: int| 0 <= i < entry_keys(e2).len() && entry_keys(e2)[i] == x;
            if i < e.len() {
                assert(entry_keys(e)[i] == x);
            }
        }
        if entry_keys(e).contains(x) {
            let i = choose|i: int| 0 <= i < entry_keys(e).len() && entry_keys(e)[i] == x;
            assert(entry_keys(e2)[i] == x);
        }
        if x == k {
            assert(entry_keys(e2)[e.len() as int] == x);
        }
    }
    assert forall|x: Seq<char>| entries_map(e2).dom().contains(x) implies #[trigger] entries_map(
        e2,
    )[x] == entries_map(e).insert(k, v)[x] by {
        let i = choose|i: int| 0 <= i < entry_keys(e2).len() && entry_keys(e2)[i] == x;
        assert(e2[i].0 == x);
        lemma_entries_get_at(e2, i);
        if i < e.len() {
            assert(e2[i] == e[i]);
            lemma_entries_get_at(e, i);
        }
    }
    assert(entries_map(e2) =~= entries_map(e).insert(k, v));
}

/// Replacing the value of a pair in place changes the map at that key only.
pub proof fn lemma_entries_update<V>(
    e: Seq<(Seq<char>, V)>,
    i: int,
    k: Seq<char>,
    v: V,
)
    requires
        keys_unique(e),
        0 <= i < e.len(),
        e[i].0 == k,
    ensures
        keys_unique(e.update(i, (k, v))),
        entries_map(e.update(i, (k, v))) == entries_map(e).insert(k, v),
{
    let e2 = e.update(i, (k, v));
    assert(entry_keys(e2) =~= entry_keys(e));
    assert forall|x: Seq<char>| #[trigger] entries_map(e2).dom().contains(x) <==> entries_map(
        e,
    ).insert(k, v).dom().contains(x) by {
        assert(entry_keys(e)[i] == k);
    }
    assert forall|x: Seq<char>| entries_map(e2).dom().contains(x) implies #[trigger] entries_map(
        e2,
    )[x] == entries_map(e).insert(k, v)[x] by {
        let j = choose|j: int| 0 <= j < entry_keys(e2).len() && entry_keys(e2)[j] == x;
        assert(e2[j].0 == x);
        lemma_entries_get_at(e2, j);
        if j != i {
            assert(e2[j] == e[j]);
            lemma_entries_get_at(e, j);
            assert(entry_keys(e)[j] != entry_keys(e)[i]);
        }
    }
    assert(entries_map(e2) =~= entries_map(e).insert(k, v));
}

/// Two orderings of the same pairs, each with distinct keys, read as the same map.
pub proof fn lemma_entries_permuted<V>(e1: Seq<(Seq<char>, V)>, e2: Seq<(Seq<char>, V)>)
    requires
        e1.to_multiset() == e2.to_multiset(),
        keys_unique(e1),
        keys_unique(e2),
    ensures
        entries_map(e1) == entries_map(e2),
{
    broadcast use vstd::seq_lib::to_multiset_contains;

    assert forall|x: Seq<char>| #[trigger] entries_map(e1).dom().contains(x) <==> entries_map(
        e2,
    ).dom().contains(x) by {
        if entries_map(e1).dom().contains(x) {
            let i = choose|i: int| 0 <= i < entry_keys(e1).len() && entry_keys(e1)[i] == x;
            assert(e1.contains(e1[i]));
            assert(e1.to_multiset().count(e1[i]) > 0);
            assert(e2.to_multiset().count(e1[i]) > 0);
            assert(e2.contains(e1[i]));
            let j = choose|j: int| 0 <= j < e2.len() && e2[j] == e1[i];
            assert(entry_keys(e2)[j] == x);
        }
        if entries_map(e2).dom().contains(x) {
            let i = choose|i: int| 0 <= i < entry_keys(e2).len() && entry_keys(e2)[i] == x;
            assert(e2.contains(e2[i]));
            assert(e2.to_multiset().count(e2[i]) > 0);
            assert(e1.to_multiset().count(e2[i]) > 0);
            assert(e1.contains(e2[i]));
            let j = choose|j: int| 0 <= j < e1.len() && e1[j] == e2[i];
            assert(entry_keys(e1)[j] == x);
        }
    }
    assert forall|x: Seq<char>| entries_map(e1).dom().contains(x) implies #[trigger] entries_map(
        e1,
    )[x] == entries_map(e2)[x] by {
        let i = choose|i: int| 0 <= i < entry_keys(e1).len() && entry_keys(e1)[i] == x;
        assert(e1[i].0 == x);
        assert(e1.contains(e1[i]));
        assert(e1.to_multiset().count(e1[i]) > 0);
        assert(e2.to_multiset().count(e1[i]) > 0);
        assert(e2.contains(e1[i]));
        let j = choose|j: int| 0 <= j < e2.len() && e2[j] == e1[i];
        lemma_entries_get_at(e1, i);
        lemma_entries_get_at(e2, j);
    }
    assert(entries_map(e1) =~= entries_map(e2));
}

/// Strictly sorted keys are distinct.
pub proof fn lemma_sorted_keys_unique<V>(e: Seq<(Seq<char>, V)>)
    requires
        keys_sorted(e),
    ensures
        keys_unique(e),
{
    assert forall|a: int, b: int|
        0 <= a < entry_keys(e).len() && 0 <= b < entry_keys(e).len() && a != b implies
        entry_keys(e)[a] != entry_keys(e)[b] by {
        let (x, y) = if a < b { (a, b) } else { (b, a) };
        assert(string_lt(e[x].0, e[y].0));
        if e[x].0 == e[y].0 {
            let bs = encode_utf8(e[x].0);
            let w = choose|w: int|
                0 <= w <= bs.len() && w <= bs.len() && #[trigger] bs.subrange(0, w) == bs.subrange(
                    0,
                    w,
                ) && ((w < bs.len() && w < bs.len() && bs[w] < bs[w]) || (w == bs.len() && w
                    < bs.len()));
        }
    }
}

/// A prefix of pairs with distinct keys has distinct keys, and the next pair's key is not
/// among them.
pub proof fn lemma_keys_unique_prefix<V>(e: Seq<(Seq<char>, V)>, i: int)
    requires
        keys_unique(e),
        0 <= i < e.len(),
    ensures
        keys_unique(e.take(i)),
        !entry_keys(e.take(i)).contains(e[i].0),
{
    assert(entry_keys(e.take(i)) =~= entry_keys(e).take(i));
    if entry_keys(e.take(i)).contains(e[i].0) {
        let j = choose|j: int| 0 <= j < entry_keys(e.take(i)).len() && entry_keys(e.take(i))[j] == e[i].0;
        assert(entry_keys(e)[j] == entry_keys(e)[i]);
    }
}

} // verus!
