//! What `status` reports: files changed, new or removed since the last commit.
use crate::hashing::{one_hash, HashPointer, HashPointerTraits};
use vstd::prelude::*;

verus! {

/// A file or a folder.
#[derive(Debug, Clone, Copy, PartialEq, Eq, Structural)]
pub enum EntryType {
    FILE,
    DIR,
}

/// An entry whose hash changed.
#[derive(Debug)]
pub struct OperationChanged {
    pub entry_old_hash: HashPointer,
    pub parent_dir_path: String,
    pub entry_name: String,
    pub entry_type: EntryType,
}

/// An entry not recorded before.
#[derive(Debug)]
pub struct OperationNew {
    pub parent_dir_path: String,
    pub new_entry_name: String,
    pub entry_type: EntryType,
}

/// An entry recorded before but gone from the folder.
#[derive(Debug)]
pub struct OperationRemoved {
    pub entry_hash: HashPointer,
    pub removed_from: String,
    pub entry_name: String,
    pub entry_type: EntryType,
}

/// The changes found, each keyed by the entry's new hash, in the order found.
#[derive(Debug)]
pub struct StatusDataStructure {
    pub changed_entry: Vec<(HashPointer, OperationChanged)>,
    pub new_entry: Vec<(HashPointer, OperationNew)>,
    pub removed_entry: Vec<(HashPointer, OperationRemoved)>,
}

/// Where the first pair keyed by a pointer equal to `key` stands, or -1.
pub open spec fn first_match<T>(v: Seq<(HashPointer, T)>, key: HashPointer) -> int
    decreases v.len(),
{
    if v.len() == 0 {
        -1
    } else {
        let f = first_match(v.drop_last(), key);
        if f >= 0 {
            f
        } else if one_hash(v.last().0) == one_hash(key) {
            v.len() - 1
        } else {
            -1
        }
    }
}

/// `after` is `before` with `value` recorded under `key`: a pair keyed by an equal pointer
/// keeps its key and place and takes the new value; otherwise the pair goes last.
pub open spec fn keyed_inserted<T>(
    before: Seq<(HashPointer, T)>,
    after: Seq<(HashPointer, T)>,
    key: HashPointer,
    value: T,
) -> bool {
    let f = first_match(before, key);
    if f >= 0 {
        after == before.update(f, (before[f].0, value))
    } else {
        after == before.push((key, value))
    }
}

/// Looking at one more pair: it is the first match when its key matches.
proof fn lemma_first_match_prefix<T>(v: Seq<(HashPointer, T)>, key: HashPointer, i: int)
    requires
        0 <= i < v.len(),
        first_match(v.take(i), key) == -1,
    ensures
        one_hash(v[i].0) == one_hash(key) ==> first_match(v.take(i + 1), key) == i,
        one_hash(v[i].0) != one_hash(key) ==> first_match(v.take(i + 1), key) == -1,
{
    assert(v.take(i + 1).drop_last() == v.take(i));
}

/// A match found in a prefix stays the first match.
proof fn lemma_first_match_extend<T>(v: Seq<(HashPointer, T)>, key: HashPointer, i: int)
    requires
        0 <= i <= v.len(),
        first_match(v.take(i), key) >= 0,
    ensures
        first_match(v, key) == first_match(v.take(i), key),
    decreases v.len() - i,
{
    if i < v.len() {
        assert(v.take(i + 1).drop_last() == v.take(i));
        lemma_first_match_extend(v, key, i + 1);
    } else {
        assert(v.take(i) == v);
    }
}

/// Records `value` under `key`, as `IndexMap::insert` does.
fn keyed_insert<T>(v: &mut Vec<(HashPointer, T)>, key: HashPointer, value: T)
    ensures
        keyed_inserted(old(v)@, final(v)@, key, value),
{
    let mut i: usize = 0;
    while i < v.len()
        invariant
            v@ == old(v)@,
            i <= v@.len(),
            first_match(v@.take(i as int), key) == -1,
        decreases v@.len() - i,
    {
        proof {
            lemma_first_match_prefix(v@, key, i as int);
        }
        if v[i].0 == key {
            proof {
                lemma_first_match_extend(v@, key, i + 1);
            }
            let k = v[i].0.clone();
            v.set(i, (k, value));
            return;
        }
        i += 1;
    }
    proof {
        assert(v@.take(v@.len() as int) == v@);
    }
    v.push((key, value));
}

impl StatusDataStructure {
    /// No changes found yet.
    pub fn new() -> (res: Self)
        ensures
            res.changed_entry@.len() == 0,
            res.new_entry@.len() == 0,
            res.removed_entry@.len() == 0,
    {
        StatusDataStructure { changed_entry: Vec::new(), new_entry: Vec::new(), removed_entry: Vec::new() }
    }
}

/// Records what a file's hashes say: a file recorded before with another hash is changed,
/// a file not recorded before is new, and a file with the same hash is left out.
pub fn update_status_structure_for_file(
    new_hash_pointer_file: HashPointer,
    previous_hash_pointer_opt: Option<HashPointer>,
    parent_of_entry: String,
    entry_name: String,
    list_of_change: &mut StatusDataStructure,
)
    ensures
        final(list_of_change).removed_entry == old(list_of_change).removed_entry,
        match previous_hash_pointer_opt {
            Some(previous) => if one_hash(previous) != one_hash(new_hash_pointer_file) {
                &&& keyed_inserted(
                    old(list_of_change).changed_entry@,
                    final(list_of_change).changed_entry@,
                    new_hash_pointer_file,
                    OperationChanged {
                        entry_old_hash: previous,
                        parent_dir_path: parent_of_entry,
                        entry_name: entry_name,
                        entry_type: EntryType::FILE,
                    },
                )
                &&& final(list_of_change).new_entry == old(list_of_change).new_entry
            } else {
                &&& final(list_of_change).changed_entry == old(list_of_change).changed_entry
                &&& final(list_of_change).new_entry == old(list_of_change).new_entry
            },
            None => {
                &&& keyed_inserted(
                    old(list_of_change).new_entry@,
                    final(list_of_change).new_entry@,
                    new_hash_pointer_file,
                    OperationNew {
                        parent_dir_path: parent_of_entry,
                        entry_type: EntryType::FILE,
                        new_entry_name: entry_name,
                    },
                )
                &&& final(list_of_change).changed_entry == old(list_of_change).changed_entry
            },
        },
{
    match previous_hash_pointer_opt {
        Some(previous_hash_pointer) => {
            if previous_hash_pointer != new_hash_pointer_file {
                keyed_insert(
                    &mut list_of_change.changed_entry,
                    new_hash_pointer_file,
                    OperationChanged {
                        entry_old_hash: previous_hash_pointer,
                        parent_dir_path: parent_of_entry,
                        entry_name: entry_name,
                        entry_type: EntryType::FILE,
                    },
                );
            }
        },
        None => {
            keyed_insert(
                &mut list_of_change.new_entry,
                new_hash_pointer_file,
                OperationNew {
                    parent_dir_path: parent_of_entry,
                    entry_type: EntryType::FILE,
                    new_entry_name: entry_name,
                },
            );
        },
    }
}

} // verus!
