//! Trees: a folder's files (by name, to their version heads) and sub-folders (by name, to
//! their nested trees).
use crate::collections::{
    dir_children_entries, dir_map_clone, dir_map_get, dir_map_insert, dir_map_is_empty,
    dir_map_new, dir_map_sort_keys, entries_get, entries_map, entry_keys, file_children_entries,
    file_map_clone, file_map_get, file_map_insert, file_map_is_empty, file_map_new,
    file_map_sort_keys, keys_sorted, keys_unique, lemma_entries_get_none, lemma_entries_permuted,
    lemma_entries_push, lemma_entries_update, lemma_sorted_keys_unique,
};
use crate::config::{
    chak_fold, get_nested_trees_fold_path, get_root_trees_fold_path, NESTED_TREES_DIR_NAME,
    ROOT_TREES_DIR_NAME,
};
use crate::pointers::{
    ChakPointerTraits, NestedTreeHashPointer, ObjectTraits, RootTreePointer, VersionHeadPointer,
};
use crate::text::spec_join_path;
use indexmap::IndexMap;
use vstd::prelude::*;

verus! {

/// A folder below the root: its files and its sub-folders, by name.
#[derive(Debug)]
pub struct NestedTreeObject {
    pub file_children: IndexMap<String, VersionHeadPointer>,
    pub dir_children: IndexMap<String, NestedTreeHashPointer>,
}

/// The root folder: its files and its sub-folders, by name.
#[derive(Debug)]
pub struct RootTreeObject {
    pub file_children: IndexMap<String, VersionHeadPointer>,
    pub dir_children: IndexMap<String, NestedTreeHashPointer>,
}

impl ObjectTraits for NestedTreeObject {
    open spec fn spec_containing_folder(current_dir: Seq<char>) -> Seq<char> {
        spec_join_path(chak_fold(current_dir), NESTED_TREES_DIR_NAME@)
    }

    fn containing_folder(current_dir: &str) -> (res: String) {
        get_nested_trees_fold_path(current_dir)
    }
}

impl ObjectTraits for RootTreeObject {
    open spec fn spec_containing_folder(current_dir: Seq<char>) -> Seq<char> {
        spec_join_path(chak_fold(current_dir), ROOT_TREES_DIR_NAME@)
    }

    fn containing_folder(current_dir: &str) -> (res: String) {
        get_root_trees_fold_path(current_dir)
    }
}

impl ChakPointerTraits for NestedTreeHashPointer {
    type CorrespondenceObject = NestedTreeObject;
}

impl ChakPointerTraits for RootTreePointer {
    type CorrespondenceObject = RootTreeObject;
}

/// A child inserted under `key`: the map changes at `key` only.
proof fn lemma_insert_result<V>(
    before: Seq<(Seq<char>, V)>,
    after: Seq<(Seq<char>, V)>,
    key: Seq<char>,
    value: V,
    replaced: bool,
)
    requires
        keys_unique(before),
        replaced ==> exists|i: int|
            0 <= i < before.len() && #[trigger] before[i].0 == key && after == before.update(
                i,
                (key, value),
            ),
        !replaced ==> !entry_keys(before).contains(key) && after == before.push((key, value)),
    ensures
        keys_unique(after),
        entries_map(after) == entries_map(before).insert(key, value),
{
    if replaced {
        let i = choose|i: int|
            0 <= i < before.len() && #[trigger] before[i].0 == key && after == before.update(
                i,
                (key, value),
            );
        lemma_entries_update(before, i, key, value);
    } else {
        lemma_entries_push(before, key, value);
    }
}

impl NestedTreeObject {
    /// The files, by name.
    pub open spec fn files(&self) -> Map<Seq<char>, VersionHeadPointer> {
        entries_map(file_children_entries(self.file_children))
    }

    /// The sub-folders, by name.
    pub open spec fn dirs(&self) -> Map<Seq<char>, NestedTreeHashPointer> {
        entries_map(dir_children_entries(self.dir_children))
    }

    /// Each name occurs once among the files and once among the sub-folders (as in every
    /// `IndexMap`).
    pub open spec fn wf(&self) -> bool {
        keys_unique(file_children_entries(self.file_children)) && keys_unique(
            dir_children_entries(self.dir_children),
        )
    }

    /// An empty folder.
    pub fn new() -> (res: NestedTreeObject)
        ensures
            res.files() == Map::<Seq<char>, VersionHeadPointer>::empty(),
            res.dirs() == Map::<Seq<char>, NestedTreeHashPointer>::empty(),
            res.wf(),
    {
        let res = NestedTreeObject { file_children: file_map_new(), dir_children: dir_map_new() };
        proof {
            assert(res.files() =~= Map::<Seq<char>, VersionHeadPointer>::empty());
            assert(res.dirs() =~= Map::<Seq<char>, NestedTreeHashPointer>::empty());
        }
        res
    }

    /// The folder has neither files nor sub-folders.
    pub fn is_empty(&self) -> (res: bool)
        ensures
            res == (file_children_entries(self.file_children).len() == 0 && dir_children_entries(
                self.dir_children,
            ).len() == 0),
    {
        file_map_is_empty(&self.file_children) && dir_map_is_empty(&self.dir_children)
    }

    /// Records the sub-folder `dir_name`, stored under `dir_pointer`.
    pub fn add_dir_child(&mut self, dir_name: String, dir_pointer: NestedTreeHashPointer)
        requires
            old(self).wf(),
        ensures
            final(self).wf(),
            final(self).dirs() == old(self).dirs().insert(dir_name@, dir_pointer),
            final(self).files() == old(self).files(),
    {
        let ghost before = dir_children_entries(self.dir_children);
        let ghost k = dir_name@;
        let r = dir_map_insert(&mut self.dir_children, dir_name, dir_pointer);
        proof {
            lemma_insert_result(before, dir_children_entries(self.dir_children), k, dir_pointer, r is Some);
        }
    }

    /// Records the file `entry_name`, whose version head is stored under
    /// `version_head_pointer`.
    pub fn add_file_child(&mut self, entry_name: String, version_head_pointer: VersionHeadPointer)
        requires
            old(self).wf(),
        ensures
            final(self).wf(),
            final(self).files() == old(self).files().insert(entry_name@, version_head_pointer),
            final(self).dirs() == old(self).dirs(),
    {
        let ghost before = file_children_entries(self.file_children);
        let ghost k = entry_name@;
        let r = file_map_insert(&mut self.file_children, entry_name, version_head_pointer);
        proof {
            lemma_insert_result(before, file_children_entries(self.file_children), k, version_head_pointer, r is Some);
        }
    }

    /// The version head of the file `entry_name`, if the folder has that file.
    pub fn file_child(&self, entry_name: &String) -> (res: Option<VersionHeadPointer>)
        ensures
            res is Some <==> self.files().dom().contains(entry_name@),
            res matches Some(p) ==> p == self.files()[entry_name@],
    {
        proof {
            lemma_entries_get_none(file_children_entries(self.file_children), entry_name@);
        }
        match file_map_get(&self.file_children, entry_name) {
            Some(p) => Some(p.clone()),
            None => None,
        }
    }

    /// The nested tree of the sub-folder `dir_name`, if the folder has that sub-folder.
    pub fn dir_child(&self, dir_name: &String) -> (res: Option<NestedTreeHashPointer>)
        ensures
            res is Some <==> self.dirs().dom().contains(dir_name@),
            res matches Some(p) ==> p == self.dirs()[dir_name@],
    {
        proof {
            lemma_entries_get_none(dir_children_entries(self.dir_children), dir_name@);
        }
        match dir_map_get(&self.dir_children, dir_name) {
            Some(p) => Some(p.clone()),
            None => None,
        }
    }

    /// Orders the files and the sub-folders by name; what they map to is unchanged.
    pub fn sort_children(&mut self)
        requires
            old(self).wf(),
        ensures
            final(self).wf(),
            final(self).files() == old(self).files(),
            final(self).dirs() == old(self).dirs(),
            keys_sorted(file_children_entries(final(self).file_children)),
            keys_sorted(dir_children_entries(final(self).dir_children)),
    {
        file_map_sort_keys(&mut self.file_children);
        dir_map_sort_keys(&mut self.dir_children);
        proof {
            lemma_sorted_keys_unique(file_children_entries(self.file_children));
            lemma_sorted_keys_unique(dir_children_entries(self.dir_children));
            lemma_entries_permuted(
                file_children_entries(self.file_children),
                file_children_entries(old(self).file_children),
            );
            lemma_entries_permuted(
                dir_children_entries(self.dir_children),
                dir_children_entries(old(self).dir_children),
            );
        }
    }
}

impl RootTreeObject {
    /// The files, by name.
    pub open spec fn files(&self) -> Map<Seq<char>, VersionHeadPointer> {
        entries_map(file_children_entries(self.file_children))
    }

    /// The sub-folders, by name.
    pub open spec fn dirs(&self) -> Map<Seq<char>, NestedTreeHashPointer> {
        entries_map(dir_children_entries(self.dir_children))
    }

    /// Each name occurs once among the files and once among the sub-folders.
    pub open spec fn wf(&self) -> bool {
        keys_unique(file_children_entries(self.file_children)) && keys_unique(
            dir_children_entries(self.dir_children),
        )
    }

    /// An empty root folder.
    pub fn new() -> (res: RootTreeObject)
        ensures
            res.files() == Map::<Seq<char>, VersionHeadPointer>::empty(),
            res.dirs() == Map::<Seq<char>, NestedTreeHashPointer>::empty(),
            res.wf(),
    {
        let res = RootTreeObject { file_children: file_map_new(), dir_children: dir_map_new() };
        proof {
            assert(res.files() =~= Map::<Seq<char>, VersionHeadPointer>::empty());
            assert(res.dirs() =~= Map::<Seq<char>, NestedTreeHashPointer>::empty());
        }
        res
    }

    /// The root folder with the files and sub-folders of `nested_tree_object`.
    pub fn from(nested_tree_object: NestedTreeObject) -> (res: RootTreeObject)
        ensures
            file_children_entries(res.file_children) == file_children_entries(
                nested_tree_object.file_children,
            ),
            dir_children_entries(res.dir_children) == dir_children_entries(
                nested_tree_object.dir_children,
            ),
    {
        RootTreeObject {
            file_children: nested_tree_object.file_children,
            dir_children: nested_tree_object.dir_children,
        }
    }

    /// Records the sub-folder `dir_name`, stored under `nested_dir`.
    pub fn add_dir_child(&mut self, dir_name: String, nested_dir: &NestedTreeHashPointer)
        requires
            old(self).wf(),
        ensures
            final(self).wf(),
            final(self).dirs() == old(self).dirs().insert(dir_name@, *nested_dir),
            final(self).files() == old(self).files(),
    {
        let ghost before = dir_children_entries(self.dir_children);
        let ghost k = dir_name@;
        let r = dir_map_insert(&mut self.dir_children, dir_name, nested_dir.clone());
        proof {
            lemma_insert_result(before, dir_children_entries(self.dir_children), k, *nested_dir, r is Some);
        }
    }

    /// Records the file `key`, whose version head is stored under `value`.
    pub fn add_file_child(&mut self, key: String, value: VersionHeadPointer)
        requires
            old(self).wf(),
        ensures
            final(self).wf(),
            final(self).files() == old(self).files().insert(key@, value),
            final(self).dirs() == old(self).dirs(),
    {
        let ghost before = file_children_entries(self.file_children);
        let ghost k = key@;
        let r = file_map_insert(&mut self.file_children, key, value);
        proof {
            lemma_insert_result(before, file_children_entries(self.file_children), k, value, r is Some);
        }
    }

    /// Orders the files and the sub-folders by name; what they map to is unchanged.
    pub fn sort_children(&mut self)
        requires
            old(self).wf(),
        ensures
            final(self).wf(),
            final(self).files() == old(self).files(),
            final(self).dirs() == old(self).dirs(),
            keys_sorted(file_children_entries(final(self).file_children)),
            keys_sorted(dir_children_entries(final(self).dir_children)),
    {
        file_map_sort_keys(&mut self.file_children);
        dir_map_sort_keys(&mut self.dir_children);
        proof {
            lemma_sorted_keys_unique(file_children_entries(self.file_children));
            lemma_sorted_keys_unique(dir_children_entries(self.dir_children));
            lemma_entries_permuted(
                file_children_entries(self.file_children),
                file_children_entries(old(self).file_children),
            );
            lemma_entries_permuted(
                dir_children_entries(self.dir_children),
                dir_children_entries(old(self).dir_children),
            );
        }
    }

    /// A copy of the root folder as a nested folder.
    pub fn as_nested_tree(&self) -> (res: NestedTreeObject)
        ensures
            file_children_entries(res.file_children) == file_children_entries(self.file_children),
            dir_children_entries(res.dir_children) == dir_children_entries(self.dir_children),
    {
        NestedTreeObject {
            file_children: file_map_clone(&self.file_children),
            dir_children: dir_map_clone(&self.dir_children),
        }
    }
}

/// What taking a snapshot does with one entry of a folder.
#[derive(Debug)]
pub enum SnapshotAction {
    /// The entry is a file: record it.
    AddFile,
    /// The entry is a folder the tree already has: continue in its nested tree.
    DescendExisting(NestedTreeHashPointer),
    /// The entry is a folder the tree does not have yet: continue in a new nested tree.
    DescendNew,
}

/// The step a snapshot takes for the entry `entry_name` of the folder whose tree is `tree`.
pub fn snapshot_entry_action(tree: &NestedTreeObject, entry_name: &String, is_file: bool) -> (res:
    SnapshotAction)
    ensures
        is_file ==> res is AddFile,
        !is_file && tree.dirs().dom().contains(entry_name@) ==> (res matches SnapshotAction::DescendExisting(p)
            && p == tree.dirs()[entry_name@]),
        !is_file && !tree.dirs().dom().contains(entry_name@) ==> res is DescendNew,
{
    if is_file {
        SnapshotAction::AddFile
    } else {
        match tree.dir_child(entry_name) {
            Some(p) => SnapshotAction::DescendExisting(p),
            None => SnapshotAction::DescendNew,
        }
    }
}

} // verus!
