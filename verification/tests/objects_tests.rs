use chak::blob::BlobObject;
use chak::commit::CommitObject;
use chak::error::ChakError;
use chak::hashing::{HashPointer, HashPointerTraits};
use chak::pointers::{
    BlobHashPointer, BlobObjectPointer, ChakPointerTraits, CommitHashPointer,
    NestedTreeHashPointer, ObjectPointer, ObjectTraits, RootTreePointer, TreeHashPointer,
    VersionHashPointer, VersionHeadHashPointer, VersionHeadPointer, VersionPointer,
};
use chak::tree::{snapshot_entry_action, NestedTreeObject, RootTreeObject, SnapshotAction};
use chak::versioning::{VersionHead, VersionObject};

const CD: &str = "/w";

fn hp(f: &str, n: &str) -> HashPointer {
    HashPointer::new(f.to_string(), n.to_string())
}

#[test]
fn containing_folders() {
    assert_eq!(BlobObject::containing_folder(CD), "/w/.chak/blobs");
    assert_eq!(CommitObject::containing_folder(CD), "/w/.chak/commits");
    assert_eq!(RootTreeObject::containing_folder(CD), "/w/.chak/root_trees");
    assert_eq!(NestedTreeObject::containing_folder(CD), "/w/.chak/nested_trees");
    assert_eq!(VersionHead::containing_folder(CD), "/w/.chak/version_heads");
    assert_eq!(VersionObject::containing_folder(CD), "/w/.chak/versions");
}

#[test]
fn own_found_and_not_found() {
    let p = hp("ab", "cdef");
    let owned = BlobObjectPointer::own(&p, CD, true).unwrap();
    assert_eq!(owned.get_one_hash(), "abcdef");
    match VersionPointer::own(&p, CD, false) {
        Err(ChakError::HashPointerNotFound(m)) => {
            assert_eq!(m, "hash pointer not found\nin path /w/.chak/versions")
        }
        other => panic!("unexpected {:?}", other),
    }
    assert_eq!(
        CommitHashPointer::verified_path(&p, CD, true),
        Some("/w/.chak/commits/ab/cdef".to_string())
    );
    assert_eq!(RootTreePointer::verified_path(&p, CD, false), None);
    assert_eq!(
        NestedTreeHashPointer::object_path(&p, CD),
        "/w/.chak/nested_trees/ab/cdef"
    );
    assert_eq!(VersionHeadPointer::get_containing_folder(CD), "/w/.chak/version_heads");
}

#[test]
fn older_pointer_kinds_own() {
    let p = hp("12", "345");
    assert_eq!(TreeHashPointer::own(&p).get_one_hash(), "12345");
    assert_eq!(VersionHashPointer::own(&p).get_path(), "12/345");
    assert_eq!(VersionHeadHashPointer::own(&p).get_fold_name(), "12");
    assert_eq!(BlobHashPointer::own(&p).get_file_name(), "345");
}

#[test]
fn object_pointer_hash_string() {
    let v = ObjectPointer::VersionHeadFile(VersionHeadHashPointer::new("aa".to_string(), "bb".to_string()));
    let t = ObjectPointer::TreeFIle(TreeHashPointer::new("cc".to_string(), "dd".to_string()));
    assert_eq!(v.get_hash_string(), "aabb");
    assert_eq!(t.get_hash_string(), "ccdd");
}

fn vh(f: &str, n: &str) -> VersionHeadPointer {
    VersionHeadPointer::new(f.to_string(), n.to_string())
}

fn nt(f: &str, n: &str) -> NestedTreeHashPointer {
    NestedTreeHashPointer::new(f.to_string(), n.to_string())
}

#[test]
fn nested_tree_children() {
    let mut t = NestedTreeObject::new();
    assert!(t.is_empty());
    t.add_file_child("b.txt".to_string(), vh("01", "x"));
    t.add_file_child("a.txt".to_string(), vh("02", "y"));
    t.add_dir_child("src".to_string(), nt("03", "z"));
    assert!(!t.is_empty());
    t.add_file_child("b.txt".to_string(), vh("04", "w"));
    assert_eq!(t.file_child(&"b.txt".to_string()).unwrap().get_one_hash(), "04w");
    assert!(t.file_child(&"c.txt".to_string()).is_none());
    assert_eq!(t.dir_child(&"src".to_string()).unwrap().get_one_hash(), "03z");
    let names: Vec<String> = t.file_children.keys().cloned().collect();
    assert_eq!(names, vec!["b.txt", "a.txt"]);
    t.sort_children();
    let names: Vec<String> = t.file_children.keys().cloned().collect();
    assert_eq!(names, vec!["a.txt", "b.txt"]);
}

#[test]
fn root_tree_conversions() {
    let mut r = RootTreeObject::new();
    r.add_file_child("z".to_string(), vh("01", "a"));
    r.add_file_child("m".to_string(), vh("02", "b"));
    r.add_dir_child("d".to_string(), &nt("03", "c"));
    let nested = r.as_nested_tree();
    assert_eq!(nested.file_children.len(), 2);
    assert_eq!(nested.dir_child(&"d".to_string()).unwrap().get_one_hash(), "03c");
    let mut back = RootTreeObject::from(nested);
    back.sort_children();
    let names: Vec<String> = back.file_children.keys().cloned().collect();
    assert_eq!(names, vec!["m", "z"]);
}

#[test]
fn snapshot_actions() {
    let mut t = NestedTreeObject::new();
    t.add_dir_child("src".to_string(), nt("03", "z"));
    assert!(matches!(snapshot_entry_action(&t, &"main.rs".to_string(), true), SnapshotAction::AddFile));
    match snapshot_entry_action(&t, &"src".to_string(), false) {
        SnapshotAction::DescendExisting(p) => assert_eq!(p.get_one_hash(), "03z"),
        other => panic!("unexpected {:?}", other),
    }
    assert!(matches!(snapshot_entry_action(&t, &"docs".to_string(), false), SnapshotAction::DescendNew));
}

fn lines(v: &[&str]) -> Vec<String> {
    v.iter().map(|s| s.to_string()).collect()
}

#[test]
fn version_chain() {
    let blob0 = BlobObjectPointer::new("b0".to_string(), "000".to_string());
    let blob1 = BlobObjectPointer::new("b1".to_string(), "111".to_string());
    let mut head = VersionHead::new(blob0, None);
    assert_eq!(head.get_pointer_to_blob().get_one_hash(), "b0000");
    assert!(head.get_pointer_to_version().is_none());

    let v1 = head.create_version_object(
        BlobObject::from_string_lines(lines(&["a", "b"])),
        BlobObject::from_string_lines(lines(&["b"])),
    );
    assert!(v1.pointer_to_previous_version.is_none());
    assert_eq!(v1.hashed_content.hash_to_content.len(), 1);
    let v1_ptr = VersionPointer::new("v1".to_string(), "aaa".to_string());
    head.create_version(blob1, v1_ptr);
    assert_eq!(head.get_pointer_to_blob().get_one_hash(), "b1111");
    assert_eq!(head.get_pointer_to_version().unwrap().get_one_hash(), "v1aaa");

    let v2 = head.create_version_object(
        BlobObject::from_string_lines(lines(&["b"])),
        BlobObject::from_string_lines(lines(&["c"])),
    );
    assert_eq!(v2.pointer_to_previous_version.as_ref().unwrap().get_one_hash(), "v1aaa");

    head.change_blob(BlobObjectPointer::new("b2".to_string(), "2".to_string()));
    head.change_version(VersionPointer::new("v2".to_string(), "2".to_string()));
    assert_eq!(head.get_pointer_to_version().unwrap().get_one_hash(), "v22");
    let plain = VersionObject::new(BlobObject::from_string_lines(vec![]), None);
    assert!(plain.pointer_to_previous_version.is_none());
}
