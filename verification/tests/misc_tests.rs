use chak::commands::{
    command_remote, file_name_or_error, init_decision, init_target_folder,
    parent_and_name_or_error, parse_ignore_for_entries, path_buf_to_name,
    path_buf_to_parent_and_name, plan_add, wants_everything, AddPlan, IgnoreMatch, InitAction,
    RemoteCommand,
};
use chak::diff::{Block, ContentBlock, DiffLine, DiffLineType, Line};
use chak::error::ChakError;
use chak::hashing::{HashPointer, HashPointerTraits};
use chak::status::{update_status_structure_for_file, StatusDataStructure};
use chak::string_map::StringMap;

fn s(v: &[&str]) -> Vec<String> {
    v.iter().map(|x| x.to_string()).collect()
}

#[test]
fn error_messages() {
    assert_eq!(ChakError::RepoNotInitialized.to_message(), "Repository not initialized");
    assert_eq!(ChakError::CustomError("x".to_string()).to_message(), "Error: x");
    assert_eq!(ChakError::StdIoError("gone".to_string()).to_message(), "I/O error: gone");
    assert_eq!(
        ChakError::HashPointerNotFound("h".to_string()).to_message(),
        "Hash pointer not found: h"
    );
    assert_eq!(ChakError::DetachedHead.to_message(), "HEAD is detached");
    assert_eq!(
        ChakError::ConcurrentOperationError.to_message(),
        "Another operation is already in progress"
    );
}

#[test]
fn lines_and_diff_lines() {
    let a = Line::new("a".to_string());
    assert_eq!(
        a.line_hash().get_one_hash(),
        "ca978112ca1bbdcafac231b39a23dc4da786eff8147c4e72b9807785afee48bb"
    );
    let same = DiffLine::from(Line::new("a".to_string()), Line::new("a".to_string()));
    assert_eq!(same.diff_line_type, DiffLineType::NOCHANGE);
    assert_eq!(
        same.copy_from_live.line_hash().get_one_hash(),
        "e3b0c44298fc1c149afbf4c8996fb92427ae41e4649b934ca495991b7852b855"
    );
    let changed = DiffLine::from(Line::new("a".to_string()), Line::new("b".to_string()));
    assert_eq!(changed.diff_line_type, DiffLineType::REPLACE);
    assert_eq!(changed.copy_from_live.line_hash().get_one_hash(), a.line_hash().get_one_hash());
}

#[test]
fn blocks() {
    let replace = DiffLine::from(Line::new("a".to_string()), Line::new("b".to_string()));
    let keep = DiffLine::from(Line::new("c".to_string()), Line::new("c".to_string()));
    let mut block = Block::from(replace.clone());
    assert_eq!(block.block_type, DiffLineType::REPLACE);
    assert_eq!(block.block_hash.get_fold_name(), "ca");
    match block.add(keep.clone()) {
        Err(m) => assert_eq!(m, "DiffLine type mismatch"),
        Ok(()) => panic!("accepted a line of the other kind"),
    }
    assert_eq!(block.block_content.len(), 1);
    block.add(replace.clone()).unwrap();
    assert_eq!(block.block_content.len(), 2);
    assert_eq!(block.block_hash.get_fold_name(), "ca");
    let expected = HashPointer::from_string(
        "ca978112ca1bbdcafac231b39a23dc4da786eff8147c4e72b9807785afee48bb",
    );
    assert_eq!(block.block_hash.get_file_name(), expected.get_file_name());

    let mut content = ContentBlock::new();
    assert_eq!(content.content_hash.get_fold_name(), "e3");
    content.add(replace.clone());
    content.add(replace.clone());
    content.add(keep.clone());
    assert_eq!(content.content.len(), 2);
    assert_eq!(content.content[0].block_content.len(), 2);
    assert_eq!(content.content_hash.get_fold_name(), "ca");
    let from = ContentBlock::from(Block::from(keep));
    assert_eq!(from.content.len(), 1);
}

#[test]
fn status_updates() {
    let mut st = StatusDataStructure::new();
    let new_hash = HashPointer::from_string("new");
    let old_hash = HashPointer::from_string("old");
    update_status_structure_for_file(new_hash.clone(), Some(old_hash.clone()), "/w".to_string(), "f".to_string(), &mut st);
    assert_eq!(st.changed_entry.len(), 1);
    assert_eq!(st.changed_entry[0].1.entry_old_hash, old_hash);
    update_status_structure_for_file(new_hash.clone(), Some(new_hash.clone()), "/w".to_string(), "f".to_string(), &mut st);
    assert_eq!(st.changed_entry.len(), 1);
    update_status_structure_for_file(new_hash.clone(), None, "/w".to_string(), "g".to_string(), &mut st);
    update_status_structure_for_file(new_hash.clone(), None, "/w".to_string(), "h".to_string(), &mut st);
    assert_eq!(st.new_entry.len(), 1);
    assert_eq!(st.new_entry[0].1.new_entry_name, "h");
    assert_eq!(st.removed_entry.len(), 0);
}

#[test]
fn remote_commands_change_nothing() {
    command_remote(&RemoteCommand::Add { remote: "r".to_string(), alias: "a".to_string() });
    command_remote(&RemoteCommand::Remove { alias: "a".to_string() });
    command_remote(&RemoteCommand::Update { alias: "a".to_string(), remote: "r".to_string() });
}

#[test]
fn add_plans() {
    assert!(wants_everything(&s(&["x", "."])));
    assert!(!wants_everything(&s(&["x", "./"])));
    assert!(matches!(plan_add(false, s(&["."])), Err(ChakError::RepoNotInitialized)));
    assert!(matches!(plan_add(true, s(&["a", "."])), Ok(AddPlan::Everything)));
    match plan_add(true, s(&["a", "b"])) {
        Ok(AddPlan::Each(v)) => assert_eq!(v, s(&["a", "b"])),
        other => panic!("unexpected {:?}", other),
    }
}

#[test]
fn init_choices() {
    assert_eq!(init_target_folder("/w", None), "/w/.chak/");
    assert_eq!(init_target_folder("/w", Some("proj".to_string())), "/w/proj/.chak/");
    assert_eq!(init_decision(false, "n").unwrap(), InitAction::Initialize);
    assert_eq!(init_decision(true, "y").unwrap(), InitAction::RemoveThenInitialize);
    assert!(matches!(init_decision(true, "yes"), Err(ChakError::RepoAlreadyExists)));
}

#[test]
fn ignore_rules_filter_entries() {
    let entries = s(&["/w/a", "/w/b", "/w/c", "/w/a"]);
    let matches = vec![IgnoreMatch::Unmatched, IgnoreMatch::Ignore, IgnoreMatch::Whitelist, IgnoreMatch::Ignore];
    let mut allowed = parse_ignore_for_entries(&entries, &matches);
    allowed.sort();
    assert_eq!(allowed, s(&["/w/c"]));
    let twice = parse_ignore_for_entries(&s(&["x", "x"]), &vec![IgnoreMatch::Unmatched, IgnoreMatch::Whitelist]);
    assert_eq!(twice, s(&["x"]));
}

#[test]
fn path_names() {
    assert_eq!(path_buf_to_name("/w/dir/file.txt").unwrap(), "file.txt");
    assert_eq!(path_buf_to_name("/w/dir/").unwrap(), "dir");
    assert!(matches!(path_buf_to_name("/w/.."), Err(ChakError::CustomError(_))));
    assert_eq!(
        path_buf_to_parent_and_name("/w/dir/file.txt").unwrap(),
        ("/w/dir".to_string(), "file.txt".to_string())
    );
    match path_buf_to_parent_and_name("/") {
        Err(ChakError::CustomError(m)) => assert_eq!(m, "Parent of entry not found"),
        other => panic!("unexpected {:?}", other),
    }
    assert_eq!(file_name_or_error(Some("n".to_string())).unwrap(), "n");
    match file_name_or_error(None) {
        Err(ChakError::CustomError(m)) => assert_eq!(m, "Could not get file name"),
        other => panic!("unexpected {:?}", other),
    }
    match parent_and_name_or_error(Some("p".to_string()), None) {
        Err(ChakError::CustomError(m)) => assert_eq!(m, "Could not get file name"),
        other => panic!("unexpected {:?}", other),
    }
    assert_eq!(
        parent_and_name_or_error(Some("p".to_string()), Some("n".to_string())).unwrap(),
        ("p".to_string(), "n".to_string())
    );
}

#[test]
fn string_map_operations() {
    let mut m = StringMap::new();
    m.insert("a".to_string(), "1".to_string());
    m.insert("b".to_string(), "2".to_string());
    m.insert("a".to_string(), "3".to_string());
    assert_eq!(m.to_pairs(), vec![("a".to_string(), "3".to_string()), ("b".to_string(), "2".to_string())]);
    m.remove(&"a".to_string());
    m.remove(&"zz".to_string());
    assert_eq!(m.len(), 1);
    let again = StringMap::from_pairs(vec![("x".to_string(), "1".to_string()), ("x".to_string(), "2".to_string())]);
    assert_eq!(again.get(&"x".to_string()), Some("2".to_string()));
    assert_eq!(again.clone_map().len(), 1);
}
