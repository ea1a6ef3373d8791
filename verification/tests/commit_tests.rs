use chak::commit::{
    append_commit_hash_pointer_to_commit_log_file, create_commit, entity_save_plan,
    get_latest_pointer_line_from_file, plan_commit, was_it_registered, CommitObject, CommitPlan,
};
use chak::error::ChakError;
use chak::hashing::{HashPointer, HashPointerTraits};
use chak::pointers::{CommitHashPointer, RootTreePointer};
use chak::stage::Stage;
use chak::text::file_to_lines;

fn rt(f: &str, n: &str) -> RootTreePointer {
    RootTreePointer::new(f.to_string(), n.to_string())
}

#[test]
fn commit_author_defaults_to_unknown() {
    let c = create_commit("msg".to_string(), None, rt("aa", "bb"));
    assert_eq!(c.author, "unknown");
    assert_eq!(c.message, "msg");
    assert_eq!(c.root_tree_pointer.get_one_hash(), "aabb");
    let d = create_commit("m".to_string(), Some("inxeoz".to_string()), rt("aa", "bb"));
    assert_eq!(d.author, "inxeoz");
}

#[test]
fn latest_commit_is_last_appended() {
    let mut log = String::new();
    let first: CommitHashPointer = chak::hashing::hash_from_content("first");
    let second: CommitHashPointer = chak::hashing::hash_from_content("second");
    append_commit_hash_pointer_to_commit_log_file(&mut log, first.clone());
    append_commit_hash_pointer_to_commit_log_file(&mut log, second.clone());
    assert_eq!(log, format!("{}\n{}\n", first.get_one_hash(), second.get_one_hash()));
    let latest = CommitHashPointer::get_latest_commit_hash_pointer(&file_to_lines(&log)).unwrap();
    assert_eq!(latest.get_fold_name(), second.get_fold_name());
    assert_eq!(latest.get_file_name(), second.get_file_name());
}

#[test]
fn latest_commit_of_empty_log_is_an_error() {
    match CommitHashPointer::get_latest_commit_hash_pointer(&vec![]) {
        Err(ChakError::CustomError(m)) => assert_eq!(m, "hash pointer line not found in file"),
        other => panic!("unexpected {:?}", other),
    }
    match CommitHashPointer::get_latest_commit_hash_pointer(&vec!["abcd".to_string(), "xy".to_string()]) {
        Err(ChakError::CustomError(m)) => assert_eq!(m, "Invalid hash string length"),
        other => panic!("unexpected {:?}", other),
    }
}

#[test]
fn first_or_last_line() {
    let lines = vec!["aa11".to_string(), "bb22".to_string()];
    let first: HashPointer = get_latest_pointer_line_from_file(&lines, false).unwrap();
    let last: HashPointer = get_latest_pointer_line_from_file(&lines, true).unwrap();
    assert_eq!(first.get_one_hash(), "aa11");
    assert_eq!(last.get_fold_name(), "bb");
}

#[test]
fn stage_lines() {
    let mut stage = String::new();
    rt("aa", "111").attach_tree_to_stage(&mut stage);
    rt("bb", "222").attach_tree_to_stage(&mut stage);
    assert_eq!(stage, "aa111\nbb222\n");
    let latest = RootTreePointer::get_latest_pointer_from_stage(Some(file_to_lines(&stage))).unwrap();
    assert_eq!(latest.get_one_hash(), "bb222");
    let all = RootTreePointer::get_pointers_from_stage(Some(file_to_lines(&stage))).unwrap();
    assert_eq!(all.len(), 2);
    assert_eq!(all[0].get_one_hash(), "aa111");
    match RootTreePointer::get_latest_pointer_from_stage(None) {
        Err(ChakError::CustomError(m)) => assert_eq!(m, "stage file path doesn't exist"),
        other => panic!("unexpected {:?}", other),
    }
    match RootTreePointer::get_pointers_from_commit_log(None) {
        Err(ChakError::CustomError(m)) => assert_eq!(m, "commit_log_file path doesn't exist"),
        other => panic!("unexpected {:?}", other),
    }
    assert!(RootTreePointer::get_pointers_from_stage(Some(vec!["abc".to_string(), "x".to_string()])).is_err());
    assert_eq!(RootTreePointer::get_pointers_from_commit_log(Some(vec![])).unwrap().len(), 0);
}

#[test]
fn commit_plans() {
    match plan_commit(Ok(vec![rt("aa", "1"), rt("bb", "2")])) {
        Ok(CommitPlan::CommitLatest(p)) => assert_eq!(p.get_one_hash(), "bb2"),
        other => panic!("unexpected {:?}", other),
    }
    assert!(matches!(plan_commit(Ok(vec![])), Ok(CommitPlan::ClearStage)));
    match plan_commit(Err(ChakError::RepoLocked)) {
        Err(ChakError::CustomError(m)) => assert_eq!(m, "No stage file"),
        other => panic!("unexpected {:?}", other),
    }
}

#[test]
fn register_checks_first_line_only() {
    let p = HashPointer::new("ab".to_string(), "cd".to_string());
    assert!(was_it_registered(p.clone(), Some(vec!["  abcd \t".to_string()])));
    assert!(!was_it_registered(p.clone(), Some(vec!["zz".to_string(), "abcd".to_string()])));
    assert!(!was_it_registered(p.clone(), Some(vec![])));
    assert!(!was_it_registered(p, None));
}

#[test]
fn save_plan_of_an_object() {
    let plan = entity_save_plan::<CommitObject>("hello", "/w");
    assert_eq!(
        plan.entity_hash.get_one_hash(),
        "2cf24dba5fb0a30e26e83b2ac5b9e29e1b161e5c1fa7425e73043362938b9824"
    );
    assert_eq!(
        plan.entity_path,
        "/w/.chak/commits/2c/f24dba5fb0a30e26e83b2ac5b9e29e1b161e5c1fa7425e73043362938b9824"
    );
    assert_eq!(plan.register_path, "/w/.chak/commits/entries");
}

#[test]
fn stage_list() {
    let mut s = Stage { list_of_root_tree_pointer: vec![] };
    assert!(Stage::is_stage_clear(Some(Stage { list_of_root_tree_pointer: vec![] })));
    assert!(!Stage::is_stage_clear(None));
    s.add_root_tree_pointer(rt("aa", "1"));
    s.add_root_tree_pointer(rt("bb", "2"));
    let copy = || Stage { list_of_root_tree_pointer: s.list_of_root_tree_pointer.clone() };
    assert_eq!(Stage::get_last_root_tree_pointer(Some(copy())).unwrap().get_one_hash(), "bb2");
    assert_eq!(Stage::get_first_root_tree_pointer(Some(copy())).unwrap().get_one_hash(), "aa1");
    assert!(!Stage::is_stage_clear(Some(copy())));
    assert!(Stage::get_last_root_tree_pointer(None).is_none());
    assert!(Stage::get_first_root_tree_pointer(Some(Stage { list_of_root_tree_pointer: vec![] })).is_none());
}
