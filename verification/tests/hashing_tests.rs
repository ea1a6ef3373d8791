use chak::hashing::{
    hash_combine, hash_from_content, hash_from_pointers, hash_from_string_vec,
    hash_pointer_from_digest, hash_pointer_from_hash_string, HashPointer, HashPointerTraits,
};
use chak::error::ChakError;
use chak::pointers::{BlobObjectPointer, TreeHashPointer};

const HELLO: &str = "2cf24dba5fb0a30e26e83b2ac5b9e29e1b161e5c1fa7425e73043362938b9824";

#[test]
fn content_hash_of_empty_text() {
    let p = HashPointer::from_string("");
    assert_eq!(p.get_fold_name(), "e3");
    assert_eq!(
        p.get_file_name(),
        "b0c44298fc1c149afbf4c8996fb92427ae41e4649b934ca495991b7852b855"
    );
}

#[test]
fn content_hash_of_hello() {
    let p = HashPointer::from_string("hello");
    assert_eq!(p.get_fold_name(), "2c");
    assert_eq!(p.get_one_hash(), HELLO);
    assert_eq!(p.get_path(), format!("2c/{}", &HELLO[2..]));
}

#[test]
fn typed_pointer_from_content() {
    let p: BlobObjectPointer = hash_from_content("hello");
    assert_eq!(p.get_one_hash(), HELLO);
}

#[test]
fn file_content_hash_matches_text_hash() {
    let p = HashPointer::from_file_content(b"hello");
    assert_eq!(p.get_one_hash(), HELLO);
}

#[test]
fn digest_is_cut_after_two_hex_digits() {
    let p: HashPointer = hash_pointer_from_digest(&[0xab, 0xcd, 0x01]);
    assert_eq!(p.get_fold_name(), "ab");
    assert_eq!(p.get_file_name(), "cd01");
    let q: HashPointer = hash_pointer_from_digest(&[0x0f]);
    assert_eq!(q.get_fold_name(), "0f");
    assert_eq!(q.get_file_name(), "");
}

#[test]
fn hash_string_is_cut_after_second_byte() {
    let p = HashPointer::from_hash_pointer_string("abcdef".to_string()).unwrap();
    assert_eq!(p.get_fold_name(), "ab");
    assert_eq!(p.get_file_name(), "cdef");
    let t: TreeHashPointer = hash_pointer_from_hash_string("xyz".to_string()).unwrap();
    assert_eq!(t.get_fold_name(), "xy");
    assert_eq!(t.get_file_name(), "z");
}

#[test]
fn hash_string_with_two_byte_first_character() {
    let p = HashPointer::from_hash_pointer_string("\u{e9}ab".to_string()).unwrap();
    assert_eq!(p.get_fold_name(), "\u{e9}");
    assert_eq!(p.get_file_name(), "ab");
}

#[test]
fn short_hash_string_is_refused() {
    match HashPointer::from_hash_pointer_string("ab".to_string()) {
        Err(ChakError::CustomError(m)) => assert_eq!(m, "Invalid hash string length"),
        other => panic!("unexpected {:?}", other),
    }
    assert!(HashPointer::from_hash_pointer_string(String::new()).is_err());
}

#[test]
fn hash_string_round_trip() {
    let p = HashPointer::from_string("line one");
    let q = HashPointer::from_hash_pointer_string(p.get_one_hash()).unwrap();
    assert_eq!(q.get_fold_name(), p.get_fold_name());
    assert_eq!(q.get_file_name(), p.get_file_name());
}

#[test]
fn combine_hashes_both_whole_hashes() {
    let p = HashPointer::from_string("hello");
    let c = HashPointer::combine(&p, &p);
    assert_eq!(
        c.get_one_hash(),
        "286d189fda11bf4e906b6973a173009f47ede16532f1bae726223f8ee155d73b"
    );
    let t: HashPointer = hash_combine(&p, &p);
    assert_eq!(t, c);
}

#[test]
fn string_vec_hash_is_hash_of_concatenation() {
    let parts = vec!["he".to_string(), "llo".to_string()];
    assert_eq!(HashPointer::from_string_vec(&parts).get_one_hash(), HELLO);
    let t: HashPointer = hash_from_string_vec(&parts);
    assert_eq!(t.get_one_hash(), HELLO);
}

#[test]
fn pointers_hash() {
    let p = HashPointer::from_string("hello");
    let all = HashPointer::from_pointers(vec![p.clone(), p.clone()]).unwrap();
    assert_eq!(
        all.get_one_hash(),
        "286d189fda11bf4e906b6973a173009f47ede16532f1bae726223f8ee155d73b"
    );
    let generic: HashPointer = hash_from_pointers(vec![p.clone(), p]).unwrap();
    assert_eq!(generic, all);
}

#[test]
fn empty_pointer_list_is_refused() {
    match HashPointer::from_pointers::<HashPointer>(vec![]) {
        Err(ChakError::CustomError(m)) => assert_eq!(m, "Empty hash pointer vector"),
        other => panic!("unexpected {:?}", other),
    }
    assert!(hash_from_pointers::<HashPointer>(vec![]).is_err());
}

#[test]
fn pointers_are_equal_by_whole_hash() {
    let a = HashPointer::new("ab".to_string(), "cdef".to_string());
    let b = HashPointer::new("abc".to_string(), "def".to_string());
    let c = HashPointer::new("ab".to_string(), "cdeg".to_string());
    assert!(a == b);
    assert!(a != c);
}

#[test]
fn update_hash_keeps_folder() {
    let mut p = HashPointer::new("zz".to_string(), "old".to_string());
    p.update_hash("hello".to_string());
    assert_eq!(p.get_fold_name(), "zz");
    assert_eq!(p.get_file_name(), &HELLO[2..]);
}

#[test]
fn replace_and_setters() {
    let mut p = HashPointer::new("aa".to_string(), "bb".to_string());
    let q = HashPointer::new("cc".to_string(), "dd".to_string());
    p.replace(&q);
    assert_eq!(p.get_one_hash(), "ccdd");
    p.set_fold_name("ee".to_string());
    p.set_file_name("ff".to_string());
    assert_eq!(p.get_one_hash(), "eeff");
}
