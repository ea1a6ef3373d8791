//! Content hashing and the hash pointers that name stored objects.
//!
//! A hash pointer is the lower-case hexadecimal SHA-256 digest of some content, cut in two:
//! the first two characters name a folder, the rest name a file in it.
use crate::error::ChakError;
use crate::text::{
    join_path, lemma_ascii_split, lemma_lower_hex_shape, lower_hex, spec_join_path, spec_lower_hex,
    string_seq_views,
};
use sha2::{Digest, Sha256};
use vstd::prelude::*;
use vstd::string::*;
use vstd::utf8::*;

verus! {

broadcast use group_utf8_lib;

/// Hash strings shorter than this (in bytes) are refused.
pub const MIN_HASH_LENGTH: usize = 3;

/// The SHA-256 digest of a byte sequence, as the `sha2` crate computes it.
pub uninterp spec fn spec_sha256(data: Seq<u8>) -> Seq<u8>;

/// `sha2::Sha256::digest`. Trusted: the result is the digest of `data` (named by
/// `spec_sha256`), and it is 32 bytes long (the output size of SHA-256).
#[verifier::external_body]
fn sha256_digest(data: &[u8]) -> (res: Vec<u8>)
    ensures
        res@ == spec_sha256(data@),
        res@.len() == 32,
{
    Sha256::digest(data).to_vec()
}

/// The hexadecimal digest of some bytes.
pub open spec fn bytes_hash(data: Seq<u8>) -> Seq<char> {
    spec_lower_hex(spec_sha256(data))
}

/// The hexadecimal digest of the UTF-8 encoding of a text.
pub open spec fn content_hash(content: Seq<char>) -> Seq<char> {
    bytes_hash(encode_utf8(content))
}

/// A digest's hexadecimal text is 64 ASCII characters.
pub proof fn lemma_bytes_hash_shape(data: Seq<u8>)
    requires
        spec_sha256(data).len() == 32,
    ensures
        bytes_hash(data).len() == 64,
        is_ascii_chars(bytes_hash(data)),
{
    lemma_lower_hex_shape(spec_sha256(data));
}

/// The length in bytes of a text, as `str::len` reports it.
pub open spec fn byte_len(s: Seq<char>) -> usize {
    encode_utf8(s).len() as usize
}

/// A hash string can be cut after its second byte.
pub open spec fn splittable(hash: Seq<char>) -> bool {
    encode_utf8(hash).len() >= 2 && is_char_boundary(encode_utf8(hash), 2)
}

/// The folder part of a hash string: its first two bytes.
pub open spec fn split_fold(hash: Seq<char>) -> Seq<char> {
    decode_utf8(encode_utf8(hash).subrange(0, 2))
}

/// The file part of a hash string: everything after its first two bytes.
pub open spec fn split_file(hash: Seq<char>) -> Seq<char> {
    decode_utf8(encode_utf8(hash).subrange(2, encode_utf8(hash).len() as int))
}

/// Cutting a hash string in two and joining the parts gives the string back.
pub proof fn lemma_split_rejoins(hash: Seq<char>)
    requires
        splittable(hash),
    ensures
        split_fold(hash) + split_file(hash) == hash,
{
    let b = encode_utf8(hash);
    decode_utf8_split(b, 2);
    assert(decode_utf8(b) == hash);
}

/// For an ASCII hash string, the cut falls after the second character.
pub proof fn lemma_split_ascii(hash: Seq<char>)
    requires
        is_ascii_chars(hash),
        hash.len() >= 2,
    ensures
        splittable(hash),
        split_fold(hash) == hash.subrange(0, 2),
        split_file(hash) == hash.subrange(2, hash.len() as int),
{
    lemma_ascii_split(hash, 2);
}

/// What every hash pointer offers: a folder name and a file name.
pub trait HashPointerTraits: Sized {
    spec fn fold_view(&self) -> Seq<char>;

    spec fn file_view(&self) -> Seq<char>;

    fn new(fold_name: String, file_name: String) -> (res: Self)
        ensures
            res.fold_view() == fold_name@,
            res.file_view() == file_name@,
    ;

    fn get_fold_name(&self) -> (res: String)
        ensures
            res@ == self.fold_view(),
    ;

    fn get_file_name(&self) -> (res: String)
        ensures
            res@ == self.file_view(),
    ;

    fn set_fold_name(&mut self, fold_name: String)
        ensures
            final(self).fold_view() == fold_name@,
            final(self).file_view() == old(self).file_view(),
    ;

    fn set_file_name(&mut self, file_name: String)
        ensures
            final(self).fold_view() == old(self).fold_view(),
            final(self).file_view() == file_name@,
    ;

    /// The whole hash: folder name followed by file name.
    fn get_one_hash(&self) -> (res: String)
        ensures
            res@ == self.fold_view() + self.file_view(),
    {
        let mut s = self.get_fold_name();
        let file = self.get_file_name();
        s.append(file.as_str());
        s
    }

    /// Where the pointed-to object is stored, relative to its object folder.
    fn get_path(&self) -> (res: String)
        ensures
            res@ == spec_join_path(self.fold_view(), self.file_view()),
    {
        let fold = self.get_fold_name();
        let file = self.get_file_name();
        join_path(&fold, &file)
    }

    /// Makes this pointer name the same object as `pointer`.
    fn replace(&mut self, pointer: &Self)
        ensures
            final(self).fold_view() == pointer.fold_view(),
            final(self).file_view() == pointer.file_view(),
    {
        self.set_fold_name(pointer.get_fold_name());
        self.set_file_name(pointer.get_file_name());
    }

    /// Keeps the folder name and takes the file name of the hash of `content`.
    fn update_hash(&mut self, content: String)
        ensures
            final(self).fold_view() == old(self).fold_view(),
            final(self).file_view() == content_hash(content@).subrange(2, 64),
    {
        let (_, file) = split_hex(content_hex(content.as_str()));
        let has_p = Self::new(self.get_fold_name(), file);
        self.replace(&has_p);
    }
}

/// The whole hash named by a pointer.
pub open spec fn one_hash<T: HashPointerTraits>(p: T) -> Seq<char> {
    p.fold_view() + p.file_view()
}

/// A pointer to stored content, by hash.
#[derive(Debug, Eq, PartialOrd, Ord)]
pub struct HashPointer {
    pub(crate) fold_name: String,
    pub(crate) file_name: String,
}

impl Clone for HashPointer {
    fn clone(&self) -> (res: Self)
        ensures
            res == *self,
    {
        HashPointer { fold_name: self.fold_name.clone(), file_name: self.file_name.clone() }
    }
}

impl HashPointerTraits for HashPointer {
    closed spec fn fold_view(&self) -> Seq<char> {
        self.fold_name@
    }

    closed spec fn file_view(&self) -> Seq<char> {
        self.file_name@
    }

    fn new(fold_name: String, file_name: String) -> (res: Self) {
        HashPointer { fold_name, file_name }
    }

    fn get_fold_name(&self) -> (res: String) {
        self.fold_name.clone()
    }

    fn get_file_name(&self) -> (res: String) {
        self.file_name.clone()
    }

    fn set_fold_name(&mut self, fold_name: String) {
        self.fold_name = fold_name;
    }

    fn set_file_name(&mut self, file_name: String) {
        self.file_name = file_name;
    }
}

/// Two hash pointers are equal when they name the same whole hash.
impl PartialEq for HashPointer {
    fn eq(&self, other: &Self) -> (res: bool) {
        self.get_one_hash() == other.get_one_hash()
    }
}

impl vstd::std_specs::cmp::PartialEqSpecImpl for HashPointer {
    open spec fn obeys_eq_spec() -> bool {
        true
    }

    open spec fn eq_spec(&self, other: &Self) -> bool {
        one_hash(*self) == one_hash(*other)
    }
}

/// Cuts a hash string after its second byte into a pointer.
pub fn _hash_pointer_from_hash_string<T: HashPointerTraits>(hash: String) -> (res: T)
    requires
        splittable(hash@),
    ensures
        res.fold_view() == split_fold(hash@),
        res.file_view() == split_file(hash@),
{
    let (fold, file) = hash.as_str().split_at(2);
    T::new(fold.to_owned(), file.to_owned())
}

/// Cuts a hash string into a pointer, refusing strings shorter than three bytes.
pub fn hash_pointer_from_hash_string<T: HashPointerTraits>(hash: String) -> (res: Result<T, ChakError>)
    requires
        byte_len(hash@) >= MIN_HASH_LENGTH ==> splittable(hash@),
    ensures
        res is Err <==> byte_len(hash@) < MIN_HASH_LENGTH,
        res matches Err(e) ==> (e matches ChakError::CustomError(m) && m@ == "Invalid hash string length"@),
        res matches Ok(p) ==> p.fold_view() == split_fold(hash@) && p.file_view() == split_file(
            hash@,
        ),
{
    if hash.as_str().len() < MIN_HASH_LENGTH {
        return Err(ChakError::CustomError("Invalid hash string length".to_owned()));
    }
    Ok(_hash_pointer_from_hash_string::<T>(hash))
}

/// The hexadecimal digest of raw bytes.
fn bytes_hex(data: &[u8]) -> (res: String)
    ensures
        res@ == bytes_hash(data@),
        res@.len() == 64,
        is_ascii_chars(res@),
{
    let digest = sha256_digest(data);
    proof {
        lemma_bytes_hash_shape(data@);
    }
    lower_hex(digest.as_slice())
}

/// The hexadecimal digest of a text.
fn content_hex(content: &str) -> (res: String)
    ensures
        res@ == content_hash(content@),
        res@.len() == 64,
        is_ascii_chars(res@),
{
    bytes_hex(content.as_bytes())
}

/// A hexadecimal digest cut after its second character.
fn split_hex(hex: String) -> (res: (String, String))
    requires
        is_ascii_chars(hex@),
        hex@.len() >= 2,
    ensures
        res.0@ == hex@.subrange(0, 2),
        res.1@ == hex@.subrange(2, hex@.len() as int),
{
    proof {
        lemma_split_ascii(hex@);
    }
    let (fold, file) = hex.as_str().split_at(2);
    (fold.to_owned(), file.to_owned())
}

/// A pointer to the hexadecimal digest `hex`.
fn pointer_from_hex<T: HashPointerTraits>(hex: String) -> (res: T)
    requires
        is_ascii_chars(hex@),
        hex@.len() >= 2,
    ensures
        res.fold_view() == hex@.subrange(0, 2),
        res.file_view() == hex@.subrange(2, hex@.len() as int),
{
    proof {
        lemma_split_ascii(hex@);
    }
    _hash_pointer_from_hash_string::<T>(hex)
}

/// The pointer named by a digest: its lower-case hexadecimal text, cut after the second
/// character.
pub fn hash_pointer_from_digest<T: HashPointerTraits>(digest: &[u8]) -> (res: T)
    requires
        digest@.len() >= 1,
    ensures
        res.fold_view() == spec_lower_hex(digest@).subrange(0, 2),
        res.file_view() == spec_lower_hex(digest@).subrange(2, 2 * digest@.len() as int),
        one_hash(res) == spec_lower_hex(digest@),
{
    proof {
        lemma_lower_hex_shape(digest@);
    }
    let hex = lower_hex(digest);
    let res = pointer_from_hex::<T>(hex);
    proof {
        assert(hex@.subrange(0, 2) + hex@.subrange(2, hex@.len() as int) =~= hex@);
    }
    res
}

/// The pointer named by the digest of raw bytes.
pub fn hash_from_bytes<T: HashPointerTraits>(data: &[u8]) -> (res: T)
    ensures
        res.fold_view() == bytes_hash(data@).subrange(0, 2),
        res.file_view() == bytes_hash(data@).subrange(2, 64),
        one_hash(res) == bytes_hash(data@),
        bytes_hash(data@).len() == 64,
{
    let digest = sha256_digest(data);
    proof {
        lemma_bytes_hash_shape(data@);
    }
    hash_pointer_from_digest::<T>(digest.as_slice())
}

/// The pointer named by the digest of a text.
pub fn hash_from_content<T: HashPointerTraits>(content: &str) -> (res: T)
    ensures
        res.fold_view() == content_hash(content@).subrange(0, 2),
        res.file_view() == content_hash(content@).subrange(2, 64),
        one_hash(res) == content_hash(content@),
        content_hash(content@).len() == 64,
{
    hash_from_bytes::<T>(content.as_bytes())
}

/// The pointer named by the digest of two pointers' whole hashes, one after the other.
pub fn hash_combine<T: HashPointerTraits>(first: &T, second: &T) -> (res: T)
    ensures
        res.fold_view() == content_hash(one_hash(*first) + one_hash(*second)).subrange(0, 2),
        res.file_view() == content_hash(one_hash(*first) + one_hash(*second)).subrange(2, 64),
{
    let mut joined = first.get_one_hash();
    let second_hash = second.get_one_hash();
    joined.append(second_hash.as_str());
    hash_from_content::<T>(joined.as_str())
}

/// The texts one after the other.
pub open spec fn concat_all(strings: Seq<Seq<char>>) -> Seq<char>
    decreases strings.len(),
{
    if strings.len() == 0 {
        Seq::empty()
    } else {
        concat_all(strings.drop_last()) + strings.last()
    }
}

/// The texts one after the other.
fn concat_strings(strings: &[String]) -> (res: String)
    ensures
        res@ == concat_all(string_seq_views(strings@)),
{
    let mut res = String::new();
    let mut i: usize = 0;
    while i < strings.len()
        invariant
            i <= strings@.len(),
            res@ == concat_all(string_seq_views(strings@.take(i as int))),
        decreases strings@.len() - i,
    {
        res.append(strings[i].as_str());
        proof {
            assert(string_seq_views(strings@.take(i + 1)).drop_last() == string_seq_views(
                strings@.take(i as int),
            ));
        }
        i += 1;
    }
    proof {
        assert(strings@.take(strings@.len() as int) == strings@);
    }
    res
}

/// The pointer named by the digest of all the texts, fed to the hasher one after the other
/// (which digests the same bytes as their concatenation).
pub fn hash_from_string_vec<T: HashPointerTraits>(strings: &[String]) -> (res: T)
    ensures
        res.fold_view() == content_hash(concat_all(string_seq_views(strings@))).subrange(0, 2),
        res.file_view() == content_hash(concat_all(string_seq_views(strings@))).subrange(2, 64),
{
    let joined = concat_strings(strings);
    hash_from_content::<T>(joined.as_str())
}

/// The whole hashes of the pointers one after the other.
pub open spec fn concat_hashes<T: HashPointerTraits>(pointers: Seq<T>) -> Seq<char>
    decreases pointers.len(),
{
    if pointers.len() == 0 {
        Seq::empty()
    } else {
        concat_hashes(pointers.drop_last()) + one_hash(pointers.last())
    }
}

/// The text hashed for a list of pointers is their whole hashes in list order: the text of
/// two lists one after the other is the text of the first followed by that of the second,
/// and a single pointer contributes its whole hash.
pub proof fn law_pointer_hashes_in_order<T: HashPointerTraits>(s: Seq<T>, t: Seq<T>, p: T, q: T)
    ensures
        concat_hashes(s + t) == concat_hashes(s) + concat_hashes(t),
        concat_hashes(seq![p]) == one_hash(p),
        concat_hashes(s.push(p)) == concat_hashes(s) + one_hash(p),
        concat_hashes(seq![p, q]) == one_hash(p) + one_hash(q),
    decreases t.len(),
{
    assert(seq![p].drop_last() =~= Seq::<T>::empty());
    assert(concat_hashes(Seq::<T>::empty()) + one_hash(p) =~= one_hash(p));
    assert(s.push(p).drop_last() =~= s);
    assert(seq![p, q].drop_last() =~= seq![p]);
    assert(seq![p, q].last() == q);
    assert(concat_hashes(seq![p, q]) == concat_hashes(seq![p]) + one_hash(q));
    if t.len() == 0 {
        assert(s + t =~= s);
        assert(concat_hashes(s) + concat_hashes(t) =~= concat_hashes(s));
    } else {
        law_pointer_hashes_in_order(s, t.drop_last(), p, q);
        assert((s + t).drop_last() =~= s + t.drop_last());
        assert((s + t).last() == t.last());
        assert(concat_hashes(s) + concat_hashes(t.drop_last()) + one_hash(t.last()) =~= concat_hashes(
            s,
        ) + (concat_hashes(t.drop_last()) + one_hash(t.last())));
    }
}

/// The pointers' whole hashes, one after the other.
fn join_pointer_hashes<T: HashPointerTraits>(pointers: &Vec<T>) -> (res: String)
    ensures
        res@ == concat_hashes(pointers@),
{
    let mut joined = String::new();
    let mut i: usize = 0;
    while i < pointers.len()
        invariant
            i <= pointers@.len(),
            joined@ == concat_hashes(pointers@.take(i as int)),
        decreases pointers@.len() - i,
    {
        let h = pointers[i].get_one_hash();
        joined.append(h.as_str());
        proof {
            assert(pointers@.take(i + 1).drop_last() == pointers@.take(i as int));
        }
        i += 1;
    }
    proof {
        assert(pointers@.take(pointers@.len() as int) == pointers@);
    }
    joined
}

/// The pointer named by the digest of the pointers' whole hashes; an empty list is refused.
pub fn hash_from_pointers<T: HashPointerTraits>(pointers: Vec<T>) -> (res: Result<T, ChakError>)
    ensures
        res is Err <==> pointers@.len() == 0,
        res matches Err(e) ==> (e matches ChakError::CustomError(m) && m@ == "Empty hash pointer vector"@),
        res matches Ok(p) ==> p.fold_view() == content_hash(concat_hashes(pointers@)).subrange(0, 2)
            && p.file_view() == content_hash(concat_hashes(pointers@)).subrange(2, 64),
{
    if pointers.len() == 0 {
        return Err(ChakError::CustomError("Empty hash pointer vector".to_owned()));
    }
    let joined = join_pointer_hashes(&pointers);
    Ok(hash_from_content::<T>(joined.as_str()))
}

impl HashPointer {
    fn _from_hash_string(hash: String) -> (res: Self)
        requires
            splittable(hash@),
        ensures
            res.fold_view() == split_fold(hash@),
            res.file_view() == split_file(hash@),
    {
        _hash_pointer_from_hash_string::<HashPointer>(hash)
    }

    /// Cuts a hash string into a pointer, refusing strings shorter than three bytes.
    pub fn from_hash_pointer_string(hash: String) -> (res: Result<Self, ChakError>)
        requires
            byte_len(hash@) >= MIN_HASH_LENGTH ==> splittable(hash@),
        ensures
            res is Err <==> byte_len(hash@) < MIN_HASH_LENGTH,
            res matches Err(e) ==> (e matches ChakError::CustomError(m) && m@ == "Invalid hash string length"@),
            res matches Ok(p) ==> p.fold_view() == split_fold(hash@) && p.file_view() == split_file(
                hash@,
            ),
    {
        hash_pointer_from_hash_string::<HashPointer>(hash)
    }

    /// The pointer named by the digest of a text.
    pub fn from_string(content: &str) -> (res: Self)
        ensures
            res.fold_view() == content_hash(content@).subrange(0, 2),
            res.file_view() == content_hash(content@).subrange(2, 64),
            one_hash(res) == content_hash(content@),
            content_hash(content@).len() == 64,
    {
        hash_from_content::<HashPointer>(content)
    }

    /// The pointer named by the digest of the two whole hashes, one after the other.
    pub fn combine(first: &Self, second: &Self) -> (res: Self)
        ensures
            res.fold_view() == content_hash(one_hash(*first) + one_hash(*second)).subrange(0, 2),
            res.file_view() == content_hash(one_hash(*first) + one_hash(*second)).subrange(2, 64),
    {
        hash_combine::<HashPointer>(first, second)
    }

    /// The pointer named by the digest of the texts, one after the other.
    pub fn from_string_vec(strings: &[String]) -> (res: Self)
        ensures
            res.fold_view() == content_hash(concat_all(string_seq_views(strings@))).subrange(0, 2),
            res.file_view() == content_hash(concat_all(string_seq_views(strings@))).subrange(2, 64),
    {
        hash_from_string_vec::<HashPointer>(strings)
    }

    /// The pointer named by the digest of the pointers' whole hashes; an empty list is refused.
    pub fn from_pointers<T: HashPointerTraits>(pointers: Vec<T>) -> (res: Result<Self, ChakError>)
        ensures
            res is Err <==> pointers@.len() == 0,
            res matches Err(e) ==> (e matches ChakError::CustomError(m) && m@ == "Empty hash pointer vector"@),
            res matches Ok(p) ==> p.fold_view() == content_hash(concat_hashes(pointers@)).subrange(
                0,
                2,
            ) && p.file_view() == content_hash(concat_hashes(pointers@)).subrange(2, 64),
    {
        if pointers.len() == 0 {
            return Err(ChakError::CustomError("Empty hash pointer vector".to_owned()));
        }
        let joined = join_pointer_hashes(&pointers);
        Ok(Self::from_string(joined.as_str()))
    }

    /// The pointer named by the digest of a file's bytes.
    pub fn from_file_content(data: &[u8]) -> (res: Self)
        ensures
            res.fold_view() == bytes_hash(data@).subrange(0, 2),
            res.file_view() == bytes_hash(data@).subrange(2, 64),
    {
        hash_from_bytes::<HashPointer>(data)
    }
}

} // verus!
