//! The typed hash pointers: each names an object of one kind, stored in that kind's folder.
use crate::error::ChakError;
use crate::hashing::{HashPointer, HashPointerTraits};
use crate::text::{join_path, spec_join_path};
use vstd::prelude::*;
use vstd::string::*;

verus! {

/// A kind of stored object: where objects of the kind are kept.
pub trait ObjectTraits {
    spec fn spec_containing_folder(current_dir: Seq<char>) -> Seq<char>;

    fn containing_folder(current_dir: &str) -> (res: String)
        ensures
            res@ == Self::spec_containing_folder(current_dir@),
    ;
}

/// A hash pointer bound to the kind of object it names.
pub trait ChakPointerTraits: HashPointerTraits {
    type CorrespondenceObject: ObjectTraits;

    /// Where the object named by `hash_pointer` would be stored.
    fn object_path<T: HashPointerTraits>(hash_pointer: &T, current_dir: &str) -> (res: String)
        ensures
            res@ == spec_join_path(
                Self::CorrespondenceObject::spec_containing_folder(current_dir@),
                spec_join_path(hash_pointer.fold_view(), hash_pointer.file_view()),
            ),
    {
        let folder = Self::CorrespondenceObject::containing_folder(current_dir);
        let path = hash_pointer.get_path();
        join_path(folder.as_str(), path.as_str())
    }

    /// The stored object's path, when `found` says that a file is there.
    fn verified_path<T: HashPointerTraits>(hash_pointer: &T, current_dir: &str, found: bool) -> (res:
        Option<String>)
        ensures
            found ==> (res matches Some(p) && p@ == spec_join_path(
                Self::CorrespondenceObject::spec_containing_folder(current_dir@),
                spec_join_path(hash_pointer.fold_view(), hash_pointer.file_view()),
            )),
            !found ==> res is None,
    {
        let to_be_verified = Self::object_path(hash_pointer, current_dir);
        if found {
            Some(to_be_verified)
        } else {
            None
        }
    }

    /// This kind's pointer to the object `hash_pointer` names, when `found` says that the
    /// object is stored; else `HashPointerNotFound`, naming the folder.
    fn own<T: HashPointerTraits>(hash_pointer: &T, current_dir: &str, found: bool) -> (res: Result<
        Self,
        ChakError,
    >)
        ensures
            found ==> (res matches Ok(p) && p.fold_view() == hash_pointer.fold_view()
                && p.file_view() == hash_pointer.file_view()),
            !found ==> (res matches Err(e) && (e matches ChakError::HashPointerNotFound(m) && m@
                == "hash pointer not found\nin path "@
                + Self::CorrespondenceObject::spec_containing_folder(current_dir@))),
    {
        if Self::verified_path(hash_pointer, current_dir, found).is_some() {
            Ok(Self::new(hash_pointer.get_fold_name(), hash_pointer.get_file_name()))
        } else {
            let mut m = "hash pointer not found\nin path ".to_owned();
            let folder = Self::get_containing_folder(current_dir);
            m.append(folder.as_str());
            Err(ChakError::HashPointerNotFound(m))
        }
    }

    /// Where objects of this pointer's kind are kept.
    fn get_containing_folder(current_dir: &str) -> (res: String)
        ensures
            res@ == Self::CorrespondenceObject::spec_containing_folder(current_dir@),
    {
        Self::CorrespondenceObject::containing_folder(current_dir)
    }
}

/// A pointer to a stored blob.
#[derive(Debug)]
pub struct BlobObjectPointer {
    fold_name: String,
    file_name: String,
}

impl Clone for BlobObjectPointer {
    fn clone(&self) -> (res: Self)
        ensures
            res == *self,
    {
        BlobObjectPointer { fold_name: self.fold_name.clone(), file_name: self.file_name.clone() }
    }
}

impl HashPointerTraits for BlobObjectPointer {
    closed spec fn fold_view(&self) -> Seq<char> {
        self.fold_name@
    }

    closed spec fn file_view(&self) -> Seq<char> {
        self.file_name@
    }

    fn new(fold_name: String, file_name: String) -> (res: Self) {
        BlobObjectPointer { fold_name, file_name }
    }

    fn get_fold_name(&self) -> (res: String) {
        self.fold_name.clone()
    }

    fn get_file_name(&self) -> (res: String) {
        self.file_name.clone()
    }

    fn set_fold_name(&mut self, fold_name: String) {
        self.fold_name = fold_name;
    }

    fn set_file_name(&mut self, file_name: String) {
        self.file_name = file_name;
    }
}

/// A pointer to a stored commit.
#[derive(Debug)]
pub struct CommitHashPointer {
    fold_name: String,
    file_name: String,
}

impl Clone for CommitHashPointer {
    fn clone(&self) -> (res: Self)
        ensures
            res == *self,
    {
        CommitHashPointer { fold_name: self.fold_name.clone(), file_name: self.file_name.clone() }
    }
}

impl HashPointerTraits for CommitHashPointer {
    closed spec fn fold_view(&self) -> Seq<char> {
        self.fold_name@
    }

    closed spec fn file_view(&self) -> Seq<char> {
        self.file_name@
    }

    fn new(fold_name: String, file_name: String) -> (res: Self) {
        CommitHashPointer { fold_name, file_name }
    }

    fn get_fold_name(&self) -> (res: String) {
        self.fold_name.clone()
    }

    fn get_file_name(&self) -> (res: String) {
        self.file_name.clone()
    }

    fn set_fold_name(&mut self, fold_name: String) {
        self.fold_name = fold_name;
    }

    fn set_file_name(&mut self, file_name: String) {
        self.file_name = file_name;
    }
}

/// A pointer to a stored root tree.
#[derive(Debug)]
pub struct RootTreePointer {
    fold_name: String,
    file_name: String,
}

impl Clone for RootTreePointer {
    fn clone(&self) -> (res: Self)
        ensures
            res == *self,
    {
        RootTreePointer { fold_name: self.fold_name.clone(), file_name: self.file_name.clone() }
    }
}

impl HashPointerTraits for RootTreePointer {
    closed spec fn fold_view(&self) -> Seq<char> {
        self.fold_name@
    }

    closed spec fn file_view(&self) -> Seq<char> {
        self.file_name@
    }

    fn new(fold_name: String, file_name: String) -> (res: Self) {
        RootTreePointer { fold_name, file_name }
    }

    fn get_fold_name(&self) -> (res: String) {
        self.fold_name.clone()
    }

    fn get_file_name(&self) -> (res: String) {
        self.file_name.clone()
    }

    fn set_fold_name(&mut self, fold_name: String) {
        self.fold_name = fold_name;
    }

    fn set_file_name(&mut self, file_name: String) {
        self.file_name = file_name;
    }
}

/// A pointer to a stored nested tree.
#[derive(Debug)]
pub struct NestedTreeHashPointer {
    fold_name: String,
    file_name: String,
}

impl Clone for NestedTreeHashPointer {
    fn clone(&self) -> (res: Self)
        ensures
            res == *self,
    {
        NestedTreeHashPointer { fold_name: self.fold_name.clone(), file_name: self.file_name.clone() }
    }
}

impl HashPointerTraits for NestedTreeHashPointer {
    closed spec fn fold_view(&self) -> Seq<char> {
        self.fold_name@
    }

    closed spec fn file_view(&self) -> Seq<char> {
        self.file_name@
    }

    fn new(fold_name: String, file_name: String) -> (res: Self) {
        NestedTreeHashPointer { fold_name, file_name }
    }

    fn get_fold_name(&self) -> (res: String) {
        self.fold_name.clone()
    }

    fn get_file_name(&self) -> (res: String) {
        self.file_name.clone()
    }

    fn set_fold_name(&mut self, fold_name: String) {
        self.fold_name = fold_name;
    }

    fn set_file_name(&mut self, file_name: String) {
        self.file_name = file_name;
    }
}

/// A pointer to a stored version head.
#[derive(Debug)]
pub struct VersionHeadPointer {
    fold_name: String,
    file_name: String,
}

impl Clone for VersionHeadPointer {
    fn clone(&self) -> (res: Self)
        ensures
            res == *self,
    {
        VersionHeadPointer { fold_name: self.fold_name.clone(), file_name: self.file_name.clone() }
    }
}

impl HashPointerTraits for VersionHeadPointer {
    closed spec fn fold_view(&self) -> Seq<char> {
        self.fold_name@
    }

    closed spec fn file_view(&self) -> Seq<char> {
        self.file_name@
    }

    fn new(fold_name: String, file_name: String) -> (res: Self) {
        VersionHeadPointer { fold_name, file_name }
    }

    fn get_fold_name(&self) -> (res: String) {
        self.fold_name.clone()
    }

    fn get_file_name(&self) -> (res: String) {
        self.file_name.clone()
    }

    fn set_fold_name(&mut self, fold_name: String) {
        self.fold_name = fold_name;
    }

    fn set_file_name(&mut self, file_name: String) {
        self.file_name = file_name;
    }
}

/// A pointer to a stored version.
#[derive(Debug)]
pub struct VersionPointer {
    fold_name: String,
    file_name: String,
}

impl Clone for VersionPointer {
    fn clone(&self) -> (res: Self)
        ensures
            res == *self,
    {
        VersionPointer { fold_name: self.fold_name.clone(), file_name: self.file_name.clone() }
    }
}

impl HashPointerTraits for VersionPointer {
    closed spec fn fold_view(&self) -> Seq<char> {
        self.fold_name@
    }

    closed spec fn file_view(&self) -> Seq<char> {
        self.file_name@
    }

    fn new(fold_name: String, file_name: String) -> (res: Self) {
        VersionPointer { fold_name, file_name }
    }

    fn get_fold_name(&self) -> (res: String) {
        self.fold_name.clone()
    }

    fn get_file_name(&self) -> (res: String) {
        self.file_name.clone()
    }

    fn set_fold_name(&mut self, fold_name: String) {
        self.fold_name = fold_name;
    }

    fn set_file_name(&mut self, file_name: String) {
        self.file_name = file_name;
    }
}

/// A pointer to a stored tree.
#[derive(Debug)]
pub struct TreeHashPointer {
    fold_name: String,
    file_name: String,
}

impl Clone for TreeHashPointer {
    fn clone(&self) -> (res: Self)
        ensures
            res == *self,
    {
        TreeHashPointer { fold_name: self.fold_name.clone(), file_name: self.file_name.clone() }
    }
}

impl HashPointerTraits for TreeHashPointer {
    closed spec fn fold_view(&self) -> Seq<char> {
        self.fold_name@
    }

    closed spec fn file_view(&self) -> Seq<char> {
        self.file_name@
    }

    fn new(fold_name: String, file_name: String) -> (res: Self) {
        TreeHashPointer { fold_name, file_name }
    }

    fn get_fold_name(&self) -> (res: String) {
        self.fold_name.clone()
    }

    fn get_file_name(&self) -> (res: String) {
        self.file_name.clone()
    }

    fn set_fold_name(&mut self, fold_name: String) {
        self.fold_name = fold_name;
    }

    fn set_file_name(&mut self, file_name: String) {
        self.file_name = file_name;
    }
}

/// A pointer to a stored version (of the older version store).
#[derive(Debug)]
pub struct VersionHashPointer {
    fold_name: String,
    file_name: String,
}

impl Clone for VersionHashPointer {
    fn clone(&self) -> (res: Self)
        ensures
            res == *self,
    {
        VersionHashPointer { fold_name: self.fold_name.clone(), file_name: self.file_name.clone() }
    }
}

impl HashPointerTraits for VersionHashPointer {
    closed spec fn fold_view(&self) -> Seq<char> {
        self.fold_name@
    }

    closed spec fn file_view(&self) -> Seq<char> {
        self.file_name@
    }

    fn new(fold_name: String, file_name: String) -> (res: Self) {
        VersionHashPointer { fold_name, file_name }
    }

    fn get_fold_name(&self) -> (res: String) {
        self.fold_name.clone()
    }

    fn get_file_name(&self) -> (res: String) {
        self.file_name.clone()
    }

    fn set_fold_name(&mut self, fold_name: String) {
        self.fold_name = fold_name;
    }

    fn set_file_name(&mut self, file_name: String) {
        self.file_name = file_name;
    }
}

/// A pointer to a stored version head (of the older version store).
#[derive(Debug)]
pub struct VersionHeadHashPointer {
    fold_name: String,
    file_name: String,
}

impl Clone for VersionHeadHashPointer {
    fn clone(&self) -> (res: Self)
        ensures
            res == *self,
    {
        VersionHeadHashPointer { fold_name: self.fold_name.clone(), file_name: self.file_name.clone() }
    }
}

impl HashPointerTraits for VersionHeadHashPointer {
    closed spec fn fold_view(&self) -> Seq<char> {
        self.fold_name@
    }

    closed spec fn file_view(&self) -> Seq<char> {
        self.file_name@
    }

    fn new(fold_name: String, file_name: String) -> (res: Self) {
        VersionHeadHashPointer { fold_name, file_name }
    }

    fn get_fold_name(&self) -> (res: String) {
        self.fold_name.clone()
    }

    fn get_file_name(&self) -> (res: String) {
        self.file_name.clone()
    }

    fn set_fold_name(&mut self, fold_name: String) {
        self.fold_name = fold_name;
    }

    fn set_file_name(&mut self, file_name: String) {
        self.file_name = file_name;
    }
}

/// A pointer to a stored blob (of the older blob store).
#[derive(Debug)]
pub struct BlobHashPointer {
    fold_name: String,
    file_name: String,
}

impl Clone for BlobHashPointer {
    fn clone(&self) -> (res: Self)
        ensures
            res == *self,
    {
        BlobHashPointer { fold_name: self.fold_name.clone(), file_name: self.file_name.clone() }
    }
}

impl HashPointerTraits for BlobHashPointer {
    closed spec fn fold_view(&self) -> Seq<char> {
        self.fold_name@
    }

    closed spec fn file_view(&self) -> Seq<char> {
        self.file_name@
    }

    fn new(fold_name: String, file_name: String) -> (res: Self) {
        BlobHashPointer { fold_name, file_name }
    }

    fn get_fold_name(&self) -> (res: String) {
        self.fold_name.clone()
    }

    fn get_file_name(&self) -> (res: String) {
        self.file_name.clone()
    }

    fn set_fold_name(&mut self, fold_name: String) {
        self.fold_name = fold_name;
    }

    fn set_file_name(&mut self, file_name: String) {
        self.file_name = file_name;
    }
}

impl TreeHashPointer {
    /// The pointer of this kind naming the same object as `hash_pointer`.
    pub fn own(hash_pointer: &HashPointer) -> (res: Self)
        ensures
            res.fold_view() == hash_pointer.fold_view(),
            res.file_view() == hash_pointer.file_view(),
    {
        Self::new(hash_pointer.get_fold_name(), hash_pointer.get_file_name())
    }
}

impl VersionHashPointer {
    /// The pointer of this kind naming the same object as `hash_pointer`.
    pub fn own(hash_pointer: &HashPointer) -> (res: Self)
        ensures
            res.fold_view() == hash_pointer.fold_view(),
            res.file_view() == hash_pointer.file_view(),
    {
        Self::new(hash_pointer.get_fold_name(), hash_pointer.get_file_name())
    }
}

impl VersionHeadHashPointer {
    /// The pointer of this kind naming the same object as `hash_pointer`.
    pub fn own(hash_pointer: &HashPointer) -> (res: Self)
        ensures
            res.fold_view() == hash_pointer.fold_view(),
            res.file_view() == hash_pointer.file_view(),
    {
        Self::new(hash_pointer.get_fold_name(), hash_pointer.get_file_name())
    }
}

impl BlobHashPointer {
    /// The pointer of this kind naming the same object as `hash_pointer`.
    pub fn own(hash_pointer: &HashPointer) -> (res: Self)
        ensures
            res.fold_view() == hash_pointer.fold_view(),
            res.file_view() == hash_pointer.file_view(),
    {
        Self::new(hash_pointer.get_fold_name(), hash_pointer.get_file_name())
    }
}

/// A pointer to either a version head or a tree.
#[derive(Debug)]
pub enum ObjectPointer {
    VersionHeadFile(VersionHeadHashPointer),
    TreeFIle(TreeHashPointer),
}

impl ObjectPointer {
    /// The whole hash of the pointer held.
    pub fn get_hash_string(&self) -> (res: String)
        ensures
            res@ == match self {
                ObjectPointer::VersionHeadFile(h) => h.fold_view() + h.file_view(),
                ObjectPointer::TreeFIle(h) => h.fold_view() + h.file_view(),
            },
    {
        match self {
            ObjectPointer::VersionHeadFile(hash) => hash.get_one_hash(),
            ObjectPointer::TreeFIle(hash) => hash.get_one_hash(),
        }
    }
}

} // verus!
