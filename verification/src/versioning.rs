//! Versions of a file: the head names the file's current blob and its latest version;
//! each version keeps the diff of a previous blob against its successor and names the
//! version before it.
use crate::blob::{diff_contents, BlobObject, CompareOrderStructure};
use crate::collections::{keys_sorted, map_entries};
use crate::config::{
    chak_fold, get_blob_fold_path, get_version_head_fold_path, get_versions_fold_path,
    BLOBS_DIR_NAME, VERSIONS_DIR_NAME, VERSION_HEADS_DIR_NAME,
};
use crate::pointers::{
    BlobObjectPointer, ChakPointerTraits, ObjectTraits, VersionHeadPointer, VersionPointer,
};
use crate::text::spec_join_path;
use vstd::prelude::*;

verus! {

impl ObjectTraits for BlobObject {
    open spec fn spec_containing_folder(current_dir: Seq<char>) -> Seq<char> {
        spec_join_path(chak_fold(current_dir), BLOBS_DIR_NAME@)
    }

    fn containing_folder(current_dir: &str) -> (res: String) {
        get_blob_fold_path(current_dir)
    }
}

impl ChakPointerTraits for BlobObjectPointer {
    type CorrespondenceObject = BlobObject;
}

/// A stored version: the diff of a previous blob against its successor, and the version
/// before it, if any.
pub struct VersionObject {
    pub pointer_to_previous_version: Option<VersionPointer>,
    pub hashed_content: BlobObject,
}

impl ObjectTraits for VersionObject {
    open spec fn spec_containing_folder(current_dir: Seq<char>) -> Seq<char> {
        spec_join_path(chak_fold(current_dir), VERSIONS_DIR_NAME@)
    }

    fn containing_folder(current_dir: &str) -> (res: String) {
        get_versions_fold_path(current_dir)
    }
}

impl ChakPointerTraits for VersionPointer {
    type CorrespondenceObject = VersionObject;
}

impl VersionObject {
    /// A version holding the diff `diff_content`, after `pointer_to_previous_version`.
    pub fn new(diff_content: BlobObject, pointer_to_previous_version: Option<VersionPointer>) -> (res:
        Self)
        ensures
            res.hashed_content == diff_content,
            res.pointer_to_previous_version == pointer_to_previous_version,
    {
        Self { pointer_to_previous_version, hashed_content: diff_content }
    }
}

/// The head of a file's versions: its current blob and its latest version, if any.
#[derive(Debug)]
pub struct VersionHead {
    pointer_to_blob: BlobObjectPointer,
    pointer_to_version: Option<VersionPointer>,
}

/// The version head under the name the object store uses.
pub type VersionHeadObject = VersionHead;

impl ObjectTraits for VersionHead {
    open spec fn spec_containing_folder(current_dir: Seq<char>) -> Seq<char> {
        spec_join_path(chak_fold(current_dir), VERSION_HEADS_DIR_NAME@)
    }

    fn containing_folder(current_dir: &str) -> (res: String) {
        get_version_head_fold_path(current_dir)
    }
}

impl ChakPointerTraits for VersionHeadPointer {
    type CorrespondenceObject = VersionHead;
}

impl VersionHead {
    /// The current blob.
    pub closed spec fn blob(&self) -> BlobObjectPointer {
        self.pointer_to_blob
    }

    /// The latest version.
    pub closed spec fn version(&self) -> Option<VersionPointer> {
        self.pointer_to_version
    }

    /// A head at the blob `pointer_to_blob` and the version `pointer_to_version`.
    pub fn new(pointer_to_blob: BlobObjectPointer, pointer_to_version: Option<VersionPointer>) -> (res:
        Self)
        ensures
            res.blob() == pointer_to_blob,
            res.version() == pointer_to_version,
    {
        Self { pointer_to_blob, pointer_to_version }
    }

    /// The current blob.
    pub fn get_pointer_to_blob(&self) -> (res: &BlobObjectPointer)
        ensures
            *res == self.blob(),
    {
        &self.pointer_to_blob
    }

    /// The latest version, if any.
    pub fn get_pointer_to_version(&self) -> (res: Option<&VersionPointer>)
        ensures
            res is Some <==> self.version() is Some,
            res matches Some(p) ==> *p == self.version()->0,
    {
        match &self.pointer_to_version {
            Some(p) => Some(p),
            None => None,
        }
    }

    /// Moves the head to another blob.
    pub fn change_blob(&mut self, new_blob_hash: BlobObjectPointer)
        ensures
            final(self).blob() == new_blob_hash,
            final(self).version() == old(self).version(),
    {
        self.pointer_to_blob = new_blob_hash;
    }

    /// Makes `new_version_hash` the latest version.
    pub fn change_version(&mut self, new_version_hash: VersionPointer)
        ensures
            final(self).blob() == old(self).blob(),
            final(self).version() == Some(new_version_hash),
    {
        self.pointer_to_version = Some(new_version_hash);
    }

    /// The version that a new blob makes of the current one: the diff of the current
    /// blob's content against the new blob's content, naming the latest version as the
    /// one before it.
    pub fn create_version_object(
        &self,
        previous_blob_content: BlobObject,
        new_blob_content: BlobObject,
    ) -> (res: VersionObject)
        ensures
            res.pointer_to_previous_version == self.version(),
            res.hashed_content.lines() == previous_blob_content.lines(),
            res.hashed_content.contents() == diff_contents(previous_blob_content, new_blob_content),
            res.hashed_content.wf(),
            keys_sorted(map_entries(res.hashed_content.hash_to_content)),
    {
        let diff_biased_previous = BlobObject::compare_hashed_content_biased_previous(
            &CompareOrderStructure {
                previous_content: previous_blob_content,
                new_content: new_blob_content,
            },
        );
        let previous = match &self.pointer_to_version {
            Some(p) => Some(p.clone()),
            None => None,
        };
        VersionObject::new(diff_biased_previous, previous)
    }

    /// Moves the head to a new blob, once the version made by `create_version_object` is
    /// stored under `latest_version_hash_pointer`.
    pub fn create_version(
        &mut self,
        new_blob_hash: BlobObjectPointer,
        latest_version_hash_pointer: VersionPointer,
    )
        ensures
            final(self).version() == Some(latest_version_hash_pointer),
            final(self).blob() == new_blob_hash,
    {
        self.change_version(latest_version_hash_pointer);
        self.change_blob(new_blob_hash);
    }
}

} // verus!
