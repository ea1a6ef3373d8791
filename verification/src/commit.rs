//! Commits, the commit log and the staged root trees.
//!
//! The commit log and the stage file hold one whole hash per line; the newest is last.
use crate::config::{chak_fold, get_commits_fold_path, COMMITS_DIR_NAME, REGISTER_NAME};
use crate::error::ChakError;
use crate::hashing::{
    byte_len, content_hash, hash_pointer_from_hash_string, one_hash, split_file, split_fold,
    splittable, HashPointer, HashPointerTraits, MIN_HASH_LENGTH,
};
use crate::pointers::{ChakPointerTraits, CommitHashPointer, ObjectTraits, RootTreePointer};
use crate::text::{
    join_path, lemma_encode_concat, lemma_lines_state_append, lines_state, push_char,
    spec_file_lines, spec_join_path, spec_trim, string_seq_views, trim,
};
use vstd::prelude::*;
use vstd::string::*;
use vstd::utf8::*;

verus! {

broadcast use group_utf8_lib;

/// A commit: who made it, its message, and the root tree it records.
#[derive(Debug)]
pub struct CommitObject {
    pub author: String,
    pub message: String,
    pub root_tree_pointer: RootTreePointer,
}

/// A commit, under its shorter name.
pub type Commit = CommitObject;

impl ObjectTraits for CommitObject {
    open spec fn spec_containing_folder(current_dir: Seq<char>) -> Seq<char> {
        spec_join_path(chak_fold(current_dir), COMMITS_DIR_NAME@)
    }

    fn containing_folder(current_dir: &str) -> (res: String) {
        get_commits_fold_path(current_dir)
    }
}

impl ChakPointerTraits for CommitHashPointer {
    type CorrespondenceObject = CommitObject;
}

/// A commit of the root tree `root_tree_pointer`; the author is `unknown` when none is
/// given.
pub fn create_commit(msg: String, author: Option<String>, root_tree_pointer: RootTreePointer) -> (res:
    CommitObject)
    ensures
        res.message == msg,
        res.root_tree_pointer == root_tree_pointer,
        author matches Some(a) ==> res.author == a,
        author is None ==> res.author@ == "unknown"@,
{
    CommitObject {
        message: msg,
        root_tree_pointer,
        author: match author {
            Some(a) => a,
            None => "unknown".to_owned(),
        },
    }
}

/// A line can be read as a hash pointer without a cut inside a character: it is shorter
/// than the minimum, or its third byte starts a character.
pub open spec fn pointer_parsable(line: Seq<char>) -> bool {
    byte_len(line) >= MIN_HASH_LENGTH ==> splittable(line)
}

/// The line that `get_latest_pointer_line_from_file` reads: the last or the first.
pub open spec fn chosen_line(lines: Seq<Seq<char>>, from_bottom: bool) -> Seq<char> {
    if from_bottom {
        lines.last()
    } else {
        lines[0]
    }
}

/// The pointer on the last line (or the first, when `from_bottom` is false) of a file's
/// lines; an error when there are no lines or the line is shorter than three bytes.
pub fn get_latest_pointer_line_from_file<T: HashPointerTraits>(
    lines: &Vec<String>,
    from_bottom: bool,
) -> (res: Result<T, ChakError>)
    requires
        lines@.len() > 0 ==> pointer_parsable(chosen_line(string_seq_views(lines@), from_bottom)),
    ensures
        lines@.len() == 0 ==> (res matches Err(e) && (e matches ChakError::CustomError(m) && m@
            == "hash pointer line not found in file"@)),
        lines@.len() > 0 ==> ({
            let line = chosen_line(string_seq_views(lines@), from_bottom);
            &&& (res is Err <==> byte_len(line) < MIN_HASH_LENGTH)
            &&& (res matches Err(e) ==> (e matches ChakError::CustomError(m) && m@
                == "Invalid hash string length"@))
            &&& (res matches Ok(p) ==> p.fold_view() == split_fold(line) && p.file_view()
                == split_file(line))
        }),
{
    if lines.len() == 0 {
        return Err(ChakError::CustomError("hash pointer line not found in file".to_owned()));
    }
    let line = if from_bottom {
        lines[lines.len() - 1].clone()
    } else {
        lines[0].clone()
    };
    hash_pointer_from_hash_string::<T>(line)
}

/// Every line read as a pointer; the first line that is too short stops with an error.
fn pointers_from_lines<T: HashPointerTraits>(lines: &Vec<String>) -> (res: Result<Vec<T>, ChakError>)
    requires
        forall|i: int|
            0 <= i < lines@.len() ==> pointer_parsable(#[trigger] string_seq_views(lines@)[i]),
    ensures
        res is Err <==> exists|i: int|
            0 <= i < lines@.len() && byte_len(#[trigger] string_seq_views(lines@)[i])
                < MIN_HASH_LENGTH,
        res matches Err(e) ==> (e matches ChakError::CustomError(m) && m@
            == "Invalid hash string length"@),
        res matches Ok(v) ==> v@.len() == lines@.len() && forall|i: int|
            0 <= i < v@.len() ==> (#[trigger] v@[i]).fold_view() == split_fold(
                string_seq_views(lines@)[i],
            ) && v@[i].file_view() == split_file(string_seq_views(lines@)[i]),
{
    let ghost views = string_seq_views(lines@);
    let mut res: Vec<T> = Vec::new();
    let mut i: usize = 0;
    while i < lines.len()
        invariant
            views == string_seq_views(lines@),
            forall|j: int| 0 <= j < lines@.len() ==> pointer_parsable(#[trigger] views[j]),
            i <= lines@.len(),
            res@.len() == i,
            forall|j: int| 0 <= j < i ==> byte_len(#[trigger] views[j]) >= MIN_HASH_LENGTH,
            forall|j: int|
                0 <= j < i ==> (#[trigger] res@[j]).fold_view() == split_fold(views[j])
                    && res@[j].file_view() == split_file(views[j]),
        decreases lines@.len() - i,
    {
        assert(pointer_parsable(views[i as int]));
        match hash_pointer_from_hash_string::<T>(lines[i].clone()) {
            Ok(p) => {
                res.push(p);
            },
            Err(e) => {
                return Err(e);
            },
        }
        i += 1;
    }
    Ok(res)
}

/// Appends a commit's whole hash to the commit log's content, followed by a newline.
pub fn append_commit_hash_pointer_to_commit_log_file(
    commit_log: &mut String,
    commit_hash_pointer: CommitHashPointer,
)
    ensures
        final(commit_log)@ == old(commit_log)@ + one_hash(commit_hash_pointer) + seq!['\n'],
{
    let h = commit_hash_pointer.get_one_hash();
    commit_log.append(h.as_str());
    push_char(commit_log, '\n');
}

impl CommitHashPointer {
    /// The newest commit: the pointer on the last line of the commit log.
    pub fn get_latest_commit_hash_pointer(commit_log_lines: &Vec<String>) -> (res: Result<
        CommitHashPointer,
        ChakError,
    >)
        requires
            commit_log_lines@.len() > 0 ==> pointer_parsable(
                string_seq_views(commit_log_lines@).last(),
            ),
        ensures
            commit_log_lines@.len() == 0 ==> (res matches Err(e) && (e matches ChakError::CustomError(m) && m@
                == "hash pointer line not found in file"@)),
            commit_log_lines@.len() > 0 ==> ({
                let line = string_seq_views(commit_log_lines@).last();
                &&& (res is Err <==> byte_len(line) < MIN_HASH_LENGTH)
                &&& (res matches Ok(p) ==> p.fold_view() == split_fold(line) && p.file_view()
                    == split_file(line))
            }),
    {
        get_latest_pointer_line_from_file::<CommitHashPointer>(commit_log_lines, true)
    }
}

impl RootTreePointer {
    /// Appends this root tree's whole hash to the stage's content, followed by a newline.
    pub fn attach_tree_to_stage(&self, stage_content: &mut String)
        ensures
            final(stage_content)@ == old(stage_content)@ + one_hash(*self) + seq!['\n'],
    {
        let h = self.get_one_hash();
        stage_content.append(h.as_str());
        push_char(stage_content, '\n');
    }

    /// The newest staged root tree: the pointer on the last line of the stage file;
    /// an error when there is no stage file (`stage_lines` is `None`).
    pub fn get_latest_pointer_from_stage(stage_lines: Option<Vec<String>>) -> (res: Result<
        RootTreePointer,
        ChakError,
    >)
        requires
            stage_lines is Some && stage_lines->0@.len() > 0 ==> pointer_parsable(
                string_seq_views(stage_lines->0@).last(),
            ),
        ensures
            stage_lines is None ==> (res matches Err(e) && (e matches ChakError::CustomError(m) && m@
                == "stage file path doesn't exist"@)),
            stage_lines is Some && stage_lines->0@.len() == 0 ==> (res matches Err(e) && (e matches ChakError::CustomError(m) && m@
                == "hash pointer line not found in file"@)),
            stage_lines is Some && stage_lines->0@.len() > 0 ==> ({
                let line = string_seq_views(stage_lines->0@).last();
                &&& (res is Err <==> byte_len(line) < MIN_HASH_LENGTH)
                &&& (res matches Ok(p) ==> p.fold_view() == split_fold(line) && p.file_view()
                    == split_file(line))
            }),
    {
        match stage_lines {
            Some(lines) => get_latest_pointer_line_from_file::<RootTreePointer>(&lines, true),
            None => Err(ChakError::CustomError("stage file path doesn't exist".to_owned())),
        }
    }

    /// Every staged root tree, oldest first; an error when there is no stage file or a
    /// line is shorter than three bytes.
    pub fn get_pointers_from_stage(stage_lines: Option<Vec<String>>) -> (res: Result<
        Vec<RootTreePointer>,
        ChakError,
    >)
        requires
            stage_lines matches Some(lines) ==> forall|i: int|
                0 <= i < lines@.len() ==> pointer_parsable(#[trigger] string_seq_views(lines@)[i]),
        ensures
            stage_lines is None ==> (res matches Err(e) && (e matches ChakError::CustomError(m) && m@
                == "stage file path doesn't exist"@)),
            stage_lines matches Some(lines) ==> ((res is Err <==> exists|i: int|
                0 <= i < lines@.len() && byte_len(#[trigger] string_seq_views(lines@)[i])
                    < MIN_HASH_LENGTH) && (res matches Ok(v) ==> v@.len() == lines@.len()
                && forall|i: int|
                0 <= i < v@.len() ==> (#[trigger] v@[i]).fold_view() == split_fold(
                    string_seq_views(lines@)[i],
                ) && v@[i].file_view() == split_file(string_seq_views(lines@)[i]))),
    {
        match stage_lines {
            Some(lines) => pointers_from_lines::<RootTreePointer>(&lines),
            None => Err(ChakError::CustomError("stage file path doesn't exist".to_owned())),
        }
    }

    /// Every pointer in the commit log, oldest first; an error when there is no commit log
    /// or a line is shorter than three bytes.
    pub fn get_pointers_from_commit_log(log_lines: Option<Vec<String>>) -> (res: Result<
        Vec<RootTreePointer>,
        ChakError,
    >)
        requires
            log_lines matches Some(lines) ==> forall|i: int|
                0 <= i < lines@.len() ==> pointer_parsable(#[trigger] string_seq_views(lines@)[i]),
        ensures
            log_lines is None ==> (res matches Err(e) && (e matches ChakError::CustomError(m) && m@
                == "commit_log_file path doesn't exist"@)),
            log_lines matches Some(lines) ==> ((res is Err <==> exists|i: int|
                0 <= i < lines@.len() && byte_len(#[trigger] string_seq_views(lines@)[i])
                    < MIN_HASH_LENGTH) && (res matches Ok(v) ==> v@.len() == lines@.len()
                && forall|i: int|
                0 <= i < v@.len() ==> (#[trigger] v@[i]).fold_view() == split_fold(
                    string_seq_views(lines@)[i],
                ) && v@[i].file_view() == split_file(string_seq_views(lines@)[i]))),
    {
        match log_lines {
            Some(lines) => pointers_from_lines::<RootTreePointer>(&lines),
            None => Err(ChakError::CustomError("commit_log_file path doesn't exist".to_owned())),
        }
    }
}

/// Reading back a log (the commit log or the stage) after appending a whole hash to it:
/// when the log's content ends where a line ends, the last line read is the hash appended,
/// and it reads as the same pointer (its folder part being two bytes, as in every hash
/// pointer this library makes).
pub proof fn law_read_after_append(log: Seq<char>, fold: Seq<char>, file: Seq<char>)
    requires
        lines_state(log).1.len() == 0,
        !(fold + file).contains('\n'),
        (fold + file).last() != '\r',
        encode_utf8(fold).len() == 2,
        encode_utf8(file).len() >= 1,
        encode_utf8(file).len() + 2 <= usize::MAX,
    ensures
        ({
            let lines = spec_file_lines(log + (fold + file) + seq!['\n']);
            &&& lines.len() > 0
            &&& lines.last() == fold + file
            &&& pointer_parsable(lines.last())
            &&& byte_len(lines.last()) >= MIN_HASH_LENGTH
            &&& split_fold(lines.last()) == fold
            &&& split_file(lines.last()) == file
        }),
{
    let h = fold + file;
    lemma_lines_state_append(log, h);
    let whole = log + h + seq!['\n'];
    assert(whole.drop_last() == log + h);
    assert(whole.last() == '\n');
    assert(lines_state(log).1 + h == h);
    assert(lines_state(whole).1.len() == 0);
    lemma_encode_concat(fold, file);
    let b = encode_utf8(h);
    assert(b.subrange(0, 2) == encode_utf8(fold));
    assert(b.subrange(2, b.len() as int) == encode_utf8(file));
    assert(is_char_boundary(b, 2)) by {
        is_char_boundary_start_end_of_seq(encode_utf8(fold));
        is_char_boundary_start_end_of_seq(b);
        assert(b.len() >= 3);
        is_char_boundary_iff_not_is_continuation_byte(b, 2);
        is_char_boundary_iff_not_is_continuation_byte(encode_utf8(file), 0);
        is_char_boundary_start_end_of_seq(encode_utf8(file));
        assert(b[2] == encode_utf8(file)[0]);
    }
    assert(split_fold(h) == fold);
    assert(split_file(h) == file);
}

/// What `commit` does with the stage.
#[derive(Debug)]
pub enum CommitPlan {
    /// Commit the newest staged root tree.
    CommitLatest(RootTreePointer),
    /// Nothing is staged: empty the stage file.
    ClearStage,
}

/// The plan of `commit` for the staged root trees: commit the newest one; with none
/// staged, empty the stage file; without a stage, the error `No stage file`.
pub fn plan_commit(staged: Result<Vec<RootTreePointer>, ChakError>) -> (res: Result<
    CommitPlan,
    ChakError,
>)
    ensures
        staged is Err ==> (res matches Err(e) && (e matches ChakError::CustomError(m) && m@
            == "No stage file"@)),
        staged is Ok && staged->Ok_0@.len() > 0 ==> (res matches Ok(CommitPlan::CommitLatest(p))
            && p == staged->Ok_0@.last()),
        staged is Ok && staged->Ok_0@.len() == 0 ==> (res matches Ok(CommitPlan::ClearStage)),
{
    match staged {
        Ok(all_tree_pointers) => {
            let n = all_tree_pointers.len();
            if n > 0 {
                Ok(CommitPlan::CommitLatest(all_tree_pointers[n - 1].clone()))
            } else {
                Ok(CommitPlan::ClearStage)
            }
        },
        Err(_) => Err(ChakError::CustomError("No stage file".to_owned())),
    }
}

/// Whether a register file records `pointer`: its first line, without surrounding
/// whitespace, is the pointer's whole hash. No register file, or an empty one, records
/// nothing.
pub fn was_it_registered<T: HashPointerTraits>(pointer: T, register_lines: Option<Vec<String>>) -> (res:
    bool)
    ensures
        res == match register_lines {
            Some(lines) => lines@.len() > 0 && spec_trim(lines@[0]@) == one_hash(pointer),
            None => false,
        },
{
    match register_lines {
        Some(lines) => {
            if lines.len() > 0 {
                let first = trim(lines[0].as_str());
                first == pointer.get_one_hash()
            } else {
                false
            }
        },
        None => false,
    }
}

/// Where and under what name an object is saved: its content's hash pointer, the path of
/// the object in its kind's folder, and the register file of that folder.
#[derive(Debug)]
pub struct SavePlan {
    pub entity_hash: HashPointer,
    pub entity_path: String,
    pub register_path: String,
}

/// The save plan of an object of kind `G` whose serialized content is `serialized_content`.
pub fn entity_save_plan<G: ObjectTraits>(serialized_content: &str, current_dir: &str) -> (res:
    SavePlan)
    ensures
        one_hash(res.entity_hash) == content_hash(serialized_content@),
        res.entity_hash.fold_view() == content_hash(serialized_content@).subrange(0, 2),
        res.entity_hash.file_view() == content_hash(serialized_content@).subrange(2, 64),
        res.entity_path@ == spec_join_path(
            G::spec_containing_folder(current_dir@),
            spec_join_path(res.entity_hash.fold_view(), res.entity_hash.file_view()),
        ),
        res.register_path@ == spec_join_path(
            G::spec_containing_folder(current_dir@),
            REGISTER_NAME@,
        ),
{
    let entity_hash = HashPointer::from_string(serialized_content);
    let folder = G::containing_folder(current_dir);
    let relative = entity_hash.get_path();
    let entity_path = join_path(folder.as_str(), relative.as_str());
    let register_path = join_path(folder.as_str(), REGISTER_NAME);
    SavePlan { entity_hash, entity_path, register_path }
}

} // verus!
