//! The decisions behind the commands: what `init`, `add`, `restore` and `remote` do with
//! their arguments, which entries of a folder the ignore rules let through, and the names
//! of paths.
use crate::config::{chak_fold, CHAK_FOLDER_NAME};
use crate::error::ChakError;
use crate::text::{join_path, spec_join_path};
use std::path::Path;
use vstd::prelude::*;
use vstd::string::*;

verus! {

/// The `remote` sub-commands.
#[derive(Debug)]
pub enum RemoteCommand {
    Add { remote: String, alias: String },
    Remove { alias: String },
    Update { alias: String, remote: String },
}

/// Handles a `remote` sub-command. No sub-command changes anything yet.
pub fn command_remote(remote_command: &RemoteCommand) {
    match remote_command {
        RemoteCommand::Add { remote, alias } => {},
        RemoteCommand::Remove { .. } => {},
        RemoteCommand::Update { .. } => {},
    }
}

/// The argument `.`, which means every entry of the working folder.
pub open spec fn names_everything(files: Seq<String>) -> bool {
    exists|i: int| 0 <= i < files.len() && (#[trigger] files[i])@ == seq!['.']
}

/// `.` names everything wherever it stands among the arguments: the arguments name
/// everything exactly when one of their texts is `.`, and one more argument names
/// everything when it is `.` or the others already do.
pub proof fn law_dot_anywhere(files: Seq<String>, more: String)
    ensures
        names_everything(files) <==> files.map_values(|s: String| s@).contains(seq!['.']),
        names_everything(files.push(more)) <==> names_everything(files) || more@ == seq!['.'],
        files.len() > 0 && files[0]@ == seq!['.'] ==> names_everything(files),
{
    let v = files.map_values(|s: String| s@);
    if names_everything(files) {
        let i = choose|i: int| 0 <= i < files.len() && (#[trigger] files[i])@ == seq!['.'];
        assert(v[i] == seq!['.']);
    }
    if v.contains(seq!['.']) {
        let i = choose|i: int| 0 <= i < v.len() && v[i] == seq!['.'];
        assert(files[i]@ == seq!['.']);
    }
    let w = files.push(more);
    if names_everything(w) {
        let i = choose|i: int| 0 <= i < w.len() && (#[trigger] w[i])@ == seq!['.'];
        if i < files.len() {
            assert(files[i] == w[i]);
        }
    }
    if names_everything(files) {
        let i = choose|i: int| 0 <= i < files.len() && (#[trigger] files[i])@ == seq!['.'];
        assert(w[i] == files[i]);
    }
    if more@ == seq!['.'] {
        assert(w[files.len() as int] == more);
    }
    if files.len() > 0 && files[0]@ == seq!['.'] {
        assert(names_everything(files));
    }
}

/// One of the arguments is `.`.
pub fn wants_everything(files: &Vec<String>) -> (res: bool)
    ensures
        res == names_everything(files@),
{
    let dot = ".".to_owned();
    proof {
        reveal_strlit(".");
    }
    let mut i: usize = 0;
    while i < files.len()
        invariant
            i <= files@.len(),
            dot@ == seq!['.'],
            forall|j: int| 0 <= j < i ==> (#[trigger] files@[j])@ != seq!['.'],
        decreases files@.len() - i,
    {
        if files[i] == dot {
            return true;
        }
        i += 1;
    }
    false
}

/// What `add` does.
#[derive(Debug)]
pub enum AddPlan {
    /// Snapshot the whole working folder.
    Everything,
    /// Snapshot each of the named entries, in order.
    Each(Vec<String>),
}

/// The plan of `add` for its arguments: nothing without a repository; everything when one
/// argument is `.`; else each named entry.
pub fn plan_add(repository_exists: bool, files: Vec<String>) -> (res: Result<AddPlan, ChakError>)
    ensures
        !repository_exists ==> res == Err::<AddPlan, ChakError>(ChakError::RepoNotInitialized),
        repository_exists && names_everything(files@) ==> res matches Ok(AddPlan::Everything),
        repository_exists && !names_everything(files@) ==> (res matches Ok(AddPlan::Each(v)) && v@
            == files@),
{
    if !repository_exists {
        return Err(ChakError::RepoNotInitialized);
    }
    if wants_everything(&files) {
        Ok(AddPlan::Everything)
    } else {
        Ok(AddPlan::Each(files))
    }
}

/// What `init` does about an existing repository folder.
#[derive(Debug, PartialEq, Eq, Structural)]
pub enum InitAction {
    /// Create the repository.
    Initialize,
    /// Remove the existing repository folder, then create the repository.
    RemoveThenInitialize,
}

/// The repository folder `init` creates: in the project folder when a project name is
/// given, else in the working folder.
pub fn init_target_folder(current_dir: &str, project_name: Option<String>) -> (res: String)
    ensures
        project_name matches Some(n) ==> res@ == spec_join_path(
            spec_join_path(current_dir@, n@),
            CHAK_FOLDER_NAME@,
        ),
        project_name is None ==> res@ == chak_fold(current_dir@),
{
    match project_name {
        Some(n) => {
            let project = join_path(current_dir, n.as_str());
            join_path(project.as_str(), CHAK_FOLDER_NAME)
        },
        None => join_path(current_dir, CHAK_FOLDER_NAME),
    }
}

/// Whether `init` goes ahead: always when there is no repository folder yet; over an
/// existing one only when the (lower-cased) answer is `y`, else `RepoAlreadyExists`.
pub fn init_decision(folder_exists: bool, answer: &str) -> (res: Result<InitAction, ChakError>)
    ensures
        !folder_exists ==> res == Ok::<InitAction, ChakError>(InitAction::Initialize),
        folder_exists && answer@ == seq!['y'] ==> res == Ok::<InitAction, ChakError>(
            InitAction::RemoveThenInitialize,
        ),
        folder_exists && answer@ != seq!['y'] ==> res == Err::<InitAction, ChakError>(
            ChakError::RepoAlreadyExists,
        ),
{
    if !folder_exists {
        return Ok(InitAction::Initialize);
    }
    let y = "y".to_owned();
    proof {
        reveal_strlit("y");
        assert(y@ =~= seq!['y']);
    }
    if answer.to_owned() == y {
        Ok(InitAction::RemoveThenInitialize)
    } else {
        Err(ChakError::RepoAlreadyExists)
    }
}

/// How the ignore rules judge an entry.
#[derive(Debug, Clone, Copy, PartialEq, Eq, Structural)]
pub enum IgnoreMatch {
    Unmatched,
    Ignore,
    Whitelist,
}

/// The entries let through, taking the entries in order: an entry not matched or
/// whitelisted is let through, an ignored one is taken out again.
pub open spec fn allowed_entries(entries: Seq<Seq<char>>, matches: Seq<IgnoreMatch>) -> Set<
    Seq<char>,
>
    decreases entries.len(),
{
    if entries.len() == 0 {
        Set::empty()
    } else {
        let before = allowed_entries(entries.drop_last(), matches.take(entries.len() - 1));
        match matches[entries.len() - 1] {
            IgnoreMatch::Ignore => before.remove(entries.last()),
            _ => before.insert(entries.last()),
        }
    }
}

/// No later judgement of the entry at `i` ignores it.
pub open spec fn not_ignored_later(entries: Seq<Seq<char>>, matches: Seq<IgnoreMatch>, i: int) -> bool {
    forall|j: int| i < j < entries.len() && entries[j] == entries[i] ==> matches[j] != IgnoreMatch::Ignore
}

/// Every later judgement of the entry at `i` ignores it.
pub open spec fn ignored_later(entries: Seq<Seq<char>>, matches: Seq<IgnoreMatch>, i: int) -> bool {
    forall|j: int| i < j < entries.len() && entries[j] == entries[i] ==> matches[j] == IgnoreMatch::Ignore
}

/// Only detected entries get through; an entry that no rule matches, or that a rule
/// whitelists, gets through unless a later judgement of it ignores it; an ignored entry
/// stays out unless a later judgement of it lets it through.
pub proof fn law_ignore_judgements(entries: Seq<Seq<char>>, matches: Seq<IgnoreMatch>, i: int)
    requires
        entries.len() == matches.len(),
        0 <= i < entries.len(),
    ensures
        forall|x: Seq<char>| #[trigger] allowed_entries(entries, matches).contains(x) ==> entries.contains(x),
        matches[i] != IgnoreMatch::Ignore && not_ignored_later(entries, matches, i)
            ==> allowed_entries(entries, matches).contains(entries[i]),
        matches[i] == IgnoreMatch::Ignore && ignored_later(entries, matches, i)
            ==> !allowed_entries(entries, matches).contains(entries[i]),
    decreases entries.len(),
{
    let n = entries.len();
    let rest = entries.drop_last();
    let rm = matches.take(n - 1);
    let before = allowed_entries(rest, rm);
    assert forall|x: Seq<char>| #[trigger] allowed_entries(entries, matches).contains(x) implies entries.contains(x) by {
        if n > 1 {
            law_ignore_judgements(rest, rm, 0);
        }
        if before.contains(x) {
            let k = choose|k: int| 0 <= k < rest.len() && rest[k] == x;
            assert(entries[k] == x);
        }
        assert(entries[n - 1] == entries.last());
    }
    if i < n - 1 {
        law_ignore_judgements(rest, rm, i);
        assert(rest[i] == entries[i]);
        assert(rm[i] == matches[i]);
        if not_ignored_later(entries, matches, i) {
            assert forall|j: int| i < j < rest.len() && rest[j] == rest[i] implies rm[j] != IgnoreMatch::Ignore by {
                assert(rest[j] == entries[j]);
                assert(rm[j] == matches[j]);
            }
        }
        if ignored_later(entries, matches, i) {
            assert forall|j: int| i < j < rest.len() && rest[j] == rest[i] implies rm[j] == IgnoreMatch::Ignore by {
                assert(rest[j] == entries[j]);
                assert(rm[j] == matches[j]);
            }
        }
        assert(entries[n - 1] == entries.last());
        assert(matches[n - 1] == matches[entries.len() - 1]);
    }
}

/// When no rule matches any entry, every detected entry gets through, and nothing else.
pub proof fn law_unmatched_entries_all_through(entries: Seq<Seq<char>>, matches: Seq<IgnoreMatch>)
    requires
        entries.len() == matches.len(),
        forall|i: int| 0 <= i < matches.len() ==> matches[i] == IgnoreMatch::Unmatched,
    ensures
        allowed_entries(entries, matches) == entries.to_set(),
{
    assert forall|x: Seq<char>| #[trigger] allowed_entries(entries, matches).contains(x) <==> entries.to_set().contains(x) by {
        if entries.contains(x) {
            let i = choose|i: int| 0 <= i < entries.len() && entries[i] == x;
            law_ignore_judgements(entries, matches, i);
        }
        if allowed_entries(entries, matches).contains(x) {
            law_ignore_judgements(entries, matches, 0);
        }
    }
    assert(allowed_entries(entries, matches) =~= entries.to_set());
}

/// The entries of a folder that the ignore rules let through, each once; `matches[i]` is
/// the rules' judgement of `detected_entries[i]`. Their order is not fixed.
pub fn parse_ignore_for_entries(detected_entries: &Vec<String>, matches: &Vec<IgnoreMatch>) -> (res:
    Vec<String>)
    requires
        detected_entries@.len() == matches@.len(),
    ensures
        res@.map_values(|s: String| s@).no_duplicates(),
        res@.map_values(|s: String| s@).to_set() == allowed_entries(
            detected_entries@.map_values(|s: String| s@),
            matches@,
        ),
{
    let ghost ev = detected_entries@.map_values(|s: String| s@);
    let mut allowed: Vec<String> = Vec::new();
    let mut i: usize = 0;
    while i < detected_entries.len()
        invariant
            ev == detected_entries@.map_values(|s: String| s@),
            detected_entries@.len() == matches@.len(),
            i <= detected_entries@.len(),
            allowed@.map_values(|s: String| s@).no_duplicates(),
            allowed@.map_values(|s: String| s@).to_set() == allowed_entries(
                ev.take(i as int),
                matches@.take(i as int),
            ),
        decreases detected_entries@.len() - i,
    {
        let entry = &detected_entries[i];
        let ghost before = allowed@.map_values(|s: String| s@);
        proof {
            assert(ev.take(i + 1).drop_last() == ev.take(i as int));
            assert(ev.take(i + 1).last() == entry@);
            assert(matches@.take(i + 1).take(i as int) == matches@.take(i as int));
            assert(matches@.take(i + 1)[i as int] == matches@[i as int]);
        }
        let pos = position_of(&allowed, entry);
        match matches[i] {
            IgnoreMatch::Ignore => {
                match pos {
                    Some(p) => {
                        allowed.remove(p);
                        proof {
                            let after = allowed@.map_values(|s: String| s@);
                            assert(after =~= before.remove(p as int));
                            lemma_remove_unique(before, p as int);
                        }
                    },
                    None => {
                        proof {
                            broadcast use vstd::seq_lib::group_seq_properties;
                            assert(before.to_set() =~= before.to_set().remove(entry@));
                        }
                    },
                }
            },
            _ => {
                match pos {
                    Some(p) => {
                        proof {
                            broadcast use vstd::seq_lib::group_seq_properties;
                            assert(before[p as int] == entry@);
                            assert(before.contains(entry@));
                            assert(before.to_set() =~= before.to_set().insert(entry@));
                        }
                    },
                    None => {
                        allowed.push(entry.clone());
                        proof {
                            broadcast use vstd::seq_lib::group_seq_properties;
                            let after = allowed@.map_values(|s: String| s@);
                            assert(after =~= before.push(entry@));
                            assert(after.to_set() =~= before.to_set().insert(entry@));
                        }
                    },
                }
            },
        }
        i += 1;
    }
    proof {
        assert(ev.take(detected_entries@.len() as int) == ev);
        assert(matches@.take(detected_entries@.len() as int) == matches@);
    }
    allowed
}

/// Where `entry` stands in `v`, if it does.
fn position_of(v: &Vec<String>, entry: &String) -> (res: Option<usize>)
    ensures
        match res {
            Some(p) => p < v@.len() && v@[p as int]@ == entry@,
            None => !v@.map_values(|s: String| s@).contains(entry@),
        },
{
    let mut i: usize = 0;
    while i < v.len()
        invariant
            i <= v@.len(),
            forall|j: int| 0 <= j < i ==> (#[trigger] v@[j])@ != entry@,
        decreases v@.len() - i,
    {
        if v[i] == *entry {
            return Some(i);
        }
        i += 1;
    }
    proof {
        let vv = v@.map_values(|s: String| s@);
        if vv.contains(entry@) {
            let j = choose|j: int| 0 <= j < vv.len() && #[trigger] vv[j] == entry@;
            assert(v@[j]@ == entry@);
        }
    }
    None
}

/// Removing an element keeps the others distinct, and takes out exactly that element.
proof fn lemma_remove_unique(s: Seq<Seq<char>>, p: int)
    requires
        s.no_duplicates(),
        0 <= p < s.len(),
    ensures
        s.remove(p).no_duplicates(),
        s.remove(p).to_set() == s.to_set().remove(s[p]),
{
    broadcast use vstd::seq_lib::group_seq_properties;

    let r = s.remove(p);
    assert forall|a: int, b: int| 0 <= a < b < r.len() implies r[a] != r[b] by {
        let a2 = if a < p { a } else { a + 1 };
        let b2 = if b < p { b } else { b + 1 };
        assert(r[a] == s[a2]);
        assert(r[b] == s[b2]);
    }
    assert forall|x: Seq<char>| r.to_set().contains(x) <==> s.to_set().remove(s[p]).contains(x) by {
        if r.contains(x) {
            let j = choose|j: int| 0 <= j < r.len() && r[j] == x;
            let j2 = if j < p { j } else { j + 1 };
            assert(s[j2] == x);
            assert(j2 != p);
        }
        if s.contains(x) && x != s[p] {
            let j = choose|j: int| 0 <= j < s.len() && s[j] == x;
            assert(j != p);
            if j < p {
                assert(r[j] == x);
            } else {
                assert(r[j - 1] == x);
            }
        }
    }
    assert(r.to_set() =~= s.to_set().remove(s[p]));
}

/// The final component of a path, as `Path::file_name` gives it (`None` for a path that
/// ends in `..`, a root, or nothing).
pub uninterp spec fn spec_path_file_name(path: Seq<char>) -> Option<Seq<char>>;

/// The path without its final component, as `Path::parent` gives it (`None` for a root or
/// an empty path).
pub uninterp spec fn spec_path_parent(path: Seq<char>) -> Option<Seq<char>>;

/// `Path::file_name`, read back as text. Trusted: the result is `spec_path_file_name` of
/// the path (a path given as text is valid UTF-8, so its name converts).
#[verifier::external_body]
fn path_file_name(path: &str) -> (res: Option<String>)
    ensures
        res matches Some(n) ==> spec_path_file_name(path@) == Some(n@),
        res is None ==> spec_path_file_name(path@) is None,
{
    Path::new(path).file_name().and_then(|n| n.to_str()).map(|n| n.to_owned())
}

/// `Path::parent`, read back as text. Trusted: the result is `spec_path_parent` of the
/// path.
#[verifier::external_body]
fn path_parent(path: &str) -> (res: Option<String>)
    ensures
        res matches Some(p) ==> spec_path_parent(path@) == Some(p@),
        res is None ==> spec_path_parent(path@) is None,
{
    Path::new(path).parent().and_then(|p| p.to_str()).map(|p| p.to_owned())
}

/// A path's name, or the error `Could not get file name` when it has none.
pub fn file_name_or_error(file_name: Option<String>) -> (res: Result<String, ChakError>)
    ensures
        file_name matches Some(n) ==> res == Ok::<String, ChakError>(n),
        file_name is None ==> (res matches Err(e) && (e matches ChakError::CustomError(m) && m@
            == "Could not get file name"@)),
{
    match file_name {
        Some(n) => Ok(n),
        None => Err(ChakError::CustomError("Could not get file name".to_owned())),
    }
}

/// The name of the final component of a path.
pub fn path_buf_to_name(path: &str) -> (res: Result<String, ChakError>)
    ensures
        spec_path_file_name(path@) matches Some(n) ==> (res matches Ok(r) && r@ == n),
        spec_path_file_name(path@) is None ==> (res matches Err(e) && (e matches ChakError::CustomError(m) && m@
            == "Could not get file name"@)),
{
    file_name_or_error(path_file_name(path))
}

/// A path's parent and name; the error `Parent of entry not found` when it has no parent,
/// else `Could not get file name` when it has no name.
pub fn parent_and_name_or_error(parent: Option<String>, file_name: Option<String>) -> (res: Result<
    (String, String),
    ChakError,
>)
    ensures
        parent is None ==> (res matches Err(e) && (e matches ChakError::CustomError(m) && m@
            == "Parent of entry not found"@)),
        parent is Some && file_name is None ==> (res matches Err(e) && (e matches ChakError::CustomError(m) && m@
            == "Could not get file name"@)),
        parent is Some && file_name is Some ==> res == Ok::<(String, String), ChakError>(
            (parent->0, file_name->0),
        ),
{
    match parent {
        None => Err(ChakError::CustomError("Parent of entry not found".to_owned())),
        Some(p) => match file_name_or_error(file_name) {
            Ok(n) => Ok((p, n)),
            Err(e) => Err(e),
        },
    }
}

/// A path's parent folder and the name of its final component.
pub fn path_buf_to_parent_and_name(path: &str) -> (res: Result<(String, String), ChakError>)
    ensures
        spec_path_parent(path@) is None ==> (res matches Err(e) && (e matches ChakError::CustomError(m) && m@
            == "Parent of entry not found"@)),
        spec_path_parent(path@) is Some && spec_path_file_name(path@) is None ==> (res matches Err(e) && (e matches ChakError::CustomError(m) && m@
            == "Could not get file name"@)),
        spec_path_parent(path@) is Some && spec_path_file_name(path@) is Some ==> (res matches Ok(r) && r.0@ == spec_path_parent(path@)->0 && r.1@ == spec_path_file_name(path@)->0),
{
    parent_and_name_or_error(path_parent(path), path_file_name(path))
}

} // verus!
