//! A blob: the lines of a file, stored by hash.
//!
//! A blob keeps the hashes of a file's distinct lines in order of first appearance, and a
//! map from line hash to line. The diff of a previous blob against a newer one keeps the
//! previous blob's line order but only the contents of the lines the newer blob lacks;
//! together with the newer blob it gives the previous lines back.
use crate::collections::{
    entries_map, entry_keys, keys_sorted, keys_unique, lemma_entries_get_none,
    lemma_entries_permuted, lemma_entries_push, lemma_entries_update, lemma_sorted_keys_unique,
    map_entries, map_get, map_get_index, map_insert, map_len, map_new, map_sort_keys,
    set_clone, set_difference, set_get_index, set_insert, set_items, set_len, set_new,
};
use crate::hashing::{content_hash, HashPointer, HashPointerTraits};
use crate::text::{lemma_push_contains, push_char, string_seq_views};
use indexmap::{IndexMap, IndexSet};
use vstd::prelude::*;
use vstd::string::*;

verus! {

/// The lines of a file by hash: `hash_lines` in order of first appearance, and
/// `hash_to_content` from line hash to line.
pub struct BlobObject {
    pub hash_lines: IndexSet<String>,
    pub hash_to_content: IndexMap<String, String>,
}

/// The two blobs of a diff, in their order: the previous content and the new content.
pub struct CompareOrderStructure {
    pub previous_content: BlobObject,
    pub new_content: BlobObject,
}

impl BlobObject {
    /// The line hashes, in order.
    pub open spec fn lines(&self) -> Seq<Seq<char>> {
        set_items(self.hash_lines)
    }

    /// The recorded contents, by line hash.
    pub open spec fn contents(&self) -> Map<Seq<char>, Seq<char>> {
        entries_map(map_entries(self.hash_to_content))
    }

    /// The content map holds each key once (as every `IndexMap` does).
    pub open spec fn wf(&self) -> bool {
        keys_unique(map_entries(self.hash_to_content))
    }
}

/// The hashes of the lines, each once, in order of first appearance.
pub open spec fn line_hashes(lines: Seq<Seq<char>>) -> Seq<Seq<char>>
    decreases lines.len(),
{
    if lines.len() == 0 {
        Seq::empty()
    } else {
        let prev = line_hashes(lines.drop_last());
        let h = content_hash(lines.last());
        if prev.contains(h) {
            prev
        } else {
            prev.push(h)
        }
    }
}

/// From each line hash to the last line with that hash.
pub open spec fn line_contents(lines: Seq<Seq<char>>) -> Map<Seq<char>, Seq<char>>
    decreases lines.len(),
{
    if lines.len() == 0 {
        Map::empty()
    } else {
        line_contents(lines.drop_last()).insert(content_hash(lines.last()), lines.last())
    }
}

/// The parts, with a newline between each two.
pub open spec fn join_lines(parts: Seq<Seq<char>>) -> Seq<char>
    decreases parts.len(),
{
    if parts.len() == 0 {
        Seq::empty()
    } else if parts.len() == 1 {
        parts[0]
    } else {
        join_lines(parts.drop_last()) + seq!['\n'] + parts.last()
    }
}

/// The content recorded for `h`, or the empty text.
pub open spec fn content_or_empty(m: Map<Seq<char>, Seq<char>>, h: Seq<char>) -> Seq<char> {
    if m.dom().contains(h) {
        m[h]
    } else {
        Seq::empty()
    }
}

/// A blob as text: the content of each line hash in order (empty where none is
/// recorded), joined by newlines.
pub open spec fn string_content(lines: Seq<Seq<char>>, m: Map<Seq<char>, Seq<char>>) -> Seq<char> {
    join_lines(lines.map_values(|h: Seq<char>| content_or_empty(m, h)))
}

/// The contents a diff of `prev` against `new` records: those of the lines of `prev`
/// that `new` lacks.
pub open spec fn diff_contents(prev: BlobObject, new: BlobObject) -> Map<Seq<char>, Seq<char>> {
    Map::new(
        |k: Seq<char>|
            prev.lines().contains(k) && !new.lines().contains(k) && prev.contents().dom().contains(
                k,
            ),
        |k: Seq<char>| prev.contents()[k],
    )
}

/// The lines rebuilt from line hashes: for each hash, the content in `next`, else the
/// content in `diff`, else nothing.
pub open spec fn restored_lines(
    next: Map<Seq<char>, Seq<char>>,
    hashes: Seq<Seq<char>>,
    diff: Map<Seq<char>, Seq<char>>,
) -> Seq<Seq<char>>
    decreases hashes.len(),
{
    if hashes.len() == 0 {
        Seq::empty()
    } else {
        let prev = restored_lines(next, hashes.drop_last(), diff);
        let h = hashes.last();
        if next.dom().contains(h) {
            prev.push(next[h])
        } else if diff.dom().contains(h) {
            prev.push(diff[h])
        } else {
            prev
        }
    }
}

impl BlobObject {
    /// A blob of the given line hashes and contents, with the contents sorted by hash.
    fn new(hash_lines: &IndexSet<String>, hash_to_content: &mut IndexMap<String, String>) -> (res:
        BlobObject)
        requires
            keys_unique(map_entries(*old(hash_to_content))),
        ensures
            res.lines() == set_items(*hash_lines),
            res.contents() == entries_map(map_entries(*old(hash_to_content))),
            keys_sorted(map_entries(res.hash_to_content)),
            res.wf(),
            map_entries(*final(hash_to_content)) == map_entries(res.hash_to_content),
    {
        map_sort_keys(hash_to_content);
        proof {
            lemma_sorted_keys_unique(map_entries(*hash_to_content));
            lemma_entries_permuted(
                map_entries(*hash_to_content),
                map_entries(*old(hash_to_content)),
            );
        }
        let hash_to_content_copy = crate::collections::map_clone(hash_to_content);
        BlobObject { hash_lines: set_clone(hash_lines), hash_to_content: hash_to_content_copy }
    }

    /// The blob as text: the content of each line hash in order, joined by newlines
    /// (a hash with no recorded content gives an empty line).
    pub fn to_string_content(&self) -> (res: String)
        ensures
            res@ == string_content(self.lines(), self.contents()),
    {
        let ghost parts = self.lines().map_values(
            |h: Seq<char>| content_or_empty(self.contents(), h),
        );
        let n = set_len(&self.hash_lines);
        let mut res = String::new();
        let mut i: usize = 0;
        while i < n
            invariant
                n == self.lines().len(),
                parts == self.lines().map_values(
                    |h: Seq<char>| content_or_empty(self.contents(), h),
                ),
                i <= n,
                res@ == join_lines(parts.take(i as int)),
            decreases n - i,
        {
            let h = set_get_index(&self.hash_lines, i).unwrap();
            proof {
                lemma_entries_get_none(map_entries(self.hash_to_content), h@);
            }
            if i > 0 {
                push_char(&mut res, '\n');
            }
            match map_get(&self.hash_to_content, h) {
                Some(c) => {
                    res.append(c.as_str());
                },
                None => {},
            }
            proof {
                assert(parts.take(i + 1).drop_last() == parts.take(i as int));
                assert(parts[i as int] == content_or_empty(self.contents(), h@));
            }
            i += 1;
        }
        proof {
            assert(parts.take(n as int) == parts);
        }
        res
    }

    /// The diff of `previous_content` against `new_content`: the line hashes of the
    /// previous content, in order, with the contents of only those of its lines that the
    /// new content lacks.
    pub fn compare_hashed_content_biased_previous(
        compare_order_structure: &CompareOrderStructure,
    ) -> (res: BlobObject)
        ensures
            res.lines() == compare_order_structure.previous_content.lines(),
            res.contents() == diff_contents(
                compare_order_structure.previous_content,
                compare_order_structure.new_content,
            ),
            keys_sorted(map_entries(res.hash_to_content)),
            res.wf(),
    {
        let previous_content = &compare_order_structure.previous_content;
        let new_content = &compare_order_structure.new_content;
        let prev_hash_lines = &previous_content.hash_lines;
        let prev_line_contents = &previous_content.hash_to_content;
        let new_hash_lines = &new_content.hash_lines;
        let unique_hash_lines_in_prev_lines = set_difference(prev_hash_lines, new_hash_lines);
        let ghost unique = set_items(unique_hash_lines_in_prev_lines);
        let ghost pc = previous_content.contents();
        let mut unique_line_contents = map_new();
        let n = set_len(&unique_hash_lines_in_prev_lines);
        let mut i: usize = 0;
        while i < n
            invariant
                n == unique.len(),
                unique == set_items(unique_hash_lines_in_prev_lines),
                pc == previous_content.contents(),
                *prev_line_contents == previous_content.hash_to_content,
                i <= n,
                keys_unique(map_entries(unique_line_contents)),
                entries_map(map_entries(unique_line_contents)) == Map::new(
                    |k: Seq<char>| unique.take(i as int).contains(k) && pc.dom().contains(k),
                    |k: Seq<char>| pc[k],
                ),
            decreases n - i,
        {
            let unique_prev_line_hash = set_get_index(&unique_hash_lines_in_prev_lines, i).unwrap();
            let ghost before = map_entries(unique_line_contents);
            proof {
                lemma_entries_get_none(map_entries(*prev_line_contents), unique_prev_line_hash@);
                assert(unique.take(i + 1) == unique.take(i as int).push(unique[i as int]));
                assert forall|k: Seq<char>| #[trigger]
                    unique.take(i + 1).contains(k) <==> unique.take(i as int).contains(k) || k
                        == unique[i as int] by {
                    lemma_push_contains(unique.take(i as int), unique[i as int], k);
                }
            }
            match map_get(prev_line_contents, unique_prev_line_hash) {
                Some(unique_line_content) => {
                    let r = map_insert(
                        &mut unique_line_contents,
                        unique_prev_line_hash.clone(),
                        unique_line_content.clone(),
                    );
                    proof {
                        match r {
                            Some(_) => {
                                let j = choose|j: int|
                                    0 <= j < before.len() && #[trigger] before[j].0
                                        == unique_prev_line_hash@ && map_entries(
                                        unique_line_contents,
                                    ) == before.update(
                                        j,
                                        (unique_prev_line_hash@, unique_line_content@),
                                    );
                                lemma_entries_update(
                                    before,
                                    j,
                                    unique_prev_line_hash@,
                                    unique_line_content@,
                                );
                            },
                            None => {
                                lemma_entries_push(
                                    before,
                                    unique_prev_line_hash@,
                                    unique_line_content@,
                                );
                            },
                        }
                        assert(entries_map(map_entries(unique_line_contents)) =~= Map::new(
                            |k: Seq<char>|
                                unique.take(i + 1).contains(k) && pc.dom().contains(k),
                            |k: Seq<char>| pc[k],
                        ));
                    }
                },
                None => {
                    proof {
                        assert(entries_map(map_entries(unique_line_contents)) =~= Map::new(
                            |k: Seq<char>|
                                unique.take(i + 1).contains(k) && pc.dom().contains(k),
                            |k: Seq<char>| pc[k],
                        ));
                    }
                },
            }
            i += 1;
        }
        proof {
            assert(unique.take(n as int) == unique);
            let prev_lines = previous_content.lines();
            let new_lines = new_content.lines();
            let pred = |x: Seq<char>| !new_lines.contains(x);
            assert(unique == prev_lines.filter(pred));
            assert forall|k: Seq<char>| #[trigger] unique.contains(k) <==> prev_lines.contains(k)
                && !new_lines.contains(k) by {
                if unique.contains(k) {
                    prev_lines.lemma_filter_contains_rev(pred, k);
                    let j = choose|j: int| 0 <= j < unique.len() && unique[j] == k;
                    prev_lines.lemma_filter_pred(pred, j);
                }
                if prev_lines.contains(k) && !new_lines.contains(k) {
                    let j = choose|j: int| 0 <= j < prev_lines.len() && prev_lines[j] == k;
                    prev_lines.lemma_filter_contains(pred, j);
                }
            }
        }
        let res = BlobObject::new(prev_hash_lines, &mut unique_line_contents);
        proof {
            assert(res.contents() =~= diff_contents(
                compare_order_structure.previous_content,
                compare_order_structure.new_content,
            ));
        }
        res
    }

    /// The blob of a file's lines: each distinct line hash once, in order of first
    /// appearance, and for each hash the last line with that hash; contents sorted by hash.
    pub fn from_string_lines(lines: Vec<String>) -> (res: BlobObject)
        ensures
            res.lines() == line_hashes(string_seq_views(lines@)),
            res.contents() == line_contents(string_seq_views(lines@)),
            keys_sorted(map_entries(res.hash_to_content)),
            res.wf(),
    {
        let mut hash_lines = set_new();
        let mut hash_to_content = map_new();
        let mut i: usize = 0;
        while i < lines.len()
            invariant
                i <= lines@.len(),
                set_items(hash_lines) == line_hashes(string_seq_views(lines@.take(i as int))),
                keys_unique(map_entries(hash_to_content)),
                entries_map(map_entries(hash_to_content)) == line_contents(
                    string_seq_views(lines@.take(i as int)),
                ),
            decreases lines@.len() - i,
        {
            let line = lines[i].clone();
            let hash_line = HashPointer::from_string(line.as_str()).get_one_hash();
            let ghost before = map_entries(hash_to_content);
            proof {
                assert(string_seq_views(lines@.take(i + 1)).drop_last() == string_seq_views(
                    lines@.take(i as int),
                ));
                assert(string_seq_views(lines@.take(i + 1)).last() == line@);
            }
            set_insert(&mut hash_lines, hash_line.clone());
            let r = map_insert(&mut hash_to_content, hash_line, line);
            proof {
                match r {
                    Some(_) => {
                        let j = choose|j: int|
                            0 <= j < before.len() && #[trigger] before[j].0 == hash_line@
                                && map_entries(hash_to_content) == before.update(
                                j,
                                (hash_line@, line@),
                            );
                        lemma_entries_update(before, j, hash_line@, line@);
                    },
                    None => {
                        lemma_entries_push(before, hash_line@, line@);
                    },
                }
            }
            i += 1;
        }
        proof {
            assert(lines@.take(lines@.len() as int) == lines@);
        }
        BlobObject::new(&hash_lines, &mut hash_to_content)
    }

    /// The diff of two files given by their lines: the blob of the previous lines compared
    /// against the blob of the new lines.
    pub fn get_diff(prev_lines: Vec<String>, new_lines: Vec<String>) -> (res: BlobObject)
        ensures
            res.lines() == line_hashes(string_seq_views(prev_lines@)),
            res.contents() == Map::new(
                |k: Seq<char>|
                    line_hashes(string_seq_views(prev_lines@)).contains(k) && !line_hashes(
                        string_seq_views(new_lines@),
                    ).contains(k) && line_contents(string_seq_views(prev_lines@)).dom().contains(k),
                |k: Seq<char>| line_contents(string_seq_views(prev_lines@))[k],
            ),
            res.wf(),
    {
        let first = Self::from_string_lines(prev_lines);
        let second = Self::from_string_lines(new_lines);
        let diff = Self::compare_hashed_content_biased_previous(
            &CompareOrderStructure { previous_content: first, new_content: second },
        );
        proof {
            assert(diff.contents() =~= Map::new(
                |k: Seq<char>|
                    line_hashes(string_seq_views(prev_lines@)).contains(k) && !line_hashes(
                        string_seq_views(new_lines@),
                    ).contains(k) && line_contents(string_seq_views(prev_lines@)).dom().contains(k),
                |k: Seq<char>| line_contents(string_seq_views(prev_lines@))[k],
            ));
        }
        diff
    }
}

/// Rebuilds the previous lines of a file from its newer blob and the diff of the previous
/// blob against it: for each line hash of the diff, in order, the content recorded in the
/// newer blob, else the one recorded in the diff; a hash recorded in neither is skipped.
pub fn restore_previous_version(fixed_next_content: &BlobObject, diff_content: &BlobObject) -> (res:
    Vec<String>)
    ensures
        string_seq_views(res@) == restored_lines(
            fixed_next_content.contents(),
            diff_content.lines(),
            diff_content.contents(),
        ),
{
    let ghost hashes = diff_content.lines();
    let n = set_len(&diff_content.hash_lines);
    let mut previous_lines: Vec<String> = Vec::new();
    let mut i: usize = 0;
    while i < n
        invariant
            n == hashes.len(),
            hashes == diff_content.lines(),
            i <= n,
            string_seq_views(previous_lines@) == restored_lines(
                fixed_next_content.contents(),
                hashes.take(i as int),
                diff_content.contents(),
            ),
        decreases n - i,
    {
        let line_hash = set_get_index(&diff_content.hash_lines, i).unwrap();
        proof {
            lemma_entries_get_none(map_entries(fixed_next_content.hash_to_content), line_hash@);
            lemma_entries_get_none(map_entries(diff_content.hash_to_content), line_hash@);
            assert(hashes.take(i + 1).drop_last() == hashes.take(i as int));
            assert(hashes.take(i + 1).last() == line_hash@);
        }
        let ghost before = previous_lines@;
        match map_get(&fixed_next_content.hash_to_content, line_hash) {
            Some(content) => {
                previous_lines.push(content.clone());
                proof {
                    assert(string_seq_views(previous_lines@) == string_seq_views(before).push(content@));
                }
            },
            None => match map_get(&diff_content.hash_to_content, line_hash) {
                Some(content) => {
                    previous_lines.push(content.clone());
                    proof {
                        assert(string_seq_views(previous_lines@) == string_seq_views(before).push(
                            content@,
                        ));
                    }
                },
                None => {},
            },
        }
        i += 1;
    }
    proof {
        assert(hashes.take(n as int) == hashes);
    }
    previous_lines
}

/// Every line hash of the blob has its content recorded, and every recorded content
/// belongs to one of its line hashes.
pub open spec fn complete(b: BlobObject) -> bool {
    forall|k: Seq<char>| #[trigger] b.contents().dom().contains(k) <==> b.lines().contains(k)
}

/// Where both blobs record content for a line hash, they record the same content.
pub open spec fn agree(a: BlobObject, b: BlobObject) -> bool {
    forall|k: Seq<char>|
        #[trigger] a.contents().dom().contains(k) && b.contents().dom().contains(k) ==> a.contents()[k]
            == b.contents()[k]
}

/// The lines a blob records content for, in the order of its line hashes.
pub open spec fn known_lines(b: BlobObject) -> Seq<Seq<char>> {
    restored_lines(Map::empty(), b.lines(), b.contents())
}

/// Rebuilding the line with hash `h` from `next` and `diff` gives the line `own` records.
pub open spec fn restores_like(
    next: Map<Seq<char>, Seq<char>>,
    diff: Map<Seq<char>, Seq<char>>,
    own: Map<Seq<char>, Seq<char>>,
    h: Seq<char>,
) -> bool {
    &&& next.dom().contains(h) ==> own.dom().contains(h) && next[h] == own[h]
    &&& !next.dom().contains(h) ==> (diff.dom().contains(h) <==> own.dom().contains(h))
    &&& diff.dom().contains(h) && !next.dom().contains(h) ==> diff[h] == own[h]
}

/// Where every hash restores like `own`, rebuilding from `next` and `diff` gives the lines
/// `own` records.
proof fn lemma_restore_prefix(
    hashes: Seq<Seq<char>>,
    next: Map<Seq<char>, Seq<char>>,
    diff: Map<Seq<char>, Seq<char>>,
    own: Map<Seq<char>, Seq<char>>,
)
    requires
        forall|h: Seq<char>| #[trigger] hashes.contains(h) ==> restores_like(next, diff, own, h),
    ensures
        restored_lines(next, hashes, diff) == restored_lines(Map::empty(), hashes, own),
    decreases hashes.len(),
{
    if hashes.len() > 0 {
        let rest = hashes.drop_last();
        assert forall|h: Seq<char>| #[trigger] rest.contains(h) implies restores_like(
            next,
            diff,
            own,
            h,
        ) by {
            let j = choose|j: int| 0 <= j < rest.len() && rest[j] == h;
            assert(hashes[j] == h);
            assert(hashes.contains(h));
        }
        lemma_restore_prefix(rest, next, diff, own);
        assert(hashes.contains(hashes.last())) by {
            assert(hashes[hashes.len() - 1] == hashes.last());
        }
    }
}

/// Restoring from the newer blob and the diff of the previous blob against it gives back
/// the lines the previous blob records, in order, provided each blob records content for
/// exactly its own line hashes and the two agree where both record a line hash.
pub proof fn law_restore_recovers_previous(prev: BlobObject, new: BlobObject)
    requires
        complete(prev),
        complete(new),
        agree(prev, new),
    ensures
        restored_lines(new.contents(), prev.lines(), diff_contents(prev, new)) == known_lines(prev),
{
    let next = new.contents();
    let diff = diff_contents(prev, new);
    let own = prev.contents();
    assert forall|h: Seq<char>| #[trigger] prev.lines().contains(h) implies restores_like(
        next,
        diff,
        own,
        h,
    ) by {
        assert(own.dom().contains(h));
        if !next.dom().contains(h) {
            assert(!new.lines().contains(h));
        }
    }
    lemma_restore_prefix(prev.lines(), next, diff, own);
}

/// The lines, each once, in order of first appearance.
pub open spec fn distinct_lines(lines: Seq<Seq<char>>) -> Seq<Seq<char>>
    decreases lines.len(),
{
    if lines.len() == 0 {
        Seq::empty()
    } else {
        let prev = distinct_lines(lines.drop_last());
        if prev.contains(lines.last()) {
            prev
        } else {
            prev.push(lines.last())
        }
    }
}

/// No two different lines among these share a hash.
pub open spec fn hashes_distinguish(lines: Seq<Seq<char>>) -> bool {
    forall|x: Seq<char>, y: Seq<char>|
        lines.contains(x) && lines.contains(y) && #[trigger] content_hash(x) == #[trigger] content_hash(
            y,
        ) ==> x == y
}

/// A hash is among the line hashes exactly when some line has it.
proof fn lemma_line_hashes_contains(lines: Seq<Seq<char>>, h: Seq<char>)
    ensures
        line_hashes(lines).contains(h) <==> exists|i: int|
            0 <= i < lines.len() && #[trigger] content_hash(lines[i]) == h,
    decreases lines.len(),
{
    if lines.len() > 0 {
        let rest = lines.drop_last();
        lemma_line_hashes_contains(rest, h);
        lemma_push_contains(line_hashes(rest), content_hash(lines.last()), h);
        if exists|i: int| 0 <= i < lines.len() && #[trigger] content_hash(lines[i]) == h {
            let i = choose|i: int| 0 <= i < lines.len() && #[trigger] content_hash(lines[i]) == h;
            if i < rest.len() {
                assert(content_hash(rest[i]) == h);
            }
        }
        if exists|i: int| 0 <= i < rest.len() && #[trigger] content_hash(rest[i]) == h {
            let i = choose|i: int| 0 <= i < rest.len() && #[trigger] content_hash(rest[i]) == h;
            assert(content_hash(lines[i]) == h);
        }
        assert(content_hash(lines[lines.len() - 1]) == content_hash(lines.last()));
    }
}

/// The distinct lines hold the same lines.
proof fn lemma_distinct_contains(lines: Seq<Seq<char>>, x: Seq<char>)
    ensures
        distinct_lines(lines).contains(x) <==> lines.contains(x),
    decreases lines.len(),
{
    if lines.len() > 0 {
        let rest = lines.drop_last();
        lemma_distinct_contains(rest, x);
        lemma_push_contains(distinct_lines(rest), lines.last(), x);
        lemma_push_contains(rest, lines.last(), x);
        assert(lines == rest.push(lines.last()));
    }
}

/// The contents are recorded for exactly the line hashes.
proof fn lemma_line_contents_dom(lines: Seq<Seq<char>>, h: Seq<char>)
    ensures
        line_contents(lines).dom().contains(h) <==> line_hashes(lines).contains(h),
    decreases lines.len(),
{
    if lines.len() > 0 {
        let rest = lines.drop_last();
        lemma_line_contents_dom(rest, h);
        lemma_push_contains(line_hashes(rest), content_hash(lines.last()), h);
    }
}

/// The content recorded for a hash is a line with that hash.
proof fn lemma_line_contents_value(lines: Seq<Seq<char>>, h: Seq<char>)
    requires
        line_contents(lines).dom().contains(h),
    ensures
        lines.contains(line_contents(lines)[h]),
        content_hash(line_contents(lines)[h]) == h,
    decreases lines.len(),
{
    let rest = lines.drop_last();
    if h != content_hash(lines.last()) {
        lemma_line_contents_value(rest, h);
        let j = choose|j: int| 0 <= j < rest.len() && rest[j] == line_contents(rest)[h];
        assert(lines[j] == line_contents(rest)[h]);
    } else {
        assert(lines[lines.len() - 1] == lines.last());
    }
}

/// Rebuilding the line hashes from a map that holds each line under its hash gives the
/// distinct lines.
proof fn lemma_known_prefix(lines: Seq<Seq<char>>, m: Map<Seq<char>, Seq<char>>)
    requires
        hashes_distinguish(lines),
        forall|l: Seq<char>|
            #[trigger] lines.contains(l) ==> m.dom().contains(content_hash(l)) && m[content_hash(l)]
                == l,
    ensures
        restored_lines(Map::empty(), line_hashes(lines), m) == distinct_lines(lines),
    decreases lines.len(),
{
    if lines.len() > 0 {
        let rest = lines.drop_last();
        let last = lines.last();
        assert(lines == rest.push(last));
        assert forall|l: Seq<char>| #[trigger] rest.contains(l) implies m.dom().contains(
            content_hash(l),
        ) && m[content_hash(l)] == l by {
            lemma_push_contains(rest, last, l);
        }
        assert forall|x: Seq<char>, y: Seq<char>|
            rest.contains(x) && rest.contains(y) && #[trigger] content_hash(x)
                == #[trigger] content_hash(y) implies x == y by {
            lemma_push_contains(rest, last, x);
            lemma_push_contains(rest, last, y);
        }
        lemma_known_prefix(rest, m);
        lemma_push_contains(rest, last, last);
        lemma_line_hashes_contains(rest, content_hash(last));
        lemma_distinct_contains(rest, last);
        if line_hashes(rest).contains(content_hash(last)) {
            let i = choose|i: int|
                0 <= i < rest.len() && #[trigger] content_hash(rest[i]) == content_hash(last);
            assert(rest.contains(rest[i]));
            lemma_push_contains(rest, last, rest[i]);
        }
        let hs = line_hashes(lines);
        if !line_hashes(rest).contains(content_hash(last)) {
            assert(hs.drop_last() == line_hashes(rest));
            assert(hs.last() == content_hash(last));
        }
    }
}

/// The lines of a file come back from its blob, each distinct line once, in order of first
/// appearance, provided no two different lines of the file share a hash.
pub proof fn law_known_lines_of_file(lines: Seq<Seq<char>>, b: BlobObject)
    requires
        b.lines() == line_hashes(lines),
        b.contents() == line_contents(lines),
        hashes_distinguish(lines),
    ensures
        known_lines(b) == distinct_lines(lines),
        complete(b),
{
    assert forall|l: Seq<char>| #[trigger] lines.contains(l) implies line_contents(
        lines,
    ).dom().contains(content_hash(l)) && line_contents(lines)[content_hash(l)] == l by {
        let i = choose|i: int| 0 <= i < lines.len() && lines[i] == l;
        lemma_line_hashes_contains(lines, content_hash(l));
        lemma_line_contents_dom(lines, content_hash(l));
        lemma_line_contents_value(lines, content_hash(l));
    }
    lemma_known_prefix(lines, line_contents(lines));
    assert forall|k: Seq<char>| #[trigger] b.contents().dom().contains(k) <==> b.lines().contains(
        k,
    ) by {
        lemma_line_contents_dom(lines, k);
    }
}

/// Restoring a file's previous lines from the blob of its new lines and the diff of the two
/// files gives back the previous lines, each distinct line once, in order of first
/// appearance, provided no two different lines of the two files share a hash.
pub proof fn law_restore_of_file_diff(
    prev_lines: Seq<Seq<char>>,
    new_lines: Seq<Seq<char>>,
    prev: BlobObject,
    new: BlobObject,
)
    requires
        prev.lines() == line_hashes(prev_lines),
        prev.contents() == line_contents(prev_lines),
        new.lines() == line_hashes(new_lines),
        new.contents() == line_contents(new_lines),
        hashes_distinguish(prev_lines + new_lines),
    ensures
        restored_lines(new.contents(), prev.lines(), diff_contents(prev, new)) == distinct_lines(
            prev_lines,
        ),
{
    let all = prev_lines + new_lines;
    assert forall|x: Seq<char>| prev_lines.contains(x) implies #[trigger] all.contains(x) by {
        let i = choose|i: int| 0 <= i < prev_lines.len() && prev_lines[i] == x;
        assert(all[i] == x);
    }
    assert forall|x: Seq<char>| new_lines.contains(x) implies #[trigger] all.contains(x) by {
        let i = choose|i: int| 0 <= i < new_lines.len() && new_lines[i] == x;
        assert(all[prev_lines.len() + i] == x);
    }
    assert(hashes_distinguish(prev_lines));
    assert(hashes_distinguish(new_lines));
    law_known_lines_of_file(prev_lines, prev);
    law_known_lines_of_file(new_lines, new);
    assert forall|k: Seq<char>|
        #[trigger] prev.contents().dom().contains(k) && new.contents().dom().contains(k) implies prev.contents()[k]
        == new.contents()[k] by {
        lemma_line_contents_value(prev_lines, k);
        lemma_line_contents_value(new_lines, k);
    }
    law_restore_recovers_previous(prev, new);
}

/// Rebuilding line hashes that all have recorded content gives each recorded content.
proof fn lemma_restored_all_known(hs: Seq<Seq<char>>, m: Map<Seq<char>, Seq<char>>)
    requires
        forall|h: Seq<char>| #[trigger] hs.contains(h) ==> m.dom().contains(h),
    ensures
        restored_lines(Map::empty(), hs, m) == hs.map_values(|h: Seq<char>| content_or_empty(m, h)),
    decreases hs.len(),
{
    if hs.len() > 0 {
        let rest = hs.drop_last();
        assert forall|h: Seq<char>| #[trigger] rest.contains(h) implies m.dom().contains(h) by {
            lemma_push_contains(rest, hs.last(), h);
            assert(hs == rest.push(hs.last()));
        }
        lemma_restored_all_known(rest, m);
        assert(hs.contains(hs.last())) by {
            assert(hs[hs.len() - 1] == hs.last());
        }
        assert(hs.map_values(|h: Seq<char>| content_or_empty(m, h)) =~= rest.map_values(
            |h: Seq<char>| content_or_empty(m, h),
        ).push(content_or_empty(m, hs.last())));
    }
}

/// A blob's text holds each recorded line exactly as recorded: one line hash gives its
/// content, and one more line hash adds a newline and its content.
pub proof fn law_blob_text_keeps_lines(hs: Seq<Seq<char>>, h: Seq<char>, m: Map<Seq<char>, Seq<char>>)
    ensures
        m.dom().contains(h) ==> string_content(seq![h], m) == m[h],
        m.dom().contains(h) && hs.len() > 0 ==> string_content(hs.push(h), m) == string_content(hs, m)
            + seq!['\n'] + m[h],
        !m.dom().contains(h) && hs.len() > 0 ==> string_content(hs.push(h), m) == string_content(hs, m)
            + seq!['\n'],
{
    let f = |x: Seq<char>| content_or_empty(m, x);
    assert(seq![h].map_values(f) =~= seq![content_or_empty(m, h)]);
    let parts = hs.push(h).map_values(f);
    assert(parts.drop_last() =~= hs.map_values(f));
    assert(parts.last() == content_or_empty(m, h));
    assert(seq![h].map_values(f)[0] == content_or_empty(m, h));
    if hs.len() > 0 {
        assert(parts.len() > 1);
        assert(content_or_empty(m, h) + Seq::<char>::empty() =~= content_or_empty(m, h));
        if !m.dom().contains(h) {
            assert(string_content(hs, m) + seq!['\n'] + Seq::<char>::empty() =~= string_content(hs, m)
                + seq!['\n']);
        }
    }
}

/// The text of the blob of a file's lines is its distinct lines, unchanged, joined by
/// newlines (so a file of distinct lines comes back as it was), provided no two different
/// lines share a hash.
pub proof fn law_text_of_file_lines(lines: Seq<Seq<char>>)
    requires
        hashes_distinguish(lines),
    ensures
        string_content(line_hashes(lines), line_contents(lines)) == join_lines(distinct_lines(lines)),
        lines.no_duplicates() ==> distinct_lines(lines) == lines,
    decreases lines.len(),
{
    assert forall|l: Seq<char>| #[trigger] lines.contains(l) implies line_contents(
        lines,
    ).dom().contains(content_hash(l)) && line_contents(lines)[content_hash(l)] == l by {
        lemma_line_hashes_contains(lines, content_hash(l));
        lemma_line_contents_dom(lines, content_hash(l));
        lemma_line_contents_value(lines, content_hash(l));
    }
    lemma_known_prefix(lines, line_contents(lines));
    assert forall|h: Seq<char>| #[trigger] line_hashes(lines).contains(h) implies line_contents(
        lines,
    ).dom().contains(h) by {
        lemma_line_contents_dom(lines, h);
    }
    lemma_restored_all_known(line_hashes(lines), line_contents(lines));
    if lines.no_duplicates() && lines.len() > 0 {
        let rest = lines.drop_last();
        assert(hashes_distinguish(rest)) by {
            assert forall|x: Seq<char>, y: Seq<char>|
                rest.contains(x) && rest.contains(y) && #[trigger] content_hash(x)
                    == #[trigger] content_hash(y) implies x == y by {
                lemma_push_contains(rest, lines.last(), x);
                lemma_push_contains(rest, lines.last(), y);
                assert(lines == rest.push(lines.last()));
            }
        }
        assert(rest.no_duplicates());
        law_text_of_file_lines(rest);
        if distinct_lines(rest).contains(lines.last()) {
            lemma_distinct_contains(rest, lines.last());
            let j = choose|j: int| 0 <= j < rest.len() && rest[j] == lines.last();
            assert(lines[j] == lines[lines.len() - 1]);
        }
        assert(lines == rest.push(lines.last()));
    }
}

} // verus!
