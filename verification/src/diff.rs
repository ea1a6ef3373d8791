//! Line-by-line comparison: each pair of lines is unchanged or replaced, and runs of lines
//! of the same kind are grouped into blocks, each with a running hash.
use crate::hashing::{content_hash, one_hash, HashPointer, HashPointerTraits};
use vstd::prelude::*;
use vstd::string::*;

verus! {

/// Whether a line stayed the same or was replaced.
#[derive(Debug, Clone, Copy, PartialEq, Eq, Structural)]
pub enum DiffLineType {
    NOCHANGE,
    REPLACE,
}

/// A line with its hash.
#[derive(Debug)]
pub struct Line {
    line_value: String,
    line_hash: HashPointer,
}

impl Clone for Line {
    fn clone(&self) -> (res: Self)
        ensures
            res == *self,
    {
        Line { line_value: self.line_value.clone(), line_hash: self.line_hash.clone() }
    }
}

impl Line {
    /// The line's text.
    pub closed spec fn value(&self) -> Seq<char> {
        self.line_value@
    }

    /// The line's hash pointer.
    pub closed spec fn hash(&self) -> HashPointer {
        self.line_hash
    }

    /// A line and the hash of its text.
    pub fn new(line: String) -> (res: Line)
        ensures
            res.value() == line@,
            one_hash(res.hash()) == content_hash(line@),
            res.hash().fold_view() == content_hash(line@).subrange(0, 2),
            res.hash().file_view() == content_hash(line@).subrange(2, 64),
    {
        let line_hash = HashPointer::from_string(line.as_str());
        Line { line_value: line, line_hash }
    }

    /// The line's hash pointer.
    pub fn line_hash(&self) -> (res: HashPointer)
        ensures
            res == self.hash(),
    {
        self.line_hash.clone()
    }
}

/// One compared line: its kind, and the previous line when it was replaced (an empty
/// line otherwise).
#[derive(Debug)]
pub struct DiffLine {
    pub diff_line_type: DiffLineType,
    pub copy_from_live: Line,
}

impl Clone for DiffLine {
    fn clone(&self) -> (res: Self)
        ensures
            res == *self,
    {
        DiffLine { diff_line_type: self.diff_line_type, copy_from_live: self.copy_from_live.clone() }
    }
}

impl DiffLine {
    /// Compares a previous line with the live line by hash: the same hash is `NOCHANGE`
    /// (keeping an empty line), another is `REPLACE` (keeping the previous line).
    pub fn from(prev_line: Line, live_line: Line) -> (res: Self)
        ensures
            one_hash(prev_line.hash()) == one_hash(live_line.hash()) ==> res.diff_line_type
                == DiffLineType::NOCHANGE && res.copy_from_live.value() == Seq::<char>::empty()
                && one_hash(res.copy_from_live.hash()) == content_hash(Seq::<char>::empty()),
            one_hash(prev_line.hash()) != one_hash(live_line.hash()) ==> res.diff_line_type
                == DiffLineType::REPLACE && res.copy_from_live == prev_line,
    {
        let diff_line_type = if prev_line.line_hash == live_line.line_hash {
            DiffLineType::NOCHANGE
        } else {
            DiffLineType::REPLACE
        };
        let copy_from_live = if diff_line_type == DiffLineType::REPLACE {
            prev_line
        } else {
            Line::new(String::new())
        };
        Self { diff_line_type, copy_from_live }
    }
}

/// A run of compared lines of one kind, with a running hash.
#[derive(Debug)]
pub struct Block {
    pub block_content: Vec<DiffLine>,
    pub block_type: DiffLineType,
    pub block_hash: HashPointer,
}

/// `b` is the block that holds just `diff_line`.
pub open spec fn is_block_of(b: Block, diff_line: DiffLine) -> bool {
    &&& b.block_content@ == seq![diff_line]
    &&& b.block_type == diff_line.diff_line_type
    &&& b.block_hash == diff_line.copy_from_live.hash()
}

/// `after` is `before` with `diff_line` added: the line appended, the kind kept, and the
/// hash's file part replaced by that of the hash of the line's whole hash.
pub open spec fn is_extended(after: Block, before: Block, diff_line: DiffLine) -> bool {
    &&& after.block_content@ == before.block_content@.push(diff_line)
    &&& after.block_type == before.block_type
    &&& after.block_hash.fold_view() == before.block_hash.fold_view()
    &&& after.block_hash.file_view() == content_hash(one_hash(diff_line.copy_from_live.hash())).subrange(2, 64)
}

impl Block {
    /// The block holding just `diff_line`, with its hash.
    pub fn from(diff_line: DiffLine) -> (res: Self)
        ensures
            is_block_of(res, diff_line),
    {
        let copy = diff_line.clone();
        let mut block_content = Vec::new();
        block_content.push(copy);
        Self {
            block_type: diff_line.diff_line_type,
            block_hash: diff_line.copy_from_live.line_hash(),
            block_content,
        }
    }

    /// Adds a line of the block's kind; a line of the other kind is refused and the block
    /// left as it was.
    pub fn add(&mut self, diff_line: DiffLine) -> (res: Result<(), String>)
        ensures
            diff_line.diff_line_type == old(self).block_type ==> res is Ok && is_extended(
                *final(self),
                *old(self),
                diff_line,
            ),
            diff_line.diff_line_type != old(self).block_type ==> (res matches Err(m) && m@
                == "DiffLine type mismatch"@) && *final(self) == *old(self),
    {
        if diff_line.diff_line_type == self.block_type {
            let h = diff_line.copy_from_live.line_hash().get_one_hash();
            self.block_hash.update_hash(h);
            self.block_content.push(diff_line);
            Ok(())
        } else {
            Err("DiffLine type mismatch".to_owned())
        }
    }
}

/// Compared lines grouped into blocks, with the hash of the first block.
#[derive(Debug)]
pub struct ContentBlock {
    pub content: Vec<Block>,
    pub content_hash: HashPointer,
}

impl ContentBlock {
    /// No blocks; the hash is that of the empty text.
    pub fn new() -> (res: Self)
        ensures
            res.content@.len() == 0,
            one_hash(res.content_hash) == content_hash(Seq::<char>::empty()),
    {
        let empty = String::new();
        Self { content_hash: HashPointer::from_string(empty.as_str()), content: Vec::new() }
    }

    /// Just `block`, whose hash becomes the content's hash.
    pub fn from(block: Block) -> (res: Self)
        ensures
            res.content@ == seq![block],
            res.content_hash == block.block_hash,
    {
        let content_hash = block.block_hash.clone();
        let mut content = Vec::new();
        content.push(block);
        Self { content_hash, content }
    }

    /// Adds a compared line: to the last block when it is of the line's kind, else in a
    /// new block; the first block's hash becomes the content's hash.
    pub fn add(&mut self, diff_line: DiffLine)
        ensures
            old(self).content@.len() == 0 ==> final(self).content@.len() == 1 && is_block_of(
                final(self).content@[0],
                diff_line,
            ) && final(self).content_hash == diff_line.copy_from_live.hash(),
            old(self).content@.len() > 0 && old(self).content@.last().block_type
                == diff_line.diff_line_type ==> final(self).content@.len() == old(self).content@.len()
                && final(self).content@.drop_last() == old(self).content@.drop_last() && is_extended(
                final(self).content@.last(),
                old(self).content@.last(),
                diff_line,
            ) && final(self).content_hash == old(self).content_hash,
            old(self).content@.len() > 0 && old(self).content@.last().block_type
                != diff_line.diff_line_type ==> final(self).content@.len() == old(self).content@.len()
                + 1 && final(self).content@.drop_last() == old(self).content@ && is_block_of(
                final(self).content@.last(),
                diff_line,
            ) && final(self).content_hash == old(self).content_hash,
    {
        let n = self.content.len();
        if n > 0 {
            if self.content[n - 1].block_type == diff_line.diff_line_type {
                let mut last_block = self.content.pop().unwrap();
                let added = last_block.add(diff_line);
                assert(added is Ok);
                self.content.push(last_block);
            } else {
                self.content.push(Block::from(diff_line));
            }
        } else {
            let block = Block::from(diff_line);
            self.content_hash = block.block_hash.clone();
            self.content.push(block);
        }
    }
}

} // verus!
