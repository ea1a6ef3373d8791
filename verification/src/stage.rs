//! The stage: the root trees taken by `add` and not yet committed, oldest first.
use crate::pointers::RootTreePointer;
use vstd::prelude::*;

verus! {

/// The staged root trees, oldest first.
#[derive(Debug)]
pub struct Stage {
    pub list_of_root_tree_pointer: Vec<RootTreePointer>,
}

impl Stage {
    /// Stages one more root tree, after the others.
    pub fn add_root_tree_pointer(&mut self, root_tree_pointer: RootTreePointer)
        ensures
            final(self).list_of_root_tree_pointer@ == old(self).list_of_root_tree_pointer@.push(
                root_tree_pointer,
            ),
    {
        self.list_of_root_tree_pointer.push(root_tree_pointer);
    }

    /// The newest staged root tree, if the stage could be read and holds any.
    pub fn get_last_root_tree_pointer(stage: Option<Stage>) -> (res: Option<RootTreePointer>)
        ensures
            res == match stage {
                Some(s) => if s.list_of_root_tree_pointer@.len() > 0 {
                    Some(s.list_of_root_tree_pointer@.last())
                } else {
                    None
                },
                None => None,
            },
    {
        match stage {
            Some(s) => {
                let n = s.list_of_root_tree_pointer.len();
                if n > 0 {
                    Some(s.list_of_root_tree_pointer[n - 1].clone())
                } else {
                    None
                }
            },
            None => None,
        }
    }

    /// The oldest staged root tree, if the stage could be read and holds any.
    pub fn get_first_root_tree_pointer(stage: Option<Stage>) -> (res: Option<RootTreePointer>)
        ensures
            res == match stage {
                Some(s) => if s.list_of_root_tree_pointer@.len() > 0 {
                    Some(s.list_of_root_tree_pointer@[0])
                } else {
                    None
                },
                None => None,
            },
    {
        match stage {
            Some(s) => {
                if s.list_of_root_tree_pointer.len() > 0 {
                    Some(s.list_of_root_tree_pointer[0].clone())
                } else {
                    None
                }
            },
            None => None,
        }
    }

    /// The stage could be read and holds nothing.
    pub fn is_stage_clear(stage: Option<Stage>) -> (res: bool)
        ensures
            res == match stage {
                Some(s) => s.list_of_root_tree_pointer@.len() == 0,
                None => false,
            },
    {
        match stage {
            Some(s) => s.list_of_root_tree_pointer.len() == 0,
            None => false,
        }
    }
}

/// The root tree staged last is the newest on the stage, the oldest stays the oldest when
/// there was one, and the stage is no longer clear.
pub proof fn law_stage_add_then_read(before: Seq<RootTreePointer>, p: RootTreePointer)
    ensures
        before.push(p).last() == p,
        before.len() > 0 ==> before.push(p)[0] == before[0],
        before.len() == 0 ==> before.push(p)[0] == p,
        before.push(p).len() != 0,
{
}

} // verus!
