use vstd::prelude::*;

use crate::text::same_text;

verus! {

/// Remove all aiken versions.
pub struct Args {
    /// keep the version currently in use
    pub keep_current: bool,
}

/// What becomes of one entry of the versions directory.
#[derive(Debug, PartialEq, Eq, Clone, Copy)]
pub enum EntryAction {
    RemoveDir,
    RemoveFile,
    Keep,
}

impl Args {
    /// Whether the link to the version in use is removed.
    pub fn removes_link(&self) -> (res: bool)
        ensures
            res == !self.keep_current,
    {
        !self.keep_current
    }

    /// What becomes of the entry `name` of the versions directory, where
    /// `current` names the version in use.
    pub fn entry_action(&self, name: &str, current: &str, is_dir: bool, is_file: bool) -> (res:
        EntryAction)
        ensures
            res == (if !(self.keep_current && name@ == current@) && is_dir {
                EntryAction::RemoveDir
            } else if is_file {
                EntryAction::RemoveFile
            } else {
                EntryAction::Keep
            }),
            // the directory of the version in use stays when it is to be kept
            self.keep_current && name@ == current@ && is_dir && !is_file ==> res == EntryAction::Keep,
            // without `keep_current`, no directory stays
            !self.keep_current && is_dir ==> res == EntryAction::RemoveDir,
    {
        let keep_entry = self.keep_current && same_text(name, current);
        if !keep_entry && is_dir {
            EntryAction::RemoveDir
        } else if is_file {
            EntryAction::RemoveFile
        } else {
            EntryAction::Keep
        }
    }
}

} // verus!
