//! Snapshots of local trees: from what a walk of a folder found to the
//! index of the folder.

use crate::index::{stored, EntryView, FileEntry, FileIndex, IndexView};
use crate::location::{LocTypes, LocView};
use crate::paths::{relative, relative_path};
use crate::time::Timestamp;
use crate::watcher::{ignored, is_ignored};
use vstd::prelude::*;

verus! {

/// One thing that a walk of a folder came by: its full path, whether it is a
/// folder itself, and when it was last modified.
#[derive(Debug)]
pub struct WalkEntry {
    pub path: String,
    pub is_dir: bool,
    pub modified: Timestamp,
    pub display_time: String,
}

/// The mathematical value of a [`WalkEntry`].
pub struct WalkView {
    pub path: Seq<char>,
    pub is_dir: bool,
    pub modified: Timestamp,
    pub display_time: Seq<char>,
}

impl View for WalkEntry {
    type V = WalkView;

    open spec fn view(&self) -> WalkView {
        WalkView {
            path: self.path@,
            is_dir: self.is_dir,
            modified: self.modified,
            display_time: self.display_time@,
        }
    }
}

/// The mathematical values of what a walk came by.
pub open spec fn walk_views(entries: Seq<WalkEntry>) -> Seq<WalkView> {
    Seq::new(entries.len(), |k: int| entries[k]@)
}

impl WalkView {
    /// The entry of the index that stands for this find: a folder as a
    /// folder, anything else as a file.
    pub open spec fn entry(self) -> EntryView {
        EntryView {
            location: if self.is_dir {
                LocView::Folder(self.path)
            } else {
                LocView::SimpleFile(self.path)
            },
            is_folder: self.is_dir,
            modified_at: self.modified,
            display_time: self.display_time,
        }
    }
}

/// The index of the folder `dir` after the first `n` finds of a walk were
/// taken in. Each find is keyed by its path relative to `dir`. Hidden marker
/// files are left out, and so is what does not lie beneath `dir`.
pub open spec fn walk_index(dir: Seq<char>, entries: Seq<WalkView>, n: int) -> IndexView
    decreases n,
{
    if n <= 0 || n > entries.len() {
        Seq::<(Seq<char>, EntryView)>::empty()
    } else {
        let before = walk_index(dir, entries, n - 1);
        let found = entries[n - 1];
        if ignored(found.path) {
            before
        } else {
            match relative(dir, found.path) {
                Some(rel) => stored(before, rel, found.entry()),
                None => before,
            }
        }
    }
}

impl WalkEntry {
    /// A find from its parts.
    pub fn new(path: String, is_dir: bool, modified: Timestamp, display_time: String) -> (e:
        WalkEntry)
        ensures
            e.path == path,
            e.is_dir == is_dir,
            e.modified == modified,
            e.display_time == display_time,
    {
        WalkEntry { path, is_dir, modified, display_time }
    }

    /// The entry of the index that stands for this find.
    pub fn to_entry(&self) -> (e: FileEntry)
        ensures
            e@ == self@.entry(),
    {
        let location = if self.is_dir {
            LocTypes::Folder(self.path.clone())
        } else {
            LocTypes::SimpleFile(self.path.clone())
        };
        FileEntry::new(location, self.modified, self.display_time.clone())
    }
}

/// The index of the folder `dir`, from all that a walk of it came by.
pub fn list_files_recursive(dir: &str, entries: &Vec<WalkEntry>) -> (idx: FileIndex)
    ensures
        idx@ == walk_index(dir@, walk_views(entries@), entries@.len() as int),
{
    let mut idx = FileIndex::new();
    let mut k: usize = 0;
    while k < entries.len()
        invariant
            k <= entries@.len(),
            idx@ == walk_index(dir@, walk_views(entries@), k as int),
        decreases entries@.len() - k,
    {
        let found = &entries[k];
        assert(walk_views(entries@)[k as int] == found@);
        if !is_ignored(found.path.as_str()) {
            match relative_path(dir, found.path.as_str()) {
                Some(rel) => {
                    idx.insert(rel, found.to_entry());
                },
                None => {},
            }
        }
        k += 1;
    }
    idx
}

} // verus!
