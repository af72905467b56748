//! The snapshot of one location: its entries, keyed by relative path.

use crate::location::{LocTypes, LocView};
use crate::time::Timestamp;
use vstd::prelude::*;

verus! {

/// One entry of a location: where it lives, whether it is a folder, and when
/// it was last modified (for comparison, and as text for a reader).
#[derive(Debug)]
pub struct FileEntry {
    pub location: LocTypes,
    pub is_folder: bool,
    pub modified_at: Timestamp,
    pub display_time: String,
}

/// The mathematical value of a [`FileEntry`].
pub struct EntryView {
    pub location: LocView,
    pub is_folder: bool,
    pub modified_at: Timestamp,
    pub display_time: Seq<char>,
}

impl EntryView {
    /// Whether the entry carries bytes: it is no folder, on whatever backend.
    pub open spec fn carries_bytes(self) -> bool {
        !self.is_folder && self.location.content_bearing()
    }
}

impl View for FileEntry {
    type V = EntryView;

    open spec fn view(&self) -> EntryView {
        EntryView {
            location: self.location@,
            is_folder: self.is_folder,
            modified_at: self.modified_at,
            display_time: self.display_time@,
        }
    }
}

impl FileEntry {
    /// An entry from its parts: a folder where its location is one, else a
    /// file.
    pub fn new(location: LocTypes, modified_at: Timestamp, display_time: String) -> (e: FileEntry)
        ensures
            e.location == location,
            e.is_folder == (location@ is Folder),
            e.modified_at == modified_at,
            e.display_time == display_time,
    {
        let is_folder = !location.is_content_bearing();
        FileEntry { location, is_folder, modified_at, display_time }
    }

    /// An entry for a folder, on whatever backend it lives.
    pub fn directory(location: LocTypes, modified_at: Timestamp, display_time: String) -> (e:
        FileEntry)
        ensures
            e.location == location,
            e.is_folder,
            e.modified_at == modified_at,
            e.display_time == display_time,
    {
        FileEntry { location, is_folder: true, modified_at, display_time }
    }

    /// Whether the entry carries bytes.
    pub fn carries_bytes(&self) -> (r: bool)
        ensures
            r == self@.carries_bytes(),
    {
        !self.is_folder && self.location.is_content_bearing()
    }

    /// A copy of this entry.
    pub fn duplicate(&self) -> (r: FileEntry)
        ensures
            r == *self,
    {
        FileEntry {
            location: self.location.duplicate(),
            is_folder: self.is_folder,
            modified_at: self.modified_at,
            display_time: self.display_time.clone(),
        }
    }
}

/// The mathematical value of a [`FileIndex`]: relative paths with their
/// entries, in the order in which the entries are visited.
pub type IndexView = Seq<(Seq<char>, EntryView)>;

/// Whether no relative path occurs twice.
pub open spec fn unique_paths(idx: IndexView) -> bool {
    forall|i: int, j: int| 0 <= i < j < idx.len() ==> idx[i].0 != idx[j].0
}

/// Whether `path` is a key of the index.
pub open spec fn holds(idx: IndexView, path: Seq<char>) -> bool {
    exists|k: int| 0 <= k < idx.len() && #[trigger] idx[k].0 == path
}

/// The position at which `path` is a key of the index.
pub open spec fn position(idx: IndexView, path: Seq<char>) -> int {
    choose|k: int| 0 <= k < idx.len() && #[trigger] idx[k].0 == path
}

/// The entry that the index holds for `path`.
pub open spec fn lookup(idx: IndexView, path: Seq<char>) -> Option<EntryView> {
    if holds(idx, path) {
        Some(idx[position(idx, path)].1)
    } else {
        None
    }
}

/// The index after `entry` was stored for `path`: in place of the entry that
/// was held for `path`, or else behind all others.
pub open spec fn stored(idx: IndexView, path: Seq<char>, entry: EntryView) -> IndexView {
    if holds(idx, path) {
        idx.update(position(idx, path), (path, entry))
    } else {
        idx.push((path, entry))
    }
}

/// In an index without repeated paths, a path is found at one position only.
pub proof fn lemma_position_unique(idx: IndexView, path: Seq<char>, k: int)
    requires
        unique_paths(idx),
        0 <= k < idx.len(),
        idx[k].0 == path,
    ensures
        holds(idx, path),
        position(idx, path) == k,
        lookup(idx, path) == Some(idx[k].1),
{
    let p = position(idx, path);
    if p < k {
        assert(idx[p].0 != idx[k].0);
    } else if k < p {
        assert(idx[k].0 != idx[p].0);
    }
}

/// A relative-path-keyed snapshot of one location. No path occurs twice.
#[derive(Debug)]
pub struct FileIndex {
    paths: Vec<String>,
    entries: Vec<FileEntry>,
}

impl View for FileIndex {
    type V = IndexView;

    closed spec fn view(&self) -> IndexView {
        Seq::new(
            self.paths@.len(),
            |k: int|
                (
                    self.paths@[k]@,
                    if k < self.entries@.len() {
                        self.entries@[k]@
                    } else {
                        arbitrary()
                    },
                ),
        )
    }
}

impl FileIndex {
    #[verifier::type_invariant]
    spec fn well_formed(&self) -> bool {
        &&& self.paths@.len() == self.entries@.len()
        &&& forall|i: int, j: int|
            0 <= i < j < self.paths@.len() ==> self.paths@[i]@ != self.paths@[j]@
    }

    /// The empty index.
    pub fn new() -> (idx: FileIndex)
        ensures
            idx@ == Seq::<(Seq<char>, EntryView)>::empty(),
    {
        let idx = FileIndex { paths: Vec::new(), entries: Vec::new() };
        assert(idx@ =~= Seq::<(Seq<char>, EntryView)>::empty());
        idx
    }

    /// The number of entries.
    pub fn len(&self) -> (n: usize)
        ensures
            n == self@.len(),
            unique_paths(self@),
    {
        proof {
            use_type_invariant(self);
        }
        self.paths.len()
    }

    /// The relative path of the entry at position `k`.
    pub fn path_at(&self, k: usize) -> (p: &String)
        requires
            k < self@.len(),
        ensures
            p@ == self@[k as int].0,
    {
        &self.paths[k]
    }

    /// The entry at position `k`.
    pub fn entry_at(&self, k: usize) -> (e: &FileEntry)
        requires
            k < self@.len(),
        ensures
            e@ == self@[k as int].1,
    {
        proof {
            use_type_invariant(self);
        }
        &self.entries[k]
    }

    /// The position of `path` among the keys.
    pub fn find(&self, path: &str) -> (r: Option<usize>)
        ensures
            unique_paths(self@),
            match r {
                Some(k) => k < self@.len() && self@[k as int].0 == path@ && holds(self@, path@)
                    && position(self@, path@) == k,
                None => !holds(self@, path@),
            },
    {
        proof {
            use_type_invariant(self);
        }
        assert(unique_paths(self@));
        let key = path.to_owned();
        let mut k: usize = 0;
        while k < self.paths.len()
            invariant
                key@ == path@,
                unique_paths(self@),
                k <= self.paths@.len(),
                self.paths@.len() == self@.len(),
                forall|i: int| 0 <= i < k ==> (#[trigger] self@[i]).0 != path@,
                forall|i: int| 0 <= i < self@.len() ==> (#[trigger] self@[i]).0 == self.paths@[i]@,
            decreases self.paths@.len() - k,
        {
            if self.paths[k] == key {
                proof {
                    lemma_position_unique(self@, path@, k as int);
                }
                return Some(k);
            }
            k += 1;
        }
        None
    }

    /// Whether `path` is a key.
    pub fn contains_key(&self, path: &str) -> (r: bool)
        ensures
            r == holds(self@, path@),
    {
        self.find(path).is_some()
    }

    /// The entry held for `path`.
    pub fn get(&self, path: &str) -> (r: Option<&FileEntry>)
        ensures
            match r {
                Some(e) => lookup(self@, path@) == Some(e@),
                None => lookup(self@, path@) is None,
            },
    {
        match self.find(path) {
            Some(k) => Some(self.entry_at(k)),
            None => None,
        }
    }

    /// Stores `entry` for `path`, in place of an entry that was held for it.
    pub fn insert(&mut self, path: String, entry: FileEntry)
        ensures
            final(self)@ == stored(old(self)@, path@, entry@),
    {
        proof {
            use_type_invariant(&*self);
        }
        let found = self.find(path.as_str());
        let ghost before = self@;
        let mut taken = FileIndex::new();
        core::mem::swap(self, &mut taken);
        proof {
            use_type_invariant(&taken);
        }
        assert(taken@ == before);
        let FileIndex { paths: mut paths, entries: mut entries } = taken;
        assert(forall|i: int| 0 <= i < before.len() ==> (#[trigger] before[i]).0 == paths@[i]@);
        match found {
            Some(k) => {
                entries.set(k, entry);
            },
            None => {
                assert(forall|i: int| 0 <= i < before.len() ==> (#[trigger] before[i]).0 != path@);
                assert(forall|i: int| 0 <= i < paths@.len() ==> (#[trigger] paths@[i])@ != path@) by {
                    assert forall|i: int| 0 <= i < paths@.len() implies (#[trigger] paths@[i])@
                        != path@ by {
                        assert(before[i].0 == paths@[i]@);
                    }
                }
                paths.push(path);
                entries.push(entry);
            },
        }
        *self = FileIndex { paths, entries };
        assert(self@ =~= stored(before, path@, entry@));
    }
}

} // verus!
