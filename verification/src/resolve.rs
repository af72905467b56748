//! The decision taken for one entry of one ordered pair of locations.

use crate::index::{lookup, EntryView, FileEntry, FileIndex, IndexView};
use crate::text::str_equal;
use crate::location::{LocTypes, LocView};
use crate::modes::SyncMode;
use crate::time::Timestamp;
use vstd::prelude::*;

verus! {

/// What is to be done about one entry of the first location of a pair.
#[derive(Debug)]
pub enum Resolution {
    /// The two locations agree on the entry, or cannot be brought to.
    Nothing,
    /// The bytes of `from` replace those of `to`, which then takes the
    /// modification time `stamp`.
    Copy { from: LocTypes, to: LocTypes, stamp: Timestamp },
    /// The file `from` is made anew beneath `into`, at the relative path `rel`.
    Replicate { from: LocTypes, into: LocTypes, rel: String },
    /// The folder `rel` is made beneath `into`.
    MakeFolder { into: LocTypes, rel: String },
    /// The entry is stale and is removed.
    Remove { target: LocTypes },
    /// The entry is stale but cannot be removed: a whole pass is run instead.
    Resync,
}

/// The mathematical value of a [`Resolution`].
pub enum ResolutionView {
    Nothing,
    Copy { from: LocView, to: LocView, stamp: Timestamp },
    Replicate { from: LocView, into: LocView, rel: Seq<char> },
    MakeFolder { into: LocView, rel: Seq<char> },
    Remove { target: LocView },
    Resync,
}

impl View for Resolution {
    type V = ResolutionView;

    open spec fn view(&self) -> ResolutionView {
        match *self {
            Resolution::Nothing => ResolutionView::Nothing,
            Resolution::Copy { from, to, stamp } => ResolutionView::Copy {
                from: from@,
                to: to@,
                stamp,
            },
            Resolution::Replicate { from, into, rel } => ResolutionView::Replicate {
                from: from@,
                into: into@,
                rel: rel@,
            },
            Resolution::MakeFolder { into, rel } => ResolutionView::MakeFolder {
                into: into@,
                rel: rel@,
            },
            Resolution::Remove { target } => ResolutionView::Remove { target: target@ },
            Resolution::Resync => ResolutionView::Resync,
        }
    }
}

/// The copy from the entry `newer` over the entry `older`.
pub open spec fn copy_over(newer: EntryView, older: EntryView) -> ResolutionView {
    ResolutionView::Copy { from: newer.location, to: older.location, stamp: newer.modified_at }
}

/// Of two entries that both carry bytes, the strictly newer one is copied
/// over the other; with equal times nothing is done.
pub open spec fn newer_wins(a: EntryView, b: EntryView) -> ResolutionView {
    if a.modified_at.newer_than(b.modified_at) {
        copy_over(a, b)
    } else if b.modified_at.newer_than(a.modified_at) {
        copy_over(b, a)
    } else {
        ResolutionView::Nothing
    }
}

/// The decision for a relative path that both locations hold. Content moves
/// only between two entries that carry bytes, from the strictly newer to the
/// older, and never into an archive.
pub open spec fn resolve_both(a: EntryView, b: EntryView) -> ResolutionView {
    if !a.carries_bytes() || !b.carries_bytes() {
        ResolutionView::Nothing
    } else if a.modified_at.newer_than(b.modified_at) && !b.location.read_only() {
        copy_over(a, b)
    } else if b.modified_at.newer_than(a.modified_at) && !a.location.read_only() {
        copy_over(b, a)
    } else {
        ResolutionView::Nothing
    }
}

/// The relative path that denotes the root of a location itself.
pub open spec fn root_path() -> Seq<char> {
    seq!['.']
}

/// The decision for a relative path `rel` that only the first location of
/// the pair holds; `b` is the second location.
///
/// The root of a location is what the location is: it is neither removed nor
/// made. For anything else, a pass that follows a removal takes the entry as
/// stale: it is removed, or, where it lies in an archive and cannot be, a
/// whole pass is run instead; but nothing is stale because an archive lacks
/// it, since an archive cannot have lost it. Any other pass brings the entry
/// over to `b`: a folder is made there, a file is made and filled.
pub open spec fn resolve_single(a: EntryView, rel: Seq<char>, b: LocView, mode: SyncMode)
    -> ResolutionView {
    if rel == root_path() {
        ResolutionView::Nothing
    } else if mode == SyncMode::Delete {
        if b.read_only() {
            ResolutionView::Nothing
        } else if a.location.read_only() {
            ResolutionView::Resync
        } else {
            ResolutionView::Remove { target: a.location }
        }
    } else if a.carries_bytes() {
        ResolutionView::Replicate { from: a.location, into: b, rel }
    } else {
        ResolutionView::MakeFolder { into: b, rel }
    }
}

/// The decision for the entry at position `k` of `first`, the snapshot of the
/// first location, against `second`, the snapshot of the second location `b`.
pub open spec fn resolve(first: IndexView, k: int, second: IndexView, b: LocView, mode: SyncMode)
    -> ResolutionView
    recommends
        0 <= k < first.len(),
{
    match lookup(second, first[k].0) {
        Some(other) => resolve_both(first[k].1, other),
        None => resolve_single(first[k].1, first[k].0, b, mode),
    }
}

/// Copies the strictly newer of two entries over the other.
pub fn duplicate_newer_file(file_1: &FileEntry, file_2: &FileEntry) -> (r: Resolution)
    ensures
        r@ == newer_wins(file_1@, file_2@),
{
    if file_1.modified_at.is_newer_than(&file_2.modified_at) {
        duplicate_newer_file_from_zip(file_1, file_2)
    } else if file_2.modified_at.is_newer_than(&file_1.modified_at) {
        duplicate_newer_file_from_zip(file_2, file_1)
    } else {
        Resolution::Nothing
    }
}

/// Copies `newer_file` over `older_file`, whatever their times: for a source
/// that can never be a destination.
pub fn duplicate_newer_file_from_zip(newer_file: &FileEntry, older_file: &FileEntry) -> (r:
    Resolution)
    ensures
        r@ == copy_over(newer_file@, older_file@),
{
    Resolution::Copy {
        from: newer_file.location.duplicate(),
        to: older_file.location.duplicate(),
        stamp: newer_file.modified_at,
    }
}

/// Decides about a relative path that both locations hold.
pub fn resolve_present_in_both(a: &FileEntry, b: &FileEntry) -> (r: Resolution)
    ensures
        r@ == resolve_both(a@, b@),
{
    if !a.carries_bytes() || !b.carries_bytes() {
        Resolution::Nothing
    } else if a.location.is_read_only() {
        if a.modified_at.is_newer_than(&b.modified_at) && !b.location.is_read_only() {
            duplicate_newer_file_from_zip(a, b)
        } else {
            Resolution::Nothing
        }
    } else if b.location.is_read_only() {
        if b.modified_at.is_newer_than(&a.modified_at) {
            duplicate_newer_file_from_zip(b, a)
        } else {
            Resolution::Nothing
        }
    } else {
        duplicate_newer_file(a, b)
    }
}

/// Decides about a relative path that only the first location holds.
pub fn resolve_only_in_a(a: &FileEntry, rel: &str, b: &LocTypes, mode: SyncMode) -> (r:
    Resolution)
    ensures
        r@ == resolve_single(a@, rel@, b@, mode),
{
    proof {
        reveal_strlit(".");
    }
    assert("."@ =~= root_path());
    if str_equal(rel, ".") {
        Resolution::Nothing
    } else if mode.is_delete() {
        if b.is_read_only() {
            Resolution::Nothing
        } else if a.location.is_read_only() {
            Resolution::Resync
        } else {
            Resolution::Remove { target: a.location.duplicate() }
        }
    } else if a.carries_bytes() {
        Resolution::Replicate {
            from: a.location.duplicate(),
            into: b.duplicate(),
            rel: rel.to_owned(),
        }
    } else {
        Resolution::MakeFolder { into: b.duplicate(), rel: rel.to_owned() }
    }
}

/// Decides about the entry at position `k` of the first snapshot.
pub fn resolve_entry(
    first: &FileIndex,
    k: usize,
    second: &FileIndex,
    b: &LocTypes,
    mode: SyncMode,
) -> (r: Resolution)
    requires
        k < first@.len(),
    ensures
        r@ == resolve(first@, k as int, second@, b@, mode),
{
    let rel = first.path_at(k);
    let a = first.entry_at(k);
    match second.get(rel.as_str()) {
        Some(other) => resolve_present_in_both(a, other),
        None => resolve_only_in_a(a, rel.as_str(), b, mode),
    }
}

} // verus!
