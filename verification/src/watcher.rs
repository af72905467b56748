//! What a change in a watched folder asks of the synchronizer.

use crate::backend::{BackendCall, CallView};
use crate::location::{LocTypes, LocView};
use crate::modes::{CreateType, SyncMode};
use crate::sweep::loc_views;
use crate::text::{contains_seq, contains_str};
use vstd::prelude::*;

verus! {

/// The kind of change that was seen in a watched folder.
#[derive(Clone, Copy, Debug, PartialEq, Eq, Structural)]
pub enum ChangeKind {
    /// Something was created.
    Created,
    /// Something was removed.
    Removed,
    /// The content of something was modified.
    DataModified,
    /// Something was given another name.
    Renamed,
    /// Anything else, a failure of the watch included.
    Other,
}

/// One item of the stream of changes: what happened, and to which paths.
#[derive(Debug)]
pub struct WatchEvent {
    pub kind: ChangeKind,
    pub paths: Vec<String>,
}

/// The mathematical values of a list of paths.
pub open spec fn path_views(paths: Seq<String>) -> Seq<Seq<char>> {
    Seq::new(paths.len(), |k: int| paths[k]@)
}

/// Whether a path is one of the hidden marker files that the filter drops.
pub open spec fn ignored(path: Seq<char>) -> bool {
    contains_seq(path, seq!['.', 'D', 'S'])
}

/// Whether one of the paths is dropped by the filter.
pub open spec fn any_ignored(paths: Seq<Seq<char>>) -> bool {
    exists|k: int| 0 <= k < paths.len() && ignored(#[trigger] paths[k])
}

/// The directive that a kind of change stands for. A new name leaves the old
/// one stale, as a removal does.
pub open spec fn mode_of(kind: ChangeKind) -> Option<SyncMode> {
    match kind {
        ChangeKind::Created => Some(SyncMode::Create),
        ChangeKind::Removed => Some(SyncMode::Delete),
        ChangeKind::DataModified => Some(SyncMode::Modify),
        ChangeKind::Renamed => Some(SyncMode::Delete),
        ChangeKind::Other => None,
    }
}

/// The directive that an event stands for: none where the filter drops it.
pub open spec fn implied_mode(kind: ChangeKind, paths: Seq<Seq<char>>) -> Option<SyncMode> {
    if any_ignored(paths) {
        None
    } else {
        mode_of(kind)
    }
}

/// Whether the filter drops the path.
pub fn is_ignored(path: &str) -> (r: bool)
    ensures
        r == ignored(path@),
{
    proof {
        reveal_strlit(".DS");
    }
    assert(".DS"@ =~= seq!['.', 'D', 'S']);
    contains_str(path, ".DS")
}

impl ChangeKind {
    /// The directive that this kind of change stands for.
    pub fn mode(&self) -> (r: Option<SyncMode>)
        ensures
            r == mode_of(*self),
    {
        match self {
            ChangeKind::Created => Some(SyncMode::Create),
            ChangeKind::Removed => Some(SyncMode::Delete),
            ChangeKind::DataModified => Some(SyncMode::Modify),
            ChangeKind::Renamed => Some(SyncMode::Delete),
            ChangeKind::Other => None,
        }
    }
}

impl WatchEvent {
    /// An event from its parts.
    pub fn new(kind: ChangeKind, paths: Vec<String>) -> (e: WatchEvent)
        ensures
            e.kind == kind,
            e.paths == paths,
    {
        WatchEvent { kind, paths }
    }

    /// The directive that this event stands for.
    pub fn implied_mode(&self) -> (r: Option<SyncMode>)
        ensures
            r == implied_mode(self.kind, path_views(self.paths@)),
    {
        let mut k: usize = 0;
        while k < self.paths.len()
            invariant
                k <= self.paths@.len(),
                forall|i: int| 0 <= i < k ==> !ignored(#[trigger] path_views(self.paths@)[i]),
            decreases self.paths@.len() - k,
        {
            if is_ignored(self.paths[k].as_str()) {
                assert(ignored(path_views(self.paths@)[k as int]));
                return None;
            }
            k += 1;
        }
        self.kind.mode()
    }
}

/// The seconds between two heartbeats.
pub const HEARTBEAT_SECONDS: u64 = 20;

/// The name of the hidden marker file of the heartbeat.
pub open spec fn marker_name() -> Seq<char> {
    seq!['.', 't', 'e', 'm', 'p', '_', 'c', 'h', 'e', 'c', 'k']
}

/// The first folder at or behind position `from`; the length of the list
/// where there is none.
pub open spec fn first_folder(locs: Seq<LocView>, from: int) -> int
    decreases locs.len() - from,
{
    if from < 0 || from >= locs.len() {
        locs.len() as int
    } else if locs[from] is Folder {
        from
    } else {
        first_folder(locs, from + 1)
    }
}

/// One heartbeat: a marker file is created, and deleted at once. The two
/// calls change nothing in the end, and make the watch of the folder speak.
#[derive(Debug)]
pub struct Heartbeat {
    pub create: BackendCall,
    pub delete: BackendCall,
}

/// The heartbeat for locations that announce no change themselves: it
/// touches the first folder among the locations, and is not to be had where
/// there is no folder.
pub fn perform_check(locations: &Vec<LocTypes>) -> (r: Option<Heartbeat>)
    ensures
        match r {
            Some(beat) => {
                let k = first_folder(loc_views(locations@), 0);
                let marker = loc_views(locations@)[k].child(marker_name());
                &&& k < locations@.len()
                &&& beat.create@ == CallView::Create(marker, CreateType::File)
                &&& beat.delete@ == CallView::Delete(marker)
            },
            None => first_folder(loc_views(locations@), 0) == locations@.len(),
        },
{
    proof {
        reveal_strlit(".temp_check");
    }
    assert(".temp_check"@ =~= marker_name());
    let mut k: usize = 0;
    while k < locations.len()
        invariant
            first_folder(loc_views(locations@), k as int) == first_folder(
                loc_views(locations@),
                0,
            ),
            ".temp_check"@ == marker_name(),
        decreases locations@.len() - k,
    {
        match &locations[k] {
            LocTypes::Folder(_) => {
                let marker = locations[k].child(".temp_check");
                return Some(
                    Heartbeat {
                        create: BackendCall::Create(marker.duplicate(), CreateType::File),
                        delete: BackendCall::Delete(marker),
                    },
                );
            },
            _ => {},
        }
        k += 1;
    }
    None
}

} // verus!
