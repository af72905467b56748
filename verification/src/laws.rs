//! What holds of the decisions of the engine, whatever the locations hold.

use crate::backend::{CallView, ReplyView};
use crate::index::{holds, lemma_position_unique, lookup, unique_paths, EntryView, IndexView};
use crate::item::{done, first_turn, next_turn, StageView};
use crate::location::LocView;
use crate::modes::{CreateType, SyncMode};
use crate::resolve::{
    copy_over, resolve, resolve_both, resolve_single, root_path, ResolutionView,
};
use crate::sweep::{receive, settle, PhaseView, Settled, SweepTurnView, SweepView};
use crate::sync::{StepView, SyncView};
use crate::time::{lemma_newer_total, Timestamp};
use vstd::prelude::*;

verus! {

/// An archive is read-only: whatever is to be written, and whatever child is
/// to be created of whatever kind, writing, deleting and creating are refused
/// as such, and no call is handed out.
pub proof fn lemma_archive_refuses(
    zip: LocView,
    content: Seq<u8>,
    rel: Seq<char>,
    kind: CreateType,
)
    requires
        zip is Zip,
    ensures
        zip.write_plan(content) matches Err(e) && e is ReadOnlyBackend,
        zip.delete_plan() matches Err(e) && e is ReadOnlyBackend,
        zip.create_plan(rel, kind) matches Err(e) && e is ReadOnlyBackend,
{
}

/// No operation on any location is turned into a call that changes an
/// archive.
pub proof fn lemma_plans_spare_archives(
    l: LocView,
    content: Seq<u8>,
    rel: Seq<char>,
    kind: CreateType,
)
    ensures
        l.write_plan(content) matches Ok(c) ==> !c.target().read_only(),
        l.delete_plan() matches Ok(c) ==> !c.target().read_only(),
        l.create_plan(rel, kind) matches Ok(c) ==> !c.target().read_only(),
{
}

/// Whether an item that stands at `stage` is not on its way to change an
/// archive.
pub open spec fn spares_archives(stage: StageView) -> bool {
    match stage {
        StageView::Writing { to, .. } => !to.read_only(),
        _ => true,
    }
}

/// Whether a call leaves every archive as it is.
pub open spec fn harmless(call: Option<CallView>) -> bool {
    match call {
        Some(c) => c.mutates() ==> !c.target().read_only(),
        None => true,
    }
}

/// The first call of an item never changes an archive, whatever the decision.
pub proof fn lemma_first_turn_spares_archives(res: ResolutionView)
    ensures
        harmless(first_turn(res).call),
        spares_archives(first_turn(res).stage),
{
}

/// No later call of an item changes an archive, whatever comes back.
pub proof fn lemma_next_turn_spares_archives(stage: StageView, reply: ReplyView)
    requires
        spares_archives(stage),
    ensures
        harmless(next_turn(stage, reply).call),
        spares_archives(next_turn(stage, reply).stage),
{
}

/// Entries with the same modification time are left as they are, whatever
/// their kinds, and whatever their content.
pub proof fn lemma_equal_times_untouched(a: EntryView, b: EntryView)
    requires
        a.modified_at == b.modified_at,
    ensures
        resolve_both(a, b) is Nothing,
        first_turn(resolve_both(a, b)).call is None,
        first_turn(resolve_both(a, b)).fault is None,
{
}

/// Newer wins, in whichever order the pair is visited: of two entries that
/// carry bytes and are not in an archive, the strictly newer is copied over
/// the other, with its time.
pub proof fn lemma_newer_wins(a: EntryView, b: EntryView)
    requires
        a.carries_bytes(),
        b.carries_bytes(),
        !a.location.read_only(),
        !b.location.read_only(),
        a.modified_at.newer_than(b.modified_at),
    ensures
        resolve_both(a, b) == copy_over(a, b),
        resolve_both(b, a) == copy_over(a, b),
        copy_over(a, b) == (ResolutionView::Copy {
            from: a.location,
            to: b.location,
            stamp: a.modified_at,
        }),
{
}

/// An archive is a source only: an entry of an archive is copied over a
/// strictly older file, and is left alone where it is the older itself.
pub proof fn lemma_archive_is_source_only(zip: EntryView, other: EntryView)
    requires
        zip.location.read_only(),
        zip.carries_bytes(),
        other.carries_bytes(),
        !other.location.read_only(),
    ensures
        zip.modified_at.newer_than(other.modified_at) ==> resolve_both(zip, other) == copy_over(
            zip,
            other,
        ) && resolve_both(other, zip) == copy_over(zip, other),
        !zip.modified_at.newer_than(other.modified_at) ==> resolve_both(zip, other) is Nothing
            && resolve_both(other, zip) is Nothing,
{
}

/// Once the older entry has taken the time of the newer, the pair is left
/// alone: the mirror pair, later in the pass, does not copy again.
pub proof fn lemma_stamped_pair_rests(a: EntryView, b: EntryView)
    ensures
        resolve_both(a, EntryView { modified_at: a.modified_at, ..b }) is Nothing,
        resolve_both(EntryView { modified_at: a.modified_at, ..b }, a) is Nothing,
{
}

/// A copy carries bytes and time: the newer entry is read, what was read is
/// written over the older, which then takes the time of the newer; and that
/// is all.
pub proof fn lemma_copy_carries_bytes_and_time(
    from: LocView,
    to: LocView,
    stamp: Timestamp,
    bytes: Seq<u8>,
)
    requires
        from.content_bearing(),
        to.content_bearing(),
        !to.read_only(),
    ensures
        ({
            let read = first_turn(ResolutionView::Copy { from, to, stamp });
            let write = next_turn(read.stage, ReplyView::Content(Some(bytes)));
            let set = next_turn(write.stage, ReplyView::Done(Ok(())));
            &&& read.call == Some(CallView::Read(from))
            &&& write.call == Some(CallView::Write(to, bytes))
            &&& set.call == Some(CallView::SetTimes(to, stamp))
            &&& next_turn(set.stage, ReplyView::Done(Ok(()))) == done()
        }),
{
}

/// A replication carries the bytes: the place is made beneath the second
/// location, at the relative path; the entry is read; and what was read is
/// written to the place.
pub proof fn lemma_replication_carries_the_bytes(
    from: LocView,
    into: LocView,
    rel: Seq<char>,
    bytes: Seq<u8>,
)
    requires
        from.content_bearing(),
        into is Folder || into is Ftp,
    ensures
        ({
            let make = first_turn(ResolutionView::Replicate { from, into, rel });
            let read = next_turn(make.stage, ReplyView::Done(Ok(())));
            let write = next_turn(read.stage, ReplyView::Content(Some(bytes)));
            &&& make.call == Some(CallView::Create(into.child(rel), CreateType::File))
            &&& read.call == Some(CallView::Read(from))
            &&& write.call == Some(CallView::Write(into.child(rel), bytes))
            &&& next_turn(write.stage, ReplyView::Done(Ok(()))) == done()
        }),
{
}

/// A removal propagates, and spares the rest: where the second location has
/// lost one entry that the first still holds, and agrees with the first on
/// all others, a pass that follows the removal removes that one entry from
/// the first location, and does nothing about any other.
pub proof fn lemma_deletion_propagates(
    first: IndexView,
    second: IndexView,
    lost: int,
    b: LocView,
)
    requires
        0 <= lost < first.len(),
        lookup(second, first[lost].0) is None,
        first[lost].0 != root_path(),
        !first[lost].1.location.read_only(),
        !b.read_only(),
        forall|k: int|
            0 <= k < first.len() && k != lost ==> match lookup(second, (#[trigger] first[k]).0) {
                Some(other) => agree(first[k].1, other),
                None => false,
            },
    ensures
        resolve(first, lost, second, b, SyncMode::Delete) == (ResolutionView::Remove {
            target: first[lost].1.location,
        }),
        first_turn(resolve(first, lost, second, b, SyncMode::Delete)).call == Some(
            CallView::Delete(first[lost].1.location),
        ),
        forall|k: int|
            0 <= k < first.len() && k != lost ==> #[trigger] resolve(
                first,
                k,
                second,
                b,
                SyncMode::Delete,
            ) is Nothing,
{
    assert forall|k: int| 0 <= k < first.len() && k != lost implies #[trigger] resolve(
        first,
        k,
        second,
        b,
        SyncMode::Delete,
    ) is Nothing by {
        let other = lookup(second, first[k].0);
        assert(other is Some);
        lemma_agree_is_rest(first[k].1, other->0);
    }
}

/// A folder on either side moves no content.
pub proof fn lemma_folders_carry_nothing(a: EntryView, b: EntryView)
    requires
        a.is_folder || b.is_folder || a.location is Folder || b.location is Folder,
    ensures
        resolve_both(a, b) is Nothing,
{
}

/// An entry that one side holds alone: a pass that follows a removal creates
/// nothing and copies nothing for it, and removes it where it can be
/// removed; any other pass removes nothing, and brings a file over.
pub proof fn lemma_single_entry_by_mode(a: EntryView, rel: Seq<char>, b: LocView, mode: SyncMode)
    ensures
        mode == SyncMode::Delete ==> {
            let r = resolve_single(a, rel, b, mode);
            r is Remove || r is Resync || r is Nothing
        },
        mode == SyncMode::Delete && !a.location.read_only() && !b.read_only() && rel
            != root_path() ==> resolve_single(a, rel, b, mode) == (ResolutionView::Remove {
            target: a.location,
        }),
        mode != SyncMode::Delete ==> {
            let r = resolve_single(a, rel, b, mode);
            r is Replicate || r is MakeFolder || r is Nothing
        },
        mode != SyncMode::Delete && a.carries_bytes() && rel != root_path()
            ==> resolve_single(a, rel, b, mode) == (ResolutionView::Replicate {
            from: a.location,
            into: b,
            rel,
        }),
{
}

/// The root of a location is left alone in every mode, and nothing is
/// removed because an archive lacks it.
pub proof fn lemma_roots_stay(a: EntryView, rel: Seq<char>, b: LocView, mode: SyncMode)
    ensures
        rel == root_path() ==> resolve_single(a, rel, b, mode) is Nothing,
        b.read_only() ==> !(resolve_single(a, rel, b, mode) is Remove) && !(resolve_single(
            a,
            rel,
            b,
            mode,
        ) is Resync),
{
}

/// A snapshot compared with itself asks for nothing: every entry is found
/// again, with its own time.
pub proof fn lemma_self_diff_is_empty(idx: IndexView, k: int, b: LocView, mode: SyncMode)
    requires
        unique_paths(idx),
        0 <= k < idx.len(),
    ensures
        resolve(idx, k, idx, b, mode) is Nothing,
        first_turn(resolve(idx, k, idx, b, mode)).call is None,
{
    lemma_position_unique(idx, idx[k].0, k);
}

/// Whether a pass is not on its way to change an archive.
pub open spec fn pass_spares_archives(s: SweepView) -> bool {
    match s.phase {
        PhaseView::Comparing { stage, .. } => spares_archives(stage),
        _ => true,
    }
}

/// Whether what a pass wants leaves every archive as it is.
pub open spec fn turn_harmless(turn: SweepTurnView) -> bool {
    match turn {
        SweepTurnView::Call(c) => harmless(Some(c)),
        _ => true,
    }
}

/// A pass that goes on by itself hands out no call that changes an archive.
pub proof fn lemma_settle_spares_archives(s: SweepView, locs: Seq<LocView>)
    ensures
        turn_harmless(settle(s, locs).turn),
        pass_spares_archives(settle(s, locs).sweep),
    decreases locs.len() - s.first, locs.len() - s.second, s.entries_left(),
{
    match s.phase {
        PhaseView::Seeking => {
            if !(0 <= s.first < locs.len()) || s.second < 0 {
            } else if s.second >= locs.len() {
                lemma_settle_spares_archives(SweepView { first: s.first + 1, second: 0, ..s }, locs);
            } else {
                lemma_settle_spares_archives(s.pair_done(), locs);
            }
        },
        PhaseView::Comparing { first, second, at, stage } => {
            if !s.on_pair(locs) || !(stage is Idle) || at < 0 {
            } else if at >= first.len() {
                lemma_settle_spares_archives(s.pair_done(), locs);
            } else {
                let res = resolve(first, at, second, locs[s.second], s.mode);
                lemma_first_turn_spares_archives(res);
                lemma_settle_spares_archives(
                    s.busy(
                        PhaseView::Comparing { first, second, at: at + 1, stage: StageView::Idle },
                    ),
                    locs,
                );
            }
        },
        _ => {},
    }
}

/// The archive is never changed: whatever a pass is handed, in whatever
/// order, no call that it hands out writes to an archive, deletes from one,
/// creates in one or sets a time in one.
pub proof fn lemma_pass_spares_archives(s: SweepView, locs: Seq<LocView>, reply: ReplyView)
    requires
        pass_spares_archives(s),
    ensures
        turn_harmless(receive(s, locs, reply).turn),
        pass_spares_archives(receive(s, locs, reply).sweep),
{
    lemma_settle_spares_archives(s, locs);
    lemma_settle_spares_archives(s.pair_done(), locs);
    match s.phase {
        PhaseView::ListingSecond { first } => {
            match reply {
                ReplyView::Listed(Ok(idx)) => {
                    lemma_settle_spares_archives(
                        s.busy(
                            PhaseView::Comparing {
                                first,
                                second: idx,
                                at: 0,
                                stage: StageView::Idle,
                            },
                        ),
                        locs,
                    );
                },
                _ => {},
            }
        },
        PhaseView::Comparing { first, second, at, stage } => {
            lemma_next_turn_spares_archives(stage, reply);
            lemma_settle_spares_archives(
                s.busy(PhaseView::Comparing { first, second, at: at + 1, stage: StageView::Idle }),
                locs,
            );
        },
        _ => {},
    }
}

/// Whether the pair in hand is one of two different locations.
pub open spec fn apart(s: SweepView, locs: Seq<LocView>) -> bool {
    s.on_pair(locs) && locs[s.first] != locs[s.second]
}

/// Whether a pass wants a call or a whole pass, and so is in the middle of a
/// pair.
pub open spec fn in_a_pair(turn: SweepTurnView) -> bool {
    turn is Call || turn is Resync
}

/// Whether a pass, where it is in the middle of a pair, is in a pair of two
/// different locations.
pub open spec fn keeps_apart(s: SweepView, locs: Seq<LocView>) -> bool {
    s.awaiting() || s.phase is Comparing ==> apart(s, locs)
}

/// A pass that goes on by itself stops in the middle of a pair only where
/// the two locations differ.
pub proof fn lemma_settle_keeps_apart(s: SweepView, locs: Seq<LocView>)
    requires
        s.phase is Comparing ==> apart(s, locs),
    ensures
        keeps_apart(settle(s, locs).sweep, locs),
        in_a_pair(settle(s, locs).turn) ==> apart(settle(s, locs).sweep, locs),
    decreases locs.len() - s.first, locs.len() - s.second, s.entries_left(),
{
    match s.phase {
        PhaseView::Seeking => {
            if !(0 <= s.first < locs.len()) || s.second < 0 {
            } else if s.second >= locs.len() {
                lemma_settle_keeps_apart(SweepView { first: s.first + 1, second: 0, ..s }, locs);
            } else {
                lemma_settle_keeps_apart(s.pair_done(), locs);
            }
        },
        PhaseView::Comparing { first, second, at, stage } => {
            if !s.on_pair(locs) || !(stage is Idle) || at < 0 {
            } else if at >= first.len() {
                lemma_settle_keeps_apart(s.pair_done(), locs);
            } else {
                lemma_settle_keeps_apart(
                    s.busy(
                        PhaseView::Comparing { first, second, at: at + 1, stage: StageView::Idle },
                    ),
                    locs,
                );
            }
        },
        _ => {},
    }
}

/// A location is never compared with itself: whatever a pass is handed, in
/// whatever order, it is in the middle of a pair only where the two
/// locations differ. So no call at all is made for a location against
/// itself, not even a listing.
pub proof fn lemma_never_against_itself(s: SweepView, locs: Seq<LocView>, reply: ReplyView)
    requires
        keeps_apart(s, locs),
    ensures
        keeps_apart(receive(s, locs, reply).sweep, locs),
        in_a_pair(receive(s, locs, reply).turn) ==> apart(receive(s, locs, reply).sweep, locs),
{
    lemma_settle_keeps_apart(s, locs);
    lemma_settle_keeps_apart(s.pair_done(), locs);
    match s.phase {
        PhaseView::ListingSecond { first } => {
            match reply {
                ReplyView::Listed(Ok(idx)) => {
                    lemma_settle_keeps_apart(
                        s.busy(
                            PhaseView::Comparing {
                                first,
                                second: idx,
                                at: 0,
                                stage: StageView::Idle,
                            },
                        ),
                        locs,
                    );
                },
                _ => {},
            }
        },
        PhaseView::Comparing { first, second, at, stage } => {
            lemma_settle_keeps_apart(
                s.busy(PhaseView::Comparing { first, second, at: at + 1, stage: StageView::Idle }),
                locs,
            );
        },
        _ => {},
    }
}

/// A pass from its start stops in the middle of a pair only where the two
/// locations differ; over a list of equal locations it hands out nothing.
pub proof fn lemma_fresh_pass_keeps_apart(mode: SyncMode, locs: Seq<LocView>)
    ensures
        keeps_apart(settle(SweepView::start(mode), locs).sweep, locs),
        in_a_pair(settle(SweepView::start(mode), locs).turn) ==> apart(
            settle(SweepView::start(mode), locs).sweep,
            locs,
        ),
        (forall|i: int, j: int| 0 <= i < locs.len() && 0 <= j < locs.len() ==> locs[i] == locs[j])
            ==> settle(SweepView::start(mode), locs).turn is Finished,
{
    lemma_settle_keeps_apart(SweepView::start(mode), locs);
}

/// Whether two entries of one relative path need nothing done: one of them
/// carries no bytes, or they bear the same time, or the older of the two is
/// in an archive.
pub open spec fn agree(a: EntryView, b: EntryView) -> bool {
    ||| !a.carries_bytes()
    ||| !b.carries_bytes()
    ||| a.modified_at == b.modified_at
    ||| a.modified_at.newer_than(b.modified_at) && b.location.read_only()
    ||| b.modified_at.newer_than(a.modified_at) && a.location.read_only()
}

/// Whether the first snapshot holds nothing that the second lacks or holds
/// otherwise.
pub open spec fn in_sync(first: IndexView, second: IndexView) -> bool {
    forall|k: int|
        0 <= k < first.len() ==> match lookup(second, (#[trigger] first[k]).0) {
            Some(other) => agree(first[k].1, other),
            None => false,
        }
}

/// Two entries agree exactly when nothing is decided for them.
pub proof fn lemma_agree_is_rest(a: EntryView, b: EntryView)
    ensures
        agree(a, b) <==> resolve_both(a, b) is Nothing,
{
    lemma_newer_total(a.modified_at, b.modified_at);
}

/// Whether nothing is done about the entry at position `k` of the first
/// snapshot: no call is handed out for it, and no whole pass is asked for.
pub open spec fn rests(first: IndexView, k: int, second: IndexView, b: LocView, mode: SyncMode)
    -> bool {
    let r = resolve(first, k, second, b, mode);
    !(r is Resync) && first_turn(r).call is None
}

/// Whether nothing is done about any entry of the first snapshot from
/// position `from` on.
pub open spec fn at_rest(
    first: IndexView,
    second: IndexView,
    b: LocView,
    mode: SyncMode,
    from: int,
) -> bool {
    forall|k: int| from <= k < first.len() ==> rests(first, k, second, b, mode)
}

/// Of snapshots in sync, every entry is left as it is, in every mode and
/// whatever the second location is.
pub proof fn lemma_in_sync_rests(
    first: IndexView,
    second: IndexView,
    k: int,
    b: LocView,
    mode: SyncMode,
)
    requires
        in_sync(first, second),
        0 <= k < first.len(),
    ensures
        resolve(first, k, second, b, mode) is Nothing,
        rests(first, k, second, b, mode),
{
    let other = lookup(second, first[k].0);
    assert(other is Some);
    lemma_agree_is_rest(first[k].1, other->0);
}

/// Snapshots in sync are at rest.
pub proof fn lemma_in_sync_is_at_rest(
    first: IndexView,
    second: IndexView,
    b: LocView,
    mode: SyncMode,
)
    requires
        in_sync(first, second),
    ensures
        at_rest(first, second, b, mode, 0),
{
    assert forall|k: int| 0 <= k < first.len() implies rests(first, k, second, b, mode) by {
        lemma_in_sync_rests(first, second, k, b, mode);
    }
}

/// A pair of locations at rest is passed without a call: the pass goes on
/// as if it were done with the pair.
pub proof fn lemma_resting_pair_is_passed(s: SweepView, locs: Seq<LocView>)
    requires
        s.on_pair(locs),
        s.phase matches PhaseView::Comparing { first, second, at, stage } && stage is Idle && at
            >= 0 && at_rest(first, second, locs[s.second], s.mode, at),
    ensures
        settle(s, locs).turn == settle(s.pair_done(), locs).turn,
        settle(s, locs).sweep == settle(s.pair_done(), locs).sweep,
    decreases s.entries_left(),
{
    match s.phase {
        PhaseView::Comparing { first, second, at, stage } => {
            if at < first.len() {
                assert(rests(first, at, second, locs[s.second], s.mode));
                let rest = s.busy(
                    PhaseView::Comparing { first, second, at: at + 1, stage: StageView::Idle },
                );
                lemma_resting_pair_is_passed(rest, locs);
                assert(rest.pair_done() == s.pair_done());
            }
        },
        _ => {},
    }
}

/// What every location holds: the snapshot that its listing gives.
pub type World = spec_fn(LocView) -> IndexView;

/// Whether a pass in the given mode finds nothing to do: every location that
/// can be listed is at rest against every other one that can.
pub open spec fn converged(locs: Seq<LocView>, world: World, mode: SyncMode) -> bool {
    forall|i: int, j: int|
        0 <= i < locs.len() && 0 <= j < locs.len() && locs[i] != locs[j] && locs[i].list_plan() is Ok
            && locs[j].list_plan() is Ok ==> at_rest(
            #[trigger] world(locs[i]),
            #[trigger] world(locs[j]),
            locs[j],
            mode,
            0,
        )
}

/// Locations whose snapshots are in sync, each with each other, are
/// converged for every mode.
pub proof fn lemma_in_sync_is_converged(locs: Seq<LocView>, world: World, mode: SyncMode)
    requires
        forall|i: int, j: int|
            0 <= i < locs.len() && 0 <= j < locs.len() && locs[i] != locs[j] ==> in_sync(
                #[trigger] world(locs[i]),
                #[trigger] world(locs[j]),
            ),
    ensures
        converged(locs, world, mode),
{
    assert forall|i: int, j: int|
        0 <= i < locs.len() && 0 <= j < locs.len() && locs[i] != locs[j] && locs[i].list_plan() is Ok
            && locs[j].list_plan() is Ok implies at_rest(
        #[trigger] world(locs[i]),
        #[trigger] world(locs[j]),
        locs[j],
        mode,
        0,
    ) by {
        lemma_in_sync_is_at_rest(world(locs[i]), world(locs[j]), locs[j], mode);
    }
}

/// The answer of a world that nothing changes: to a listing the snapshot of
/// the location, to a read no content, to anything else that it was done.
pub open spec fn answer(world: World, call: CallView) -> ReplyView {
    match call {
        CallView::List(l) => ReplyView::Listed(Ok(world(l))),
        CallView::Read(_) => ReplyView::Content(None),
        _ => ReplyView::Done(Ok(())),
    }
}

/// The calls that a pass hands out from `r` on, one after the other, each
/// answered by `world`; at most `fuel` calls behind the first.
pub open spec fn calls_from(r: Settled, locs: Seq<LocView>, world: World, fuel: nat) -> Seq<
    CallView,
>
    decreases fuel,
{
    match r.turn {
        SweepTurnView::Call(c) => if fuel == 0 {
            seq![c]
        } else {
            seq![c] + calls_from(
                receive(r.sweep, locs, answer(world, c)),
                locs,
                world,
                (fuel - 1) as nat,
            )
        },
        _ => seq![],
    }
}

/// Whether a pass has so far only listed, and holds what the world holds.
pub open spec fn only_listing(r: Settled, locs: Seq<LocView>, world: World) -> bool {
    match r.turn {
        SweepTurnView::Call(c) => {
            &&& apart(r.sweep, locs)
            &&& locs[r.sweep.first].list_plan() is Ok
            &&& match r.sweep.phase {
                PhaseView::ListingFirst => c == CallView::List(locs[r.sweep.first]),
                PhaseView::ListingSecond { first } => c == CallView::List(locs[r.sweep.second])
                    && first == world(locs[r.sweep.first]) && locs[r.sweep.second].list_plan()
                    is Ok,
                _ => false,
            }
        },
        SweepTurnView::Resync => false,
        SweepTurnView::Finished => true,
    }
}

/// A pass that looks for its next pair comes to a listing or to its end.
pub proof fn lemma_seeking_only_lists(s: SweepView, locs: Seq<LocView>, world: World)
    requires
        s.phase is Seeking,
    ensures
        only_listing(settle(s, locs), locs, world),
    decreases locs.len() - s.first, locs.len() - s.second,
{
    if !(0 <= s.first < locs.len()) || s.second < 0 {
    } else if s.second >= locs.len() {
        lemma_seeking_only_lists(SweepView { first: s.first + 1, second: 0, ..s }, locs, world);
    } else {
        lemma_seeking_only_lists(s.pair_done(), locs, world);
    }
}

/// In a converged world, a pass that has only listed goes on only listing.
pub proof fn lemma_listing_goes_on(r: Settled, locs: Seq<LocView>, world: World)
    requires
        converged(locs, world, r.sweep.mode),
        only_listing(r, locs, world),
        r.turn is Call,
    ensures
        only_listing(receive(r.sweep, locs, answer(world, r.turn->Call_0)), locs, world),
        receive(r.sweep, locs, answer(world, r.turn->Call_0)).sweep.mode == r.sweep.mode,
{
    let s = r.sweep;
    lemma_seeking_only_lists(s.pair_done(), locs, world);
    lemma_settle_keeps_mode(s.pair_done(), locs);
    match s.phase {
        PhaseView::ListingSecond { first } => {
            let second = world(locs[s.second]);
            let c = s.busy(
                PhaseView::Comparing { first, second, at: 0, stage: StageView::Idle },
            );
            assert(at_rest(world(locs[s.first]), world(locs[s.second]), locs[s.second], s.mode, 0));
            lemma_resting_pair_is_passed(c, locs);
            assert(c.pair_done() == s.pair_done());
        },
        _ => {},
    }
}

/// A pass stays in its mode.
pub proof fn lemma_settle_keeps_mode(s: SweepView, locs: Seq<LocView>)
    ensures
        settle(s, locs).sweep.mode == s.mode,
    decreases locs.len() - s.first, locs.len() - s.second, s.entries_left(),
{
    match s.phase {
        PhaseView::Seeking => {
            if !(0 <= s.first < locs.len()) || s.second < 0 {
            } else if s.second >= locs.len() {
                lemma_settle_keeps_mode(SweepView { first: s.first + 1, second: 0, ..s }, locs);
            } else {
                lemma_settle_keeps_mode(s.pair_done(), locs);
            }
        },
        PhaseView::Comparing { first, second, at, stage } => {
            if !s.on_pair(locs) || !(stage is Idle) || at < 0 {
            } else if at >= first.len() {
                lemma_settle_keeps_mode(s.pair_done(), locs);
            } else {
                lemma_settle_keeps_mode(
                    s.busy(
                        PhaseView::Comparing { first, second, at: at + 1, stage: StageView::Idle },
                    ),
                    locs,
                );
            }
        },
        _ => {},
    }
}

/// In a converged world, all that a pass hands out from a point at which it
/// has only listed are listings.
pub proof fn lemma_converged_calls_are_listings(
    r: Settled,
    locs: Seq<LocView>,
    world: World,
    fuel: nat,
)
    requires
        converged(locs, world, r.sweep.mode),
        only_listing(r, locs, world),
    ensures
        forall|k: int|
            0 <= k < calls_from(r, locs, world, fuel).len() ==> (#[trigger] calls_from(
                r,
                locs,
                world,
                fuel,
            )[k]) is List,
    decreases fuel,
{
    match r.turn {
        SweepTurnView::Call(c) => {
            if fuel > 0 {
                let next = receive(r.sweep, locs, answer(world, c));
                lemma_listing_goes_on(r, locs, world);
                lemma_converged_calls_are_listings(next, locs, world, (fuel - 1) as nat);
            }
        },
        _ => {},
    }
}

/// A pass over converged locations changes nothing: however long it is
/// watched, it lists, and does nothing else. So a pass that follows one
/// after which the locations are converged hands out no read, no write, no
/// deletion and no creation, and sets no time.
pub proof fn lemma_pass_over_converged_is_idle(
    mode: SyncMode,
    locs: Seq<LocView>,
    world: World,
    fuel: nat,
)
    requires
        converged(locs, world, mode),
    ensures
        forall|k: int|
            0 <= k < calls_from(settle(SweepView::start(mode), locs), locs, world, fuel).len()
                ==> !(#[trigger] calls_from(
                settle(SweepView::start(mode), locs),
                locs,
                world,
                fuel,
            )[k]).mutates(),
{
    let r = settle(SweepView::start(mode), locs);
    lemma_seeking_only_lists(SweepView::start(mode), locs, world);
    lemma_settle_keeps_mode(SweepView::start(mode), locs);
    lemma_converged_calls_are_listings(r, locs, world, fuel);
    assert forall|k: int| 0 <= k < calls_from(r, locs, world, fuel).len() implies !(
    #[trigger] calls_from(r, locs, world, fuel)[k]).mutates() by {
        assert(calls_from(r, locs, world, fuel)[k] is List);
    }
}

/// Whether nothing that a synchronizer has under way is on its way to
/// change an archive.
pub open spec fn synchronizer_spares_archives(v: SyncView) -> bool {
    &&& v.running matches Some(s) ==> pass_spares_archives(s)
    &&& v.suspended matches Some(s) ==> pass_spares_archives(s)
}

/// Whether a step leaves every archive as it is.
pub open spec fn step_harmless(step: StepView) -> bool {
    match step {
        StepView::Perform(c) => harmless(Some(c)),
        _ => true,
    }
}

/// Every pass at its start spares archives, and goes on sparing them.
proof fn lemma_fresh_passes_spare_archives(locs: Seq<LocView>)
    ensures
        forall|mode: SyncMode|
            turn_harmless(#[trigger] settle(SweepView::start(mode), locs).turn)
                && pass_spares_archives(settle(SweepView::start(mode), locs).sweep),
{
    assert forall|mode: SyncMode|
        turn_harmless(#[trigger] settle(SweepView::start(mode), locs).turn)
            && pass_spares_archives(settle(SweepView::start(mode), locs).sweep) by {
        lemma_settle_spares_archives(SweepView::start(mode), locs);
    }
}

/// The synchronizer never changes an archive: whatever it is handed, a
/// reply, a change, or nothing at all, the step that it asks for writes to
/// no archive, deletes from none, creates in none and sets no time in one.
pub proof fn lemma_synchronizer_spares_archives(
    v: SyncView,
    reply: ReplyView,
    mode: SyncMode,
    wanted: Option<SyncMode>,
)
    requires
        synchronizer_spares_archives(v),
    ensures
        step_harmless(v.resumed(reply).step),
        synchronizer_spares_archives(v.resumed(reply).state),
        step_harmless(v.proceeded().step),
        synchronizer_spares_archives(v.proceeded().state),
        step_harmless(v.begun(mode).step),
        synchronizer_spares_archives(v.begun(mode).state),
        step_harmless(v.noticed(wanted).step),
        synchronizer_spares_archives(v.noticed(wanted).state),
{
    lemma_fresh_passes_spare_archives(v.locations);
    match v.running {
        Some(s) => {
            lemma_pass_spares_archives(s, v.locations, reply);
            lemma_settle_spares_archives(s, v.locations);
        },
        None => {},
    }
}

/// A synchronizer with nothing under way spares archives.
pub proof fn lemma_idle_synchronizer_spares_archives(v: SyncView)
    requires
        v.running is None,
        v.suspended is None,
    ensures
        synchronizer_spares_archives(v),
{
}

} // verus!
