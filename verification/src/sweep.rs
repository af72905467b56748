//! One reconciliation pass over every ordered pair of distinct locations.
//!
//! The pass is a machine. It is handed the answer to the call that it gave
//! out last, and gives out the next call, until every pair was compared. Two
//! locations are compared on fresh snapshots of both, taken just before; a
//! location is never compared with itself.

use crate::backend::{BackendCall, BackendReply, CallView, ReplyView};
use crate::capability::ReadOnly;
use crate::errors::{FileErrorView, FileErrors};
use crate::index::{FileIndex, IndexView};
use crate::item::{begin_item, continue_item, first_turn, next_turn, unanswered, Stage, StageView};
use crate::location::{LocTypes, LocView};
use crate::modes::SyncMode;
use crate::resolve::{resolve, resolve_entry, Resolution};
use vstd::prelude::*;
use vstd::string::StringExecFns;

verus! {

/// What a pass is busy with.
#[derive(Debug)]
pub enum Phase {
    /// Nothing is in flight; the pair at the cursor is the next candidate.
    Seeking,
    /// The first location of the pair is being listed.
    ListingFirst,
    /// The second location of the pair is being listed.
    ListingSecond { first: FileIndex },
    /// The entries of the first snapshot are taken one by one, from `at` on;
    /// `stage` says where the item of the entry at `at` stands.
    Comparing { first: FileIndex, second: FileIndex, at: usize, stage: Stage },
    /// Every pair was compared.
    Finished,
}

/// The mathematical value of a [`Phase`].
pub enum PhaseView {
    Seeking,
    ListingFirst,
    ListingSecond { first: IndexView },
    Comparing { first: IndexView, second: IndexView, at: int, stage: StageView },
    Finished,
}

impl View for Phase {
    type V = PhaseView;

    open spec fn view(&self) -> PhaseView {
        match *self {
            Phase::Seeking => PhaseView::Seeking,
            Phase::ListingFirst => PhaseView::ListingFirst,
            Phase::ListingSecond { first } => PhaseView::ListingSecond { first: first@ },
            Phase::Comparing { first, second, at, stage } => PhaseView::Comparing {
                first: first@,
                second: second@,
                at: at as int,
                stage: stage@,
            },
            Phase::Finished => PhaseView::Finished,
        }
    }
}

/// One pass: its directive, the pair at the cursor (positions in the list of
/// locations, first and second), and what it is busy with.
#[derive(Debug)]
pub struct Sweep {
    pub mode: SyncMode,
    pub first: usize,
    pub second: usize,
    pub phase: Phase,
}

/// The mathematical value of a [`Sweep`].
pub struct SweepView {
    pub mode: SyncMode,
    pub first: int,
    pub second: int,
    pub phase: PhaseView,
}

impl View for Sweep {
    type V = SweepView;

    open spec fn view(&self) -> SweepView {
        SweepView {
            mode: self.mode,
            first: self.first as int,
            second: self.second as int,
            phase: self.phase@,
        }
    }
}

/// What a pass wants next.
#[derive(Debug)]
pub enum SweepTurn {
    /// The call is to be performed, and its answer handed back.
    Call(BackendCall),
    /// A whole pass is to be run before this one goes on.
    Resync,
    /// The pass is over.
    Finished,
}

/// The mathematical value of a [`SweepTurn`].
pub enum SweepTurnView {
    Call(CallView),
    Resync,
    Finished,
}

impl View for SweepTurn {
    type V = SweepTurnView;

    open spec fn view(&self) -> SweepTurnView {
        match *self {
            SweepTurn::Call(c) => SweepTurnView::Call(c@),
            SweepTurn::Resync => SweepTurnView::Resync,
            SweepTurn::Finished => SweepTurnView::Finished,
        }
    }
}

/// The mathematical values of a list of locations.
pub open spec fn loc_views(locs: Seq<LocTypes>) -> Seq<LocView> {
    Seq::new(locs.len(), |k: int| locs[k]@)
}

/// The mathematical values of a journal of faults.
pub open spec fn fault_views(journal: Seq<FileErrors>) -> Seq<FileErrorView> {
    Seq::new(journal.len(), |k: int| journal[k]@)
}

/// Where a pass has come to: its state, the faults it met on the way, in
/// order, and what it wants next.
pub struct Settled {
    pub sweep: SweepView,
    pub faults: Seq<FileErrorView>,
    pub turn: SweepTurnView,
}

impl SweepView {
    /// The pass at the start: at the first pair, nothing in flight.
    pub open spec fn start(mode: SyncMode) -> SweepView {
        SweepView { mode, first: 0, second: 0, phase: PhaseView::Seeking }
    }

    /// Whether the cursor is on a pair of the list.
    pub open spec fn on_pair(self, locs: Seq<LocView>) -> bool {
        0 <= self.first < locs.len() && 0 <= self.second < locs.len()
    }

    /// The pass, done with the pair at the cursor.
    pub open spec fn pair_done(self) -> SweepView {
        SweepView { second: self.second + 1, phase: PhaseView::Seeking, ..self }
    }

    /// The pass, over.
    pub open spec fn over(self) -> SweepView {
        SweepView { phase: PhaseView::Finished, ..self }
    }

    /// The pass, busy with `phase`.
    pub open spec fn busy(self, phase: PhaseView) -> SweepView {
        SweepView { phase, ..self }
    }

    /// How many entries of the pair in hand are still to be taken.
    pub open spec fn entries_left(self) -> int {
        match self.phase {
            PhaseView::Comparing { first, at, .. } => if at < first.len() {
                first.len() - at
            } else {
                0
            },
            _ => 0,
        }
    }

    /// Whether a call is in flight, so that an answer is awaited.
    pub open spec fn awaiting(self) -> bool {
        match self.phase {
            PhaseView::ListingFirst => true,
            PhaseView::ListingSecond { .. } => true,
            PhaseView::Comparing { stage, .. } => !(stage is Idle),
            _ => false,
        }
    }
}

/// `r`, with the fault `e` met before all of its own.
pub open spec fn after_fault(e: Option<FileErrorView>, r: Settled) -> Settled {
    match e {
        Some(e) => Settled { faults: seq![e] + r.faults, ..r },
        None => r,
    }
}

/// The pass `s`, in which no call is in flight, taken on to the point where
/// it wants something. Pairs of equal descriptors are passed over; so are
/// pairs whose first location cannot be listed, with the fault; so are the
/// entries about which nothing is to be done. An entry whose operation is
/// refused at once is given up, with the fault.
pub open spec fn settle(s: SweepView, locs: Seq<LocView>) -> Settled
    decreases locs.len() - s.first, locs.len() - s.second, s.entries_left(),
{
    match s.phase {
        PhaseView::Seeking => {
            if !(0 <= s.first < locs.len()) || s.second < 0 {
                Settled { sweep: s.over(), faults: seq![], turn: SweepTurnView::Finished }
            } else if s.second >= locs.len() {
                settle(SweepView { first: s.first + 1, second: 0, ..s }, locs)
            } else if locs[s.first] == locs[s.second] {
                settle(s.pair_done(), locs)
            } else {
                match locs[s.first].list_plan() {
                    Ok(call) => Settled {
                        sweep: s.busy(PhaseView::ListingFirst),
                        faults: seq![],
                        turn: SweepTurnView::Call(call),
                    },
                    Err(e) => after_fault(Some(e), settle(s.pair_done(), locs)),
                }
            }
        },
        PhaseView::Comparing { first, second, at, stage } => {
            if !s.on_pair(locs) || !(stage is Idle) || at < 0 {
                Settled { sweep: s.over(), faults: seq![], turn: SweepTurnView::Finished }
            } else if at >= first.len() {
                settle(s.pair_done(), locs)
            } else {
                let res = resolve(first, at, second, locs[s.second], s.mode);
                let rest = s.busy(
                    PhaseView::Comparing { first, second, at: at + 1, stage: StageView::Idle },
                );
                if res is Resync {
                    Settled { sweep: rest, faults: seq![], turn: SweepTurnView::Resync }
                } else {
                    let t = first_turn(res);
                    match t.call {
                        Some(call) => Settled {
                            sweep: s.busy(
                                PhaseView::Comparing { first, second, at, stage: t.stage },
                            ),
                            faults: seq![],
                            turn: SweepTurnView::Call(call),
                        },
                        None => after_fault(t.fault, settle(rest, locs)),
                    }
                }
            }
        },
        _ => Settled { sweep: s.over(), faults: seq![], turn: SweepTurnView::Finished },
    }
}

/// `r`, with the faults `met` before all of its own.
pub open spec fn after_faults(met: Seq<FileErrorView>, r: Settled) -> Settled {
    Settled { faults: met + r.faults, ..r }
}

impl SweepView {
    /// Whether the state can be one of a pass over `locs`: the cursor is on a
    /// pair, and the entry in hand is one of the first snapshot.
    pub open spec fn sound(self, locs: Seq<LocView>) -> bool {
        &&& self.on_pair(locs)
        &&& match self.phase {
            PhaseView::Comparing { first, at, .. } => 0 <= at < first.len(),
            _ => true,
        }
    }
}

/// The pass `s`, handed `reply`, taken on to the point where it wants
/// something again.
///
/// A listing that failed ends the pair in hand, with the fault, and the pass
/// goes on with the next pair. A fault at an entry ends that entry only. An
/// answer that no call awaited is dropped.
pub open spec fn receive(s: SweepView, locs: Seq<LocView>, reply: ReplyView) -> Settled {
    if !s.awaiting() {
        settle(s, locs)
    } else if !s.sound(locs) {
        Settled { sweep: s.over(), faults: seq![], turn: SweepTurnView::Finished }
    } else {
        match s.phase {
            PhaseView::ListingFirst => match reply {
                ReplyView::Listed(Ok(idx)) => match locs[s.second].list_plan() {
                    Ok(call) => Settled {
                        sweep: s.busy(PhaseView::ListingSecond { first: idx }),
                        faults: seq![],
                        turn: SweepTurnView::Call(call),
                    },
                    Err(e) => after_fault(Some(e), settle(s.pair_done(), locs)),
                },
                ReplyView::Listed(Err(e)) => after_fault(Some(e), settle(s.pair_done(), locs)),
                _ => after_fault(Some(unanswered()), settle(s.pair_done(), locs)),
            },
            PhaseView::ListingSecond { first } => match reply {
                ReplyView::Listed(Ok(idx)) => settle(
                    s.busy(
                        PhaseView::Comparing {
                            first,
                            second: idx,
                            at: 0,
                            stage: StageView::Idle,
                        },
                    ),
                    locs,
                ),
                ReplyView::Listed(Err(e)) => after_fault(Some(e), settle(s.pair_done(), locs)),
                _ => after_fault(Some(unanswered()), settle(s.pair_done(), locs)),
            },
            PhaseView::Comparing { first, second, at, stage } => {
                let t = next_turn(stage, reply);
                match t.call {
                    Some(call) => Settled {
                        sweep: s.busy(PhaseView::Comparing { first, second, at, stage: t.stage }),
                        faults: seq![],
                        turn: SweepTurnView::Call(call),
                    },
                    None => after_fault(
                        t.fault,
                        settle(
                            s.busy(
                                PhaseView::Comparing {
                                    first,
                                    second,
                                    at: at + 1,
                                    stage: StageView::Idle,
                                },
                            ),
                            locs,
                        ),
                    ),
                }
            },
            _ => settle(s, locs),
        }
    }
}

/// Appends `e` to the journal.
fn note(journal: &mut Vec<FileErrors>, e: FileErrors)
    ensures
        fault_views(final(journal)@) == fault_views(old(journal)@).push(e@),
{
    journal.push(e);
    assert(fault_views(journal@) =~= fault_views(old(journal)@).push(e@));
}

/// Appends the fault of a move, where it has one, to the journal.
fn note_if(journal: &mut Vec<FileErrors>, e: Option<FileErrors>)
    ensures
        fault_views(final(journal)@) == match e {
            Some(e) => fault_views(old(journal)@).push(e@),
            None => fault_views(old(journal)@),
        },
{
    match e {
        Some(e) => note(journal, e),
        None => {},
    }
}

impl Sweep {
    /// A pass in the given mode, at its start.
    pub fn start(mode: SyncMode) -> (s: Sweep)
        ensures
            s@ == SweepView::start(mode),
    {
        Sweep { mode, first: 0, second: 0, phase: Phase::Seeking }
    }

    /// Whether the pass is over.
    pub fn is_finished(&self) -> (r: bool)
        ensures
            r == (self@.phase is Finished),
    {
        match self.phase {
            Phase::Finished => true,
            _ => false,
        }
    }

    /// Takes the pass, in which no call is in flight, on to the point where
    /// it wants something. Faults met on the way go to the journal.
    pub fn settle(self, locs: &Vec<LocTypes>, journal: &mut Vec<FileErrors>) -> (r: (
        Sweep,
        SweepTurn,
    ))
        ensures
            r.0@ == settle(self@, loc_views(locs@)).sweep,
            r.1@ == settle(self@, loc_views(locs@)).turn,
            fault_views(final(journal)@) == fault_views(old(journal)@) + settle(
                self@,
                loc_views(locs@),
            ).faults,
    {
        let ghost lv = loc_views(locs@);
        let ghost want = settle(self@, lv);
        let ghost mut met: Seq<FileErrorView> = seq![];
        let n = locs.len();
        let mut cur = self;
        assert(after_faults(met, settle(cur@, lv)) == want) by {
            assert(met + want.faults =~= want.faults);
        }
        assert(fault_views(journal@) =~= fault_views(old(journal)@) + met);
        loop
            invariant
                lv == loc_views(locs@),
                n == locs@.len(),
                want == settle(self@, lv),
                after_faults(met, settle(cur@, lv)) == want,
                fault_views(journal@) == fault_views(old(journal)@) + met,
            decreases n - cur.first, n - cur.second, cur@.entries_left(),
        {
            let ghost before = cur@;
            let Sweep { mode, first, second, phase } = cur;
            match phase {
                Phase::Seeking => {
                    if first >= n {
                        let over = Sweep { mode, first, second, phase: Phase::Finished };
                        proof {
                            assert(met + settle(before, lv).faults =~= met);
                        }
                        return (over, SweepTurn::Finished);
                    } else if second >= n {
                        cur = Sweep { mode, first: first + 1, second: 0, phase: Phase::Seeking };
                    } else if locs[first] == locs[second] {
                        assert(lv[first as int] == lv[second as int]);
                        cur = Sweep { mode, first, second: second + 1, phase: Phase::Seeking };
                    } else {
                        assert(lv[first as int] != lv[second as int]);
                        match locs[first].list_files() {
                            Ok(call) => {
                                let busy = Sweep { mode, first, second, phase: Phase::ListingFirst };
                                proof {
                                    assert(met + settle(before, lv).faults =~= met);
                                }
                                return (busy, SweepTurn::Call(call));
                            },
                            Err(e) => {
                                proof {
                                    let rest = settle(before.pair_done(), lv);
                                    assert(met + (seq![e@] + rest.faults) =~= met.push(e@)
                                        + rest.faults);
                                    assert(fault_views(journal@).push(e@) =~= fault_views(
                                        old(journal)@,
                                    ) + met.push(e@));
                                    met = met.push(e@);
                                }
                                note(journal, e);
                                cur =
                                Sweep { mode, first, second: second + 1, phase: Phase::Seeking };
                            },
                        }
                    }
                },
                Phase::Comparing { first: fi, second: se, at, stage } => {
                    let idle = match stage {
                        Stage::Idle => true,
                        _ => false,
                    };
                    if first >= n || second >= n || !idle {
                        let over = Sweep { mode, first, second, phase: Phase::Finished };
                        proof {
                            assert(met + settle(before, lv).faults =~= met);
                        }
                        return (over, SweepTurn::Finished);
                    } else if at >= fi.len() {
                        cur = Sweep { mode, first, second: second + 1, phase: Phase::Seeking };
                    } else {
                        let res = resolve_entry(&fi, at, &se, &locs[second], mode);
                        assert(res@ == resolve(fi@, at as int, se@, lv[second as int], mode));
                        match res {
                            Resolution::Resync => {
                                let rest = Sweep {
                                    mode,
                                    first,
                                    second,
                                    phase: Phase::Comparing {
                                        first: fi,
                                        second: se,
                                        at: at + 1,
                                        stage: Stage::Idle,
                                    },
                                };
                                proof {
                                    assert(met + settle(before, lv).faults =~= met);
                                }
                                return (rest, SweepTurn::Resync);
                            },
                            other => {
                                let t = begin_item(other);
                                let ghost tv = t@;
                                let crate::item::Turn { stage: next, call, fault } = t;
                                match call {
                                    Some(call) => {
                                        let busy = Sweep {
                                            mode,
                                            first,
                                            second,
                                            phase: Phase::Comparing {
                                                first: fi,
                                                second: se,
                                                at,
                                                stage: next,
                                            },
                                        };
                                        proof {
                                            assert(met + settle(before, lv).faults =~= met);
                                        }
                                        return (busy, SweepTurn::Call(call));
                                    },
                                    None => {
                                        let rest = Sweep {
                                            mode,
                                            first,
                                            second,
                                            phase: Phase::Comparing {
                                                first: fi,
                                                second: se,
                                                at: at + 1,
                                                stage: Stage::Idle,
                                            },
                                        };
                                        let ghost given = tv.fault;
                                        proof {
                                            let tail = settle(rest@, lv);
                                            match given {
                                                Some(e) => {
                                                    assert(met + (seq![e] + tail.faults)
                                                        =~= met.push(e) + tail.faults);
                                                    assert(fault_views(journal@).push(e)
                                                        =~= fault_views(old(journal)@) + met.push(
                                                        e,
                                                    ));
                                                    met = met.push(e);
                                                },
                                                None => {},
                                            }
                                        }
                                        note_if(journal, fault);
                                        cur = rest;
                                    },
                                }
                            },
                        }
                    }
                },
                _ => {
                    let over = Sweep { mode, first, second, phase: Phase::Finished };
                    proof {
                        assert(met + settle(before, lv).faults =~= met);
                    }
                    return (over, SweepTurn::Finished);
                },
            }
        }
    }

    /// Hands the pass the answer to the call that it gave out last, and takes
    /// it on to the point where it wants something again.
    pub fn receive(self, locs: &Vec<LocTypes>, reply: BackendReply, journal: &mut Vec<FileErrors>)
        -> (r: (Sweep, SweepTurn))
        ensures
            r.0@ == receive(self@, loc_views(locs@), reply@).sweep,
            r.1@ == receive(self@, loc_views(locs@), reply@).turn,
            fault_views(final(journal)@) == fault_views(old(journal)@) + receive(
                self@,
                loc_views(locs@),
                reply@,
            ).faults,
    {
        let ghost lv = loc_views(locs@);
        let ghost sv = self@;
        let ghost was = fault_views(journal@);
        let n = locs.len();
        let Sweep { mode, first, second, phase } = self;
        match phase {
            Phase::ListingFirst => {
                if first >= n || second >= n {
                    assert(was + seq![] =~= was);
                    return (
                        Sweep { mode, first, second, phase: Phase::Finished },
                        SweepTurn::Finished,
                    );
                }
                let next = match reply {
                    BackendReply::Listed(Ok(idx)) => {
                        assert(lv[second as int] == locs@[second as int]@);
                        match locs[second].list_files() {
                            Ok(call) => {
                                assert(was + seq![] =~= was);
                                return (
                                    Sweep {
                                        mode,
                                        first,
                                        second,
                                        phase: Phase::ListingSecond { first: idx },
                                    },
                                    SweepTurn::Call(call),
                                );
                            },
                            Err(e) => e,
                        }
                    },
                    BackendReply::Listed(Err(e)) => e,
                    _ => FileErrors::Unreachable(
                        String::from_str("The backend gave no answer to the call"),
                    ),
                };
                let ghost e = next@;
                note(journal, next);
                let ghost rest = settle(sv.pair_done(), lv);
                assert(was.push(e) + rest.faults =~= was + (seq![e] + rest.faults));
                Sweep { mode, first, second: second + 1, phase: Phase::Seeking }.settle(
                    locs,
                    journal,
                )
            },
            Phase::ListingSecond { first: fi } => {
                if first >= n || second >= n {
                    assert(was + seq![] =~= was);
                    return (
                        Sweep { mode, first, second, phase: Phase::Finished },
                        SweepTurn::Finished,
                    );
                }
                let next = match reply {
                    BackendReply::Listed(Ok(idx)) => {
                        return Sweep {
                            mode,
                            first,
                            second,
                            phase: Phase::Comparing {
                                first: fi,
                                second: idx,
                                at: 0,
                                stage: Stage::Idle,
                            },
                        }.settle(locs, journal);
                    },
                    BackendReply::Listed(Err(e)) => e,
                    _ => FileErrors::Unreachable(
                        String::from_str("The backend gave no answer to the call"),
                    ),
                };
                let ghost e = next@;
                note(journal, next);
                let ghost rest = settle(sv.pair_done(), lv);
                assert(was.push(e) + rest.faults =~= was + (seq![e] + rest.faults));
                Sweep { mode, first, second: second + 1, phase: Phase::Seeking }.settle(
                    locs,
                    journal,
                )
            },
            Phase::Comparing { first: fi, second: se, at, stage } => {
                let idle = match stage {
                    Stage::Idle => true,
                    _ => false,
                };
                if idle {
                    return Sweep {
                        mode,
                        first,
                        second,
                        phase: Phase::Comparing { first: fi, second: se, at, stage },
                    }.settle(locs, journal);
                }
                if first >= n || second >= n || at >= fi.len() {
                    assert(was + seq![] =~= was);
                    return (
                        Sweep { mode, first, second, phase: Phase::Finished },
                        SweepTurn::Finished,
                    );
                }
                let t = continue_item(stage, reply);
                let ghost tv = t@;
                let crate::item::Turn { stage: next, call, fault } = t;
                match call {
                    Some(call) => {
                        assert(was + seq![] =~= was);
                        (
                            Sweep {
                                mode,
                                first,
                                second,
                                phase: Phase::Comparing { first: fi, second: se, at, stage: next },
                            },
                            SweepTurn::Call(call),
                        )
                    },
                    None => {
                        let rest = Sweep {
                            mode,
                            first,
                            second,
                            phase: Phase::Comparing {
                                first: fi,
                                second: se,
                                at: at + 1,
                                stage: Stage::Idle,
                            },
                        };
                        note_if(journal, fault);
                        proof {
                            let tail = settle(rest@, lv);
                            match tv.fault {
                                Some(e) => {
                                    assert(was.push(e) + tail.faults =~= was + (seq![e]
                                        + tail.faults));
                                },
                                None => {},
                            }
                        }
                        rest.settle(locs, journal)
                    },
                }
            },
            other => Sweep { mode, first, second, phase: other }.settle(locs, journal),
        }
    }
}

} // verus!
