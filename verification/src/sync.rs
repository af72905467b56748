//! The synchronizer: one full pass at the start, then one pass for every
//! change that is seen, for ever.
//!
//! The synchronizer owns the list of locations, which never changes, and the
//! snapshots of the FTP locations that it took last. It touches no backend
//! itself: it says what is to be done next, a [`Step`] at a time, and is told
//! what came of it.

use crate::backend::{BackendCall, BackendReply, CallView, ReplyView};
use crate::errors::{FileErrorView, FileErrors};
use crate::index::{FileIndex, IndexView};
use crate::item::unanswered;
use crate::location::{LocTypes, LocView};
use crate::modes::SyncMode;
use crate::sweep::{
    fault_views, loc_views, receive, settle, Settled, Sweep, SweepTurn, SweepTurnView, SweepView,
};
use crate::watcher::{implied_mode, path_views, WatchEvent};
use vstd::prelude::*;
use vstd::string::StringExecFns;

verus! {

/// What whoever drives the synchronizer does next.
#[derive(Debug)]
pub enum Step {
    /// Perform the call, and hand its answer to `resume`.
    Perform(BackendCall),
    /// Nothing to perform: call `proceed`.
    Proceed,
    /// Nothing is under way: wait for a change, and hand it to
    /// `continous_sync`.
    AwaitEvent,
}

/// The mathematical value of a [`Step`].
pub enum StepView {
    Perform(CallView),
    Proceed,
    AwaitEvent,
}

impl View for Step {
    type V = StepView;

    open spec fn view(&self) -> StepView {
        match *self {
            Step::Perform(c) => StepView::Perform(c@),
            Step::Proceed => StepView::Proceed,
            Step::AwaitEvent => StepView::AwaitEvent,
        }
    }
}

/// The check of the FTP locations that goes before the pass for a change:
/// the directive that the change stands for, the location that is being
/// listed, the snapshots taken so far, and whether one of them has fewer
/// entries than the one before it.
#[derive(Debug)]
pub struct Probe {
    pub wanted: Option<SyncMode>,
    pub at: usize,
    pub fresh: Vec<FileIndex>,
    pub shrunk: bool,
}

/// The mathematical value of a [`Probe`].
pub struct ProbeView {
    pub wanted: Option<SyncMode>,
    pub at: int,
    pub fresh: Seq<IndexView>,
    pub shrunk: bool,
}

/// The mathematical values of a list of snapshots.
pub open spec fn index_views(v: Seq<FileIndex>) -> Seq<IndexView> {
    Seq::new(v.len(), |k: int| v[k]@)
}

impl View for Probe {
    type V = ProbeView;

    open spec fn view(&self) -> ProbeView {
        ProbeView {
            wanted: self.wanted,
            at: self.at as int,
            fresh: index_views(self.fresh@),
            shrunk: self.shrunk,
        }
    }
}

/// The owner of the locations and of all that is under way.
#[derive(Debug)]
pub struct Synchronizer {
    /// The locations, in the order in which they were configured.
    pub locations: Vec<LocTypes>,
    /// The snapshots of the FTP locations, in their order, as taken last.
    pub prev_ftp_files: Option<Vec<FileIndex>>,
    /// The pass that is under way.
    pub running: Option<Sweep>,
    /// The pass that waits for the one under way to end.
    pub suspended: Option<Sweep>,
    /// The check of the FTP locations that is under way.
    pub probe: Option<Probe>,
    /// The faults met so far, oldest first.
    pub journal: Vec<FileErrors>,
}

/// The mathematical value of a [`Synchronizer`].
pub struct SyncView {
    pub locations: Seq<LocView>,
    pub snapshots: Option<Seq<IndexView>>,
    pub running: Option<SweepView>,
    pub suspended: Option<SweepView>,
    pub probe: Option<ProbeView>,
    pub journal: Seq<FileErrorView>,
}

/// The mathematical value of a pass that may be there.
pub open spec fn sweep_view(s: Option<Sweep>) -> Option<SweepView> {
    match s {
        Some(s) => Some(s@),
        None => None,
    }
}

impl View for Synchronizer {
    type V = SyncView;

    open spec fn view(&self) -> SyncView {
        SyncView {
            locations: loc_views(self.locations@),
            snapshots: match self.prev_ftp_files {
                Some(v) => Some(index_views(v@)),
                None => None,
            },
            running: sweep_view(self.running),
            suspended: sweep_view(self.suspended),
            probe: match self.probe {
                Some(p) => Some(p@),
                None => None,
            },
            journal: fault_views(self.journal@),
        }
    }
}

/// A synchronizer after a move, and the step that the move asks for.
pub struct Moved {
    pub state: SyncView,
    pub step: StepView,
}

/// The first FTP location at or behind position `from`; the length of the
/// list where there is none.
pub open spec fn next_ftp(locs: Seq<LocView>, from: int) -> int
    decreases locs.len() - from,
{
    if from < 0 || from >= locs.len() {
        locs.len() as int
    } else if locs[from] is Ftp {
        from
    } else {
        next_ftp(locs, from + 1)
    }
}

/// Whether the listing number `which` of a check, with `count` entries, has
/// fewer entries than the snapshot that was taken of the same location in
/// the check before.
pub open spec fn shrank(snapshots: Option<Seq<IndexView>>, which: int, count: int) -> bool {
    match snapshots {
        Some(p) => 0 <= which < p.len() && count < p[which].len(),
        None => false,
    }
}

impl SyncView {
    /// The synchronizer after its pass under way has come to `sweep` and
    /// wants `turn`.
    ///
    /// A pass that asks for a whole pass is set aside until that one is
    /// over; the pass asked for is a pass for any drift. When a pass is
    /// over, the pass that was set aside goes on; when none was, nothing is
    /// under way any more.
    pub open spec fn landed(self, sweep: SweepView, turn: SweepTurnView) -> Moved {
        match turn {
            SweepTurnView::Call(c) => Moved {
                state: SyncView { running: Some(sweep), ..self },
                step: StepView::Perform(c),
            },
            SweepTurnView::Resync => match self.suspended {
                None => Moved {
                    state: SyncView {
                        running: Some(SweepView::start(SyncMode::Any)),
                        suspended: Some(sweep),
                        ..self
                    },
                    step: StepView::Proceed,
                },
                Some(_) => Moved {
                    state: SyncView { running: Some(sweep), ..self },
                    step: StepView::Proceed,
                },
            },
            SweepTurnView::Finished => match self.suspended {
                Some(outer) => Moved {
                    state: SyncView { running: Some(outer), suspended: None, ..self },
                    step: StepView::Proceed,
                },
                None => Moved {
                    state: SyncView { running: None, ..self },
                    step: StepView::AwaitEvent,
                },
            },
        }
    }

    /// The synchronizer after its pass under way has come to `r`: the faults
    /// of `r` are in the journal.
    pub open spec fn concluded(self, r: Settled) -> Moved {
        SyncView { journal: self.journal + r.faults, ..self }.landed(r.sweep, r.turn)
    }

    /// The check of the FTP locations, gone on from position `from` of the
    /// list. The next FTP location is listed. When there is none, the check
    /// is over: its snapshots replace those of the check before, and a pass
    /// begins, for removals if a location has shrunk, else as the change
    /// asked; if it asked for none, nothing more is done.
    pub open spec fn probing(
        self,
        wanted: Option<SyncMode>,
        from: int,
        fresh: Seq<IndexView>,
        shrunk: bool,
    ) -> Moved {
        let k = next_ftp(self.locations, from);
        if k < self.locations.len() {
            Moved {
                state: SyncView {
                    probe: Some(ProbeView { wanted, at: k, fresh, shrunk }),
                    ..self
                },
                step: StepView::Perform(CallView::List(self.locations[k])),
            }
        } else {
            let after = SyncView {
                probe: None,
                snapshots: if fresh.len() == 0 {
                    None
                } else {
                    Some(fresh)
                },
                ..self
            };
            let mode = if shrunk {
                Some(SyncMode::Delete)
            } else {
                wanted
            };
            match mode {
                Some(m) => after.begun(m),
                None => after.carried_on(),
            }
        }
    }

    /// The synchronizer, with its pass under way taken on to the point where
    /// it wants something.
    pub open spec fn carried_on(self) -> Moved {
        match self.running {
            Some(s) => self.concluded(settle(s, self.locations)),
            None => Moved { state: self, step: StepView::AwaitEvent },
        }
    }

    /// The synchronizer, taken on without an answer: a check under way asks
    /// for its listing again, a pass under way goes on.
    pub open spec fn proceeded(self) -> Moved {
        match self.probe {
            Some(p) => self.probing(p.wanted, p.at, p.fresh, p.shrunk),
            None => self.carried_on(),
        }
    }

    /// The synchronizer after a pass in `mode` was begun, in place of
    /// whatever was under way.
    pub open spec fn begun(self, mode: SyncMode) -> Moved {
        SyncView {
            running: Some(SweepView::start(mode)),
            suspended: None,
            probe: None,
            ..self
        }.carried_on()
    }

    /// The synchronizer after `reply` was handed to it.
    ///
    /// In a check of the FTP locations the reply is a snapshot: it is kept,
    /// and compared by its number of entries with the one before. A listing
    /// that failed goes to the journal, counts as an empty snapshot, and
    /// shows no shrinking. In a pass the reply goes to the pass.
    pub open spec fn resumed(self, reply: ReplyView) -> Moved {
        match self.probe {
            Some(p) => match reply {
                ReplyView::Listed(Ok(idx)) => self.probing(
                    p.wanted,
                    p.at + 1,
                    p.fresh.push(idx),
                    p.shrunk || shrank(self.snapshots, p.fresh.len() as int, idx.len() as int),
                ),
                ReplyView::Listed(Err(e)) => SyncView {
                    journal: self.journal.push(e),
                    ..self
                }.probing(p.wanted, p.at + 1, p.fresh.push(seq![]), p.shrunk),
                _ => SyncView { journal: self.journal.push(unanswered()), ..self }.probing(
                    p.wanted,
                    p.at + 1,
                    p.fresh.push(seq![]),
                    p.shrunk,
                ),
            },
            None => match self.running {
                Some(s) => self.concluded(receive(s, self.locations, reply)),
                None => Moved { state: self, step: StepView::AwaitEvent },
            },
        }
    }

    /// The synchronizer after a change was seen. While something is under
    /// way the change is passed over: the pass under way sees all there is.
    pub open spec fn noticed(self, mode: Option<SyncMode>) -> Moved {
        if self.probe is Some || self.running is Some {
            Moved { state: self, step: StepView::Proceed }
        } else {
            self.probing(mode, 0, seq![], false)
        }
    }
}

/// A check goes on alike from two states that differ in the check under way
/// only, and from two positions behind which the same FTP location is next.
proof fn lemma_probing_ignores(a: SyncView, b: SyncView, wanted: Option<SyncMode>, i: int, j: int)
    requires
        b == (SyncView { probe: b.probe, ..a }),
        next_ftp(a.locations, i) == next_ftp(a.locations, j),
    ensures
        forall|fresh: Seq<IndexView>, shrunk: bool|
            a.probing(wanted, i, fresh, shrunk) == #[trigger] b.probing(wanted, j, fresh, shrunk),
        forall|fresh: Seq<IndexView>, shrunk: bool, e: FileErrorView|
            (SyncView { journal: a.journal.push(e), ..a }).probing(wanted, i, fresh, shrunk)
                == #[trigger] (SyncView { journal: b.journal.push(e), ..b }).probing(
                wanted,
                j,
                fresh,
                shrunk,
            ),
{
}

/// The first FTP location at or behind position `from`.
fn find_ftp(locs: &Vec<LocTypes>, from: usize) -> (k: usize)
    ensures
        k == next_ftp(loc_views(locs@), from as int),
        k <= locs@.len(),
{
    let mut k = from;
    while k < locs.len()
        invariant
            next_ftp(loc_views(locs@), k as int) == next_ftp(loc_views(locs@), from as int),
        decreases locs@.len() - k,
    {
        match &locs[k] {
            LocTypes::Ftp(_, _, _, _) => {
                return k;
            },
            _ => {},
        }
        k += 1;
    }
    locs.len()
}

impl Synchronizer {
    /// A synchronizer of the given locations, with the snapshots of the FTP
    /// locations among them that are known, if any. Nothing is under way.
    pub fn new(locations: Vec<LocTypes>, option: Option<Vec<FileIndex>>) -> (s: Synchronizer)
        ensures
            s.locations == locations,
            s.prev_ftp_files == option,
            s@.running is None,
            s@.suspended is None,
            s@.probe is None,
            s@.journal == Seq::<FileErrorView>::empty(),
    {
        let s = Synchronizer {
            locations,
            prev_ftp_files: option,
            running: None,
            suspended: None,
            probe: None,
            journal: Vec::new(),
        };
        assert(s@.journal =~= Seq::<FileErrorView>::empty());
        s
    }

    /// Takes note of what the pass under way has come to.
    fn land(&mut self, sweep: Sweep, turn: SweepTurn) -> (step: Step)
        ensures
            final(self)@ == old(self)@.landed(sweep@, turn@).state,
            step@ == old(self)@.landed(sweep@, turn@).step,
    {
        match turn {
            SweepTurn::Call(c) => {
                self.running = Some(sweep);
                Step::Perform(c)
            },
            SweepTurn::Resync => {
                if self.suspended.is_none() {
                    self.suspended = Some(sweep);
                    self.running = Some(Sweep::start(SyncMode::Any));
                } else {
                    self.running = Some(sweep);
                }
                Step::Proceed
            },
            SweepTurn::Finished => {
                let outer = self.suspended.take();
                match outer {
                    Some(outer) => {
                        self.running = Some(outer);
                        Step::Proceed
                    },
                    None => {
                        self.running = None;
                        Step::AwaitEvent
                    },
                }
            },
        }
    }

    /// Takes the pass under way on to the point where it wants something.
    fn carry_on(&mut self) -> (step: Step)
        ensures
            final(self)@ == old(self)@.carried_on().state,
            step@ == old(self)@.carried_on().step,
    {
        let running = self.running.take();
        match running {
            Some(sweep) => {
                let (sweep, turn) = sweep.settle(&self.locations, &mut self.journal);
                self.land(sweep, turn)
            },
            None => Step::AwaitEvent,
        }
    }

    /// Goes on with the check of the FTP locations from position `from`.
    fn probe_from(
        &mut self,
        wanted: Option<SyncMode>,
        from: usize,
        fresh: Vec<FileIndex>,
        shrunk: bool,
    ) -> (step: Step)
        ensures
            final(self)@ == old(self)@.probing(
                wanted,
                from as int,
                index_views(fresh@),
                shrunk,
            ).state,
            step@ == old(self)@.probing(wanted, from as int, index_views(fresh@), shrunk).step,
    {
        let k = find_ftp(&self.locations, from);
        if k < self.locations.len() {
            let call = BackendCall::List(self.locations[k].duplicate());
            self.probe = Some(Probe { wanted, at: k, fresh, shrunk });
            Step::Perform(call)
        } else {
            self.probe = None;
            if fresh.len() == 0 {
                self.prev_ftp_files = None;
            } else {
                self.prev_ftp_files = Some(fresh);
            }
            let mode = if shrunk {
                Some(SyncMode::Delete)
            } else {
                wanted
            };
            match mode {
                Some(m) => self.initial_sync(m),
                None => self.carry_on(),
            }
        }
    }

    /// Begins a pass in the given mode, in place of whatever was under way,
    /// and takes it to the point where it wants something.
    pub fn initial_sync(&mut self, mode: SyncMode) -> (step: Step)
        ensures
            final(self)@ == old(self)@.begun(mode).state,
            step@ == old(self)@.begun(mode).step,
    {
        self.running = Some(Sweep::start(mode));
        self.suspended = None;
        self.probe = None;
        self.carry_on()
    }

    /// Begins the work of the synchronizer: one full pass, for any drift.
    /// When that pass is over the synchronizer waits for changes.
    pub fn sync(&mut self) -> (step: Step)
        ensures
            final(self)@ == old(self)@.begun(SyncMode::Any).state,
            step@ == old(self)@.begun(SyncMode::Any).step,
    {
        self.initial_sync(SyncMode::Any)
    }

    /// Goes on without an answer, after a step that asked for none.
    pub fn proceed(&mut self) -> (step: Step)
        ensures
            final(self)@ == old(self)@.proceeded().state,
            step@ == old(self)@.proceeded().step,
    {
        let probe = self.probe.take();
        match probe {
            Some(p) => {
                let Probe { wanted, at, fresh, shrunk } = p;
                self.probe_from(wanted, at, fresh, shrunk)
            },
            None => self.carry_on(),
        }
    }

    /// Takes the answer to the call that was handed out last.
    pub fn resume(&mut self, reply: BackendReply) -> (step: Step)
        ensures
            final(self)@ == old(self)@.resumed(reply@).state,
            step@ == old(self)@.resumed(reply@).step,
    {
        let probe = self.probe.take();
        match probe {
            Some(p) => {
                let Probe { wanted, at, fresh, shrunk } = p;
                let mut fresh = fresh;
                let ghost before = index_views(fresh@);
                let n = self.locations.len();
                let next = if at < n {
                    at + 1
                } else {
                    at
                };
                proof {
                    let lv = loc_views(self.locations@);
                    assert(next_ftp(lv, next as int) == next_ftp(lv, at + 1));
                    lemma_probing_ignores(old(self)@, self@, wanted, at + 1, next as int);
                }
                match reply {
                    BackendReply::Listed(Ok(idx)) => {
                        let which = fresh.len();
                        let fewer = match &self.prev_ftp_files {
                            Some(p) => which < p.len() && idx.len() < p[which].len(),
                            None => false,
                        };
                        fresh.push(idx);
                        assert(index_views(fresh@) =~= before.push(idx@));
                        self.probe_from(wanted, next, fresh, shrunk || fewer)
                    },
                    BackendReply::Listed(Err(e)) => {
                        fresh.push(FileIndex::new());
                        assert(index_views(fresh@) =~= before.push(seq![]));
                        self.journal.push(e);
                        assert(fault_views(self.journal@) =~= old(self)@.journal.push(e@));
                        self.probe_from(wanted, next, fresh, shrunk)
                    },
                    _ => {
                        fresh.push(FileIndex::new());
                        assert(index_views(fresh@) =~= before.push(seq![]));
                        let e = FileErrors::Unreachable(
                            String::from_str("The backend gave no answer to the call"),
                        );
                        self.journal.push(e);
                        assert(fault_views(self.journal@) =~= old(self)@.journal.push(e@));
                        self.probe_from(wanted, next, fresh, shrunk)
                    },
                }
            },
            None => {
                let running = self.running.take();
                match running {
                    Some(sweep) => {
                        let (sweep, turn) = sweep.receive(&self.locations, reply, &mut self.journal);
                        self.land(sweep, turn)
                    },
                    None => Step::AwaitEvent,
                }
            },
        }
    }

    /// Takes one change from the stream of changes. The FTP locations, which
    /// announce nothing themselves, are listed anew first; then a pass runs,
    /// as the change and the listings ask.
    pub fn continous_sync(&mut self, event: &WatchEvent) -> (step: Step)
        ensures
            final(self)@ == old(self)@.noticed(
                implied_mode(event.kind, path_views(event.paths@)),
            ).state,
            step@ == old(self)@.noticed(implied_mode(event.kind, path_views(event.paths@))).step,
    {
        if self.probe.is_some() || self.running.is_some() {
            Step::Proceed
        } else {
            let mode = event.implied_mode();
            let fresh: Vec<FileIndex> = Vec::new();
            assert(index_views(fresh@) =~= seq![]);
            self.probe_from(mode, 0, fresh, false)
        }
    }

    /// Hands over the faults met so far, oldest first, and forgets them.
    pub fn take_journal(&mut self) -> (faults: Vec<FileErrors>)
        ensures
            fault_views(faults@) == old(self)@.journal,
            final(self)@ == (SyncView { journal: seq![], ..old(self)@ }),
    {
        let mut faults: Vec<FileErrors> = Vec::new();
        core::mem::swap(&mut self.journal, &mut faults);
        assert(fault_views(self.journal@) =~= seq![]);
        faults
    }
}

} // verus!
