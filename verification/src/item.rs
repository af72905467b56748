//! Carrying out one decision, call by call.
//!
//! A decision needs up to three backend calls in a row, and each depends on
//! the answer to the one before. A [`Stage`] remembers where an item stands
//! between two calls.

use crate::backend::{BackendCall, BackendReply, CallView, ReplyView};
use crate::capability::{ReadOnly, ReadWrite};
use crate::errors::{FileErrorView, FileErrors};
use crate::location::{LocTypes, LocView};
use crate::modes::CreateType;
use crate::resolve::{Resolution, ResolutionView};
use crate::time::Timestamp;
use vstd::prelude::*;
use vstd::string::StringExecFns;

verus! {

/// Where the item in hand stands.
#[derive(Debug)]
pub enum Stage {
    /// No call is in flight: the item is done, or was given up.
    Idle,
    /// The place `child` is being created; the bytes of `from` go there next.
    Creating { from: LocTypes, child: LocTypes },
    /// Bytes are being read; they go to `to`, which then takes `stamp`.
    Reading { to: LocTypes, stamp: Option<Timestamp> },
    /// Bytes are being written to `to`, which then takes `stamp`.
    Writing { to: LocTypes, stamp: Option<Timestamp> },
    /// The last call of the item is in flight.
    Finishing,
}

/// The mathematical value of a [`Stage`].
pub enum StageView {
    Idle,
    Creating { from: LocView, child: LocView },
    Reading { to: LocView, stamp: Option<Timestamp> },
    Writing { to: LocView, stamp: Option<Timestamp> },
    Finishing,
}

impl View for Stage {
    type V = StageView;

    open spec fn view(&self) -> StageView {
        match *self {
            Stage::Idle => StageView::Idle,
            Stage::Creating { from, child } => StageView::Creating { from: from@, child: child@ },
            Stage::Reading { to, stamp } => StageView::Reading { to: to@, stamp },
            Stage::Writing { to, stamp } => StageView::Writing { to: to@, stamp },
            Stage::Finishing => StageView::Finishing,
        }
    }
}

/// One move of an item: where it stands now, the call to perform next, and
/// the fault for which it was given up.
#[derive(Debug)]
pub struct Turn {
    pub stage: Stage,
    pub call: Option<BackendCall>,
    pub fault: Option<FileErrors>,
}

/// The mathematical value of a [`Turn`].
pub struct TurnView {
    pub stage: StageView,
    pub call: Option<CallView>,
    pub fault: Option<FileErrorView>,
}

impl View for Turn {
    type V = TurnView;

    open spec fn view(&self) -> TurnView {
        TurnView {
            stage: self.stage@,
            call: match self.call {
                Some(c) => Some(c@),
                None => None,
            },
            fault: match self.fault {
                Some(e) => Some(e@),
                None => None,
            },
        }
    }
}

/// The fault of content that a copy needed and that could not be had.
pub open spec fn read_failure() -> FileErrorView {
    FileErrorView::InvalidFileForReading("Couldn't read file"@)
}

/// The fault of a call that was answered by something else than its result.
pub open spec fn unanswered() -> FileErrorView {
    FileErrorView::Unreachable("The backend gave no answer to the call"@)
}

/// The item is done.
pub open spec fn done() -> TurnView {
    TurnView { stage: StageView::Idle, call: None, fault: None }
}

/// The item is given up for the fault `e`.
pub open spec fn given_up(e: FileErrorView) -> TurnView {
    TurnView { stage: StageView::Idle, call: None, fault: Some(e) }
}

/// The item goes on with `call`, and then stands at `stage`.
pub open spec fn going_on(stage: StageView, call: CallView) -> TurnView {
    TurnView { stage, call: Some(call), fault: None }
}

/// The item goes on with what the operation was turned into, or is given up
/// where the operation was refused.
pub open spec fn attempt(stage: StageView, plan: Result<CallView, FileErrorView>) -> TurnView {
    match plan {
        Ok(call) => going_on(stage, call),
        Err(e) => given_up(e),
    }
}

/// Reading `from`, on the way to `to`.
pub open spec fn start_read(from: LocView, to: LocView, stamp: Option<Timestamp>) -> TurnView {
    match from.read_plan() {
        Some(call) => going_on(StageView::Reading { to, stamp }, call),
        None => given_up(read_failure()),
    }
}

/// The first move of the item that carries out `res`.
pub open spec fn first_turn(res: ResolutionView) -> TurnView {
    match res {
        ResolutionView::Nothing => done(),
        ResolutionView::Resync => done(),
        ResolutionView::Copy { from, to, stamp } => start_read(from, to, Some(stamp)),
        ResolutionView::Replicate { from, into, rel } => attempt(
            StageView::Creating { from, child: into.child(rel) },
            into.create_plan(rel, CreateType::File),
        ),
        ResolutionView::MakeFolder { into, rel } => attempt(
            StageView::Finishing,
            into.create_plan(rel, CreateType::Folder),
        ),
        ResolutionView::Remove { target } => attempt(StageView::Finishing, target.delete_plan()),
    }
}

/// The fault that a reply to a mutation tells of.
pub open spec fn fault_of(reply: ReplyView) -> Option<FileErrorView> {
    match reply {
        ReplyView::Done(Ok(_)) => None,
        ReplyView::Done(Err(e)) => Some(e),
        _ => Some(unanswered()),
    }
}

/// The move of an item that stands at `stage` when `reply` comes back. A
/// fault ends the item; so does content that is not to be had.
pub open spec fn next_turn(stage: StageView, reply: ReplyView) -> TurnView {
    match stage {
        StageView::Idle => done(),
        StageView::Creating { from, child } => match fault_of(reply) {
            Some(e) => given_up(e),
            None => start_read(from, child, None),
        },
        StageView::Reading { to, stamp } => match reply {
            ReplyView::Content(Some(bytes)) => attempt(
                StageView::Writing { to, stamp },
                to.write_plan(bytes),
            ),
            _ => given_up(read_failure()),
        },
        StageView::Writing { to, stamp } => match fault_of(reply) {
            Some(e) => given_up(e),
            None => match stamp {
                Some(t) => going_on(StageView::Finishing, CallView::SetTimes(to, t)),
                None => done(),
            },
        },
        StageView::Finishing => match fault_of(reply) {
            Some(e) => given_up(e),
            None => done(),
        },
    }
}

fn turn_done() -> (t: Turn)
    ensures
        t@ == done(),
{
    Turn { stage: Stage::Idle, call: None, fault: None }
}

fn turn_given_up(e: FileErrors) -> (t: Turn)
    ensures
        t@ == given_up(e@),
{
    Turn { stage: Stage::Idle, call: None, fault: Some(e) }
}

fn turn_attempt(stage: Stage, plan: Result<BackendCall, FileErrors>) -> (t: Turn)
    ensures
        t@ == attempt(stage@, crate::capability::planned(plan)),
{
    match plan {
        Ok(call) => Turn { stage, call: Some(call), fault: None },
        Err(e) => turn_given_up(e),
    }
}

fn turn_read(from: &LocTypes, to: LocTypes, stamp: Option<Timestamp>) -> (t: Turn)
    ensures
        t@ == start_read(from@, to@, stamp),
{
    match from.read_file() {
        Some(call) => Turn { stage: Stage::Reading { to, stamp }, call: Some(call), fault: None },
        None => turn_given_up(
            FileErrors::InvalidFileForReading(String::from_str("Couldn't read file")),
        ),
    }
}

fn reply_fault(reply: BackendReply) -> (r: Option<FileErrors>)
    ensures
        match r {
            Some(e) => fault_of(reply@) == Some(e@),
            None => fault_of(reply@) is None,
        },
{
    match reply {
        BackendReply::Done(Ok(_)) => None,
        BackendReply::Done(Err(e)) => Some(e),
        _ => Some(FileErrors::Unreachable(String::from_str("The backend gave no answer to the call"))),
    }
}

/// Begins the item that carries out `res`.
pub fn begin_item(res: Resolution) -> (t: Turn)
    ensures
        t@ == first_turn(res@),
{
    match res {
        Resolution::Nothing => turn_done(),
        Resolution::Resync => turn_done(),
        Resolution::Copy { from, to, stamp } => turn_read(&from, to, Some(stamp)),
        Resolution::Replicate { from, into, rel } => {
            let child = into.child(rel.as_str());
            let plan = into.create_file(rel.as_str(), CreateType::File);
            turn_attempt(Stage::Creating { from, child }, plan)
        },
        Resolution::MakeFolder { into, rel } => {
            let plan = into.create_file(rel.as_str(), CreateType::Folder);
            turn_attempt(Stage::Finishing, plan)
        },
        Resolution::Remove { target } => {
            let plan = target.delete_file();
            turn_attempt(Stage::Finishing, plan)
        },
    }
}

/// Goes on with the item that stands at `stage`, now that `reply` came back.
pub fn continue_item(stage: Stage, reply: BackendReply) -> (t: Turn)
    ensures
        t@ == next_turn(stage@, reply@),
{
    match stage {
        Stage::Idle => turn_done(),
        Stage::Creating { from, child } => match reply_fault(reply) {
            Some(e) => turn_given_up(e),
            None => turn_read(&from, child, None),
        },
        Stage::Reading { to, stamp } => match reply {
            BackendReply::Content(Some(bytes)) => {
                let plan = to.write_file(bytes.as_slice());
                turn_attempt(Stage::Writing { to, stamp }, plan)
            },
            _ => turn_given_up(
                FileErrors::InvalidFileForReading(String::from_str("Couldn't read file")),
            ),
        },
        Stage::Writing { to, stamp } => match reply_fault(reply) {
            Some(e) => turn_given_up(e),
            None => match stamp {
                Some(t) => Turn {
                    stage: Stage::Finishing,
                    call: Some(BackendCall::SetTimes(to, t)),
                    fault: None,
                },
                None => turn_done(),
            },
        },
        Stage::Finishing => match reply_fault(reply) {
            Some(e) => turn_given_up(e),
            None => turn_done(),
        },
    }
}

/// A move hands out a call exactly when the item is not over, and never a
/// call together with a fault.
pub proof fn lemma_turn_shape(stage: StageView, reply: ReplyView)
    ensures
        next_turn(stage, reply).call is Some <==> !(next_turn(stage, reply).stage is Idle),
        next_turn(stage, reply).call is Some ==> next_turn(stage, reply).fault is None,
{
}

/// The first move hands out a call exactly when the item is not over.
pub proof fn lemma_first_turn_shape(res: ResolutionView)
    ensures
        first_turn(res).call is Some <==> !(first_turn(res).stage is Idle),
        first_turn(res).call is Some ==> first_turn(res).fault is None,
{
}

} // verus!
