//! What the engine asks of the storage backends, and what they answer.
//!
//! The engine itself touches no file and no network. It hands out one
//! [`BackendCall`] at a time; whoever drives it performs the call against the
//! real backend and hands the [`BackendReply`] back.

use crate::errors::{FileErrorView, FileErrors};
use crate::index::{FileIndex, IndexView};
use crate::location::{LocTypes, LocView};
use crate::modes::CreateType;
use crate::time::Timestamp;
use vstd::prelude::*;

verus! {

/// One primitive operation on one location.
#[derive(Debug)]
pub enum BackendCall {
    /// Enumerate everything beneath the root.
    List(LocTypes),
    /// Fetch the bytes of the entry.
    Read(LocTypes),
    /// Replace the bytes of the entry.
    Write(LocTypes, Vec<u8>),
    /// Remove the entry, with all beneath it.
    Delete(LocTypes),
    /// Make an empty file or a folder at the place, with missing parents.
    Create(LocTypes, CreateType),
    /// Set the modification time of the entry.
    SetTimes(LocTypes, Timestamp),
}

/// The mathematical value of a [`BackendCall`].
pub enum CallView {
    List(LocView),
    Read(LocView),
    Write(LocView, Seq<u8>),
    Delete(LocView),
    Create(LocView, CreateType),
    SetTimes(LocView, Timestamp),
}

impl View for BackendCall {
    type V = CallView;

    open spec fn view(&self) -> CallView {
        match *self {
            BackendCall::List(l) => CallView::List(l@),
            BackendCall::Read(l) => CallView::Read(l@),
            BackendCall::Write(l, bytes) => CallView::Write(l@, bytes@),
            BackendCall::Delete(l) => CallView::Delete(l@),
            BackendCall::Create(l, kind) => CallView::Create(l@, kind),
            BackendCall::SetTimes(l, t) => CallView::SetTimes(l@, t),
        }
    }
}

impl CallView {
    /// The location that the call is made on.
    pub open spec fn target(self) -> LocView {
        match self {
            CallView::List(l) => l,
            CallView::Read(l) => l,
            CallView::Write(l, _) => l,
            CallView::Delete(l) => l,
            CallView::Create(l, _) => l,
            CallView::SetTimes(l, _) => l,
        }
    }

    /// Whether the call changes what the backend holds.
    pub open spec fn mutates(self) -> bool {
        !(self is List) && !(self is Read)
    }
}

impl BackendCall {
    /// Whether the call changes what the backend holds.
    pub fn is_mutation(&self) -> (r: bool)
        ensures
            r == self@.mutates(),
    {
        match self {
            BackendCall::List(_) => false,
            BackendCall::Read(_) => false,
            _ => true,
        }
    }

    /// The location that the call is made on.
    pub fn location(&self) -> (l: &LocTypes)
        ensures
            l@ == self@.target(),
    {
        match self {
            BackendCall::List(l) => l,
            BackendCall::Read(l) => l,
            BackendCall::Write(l, _) => l,
            BackendCall::Delete(l) => l,
            BackendCall::Create(l, _) => l,
            BackendCall::SetTimes(l, _) => l,
        }
    }
}

/// What came back from the backend for the call that was handed out last.
#[derive(Debug)]
pub enum BackendReply {
    /// The answer to a `List`.
    Listed(Result<FileIndex, FileErrors>),
    /// The answer to a `Read`: the bytes, or `None` where none could be had.
    Content(Option<Vec<u8>>),
    /// The answer to any mutation.
    Done(Result<(), FileErrors>),
}

/// The mathematical value of a [`BackendReply`].
pub enum ReplyView {
    Listed(Result<IndexView, FileErrorView>),
    Content(Option<Seq<u8>>),
    Done(Result<(), FileErrorView>),
}

impl View for BackendReply {
    type V = ReplyView;

    open spec fn view(&self) -> ReplyView {
        match *self {
            BackendReply::Listed(Ok(idx)) => ReplyView::Listed(Ok(idx@)),
            BackendReply::Listed(Err(e)) => ReplyView::Listed(Err(e@)),
            BackendReply::Content(Some(bytes)) => ReplyView::Content(Some(bytes@)),
            BackendReply::Content(None) => ReplyView::Content(None),
            BackendReply::Done(Ok(_)) => ReplyView::Done(Ok(())),
            BackendReply::Done(Err(e)) => ReplyView::Done(Err(e@)),
        }
    }
}

} // verus!
