//! What can go wrong: in the configured locations, and at a backend.

use vstd::prelude::*;
use vstd::string::StringExecFns;

verus! {

/// Faults in the locations that were handed over at start-up.
#[derive(Debug, Clone)]
pub enum ArgErrors {
    /// A location that is not of the form `<kind>:<path>`.
    InvalidLocation(String),
    /// No location is configured at all.
    EmptyCfg,
}

/// Faults of one operation on one location. The text says what was asked of
/// which kind of location.
#[derive(Debug, Clone)]
pub enum FileErrors {
    /// The location cannot be listed, or its listing failed.
    InvalidFileForListing(String),
    /// The location holds no bytes that could be overwritten.
    InvalidFileForWriting(String),
    /// The location could not be deleted.
    InvalidFileForDelete(String),
    /// Content was needed for a copy and could not be had.
    InvalidFileForReading(String),
    /// The location could not be created.
    InvalidFileForCreating(String),
    /// The backend never accepts a mutation.
    ReadOnlyBackend(String),
    /// The backend could not be reached: connecting, logging in or
    /// transferring failed.
    Unreachable(String),
}

/// The mathematical value of a [`FileErrors`].
pub enum FileErrorView {
    InvalidFileForListing(Seq<char>),
    InvalidFileForWriting(Seq<char>),
    InvalidFileForDelete(Seq<char>),
    InvalidFileForReading(Seq<char>),
    InvalidFileForCreating(Seq<char>),
    ReadOnlyBackend(Seq<char>),
    Unreachable(Seq<char>),
}

impl View for FileErrors {
    type V = FileErrorView;

    open spec fn view(&self) -> FileErrorView {
        match *self {
            FileErrors::InvalidFileForListing(s) => FileErrorView::InvalidFileForListing(s@),
            FileErrors::InvalidFileForWriting(s) => FileErrorView::InvalidFileForWriting(s@),
            FileErrors::InvalidFileForDelete(s) => FileErrorView::InvalidFileForDelete(s@),
            FileErrors::InvalidFileForReading(s) => FileErrorView::InvalidFileForReading(s@),
            FileErrors::InvalidFileForCreating(s) => FileErrorView::InvalidFileForCreating(s@),
            FileErrors::ReadOnlyBackend(s) => FileErrorView::ReadOnlyBackend(s@),
            FileErrors::Unreachable(s) => FileErrorView::Unreachable(s@),
        }
    }
}

impl FileErrorView {
    /// The words that introduce the detail in the rendered message.
    pub open spec fn heading(self) -> Seq<char> {
        match self {
            FileErrorView::InvalidFileForListing(_) => "Invalid file for listing: "@,
            FileErrorView::InvalidFileForWriting(_) => "Invalid file for writing into it: "@,
            FileErrorView::InvalidFileForDelete(_) => "Invalid file for delete: "@,
            FileErrorView::InvalidFileForReading(_) => "Invalid file for reading: "@,
            FileErrorView::InvalidFileForCreating(_) => "Invalid file for creating: "@,
            FileErrorView::ReadOnlyBackend(_) => "Read-only backend: "@,
            FileErrorView::Unreachable(_) => "Backend unreachable: "@,
        }
    }

    /// The detail that the error carries.
    pub open spec fn detail(self) -> Seq<char> {
        match self {
            FileErrorView::InvalidFileForListing(s) => s,
            FileErrorView::InvalidFileForWriting(s) => s,
            FileErrorView::InvalidFileForDelete(s) => s,
            FileErrorView::InvalidFileForReading(s) => s,
            FileErrorView::InvalidFileForCreating(s) => s,
            FileErrorView::ReadOnlyBackend(s) => s,
            FileErrorView::Unreachable(s) => s,
        }
    }

    /// The rendered message: heading, then detail.
    pub open spec fn message(self) -> Seq<char> {
        self.heading() + self.detail()
    }
}

impl FileErrors {
    /// The line shown for this error.
    pub fn message(&self) -> (r: String)
        ensures
            r@ == self@.message(),
    {
        match self {
            FileErrors::InvalidFileForListing(s) => String::from_str(
                "Invalid file for listing: ",
            ).concat(s.as_str()),
            FileErrors::InvalidFileForWriting(s) => String::from_str(
                "Invalid file for writing into it: ",
            ).concat(s.as_str()),
            FileErrors::InvalidFileForDelete(s) => String::from_str(
                "Invalid file for delete: ",
            ).concat(s.as_str()),
            FileErrors::InvalidFileForReading(s) => String::from_str(
                "Invalid file for reading: ",
            ).concat(s.as_str()),
            FileErrors::InvalidFileForCreating(s) => String::from_str(
                "Invalid file for creating: ",
            ).concat(s.as_str()),
            FileErrors::ReadOnlyBackend(s) => String::from_str("Read-only backend: ").concat(
                s.as_str(),
            ),
            FileErrors::Unreachable(s) => String::from_str("Backend unreachable: ").concat(
                s.as_str(),
            ),
        }
    }

    /// Whether the error says that the backend accepts no mutation.
    pub fn is_read_only(&self) -> (r: bool)
        ensures
            r == (self@ is ReadOnlyBackend),
    {
        match self {
            FileErrors::ReadOnlyBackend(_) => true,
            _ => false,
        }
    }

    /// A copy of this error.
    pub fn duplicate(&self) -> (r: FileErrors)
        ensures
            r == *self,
    {
        match self {
            FileErrors::InvalidFileForListing(s) => FileErrors::InvalidFileForListing(s.clone()),
            FileErrors::InvalidFileForWriting(s) => FileErrors::InvalidFileForWriting(s.clone()),
            FileErrors::InvalidFileForDelete(s) => FileErrors::InvalidFileForDelete(s.clone()),
            FileErrors::InvalidFileForReading(s) => FileErrors::InvalidFileForReading(s.clone()),
            FileErrors::InvalidFileForCreating(s) => FileErrors::InvalidFileForCreating(
                s.clone(),
            ),
            FileErrors::ReadOnlyBackend(s) => FileErrors::ReadOnlyBackend(s.clone()),
            FileErrors::Unreachable(s) => FileErrors::Unreachable(s.clone()),
        }
    }
}

impl ArgErrors {
    /// The line shown for this error.
    pub fn message(&self) -> (r: String)
        ensures
            match *self {
                ArgErrors::InvalidLocation(s) => r@ == "Invalid location format: "@ + s@,
                ArgErrors::EmptyCfg => r@
                    == "Config file empty, use --help to give --set arg some location paths"@,
            },
    {
        match self {
            ArgErrors::InvalidLocation(s) => String::from_str("Invalid location format: ").concat(
                s.as_str(),
            ),
            ArgErrors::EmptyCfg => String::from_str(
                "Config file empty, use --help to give --set arg some location paths",
            ),
        }
    }
}

} // verus!
