//! What each kind of location can be asked to do.
//!
//! Every logical operation on a descriptor is either refused at once, with
//! the reason, or turned into the one [`BackendCall`] that carries it out.

use crate::backend::{BackendCall, CallView};
use crate::errors::{FileErrorView, FileErrors};
use crate::location::{LocTypes, LocView};
use crate::modes::CreateType;
use crate::text::contains_char;
use vstd::prelude::*;
use vstd::string::StringExecFns;

verus! {

impl LocView {
    /// Listing: refused for a single file, which has nothing beneath it.
    pub open spec fn list_plan(self) -> Result<CallView, FileErrorView> {
        if self is SimpleFile {
            Err(FileErrorView::InvalidFileForListing("a simple file could not be iterated"@))
        } else {
            Ok(CallView::List(self))
        }
    }

    /// Reading: a folder has no content.
    pub open spec fn read_plan(self) -> Option<CallView> {
        if self is Folder {
            None
        } else {
            Some(CallView::Read(self))
        }
    }

    /// Writing: refused for an archive, which is read-only, and for a folder,
    /// which holds no bytes.
    pub open spec fn write_plan(self, content: Seq<u8>) -> Result<CallView, FileErrorView> {
        match self {
            LocView::Zip(_) => Err(FileErrorView::ReadOnlyBackend("ZIP file is read-only"@)),
            LocView::Folder(_) => Err(
                FileErrorView::InvalidFileForWriting("A folder can't be written"@),
            ),
            _ => Ok(CallView::Write(self, content)),
        }
    }

    /// Deleting: refused for an archive.
    pub open spec fn delete_plan(self) -> Result<CallView, FileErrorView> {
        if self is Zip {
            Err(FileErrorView::ReadOnlyBackend("ZIP file is read-only"@))
        } else {
            Ok(CallView::Delete(self))
        }
    }

    /// Creating the child `rel`: refused for an archive; refused in the local
    /// file system for a folder whose full path holds a dot.
    pub open spec fn create_plan(self, rel: Seq<char>, kind: CreateType) -> Result<
        CallView,
        FileErrorView,
    > {
        if self is Zip {
            Err(FileErrorView::ReadOnlyBackend("ZIP file is read-only"@))
        } else if !(self is Ftp) && kind == CreateType::Folder && self.child(rel).text().contains(
            '.',
        ) {
            Err(
                FileErrorView::InvalidFileForCreating(
                    "Folders that contain a dot (.) are not accepted. Please rename"@,
                ),
            )
        } else {
            Ok(CallView::Create(self.child(rel), kind))
        }
    }
}

/// The mathematical value of what an operation was turned into.
pub open spec fn planned(r: Result<BackendCall, FileErrors>) -> Result<CallView, FileErrorView> {
    match r {
        Ok(call) => Ok(call@),
        Err(e) => Err(e@),
    }
}

/// The mathematical value of what a read was turned into.
pub open spec fn planned_read(r: Option<BackendCall>) -> Option<CallView> {
    match r {
        Some(call) => Some(call@),
        None => None,
    }
}

/// The operations that every location offers, an archive too.
pub trait ReadOnly {
    /// Asks for the snapshot of everything beneath this root.
    fn list_files(&self) -> Result<BackendCall, FileErrors>;

    /// Asks for the bytes of this entry; `None` where it has none.
    fn read_file(&self) -> Option<BackendCall>;
}

/// The operations that change a location.
pub trait ReadWrite: ReadOnly {
    /// Asks to replace the bytes of this entry by `content`.
    fn write_file(&self, content: &[u8]) -> Result<BackendCall, FileErrors>;

    /// Asks to remove this entry.
    fn delete_file(&self) -> Result<BackendCall, FileErrors>;

    /// Asks to make the child `path` of this location, a file or a folder.
    fn create_file(&self, path: &str, create_type: CreateType) -> Result<BackendCall, FileErrors>;
}

impl ReadOnly for LocTypes {
    fn list_files(&self) -> (r: Result<BackendCall, FileErrors>)
        ensures
            planned(r) == self@.list_plan(),
    {
        match self {
            LocTypes::SimpleFile(_) => Err(
                FileErrors::InvalidFileForListing(
                    String::from_str("a simple file could not be iterated"),
                ),
            ),
            _ => Ok(BackendCall::List(self.duplicate())),
        }
    }

    fn read_file(&self) -> (r: Option<BackendCall>)
        ensures
            planned_read(r) == self@.read_plan(),
    {
        match self {
            LocTypes::Folder(_) => None,
            _ => Some(BackendCall::Read(self.duplicate())),
        }
    }
}

impl ReadWrite for LocTypes {
    fn write_file(&self, content: &[u8]) -> (r: Result<BackendCall, FileErrors>)
        ensures
            planned(r) == self@.write_plan(content@),
    {
        match self {
            LocTypes::Zip(_) => Err(
                FileErrors::ReadOnlyBackend(String::from_str("ZIP file is read-only")),
            ),
            LocTypes::Folder(_) => Err(
                FileErrors::InvalidFileForWriting(String::from_str("A folder can't be written")),
            ),
            _ => Ok(BackendCall::Write(self.duplicate(), vstd::slice::slice_to_vec(content))),
        }
    }

    fn delete_file(&self) -> (r: Result<BackendCall, FileErrors>)
        ensures
            planned(r) == self@.delete_plan(),
    {
        match self {
            LocTypes::Zip(_) => Err(
                FileErrors::ReadOnlyBackend(String::from_str("ZIP file is read-only")),
            ),
            _ => Ok(BackendCall::Delete(self.duplicate())),
        }
    }

    fn create_file(&self, path: &str, create_type: CreateType) -> (r: Result<
        BackendCall,
        FileErrors,
    >)
        ensures
            planned(r) == self@.create_plan(path@, create_type),
    {
        match self {
            LocTypes::Zip(_) => Err(
                FileErrors::ReadOnlyBackend(String::from_str("ZIP file is read-only")),
            ),
            LocTypes::Ftp(_, _, _, _) => Ok(BackendCall::Create(self.child(path), create_type)),
            _ => {
                let place = self.child(path);
                let is_folder = match create_type {
                    CreateType::Folder => true,
                    CreateType::File => false,
                };
                let text = place.to_text();
                if is_folder && contains_char(text.as_str(), '.') {
                    Err(
                        FileErrors::InvalidFileForCreating(
                            String::from_str(
                                "Folders that contain a dot (.) are not accepted. Please rename",
                            ),
                        ),
                    )
                } else {
                    Ok(BackendCall::Create(place, create_type))
                }
            },
        }
    }
}

} // verus!
