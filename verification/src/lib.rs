//! Reconciliation of file trees replicated over folders, FTP roots, ZIP
//! archives and single files: the decisions of the synchronizer, proved.

pub mod archive;
pub mod backend;
pub mod capability;
pub mod config;
pub mod decimal;
pub mod errors;
pub mod ftp;
pub mod index;
pub mod item;
pub mod laws;
pub mod listing;
pub mod location;
pub mod modes;
pub mod paths;
pub mod resolve;
pub mod sweep;
pub mod sync;
pub mod text;
pub mod time;
pub mod watcher;
