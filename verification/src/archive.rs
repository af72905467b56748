//! Snapshots of ZIP archives.
//!
//! The bytes of an archive are decoded by the `zip` crate, and the calendar
//! is that of the `chrono` crate. What is believed of the two is said here,
//! item by item; from there on the index of an archive is built by proved
//! code.

use crate::decimal::{stamp, stamp_text};
use crate::errors::{FileErrorView, FileErrors};
use crate::index::{stored, EntryView, FileEntry, FileIndex, IndexView};
use crate::location::{join_path, LocTypes, LocView};
use crate::paths::{relative, relative_path};
use crate::time::Timestamp;
use crate::watcher::{ignored, is_ignored};
use std::io::Cursor;
use std::io::Read;
use vstd::prelude::*;
use vstd::string::StringExecFns;
use zip::result::ZipError;
use zip::ZipArchive;

verus! {

/// An archive of the `zip` crate, open for reading.
#[verifier::external_type_specification]
#[verifier::external_body]
#[verifier::reject_recursive_types(R)]
pub struct ExZipArchive<R>(ZipArchive<R>);

/// The error of the `zip` crate.
#[verifier::external_type_specification]
#[verifier::external_body]
pub struct ExZipError(ZipError);

/// The reader of std over bytes in memory.
#[verifier::external_type_specification]
#[verifier::external_body]
#[verifier::reject_recursive_types(T)]
pub struct ExCursor<T>(Cursor<T>);

/// A moment as an archive records it: a date and a time of day, in no zone.
#[derive(Clone, Copy, Debug, PartialEq, Eq, Structural)]
pub struct CivilTime {
    pub year: u16,
    pub month: u8,
    pub day: u8,
    pub hour: u8,
    pub minute: u8,
    pub second: u8,
}

/// One member of an archive, as its directory describes it.
#[derive(Debug)]
pub struct ZipMember {
    pub name: String,
    pub is_dir: bool,
    pub modified: Option<CivilTime>,
}

/// The mathematical value of a [`ZipMember`].
pub struct MemberView {
    pub name: Seq<char>,
    pub is_dir: bool,
    pub modified: Option<CivilTime>,
}

impl View for ZipMember {
    type V = MemberView;

    open spec fn view(&self) -> MemberView {
        MemberView { name: self.name@, is_dir: self.is_dir, modified: self.modified }
    }
}

/// The members of an open archive, in the order of its directory; `None`
/// stands for a member that cannot be got at.
pub uninterp spec fn archive_members(archive: ZipArchive<Cursor<Vec<u8>>>) -> Seq<
    Option<MemberView>,
>;

/// The members of the archive that the bytes encode; `None` where the bytes
/// are no archive.
pub uninterp spec fn decoded_members(bytes: Seq<u8>) -> Option<Seq<Option<MemberView>>>;

/// The bytes that the member `name` of the archive that `bytes` encode
/// unpacks to; `None` where it is not to be had.
pub uninterp spec fn unzipped(bytes: Seq<u8>, name: Seq<char>) -> Option<Seq<u8>>;

/// The bytes of the member `name` of an open archive, unpacked; `None` where
/// the archive has no such member, or where it cannot be unpacked.
pub uninterp spec fn member_bytes(archive: ZipArchive<Cursor<Vec<u8>>>, name: Seq<char>) -> Option<
    Seq<u8>,
>;

/// `ZipArchive::new` over a `Cursor`: opens the archive that `bytes` encode.
/// The opened archive has the members that the bytes encode, and they unpack
/// to what the bytes encode; the call fails exactly where the bytes encode
/// no archive.
#[verifier::external_body]
fn open_archive(bytes: Vec<u8>) -> (r: Result<ZipArchive<Cursor<Vec<u8>>>, ZipError>)
    ensures
        match r {
            Ok(archive) => decoded_members(bytes@) == Some(archive_members(archive))
                && forall|name: Seq<char>| #[trigger]
                member_bytes(archive, name) == unzipped(bytes@, name),
            Err(_) => decoded_members(bytes@) is None,
        },
{
    ZipArchive::new(Cursor::new(bytes))
}

/// `ZipArchive::len`: the number of members in the directory of the archive.
#[verifier::external_body]
fn archive_len(archive: &ZipArchive<Cursor<Vec<u8>>>) -> (n: usize)
    ensures
        n == archive_members(*archive).len(),
{
    archive.len()
}

/// `ZipArchive::by_index`, with `name`, `is_dir` and `last_modified` of the
/// member it gives: the member at position `i` of the directory. The call
/// fails where there is no such position, or where the member cannot be got
/// at. The archive holds afterwards what it held before.
#[verifier::external_body]
fn archive_member(archive: &mut ZipArchive<Cursor<Vec<u8>>>, i: usize) -> (r: Result<
    ZipMember,
    ZipError,
>)
    ensures
        archive_members(*final(archive)) == archive_members(*old(archive)),
        match r {
            Ok(member) => i < archive_members(*old(archive)).len() && archive_members(
                *old(archive),
            )[i as int] == Some(member@),
            Err(_) => i >= archive_members(*old(archive)).len() || archive_members(
                *old(archive),
            )[i as int] is None,
        },
{
    let file = archive.by_index(i)?;
    let name = file.name()?.into_owned();
    let modified = match file.last_modified() {
        Some(t) => {
            let (year, month, day) = (t.year(), t.month(), t.day());
            let (hour, minute, second) = (t.hour(), t.minute(), t.second());
            Some(CivilTime { year, month, day, hour, minute, second })
        },
        None => None,
    };
    Ok(ZipMember { name, is_dir: file.is_dir(), modified })
}

/// `ZipArchive::by_name`, read to its end: the bytes of the member `name`.
/// The archive holds afterwards what it held before.
#[verifier::external_body]
fn read_member(archive: &mut ZipArchive<Cursor<Vec<u8>>>, name: &str) -> (r: Option<Vec<u8>>)
    ensures
        archive_members(*final(archive)) == archive_members(*old(archive)),
        match r {
            Some(bytes) => member_bytes(*old(archive), name@) == Some(bytes@),
            None => member_bytes(*old(archive), name@) is None,
        },
{
    let mut file = archive.by_name(name).ok()?;
    let mut buffer = Vec::new();
    file.read_to_end(&mut buffer).ok()?;
    Some(buffer)
}

/// The seconds from the Unix epoch to a date and time of day, taken as UTC;
/// `None` where the calendar has no such date or the day no such time.
pub uninterp spec fn unix_seconds(
    year: int,
    month: int,
    day: int,
    hour: int,
    minute: int,
    second: int,
) -> Option<int>;

/// `NaiveDate::from_ymd_opt`, `NaiveDate::and_hms_opt`, and the `timestamp`
/// of the result taken as UTC, all of `chrono`: the seconds from the Unix
/// epoch to the date and time.
#[verifier::external_body]
fn civil_to_unix(year: i32, month: u32, day: u32, hour: u32, minute: u32, second: u32) -> (r:
    Option<i64>)
    ensures
        match r {
            Some(s) => unix_seconds(
                year as int,
                month as int,
                day as int,
                hour as int,
                minute as int,
                second as int,
            ) == Some(s as int),
            None => unix_seconds(
                year as int,
                month as int,
                day as int,
                hour as int,
                minute as int,
                second as int,
            ) is None,
        },
{
    let date = chrono::NaiveDate::from_ymd_opt(year, month, day)?;
    let moment = date.and_hms_opt(hour, minute, second)?;
    Some(moment.and_utc().timestamp())
}

impl CivilTime {
    /// The moment as text: `YYYY-MM-DD hh:mm:ss`.
    pub open spec fn text(self) -> Seq<char> {
        stamp(
            self.year as nat,
            self.month as nat,
            self.day as nat,
            self.hour as nat,
            self.minute as nat,
            self.second as nat,
        )
    }

    /// The seconds from the Unix epoch to this moment, taken as UTC.
    pub open spec fn seconds(self) -> Option<int> {
        unix_seconds(
            self.year as int,
            self.month as int,
            self.day as int,
            self.hour as int,
            self.minute as int,
            self.second as int,
        )
    }

    /// The moment as text.
    pub fn to_text(&self) -> (r: String)
        ensures
            r@ == self.text(),
    {
        stamp_text(
            self.year as u32,
            self.month as u32,
            self.day as u32,
            self.hour as u32,
            self.minute as u32,
            self.second as u32,
        )
    }

    /// The seconds from the Unix epoch to this moment, taken as UTC.
    pub fn to_unix(&self) -> (r: Option<i64>)
        ensures
            match r {
                Some(s) => self.seconds() == Some(s as int),
                None => self.seconds() is None,
            },
    {
        civil_to_unix(
            self.year as i32,
            self.month as u32,
            self.day as u32,
            self.hour as u32,
            self.minute as u32,
            self.second as u32,
        )
    }
}

/// The text shown for a time that is not known.
pub open spec fn unknown_time() -> Seq<char> {
    seq!['U', 'n', 'k', 'n', 'o', 'w', 'n']
}

impl MemberView {
    /// The entry of the index that stands for this member of the archive at
    /// `zip_path`, given the seconds that its recorded time comes to. A
    /// member without a time that the calendar knows is dated at the epoch.
    pub open spec fn entry(self, zip_path: Seq<char>, seconds: Option<int>) -> EntryView {
        let location = LocView::Zip(zip_path + seq!['/'] + self.name);
        match (self.modified, seconds) {
            (Some(t), Some(s)) => EntryView {
                location,
                is_folder: false,
                modified_at: Timestamp { secs: s as i64, nanos: 0 },
                display_time: t.text(),
            },
            _ => EntryView {
                location,
                is_folder: false,
                modified_at: Timestamp { secs: 0, nanos: 0 },
                display_time: unknown_time(),
            },
        }
    }

    /// The seconds that the recorded time of this member comes to.
    pub open spec fn seconds(self) -> Option<int> {
        match self.modified {
            Some(t) => t.seconds(),
            None => None,
        }
    }
}

/// The index of the archive at `zip_path` after the first `n` of its members
/// were taken in; `None` where one of them cannot be got at. Each member is
/// keyed by its name, as a path relative to the archive. Folders are left
/// out, and hidden marker files.
pub open spec fn zip_index(zip_path: Seq<char>, members: Seq<Option<MemberView>>, n: int)
    -> Option<IndexView>
    decreases n,
{
    if n <= 0 || n > members.len() {
        Some(Seq::<(Seq<char>, EntryView)>::empty())
    } else {
        match (zip_index(zip_path, members, n - 1), members[n - 1]) {
            (Some(before), Some(m)) => if m.is_dir || ignored(m.name) {
                Some(before)
            } else {
                match relative(zip_path, zip_path + seq!['/'] + m.name) {
                    Some(rel) => Some(stored(before, rel, m.entry(zip_path, m.seconds()))),
                    None => Some(before),
                }
            },
            _ => None,
        }
    }
}

/// The snapshot that listing the archive at `zip_path` gives, where `decoded`
/// is what its bytes encode.
pub open spec fn zip_listing(zip_path: Seq<char>, decoded: Option<Seq<Option<MemberView>>>)
    -> Result<IndexView, FileErrorView> {
    match decoded {
        Some(members) => match zip_index(zip_path, members, members.len() as int) {
            Some(idx) => Ok(idx),
            None => Err(FileErrorView::InvalidFileForListing(zip_path)),
        },
        None => Err(FileErrorView::InvalidFileForListing(zip_path)),
    }
}

impl ZipMember {
    /// The entry of the index that stands for this member of the archive at
    /// `zip_path`, given the seconds that its recorded time comes to.
    pub fn to_entry(&self, zip_path: &str, seconds: Option<i64>) -> (e: FileEntry)
        ensures
            e@ == self@.entry(
                zip_path@,
                match seconds {
                    Some(s) => Some(s as int),
                    None => None,
                },
            ),
    {
        let location = LocTypes::Zip(join_path(zip_path, self.name.as_str()));
        match (self.modified, seconds) {
            (Some(t), Some(s)) => FileEntry::new(location, Timestamp::new(s, 0), t.to_text()),
            _ => {
                proof {
                    reveal_strlit("Unknown");
                }
                assert("Unknown"@ =~= unknown_time());
                FileEntry::new(location, Timestamp::epoch(), String::from_str("Unknown"))
            },
        }
    }
}

/// The snapshot of the archive at `zip_path`, whose bytes are `bytes`.
pub fn list_files_in_zip(zip_path: &str, bytes: Vec<u8>) -> (r: Result<FileIndex, FileErrors>)
    ensures
        match r {
            Ok(idx) => zip_listing(zip_path@, decoded_members(bytes@)) == Ok::<
                IndexView,
                FileErrorView,
            >(idx@),
            Err(e) => zip_listing(zip_path@, decoded_members(bytes@)) == Err::<
                IndexView,
                FileErrorView,
            >(e@),
        },
{
    let mut archive = match open_archive(bytes) {
        Ok(archive) => archive,
        Err(_) => {
            return Err(FileErrors::InvalidFileForListing(zip_path.to_owned()));
        },
    };
    let ghost members = archive_members(archive);
    let n = archive_len(&archive);
    let mut idx = FileIndex::new();
    let mut k: usize = 0;
    while k < n
        invariant
            k <= n,
            n == members.len(),
            archive_members(archive) == members,
            decoded_members(bytes@) == Some(members),
            zip_index(zip_path@, members, k as int) == Some(idx@),
        decreases n - k,
    {
        let member = match archive_member(&mut archive, k) {
            Ok(member) => member,
            Err(_) => {
                proof {
                    assert(zip_index(zip_path@, members, k + 1) is None);
                    lemma_zip_index_stays_none(zip_path@, members, k + 1, n as int);
                }
                return Err(FileErrors::InvalidFileForListing(zip_path.to_owned()));
            },
        };
        if !member.is_dir && !is_ignored(member.name.as_str()) {
            let seconds = match member.modified {
                Some(t) => t.to_unix(),
                None => None,
            };
            let file_path = join_path(zip_path, member.name.as_str());
            match relative_path(zip_path, file_path.as_str()) {
                Some(rel) => {
                    idx.insert(rel, member.to_entry(zip_path, seconds));
                },
                None => {},
            }
        }
        k += 1;
    }
    Ok(idx)
}

/// Once a member cannot be got at, the index is not to be had, however many
/// members follow.
proof fn lemma_zip_index_stays_none(
    zip_path: Seq<char>,
    members: Seq<Option<MemberView>>,
    from: int,
    to: int,
)
    requires
        0 < from <= to <= members.len(),
        zip_index(zip_path, members, from) is None,
    ensures
        zip_index(zip_path, members, to) is None,
    decreases to - from,
{
    if from < to {
        lemma_zip_index_stays_none(zip_path, members, from, to - 1);
    }
}

/// The bytes that reading the member `inner` of an archive gives, where
/// `decoded` is what the bytes of the archive encode and `unpacked` what the
/// member unpacks to.
pub open spec fn zip_reading(decoded: Option<Seq<Option<MemberView>>>, unpacked: Option<Seq<u8>>)
    -> Option<Seq<u8>> {
    match decoded {
        Some(_) => unpacked,
        None => None,
    }
}

/// The bytes of the member `inner` of the archive whose bytes are `bytes`;
/// `None` where the bytes are no archive or the member is not to be had.
pub fn read_zip_member(bytes: Vec<u8>, inner: &str) -> (r: Option<Vec<u8>>)
    ensures
        match r {
            Some(found) => zip_reading(decoded_members(bytes@), unzipped(bytes@, inner@)) == Some(
                found@,
            ),
            None => zip_reading(decoded_members(bytes@), unzipped(bytes@, inner@)) is None,
        },
{
    match open_archive(bytes) {
        Ok(archive) => {
            let mut archive = archive;
            read_member(&mut archive, inner)
        },
        Err(_) => None,
    }
}

} // verus!
