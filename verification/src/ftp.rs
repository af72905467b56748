//! Snapshots of FTP roots, and what is asked of an FTP server.
//!
//! No connection is made here. A listing is worked through directory by
//! directory: the walk says which directory is to be listed next, and takes
//! in the lines that the server gave for it. Everything else that is asked
//! of a server is worked out as a plan, and carried out elsewhere.

use crate::decimal::{decimal, decimal_text, number_of, parse_number, stamp, stamp_text};
use crate::index::{stored, EntryView, FileEntry, FileIndex, IndexView};
use crate::location::{join_path, LocTypes, LocView};
use crate::modes::CreateType;
use crate::paths::{strip_leading_slashes, without_leading_slashes};
use crate::text::{
    columns, contains_char, cut_at_last, join_spaced, path_names, rsplit_once_char, spaced,
    split_columns, split_pieces, string_views, Breaks,
};
use crate::time::Timestamp;
use chrono::{Datelike, Timelike};
use vstd::prelude::*;
use vstd::string::{StrSliceExecFns, StringExecFns};

verus! {

/// A date and time that was read from text: the seconds from the Unix epoch,
/// taken as UTC, and the fields of the calendar.
#[derive(Clone, Copy, Debug, PartialEq, Eq, Structural)]
pub struct ParsedTime {
    pub seconds: i64,
    pub year: i32,
    pub month: u32,
    pub day: u32,
    pub hour: u32,
    pub minute: u32,
    pub second: u32,
}

/// The date and time that `text` holds when read by the pattern `format`;
/// `None` where the text does not follow the pattern.
pub uninterp spec fn parsed_datetime(text: Seq<char>, format: Seq<char>) -> Option<ParsedTime>;

/// `NaiveDateTime::parse_from_str` of `chrono`, with the `timestamp` of the
/// result taken as UTC and the fields of its date and time: reads `text` by
/// the pattern `format`.
#[verifier::external_body]
fn parse_datetime(text: &str, format: &str) -> (r: Option<ParsedTime>)
    ensures
        r == parsed_datetime(text@, format@),
{
    let moment = chrono::NaiveDateTime::parse_from_str(text, format).ok()?;
    let seconds = moment.and_utc().timestamp();
    let (year, month, day) = (moment.year(), moment.month(), moment.day());
    let (hour, minute, second) = (moment.hour(), moment.minute(), moment.second());
    Some(ParsedTime { seconds, year, month, day, hour, minute, second })
}

/// One entry of a directory on a server: its name, and when it was last
/// modified.
#[derive(Debug)]
pub struct FtpLine {
    pub name: String,
    pub modified: Timestamp,
    pub display_time: String,
}

/// The mathematical value of an [`FtpLine`].
pub struct FtpLineView {
    pub name: Seq<char>,
    pub modified: Timestamp,
    pub display_time: Seq<char>,
}

impl View for FtpLine {
    type V = FtpLineView;

    open spec fn view(&self) -> FtpLineView {
        FtpLineView {
            name: self.name@,
            modified: self.modified,
            display_time: self.display_time@,
        }
    }
}

/// The mathematical value of a line that may have been understood.
pub open spec fn line_view(line: Option<FtpLine>) -> Option<FtpLineView> {
    match line {
        Some(l) => Some(l@),
        None => None,
    }
}

/// The pattern by which the date of a line is read: year, name of the month,
/// day, hour and minute.
pub open spec fn listing_format() -> Seq<char> {
    seq!['%', 'Y', ' ', '%', 'b', ' ', '%', 'd', ' ', '%', 'H', ':', '%', 'M']
}

/// The date of a line of nine columns or more, as the text that is read by
/// the pattern; a shorter line has none. The sixth and seventh column are month and day. The eighth
/// is a time of day, of the current year, where it holds a colon; else it is
/// a year, and the time of day is midnight.
pub open spec fn line_date(cols: Seq<Seq<char>>, current_year: int) -> Option<Seq<char>> {
    if cols.len() < 9 {
        None
    } else if cols[7].contains(':') {
        if current_year >= 0 {
            Some(
                decimal(current_year as nat) + seq![' '] + cols[5] + seq![' '] + cols[6] + seq![
                    ' ',
                ] + cols[7],
            )
        } else {
            None
        }
    } else {
        match number_of(cols[7]) {
            Some(year) => Some(
                decimal(year) + seq![' '] + cols[5] + seq![' '] + cols[6] + seq![
                    ' ',
                    '0',
                    '0',
                    ':',
                    '0',
                    '0',
                ],
            ),
            None => None,
        }
    }
}

/// The entry that a line of columns `cols` stands for, where `parsed` is
/// what the date of the line was read as. The name is all from the ninth
/// column on. A line of fewer than nine columns stands for nothing, and so
/// does a line whose date was not understood.
pub open spec fn line_entry(cols: Seq<Seq<char>>, parsed: Option<ParsedTime>) -> Option<
    FtpLineView,
> {
    match parsed {
        Some(p) => if cols.len() >= 9 && p.year >= 0 {
            Some(
                FtpLineView {
                    name: spaced(cols, 8),
                    modified: Timestamp { secs: p.seconds, nanos: 0 },
                    display_time: stamp(
                        p.year as nat,
                        p.month as nat,
                        p.day as nat,
                        p.hour as nat,
                        p.minute as nat,
                        p.second as nat,
                    ),
                },
            )
        } else {
            None
        },
        None => None,
    }
}

/// The entry that one line of a listing stands for, in the given year.
pub open spec fn listed_entry(entry: Seq<char>, current_year: int) -> Option<FtpLineView> {
    let cols = columns(entry);
    if cols.len() < 9 {
        None
    } else {
        match line_date(cols, current_year) {
            Some(text) => line_entry(cols, parsed_datetime(text, listing_format())),
            None => None,
        }
    }
}

/// The date of a line, as the text that is read by the pattern.
pub fn date_of_line(cols: &Vec<String>, current_year: i32) -> (r: Option<String>)
    ensures
        match r {
            Some(text) => line_date(string_views(cols@), current_year as int) == Some(text@),
            None => line_date(string_views(cols@), current_year as int) is None,
        },
{
    proof {
        reveal_strlit(" ");
        reveal_strlit(" 00:00");
    }
    if cols.len() < 9 {
        return None;
    }
    let ghost all = string_views(cols@);
    assert(all[5] == cols@[5]@ && all[6] == cols@[6]@ && all[7] == cols@[7]@);
    let (year, time) = if contains_char(cols[7].as_str(), ':') {
        if current_year < 0 {
            return None;
        }
        (current_year as u32, cols[7].as_str())
    } else {
        match parse_number(cols[7].as_str()) {
            Some(year) => (year, " 00:00"),
            None => {
                return None;
            },
        }
    };
    let mut text = decimal_text(year);
    text.append(" ");
    text.append(cols[5].as_str());
    text.append(" ");
    text.append(cols[6].as_str());
    if contains_char(cols[7].as_str(), ':') {
        text.append(" ");
    }
    text.append(time);
    assert(" "@ =~= seq![' ']);
    assert(" 00:00"@ =~= seq![' ', '0', '0', ':', '0', '0']);
    assert(text@ =~= line_date(all, current_year as int)->0);
    Some(text)
}

/// The entry that a line of columns `cols` stands for, where `parsed` is
/// what the date of the line was read as.
pub fn entry_of_line(cols: &Vec<String>, parsed: Option<ParsedTime>) -> (r: Option<FtpLine>)
    ensures
        line_view(r) == line_entry(string_views(cols@), parsed),
{
    match parsed {
        Some(p) => {
            if cols.len() >= 9 && p.year >= 0 {
                Some(
                    FtpLine {
                        name: join_spaced(cols, 8),
                        modified: Timestamp::new(p.seconds, 0),
                        display_time: stamp_text(
                            p.year as u32,
                            p.month,
                            p.day,
                            p.hour,
                            p.minute,
                            p.second,
                        ),
                    },
                )
            } else {
                None
            }
        },
        None => None,
    }
}

/// The entry that one line of a listing stands for: its name, and the time
/// of its last modification. The line says no year for what was modified of
/// late: `current_year` is taken then.
pub fn extract_ftp_file_data(entry: &str, current_year: i32) -> (r: Option<FtpLine>)
    ensures
        line_view(r) == listed_entry(entry@, current_year as int),
{
    let cols = split_columns(entry);
    if cols.len() < 9 {
        return None;
    }
    match date_of_line(&cols, current_year) {
        Some(text) => {
            proof {
                reveal_strlit("%Y %b %d %H:%M");
            }
            assert("%Y %b %d %H:%M"@ =~= listing_format());
            let parsed = parse_datetime(text.as_str(), "%Y %b %d %H:%M");
            entry_of_line(&cols, parsed)
        },
        None => None,
    }
}

/// A directory on a server that is still to be listed: its path on the
/// server, and its path relative to the root of the walk, which for the root
/// itself is empty.
#[derive(Debug)]
pub struct FtpDir {
    pub path: String,
    pub rel: String,
}

/// The mathematical value of an [`FtpDir`].
pub struct FtpDirView {
    pub path: Seq<char>,
    pub rel: Seq<char>,
}

impl View for FtpDir {
    type V = FtpDirView;

    open spec fn view(&self) -> FtpDirView {
        FtpDirView { path: self.path@, rel: self.rel@ }
    }
}

/// One line that a server gave for a directory, and whether the server let
/// the entry be entered as a directory.
#[derive(Debug)]
pub struct FtpFound {
    pub line: String,
    pub is_dir: bool,
}

/// The mathematical value of an [`FtpFound`].
pub struct FtpFoundView {
    pub line: Seq<char>,
    pub is_dir: bool,
}

impl View for FtpFound {
    type V = FtpFoundView;

    open spec fn view(&self) -> FtpFoundView {
        FtpFoundView { line: self.line@, is_dir: self.is_dir }
    }
}

/// The mathematical values of the lines of a listing.
pub open spec fn found_views(found: Seq<FtpFound>) -> Seq<FtpFoundView> {
    Seq::new(found.len(), |k: int| found[k]@)
}

/// The mathematical values of the directories still to be listed.
pub open spec fn dir_views(dirs: Seq<FtpDir>) -> Seq<FtpDirView> {
    Seq::new(dirs.len(), |k: int| dirs[k]@)
}

/// The walk of the tree beneath a root on a server: whose tree it is, the
/// directories still to be listed, the last of them first, and the index of
/// all that was seen so far.
#[derive(Debug)]
pub struct FtpWalk {
    pub user: String,
    pub password: String,
    pub host: String,
    pub pending: Vec<FtpDir>,
    pub index: FileIndex,
}

/// The mathematical value of an [`FtpWalk`].
pub struct FtpWalkView {
    pub user: Seq<char>,
    pub password: Seq<char>,
    pub host: Seq<char>,
    pub pending: Seq<FtpDirView>,
    pub index: IndexView,
}

impl View for FtpWalk {
    type V = FtpWalkView;

    open spec fn view(&self) -> FtpWalkView {
        FtpWalkView {
            user: self.user@,
            password: self.password@,
            host: self.host@,
            pending: dir_views(self.pending@),
            index: self.index@,
        }
    }
}

impl FtpWalkView {
    /// The walk after `line`, an entry of the directory `dir`, was taken in.
    /// The entry is keyed by its path relative to the root of the walk; where
    /// it is a directory, it is a folder of the index, and is still to be
    /// listed itself.
    pub open spec fn with_entry(self, dir: FtpDirView, line: FtpLineView, is_dir: bool)
        -> FtpWalkView {
        let path = dir.path + seq!['/'] + line.name;
        let rel = without_leading_slashes(dir.rel + seq!['/'] + line.name);
        let entry = EntryView {
            location: LocView::Ftp(self.user, self.password, self.host, path),
            is_folder: is_dir,
            modified_at: line.modified,
            display_time: line.display_time,
        };
        FtpWalkView {
            index: stored(self.index, rel, entry),
            pending: if is_dir {
                self.pending.push(FtpDirView { path, rel })
            } else {
                self.pending
            },
            ..self
        }
    }

    /// The walk after the first `n` lines of the listing of `dir` were taken
    /// in. A line that is not understood is passed over.
    pub open spec fn taken_in(
        self,
        dir: FtpDirView,
        found: Seq<FtpFoundView>,
        current_year: int,
        n: int,
    ) -> FtpWalkView
        decreases n,
    {
        if n <= 0 || n > found.len() {
            self
        } else {
            let before = self.taken_in(dir, found, current_year, n - 1);
            match listed_entry(found[n - 1].line, current_year) {
                Some(line) => before.with_entry(dir, line, found[n - 1].is_dir),
                None => before,
            }
        }
    }

    /// The walk after the listing of the directory that was to be listed next
    /// was taken in.
    pub open spec fn absorbed(self, found: Seq<FtpFoundView>, current_year: int) -> FtpWalkView {
        if self.pending.len() == 0 {
            self
        } else {
            FtpWalkView { pending: self.pending.drop_last(), ..self }.taken_in(
                self.pending.last(),
                found,
                current_year,
                found.len() as int,
            )
        }
    }
}

/// Begins the walk of the tree beneath `path` on the server `url`: nothing
/// is seen yet, and the root is to be listed.
pub fn connect_to_ftp(user: &str, password: &str, url: &str, path: &str) -> (walk: FtpWalk)
    ensures
        walk@ == (FtpWalkView {
            user: user@,
            password: password@,
            host: url@,
            pending: seq![FtpDirView { path: path@, rel: seq![] }],
            index: seq![],
        }),
{
    let mut pending: Vec<FtpDir> = Vec::new();
    pending.push(FtpDir { path: path.to_owned(), rel: String::new() });
    let walk = FtpWalk {
        user: user.to_owned(),
        password: password.to_owned(),
        host: url.to_owned(),
        pending,
        index: FileIndex::new(),
    };
    assert(walk@.pending =~= seq![FtpDirView { path: path@, rel: seq![] }]);
    walk
}

impl FtpWalk {
    /// The path on the server of the directory that is to be listed next;
    /// `None` when the walk is over.
    pub fn next_directory(&self) -> (r: Option<&String>)
        ensures
            match r {
                Some(path) => self@.pending.len() > 0 && path@ == self@.pending.last().path,
                None => self@.pending.len() == 0,
            },
    {
        let n = self.pending.len();
        if n == 0 {
            None
        } else {
            Some(&self.pending[n - 1].path)
        }
    }

    /// Takes in one entry of the directory `dir`.
    fn take_entry(&mut self, dir: &FtpDir, line: FtpLine, is_dir: bool)
        ensures
            final(self)@ == old(self)@.with_entry(dir@, line@, is_dir),
    {
        let path = join_path(dir.path.as_str(), line.name.as_str());
        let joined = join_path(dir.rel.as_str(), line.name.as_str());
        let rel = strip_leading_slashes(joined.as_str());
        let location = LocTypes::Ftp(
            self.user.clone(),
            self.password.clone(),
            self.host.clone(),
            path.clone(),
        );
        let ghost before = dir_views(self.pending@);
        let entry = if is_dir {
            FileEntry::directory(location, line.modified, line.display_time)
        } else {
            FileEntry::new(location, line.modified, line.display_time)
        };
        self.index.insert(rel.clone(), entry);
        if is_dir {
            self.pending.push(FtpDir { path, rel });
            assert(dir_views(self.pending@) =~= before.push(
                FtpDirView { path: path@, rel: rel@ },
            ));
        }
    }

    /// Takes in the listing of the directory that was to be listed next: the
    /// lines that the server gave for it.
    pub fn recursive_list(&mut self, found: &Vec<FtpFound>, current_year: i32)
        ensures
            final(self)@ == old(self)@.absorbed(found_views(found@), current_year as int),
    {
        let dir = match self.pending.pop() {
            Some(dir) => dir,
            None => {
                return ;
            },
        };
        assert(dir_views(self.pending@) =~= old(self)@.pending.drop_last());
        let ghost start = self@;
        let ghost all = found_views(found@);
        let mut k: usize = 0;
        while k < found.len()
            invariant
                k <= found@.len(),
                all == found_views(found@),
                self@ == start.taken_in(dir@, all, current_year as int, k as int),
            decreases found@.len() - k,
        {
            assert(all[k as int] == found@[k as int]@);
            match extract_ftp_file_data(found[k].line.as_str(), current_year) {
                Some(line) => {
                    self.take_entry(&dir, line, found[k].is_dir);
                },
                None => {},
            }
            k += 1;
        }
    }

    /// Ends the walk: the index of all that was seen.
    pub fn finish(self) -> (idx: FileIndex)
        ensures
            idx@ == self@.index,
    {
        self.index
    }
}

/// The address at which the server `url` is reached.
pub fn server_address(url: &str) -> (r: String)
    ensures
        r@ == url@ + seq![':', '2', '1'],
{
    proof {
        reveal_strlit(":21");
    }
    let r = String::from_str(url).concat(":21");
    assert(":21"@ =~= seq![':', '2', '1']);
    r
}

/// A file or directory on a server, and how it is reached: the server and
/// the login, the whole path, and the path in two parts, the directory to go
/// to, if any, and the name in it.
#[derive(Debug)]
pub struct FtpTarget {
    pub address: String,
    pub user: String,
    pub password: String,
    pub path: String,
    pub directory: Option<String>,
    pub name: String,
}

/// The mathematical value of an [`FtpTarget`].
pub struct FtpTargetView {
    pub address: Seq<char>,
    pub user: Seq<char>,
    pub password: Seq<char>,
    pub path: Seq<char>,
    pub directory: Option<Seq<char>>,
    pub name: Seq<char>,
}

impl View for FtpTarget {
    type V = FtpTargetView;

    open spec fn view(&self) -> FtpTargetView {
        FtpTargetView {
            address: self.address@,
            user: self.user@,
            password: self.password@,
            path: self.path@,
            directory: match self.directory {
                Some(d) => Some(d@),
                None => None,
            },
            name: self.name@,
        }
    }
}

/// How `path` on the server `url` is reached: the path is cut at its last
/// slash into directory and name; without a slash it is a name alone.
pub open spec fn target_of(user: Seq<char>, password: Seq<char>, url: Seq<char>, path: Seq<char>)
    -> FtpTargetView {
    FtpTargetView {
        address: url + seq![':', '2', '1'],
        user,
        password,
        path,
        directory: match cut_at_last(path, '/') {
            Some(parts) => Some(parts.0),
            None => None,
        },
        name: match cut_at_last(path, '/') {
            Some(parts) => parts.1,
            None => path,
        },
    }
}

/// How `path` on the server `url` is reached.
pub fn ftp_target(user: &str, pass: &str, url: &str, path: &str) -> (r: FtpTarget)
    ensures
        r@ == target_of(user@, pass@, url@, path@),
{
    let (directory, name) = match rsplit_once_char(path, '/') {
        Some(parts) => (Some(parts.0), parts.1),
        None => (None, path.to_owned()),
    };
    FtpTarget {
        address: server_address(url),
        user: user.to_owned(),
        password: pass.to_owned(),
        path: path.to_owned(),
        directory,
        name,
    }
}

/// What is to be fetched for the bytes of `path` on the server `url`. Where
/// the whole path can be entered it is a directory, and has no bytes.
pub fn read_ftp_file(user: &str, pass: &str, url: &str, path: &str) -> (r: FtpTarget)
    ensures
        r@ == target_of(user@, pass@, url@, path@),
{
    ftp_target(user, pass, url, path)
}

/// What is to be deleted for `path` on the server `url`: a file, or a
/// directory with all that it holds.
pub fn delete_ftp_file(user: &str, pass: &str, url: &str, path: &str) -> (r: FtpTarget)
    ensures
        r@ == target_of(user@, pass@, url@, path@),
{
    ftp_target(user, pass, url, path)
}

/// The paths of what the directory `path` holds, given the names in it: they
/// are deleted before the directory is.
pub fn recursive_delete(path: &str, items: &Vec<String>) -> (r: Vec<String>)
    ensures
        r@.len() == items@.len(),
        forall|k: int| 0 <= k < items@.len() ==> (#[trigger] r@[k])@ == path@ + seq!['/'] + items@[k]@,
{
    let mut out: Vec<String> = Vec::new();
    let mut k: usize = 0;
    while k < items.len()
        invariant
            k <= items@.len(),
            out@.len() == k,
            forall|j: int| 0 <= j < k ==> (#[trigger] out@[j])@ == path@ + seq!['/'] + items@[j]@,
        decreases items@.len() - k,
    {
        out.push(join_path(path, items[k].as_str()));
        k += 1;
    }
    out
}

/// An upload: where the bytes go, and the bytes.
#[derive(Debug)]
pub struct FtpUpload {
    pub target: FtpTarget,
    pub content: Vec<u8>,
}

/// What is to be uploaded for `file_bytes` to become the content of
/// `ftp_path` on the server `url`.
pub fn put_file(file_bytes: &[u8], user: &str, pass: &str, url: &str, ftp_path: &str) -> (r:
    FtpUpload)
    ensures
        r.target@ == target_of(user@, pass@, url@, ftp_path@),
        r.content@ == file_bytes@,
{
    FtpUpload {
        target: ftp_target(user, pass, url, ftp_path),
        content: vstd::slice::slice_to_vec(file_bytes),
    }
}

/// A creation on a server: the place, the directories above it, outermost
/// first, which are made where they are missing, and whether a file or a
/// directory is made at the place.
#[derive(Debug)]
pub struct FtpCreation {
    pub target: FtpTarget,
    pub parents: Vec<String>,
    pub kind: CreateType,
}

/// The directories above `path`, outermost first: the names along the part
/// before its last slash, behind the root where the path starts at it.
pub open spec fn parents_of(path: Seq<char>) -> Seq<Seq<char>> {
    match cut_at_last(path, '/') {
        Some(parts) => if path[0] == '/' {
            seq![seq!['/']] + path_names(parts.0)
        } else {
            path_names(parts.0)
        },
        None => seq![],
    }
}

/// What is to be created for `path` on the server `url`.
pub fn create_ftp_file(user: &str, pass: &str, url: &str, path: &str, create_type: CreateType)
    -> (r: FtpCreation)
    ensures
        r.target@ == target_of(user@, pass@, url@, path@),
        string_views(r.parents@) == parents_of(path@),
        r.kind == create_type,
{
    let target = ftp_target(user, pass, url, path);
    let parents = match &target.directory {
        Some(directory) => {
            let names = split_pieces(directory.as_str(), Breaks::Slashes);
            let first = crate::text::chars_of(path);
            assert(path@.contains('/'));
            if first[0] == '/' {
                proof {
                    reveal_strlit("/");
                }
                let mut all: Vec<String> = Vec::new();
                all.push("/".to_owned());
                let ghost rest = string_views(names@);
                let mut names = names;
                all.append(&mut names);
                assert("/"@ =~= seq!['/']);
                assert(string_views(all@) =~= seq![seq!['/']] + rest);
                all
            } else {
                names
            }
        },
        None => {
            let none: Vec<String> = Vec::new();
            assert(string_views(none@) =~= seq![]);
            none
        },
    };
    FtpCreation { target, parents, kind: create_type }
}

} // verus!
