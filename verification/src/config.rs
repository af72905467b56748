//! The configured locations: from lines of text to descriptors.
//!
//! A location is written `<kind>:<path>`, the kind being `ftp`, `zip` or
//! `folder`. Whether a line is of that form is decided by the `regex` crate,
//! on the pattern below; what is believed of it is said at the one place
//! where it is called.

use crate::errors::ArgErrors;
use crate::location::{LocTypes, LocView};
use crate::sweep::loc_views;
use crate::text::{
    cut_at_first, lines, split_once_char, split_pieces, str_equal, string_views, Breaks,
};
use vstd::prelude::*;

verus! {

/// Whether the regular expression `pattern` has a match in `text`; `None`
/// where `pattern` is no regular expression.
pub uninterp spec fn regex_matches(pattern: Seq<char>, text: Seq<char>) -> Option<bool>;

/// `Regex::new` and `Regex::is_match` of `regex`: whether `pattern` has a
/// match in `text`.
#[verifier::external_body]
fn regex_is_match(pattern: &str, text: &str) -> (r: Option<bool>)
    ensures
        r == regex_matches(pattern@, text@),
{
    let re = regex::Regex::new(pattern).ok()?;
    Some(re.is_match(text))
}

/// The pattern of a location: one of the three kinds, a colon, and a path
/// that is not empty.
pub open spec fn location_pattern() -> Seq<char> {
    "^(ftp|zip|folder):.+$"@
}

/// Whether `line` is of the form of a location.
pub open spec fn well_formed(line: Seq<char>) -> bool {
    regex_matches(location_pattern(), line) == Some(true)
}

/// Whether `line` is of the form of a location.
pub fn is_location(line: &str) -> (r: bool)
    ensures
        r == well_formed(line@),
{
    match regex_is_match("^(ftp|zip|folder):.+$", line) {
        Some(matched) => matched,
        None => false,
    }
}

/// The two parts of `s` around its first `c`; two empty parts where `s`
/// holds no `c`.
pub open spec fn halves(s: Seq<char>, c: char) -> (Seq<char>, Seq<char>) {
    match cut_at_first(s, c) {
        Some(parts) => parts,
        None => (seq![], seq![]),
    }
}

/// The location that a line stands for, where `matched` says whether the
/// line is of the form of a location. What follows `ftp:` is read as
/// `user:password@host/path`; what follows `zip:` or `folder:` is the path.
pub open spec fn located(line: Seq<char>, matched: bool) -> Option<LocView> {
    if !matched {
        None
    } else {
        match cut_at_first(line, ':') {
            Some(parts) => if parts.0 == "ftp"@ {
                let login = halves(halves(parts.1, '@').0, ':');
                let place = halves(halves(parts.1, '@').1, '/');
                Some(LocView::Ftp(login.0, login.1, place.0, place.1))
            } else if parts.0 == "folder"@ {
                Some(LocView::Folder(parts.1))
            } else if parts.0 == "zip"@ {
                Some(LocView::Zip(parts.1))
            } else {
                None
            },
            None => None,
        }
    }
}

/// The two parts of `s` around its first `c`.
fn split_halves(s: &str, c: char) -> (r: (String, String))
    ensures
        (r.0@, r.1@) == halves(s@, c),
{
    match split_once_char(s, c) {
        Some(parts) => parts,
        None => (String::new(), String::new()),
    }
}

/// The location that a line stands for.
pub fn parse_location_line(line: &str, matched: bool) -> (r: Option<LocTypes>)
    ensures
        match r {
            Some(l) => located(line@, matched) == Some(l@),
            None => located(line@, matched) is None,
        },
{
    if !matched {
        return None;
    }
    match split_once_char(line, ':') {
        Some(parts) => {
            let (kind, rest) = parts;
            if str_equal(kind.as_str(), "ftp") {
                let (login, place) = split_halves(rest.as_str(), '@');
                let (user, password) = split_halves(login.as_str(), ':');
                let (host, path) = split_halves(place.as_str(), '/');
                Some(LocTypes::Ftp(user, password, host, path))
            } else if str_equal(kind.as_str(), "folder") {
                Some(LocTypes::Folder(rest))
            } else if str_equal(kind.as_str(), "zip") {
                Some(LocTypes::Zip(rest))
            } else {
                None
            }
        },
        None => None,
    }
}

/// The location that a line stands for.
pub open spec fn location_of(line: Seq<char>) -> Option<LocView> {
    located(line, well_formed(line))
}

/// The locations that the first `n` lines stand for, in order, each once:
/// a line that stands for none is passed over, and so is a location that
/// was there before.
pub open spec fn gathered(all: Seq<Seq<char>>, n: int) -> Seq<LocView>
    decreases n,
{
    if n <= 0 || n > all.len() {
        seq![]
    } else {
        let before = gathered(all, n - 1);
        match location_of(all[n - 1]) {
            Some(l) => if before.contains(l) {
                before
            } else {
                before.push(l)
            },
            None => before,
        }
    }
}

/// Whether `l` is among `locs`.
fn among(locs: &Vec<LocTypes>, l: &LocTypes) -> (r: bool)
    ensures
        r == loc_views(locs@).contains(l@),
{
    let mut k: usize = 0;
    while k < locs.len()
        invariant
            k <= locs@.len(),
            forall|j: int| 0 <= j < k ==> loc_views(locs@)[j] != l@,
        decreases locs@.len() - k,
    {
        if locs[k] == *l {
            assert(loc_views(locs@)[k as int] == l@);
            return true;
        }
        k += 1;
    }
    false
}

/// The locations that the text of a configuration stands for, in order and
/// each once. A text that yields no location at all is an error.
pub fn retrieve_locations(content: &str) -> (r: Result<Vec<LocTypes>, ArgErrors>)
    ensures
        match r {
            Ok(locs) => loc_views(locs@) == gathered(lines(content@), lines(content@).len() as int)
                && locs@.len() > 0,
            Err(e) => e is EmptyCfg && gathered(lines(content@), lines(content@).len() as int).len()
                == 0,
        },
{
    let all = split_pieces(content, Breaks::LineEnds);
    let mut locs: Vec<LocTypes> = Vec::new();
    let mut k: usize = 0;
    assert(loc_views(locs@) =~= seq![]);
    while k < all.len()
        invariant
            k <= all@.len(),
            string_views(all@) == lines(content@),
            loc_views(locs@) == gathered(lines(content@), k as int),
        decreases all@.len() - k,
    {
        assert(string_views(all@)[k as int] == all@[k as int]@);
        let line = all[k].as_str();
        let ghost before = loc_views(locs@);
        match parse_location_line(line, is_location(line)) {
            Some(l) => {
                if !among(&locs, &l) {
                    locs.push(l);
                    assert(loc_views(locs@) =~= before.push(l@));
                }
            },
            None => {},
        }
        k += 1;
    }
    if locs.len() == 0 {
        Err(ArgErrors::EmptyCfg)
    } else {
        Ok(locs)
    }
}

/// The first of the locations, as they were given on the command line, that
/// is not of the form of a location.
pub open spec fn first_malformed(given: Seq<Seq<char>>, from: int) -> Option<Seq<char>>
    decreases given.len() - from,
{
    if from < 0 || from >= given.len() {
        None
    } else if !well_formed(given[from]) {
        Some(given[from])
    } else {
        first_malformed(given, from + 1)
    }
}

/// Checks the locations that were given on the command line, if any were:
/// they are handed back as they are where each is of the form of a location,
/// and the first that is not is the error.
pub fn parse_args(given: Option<Vec<String>>) -> (r: Result<Option<Vec<String>>, ArgErrors>)
    ensures
        match given {
            None => r == Ok::<Option<Vec<String>>, ArgErrors>(None),
            Some(locations) => match first_malformed(string_views(locations@), 0) {
                None => r == Ok::<Option<Vec<String>>, ArgErrors>(Some(locations)),
                Some(bad) => r matches Err(e) && e matches ArgErrors::InvalidLocation(s) && s@
                    == bad,
            },
        },
{
    match given {
        None => Ok(None),
        Some(locations) => {
            let mut k: usize = 0;
            while k < locations.len()
                invariant
                    given == Some(locations),
                    k <= locations@.len(),
                    first_malformed(string_views(locations@), k as int) == first_malformed(
                        string_views(locations@),
                        0,
                    ),
                decreases locations@.len() - k,
            {
                assert(string_views(locations@)[k as int] == locations@[k as int]@);
                if !is_location(locations[k].as_str()) {
                    return Err(ArgErrors::InvalidLocation(locations[k].clone()));
                }
                k += 1;
            }
            Ok(Some(locations))
        },
    }
}

/// Of the locations `given`, in order, those that are not among the lines
/// `existing` of the configuration: the first `n` of them looked at.
pub open spec fn missing(existing: Seq<Seq<char>>, given: Seq<Seq<char>>, n: int) -> Seq<
    Seq<char>,
>
    decreases n,
{
    if n <= 0 || n > given.len() {
        seq![]
    } else if existing.contains(given[n - 1]) {
        missing(existing, given, n - 1)
    } else {
        missing(existing, given, n - 1).push(given[n - 1])
    }
}

/// Whether `line` is among `existing`.
fn listed(existing: &Vec<String>, line: &str) -> (r: bool)
    ensures
        r == string_views(existing@).contains(line@),
{
    let mut k: usize = 0;
    while k < existing.len()
        invariant
            k <= existing@.len(),
            forall|j: int| 0 <= j < k ==> string_views(existing@)[j] != line@,
        decreases existing@.len() - k,
    {
        if str_equal(existing[k].as_str(), line) {
            assert(string_views(existing@)[k as int] == line@);
            return true;
        }
        k += 1;
    }
    false
}

/// The lines that are to be appended to the configuration for the locations
/// `locations`: those that the configuration does not hold yet.
pub fn append_to_cfg(existing: &Vec<String>, locations: &Vec<String>) -> (r: Vec<String>)
    ensures
        string_views(r@) == missing(
            string_views(existing@),
            string_views(locations@),
            locations@.len() as int,
        ),
{
    let mut out: Vec<String> = Vec::new();
    let mut k: usize = 0;
    assert(string_views(out@) =~= seq![]);
    while k < locations.len()
        invariant
            k <= locations@.len(),
            string_views(out@) == missing(
                string_views(existing@),
                string_views(locations@),
                k as int,
            ),
        decreases locations@.len() - k,
    {
        assert(string_views(locations@)[k as int] == locations@[k as int]@);
        let ghost before = string_views(out@);
        if !listed(existing, locations[k].as_str()) {
            out.push(locations[k].clone());
            assert(string_views(out@) =~= before.push(locations@[k as int]@));
        }
        k += 1;
    }
    out
}

} // verus!
