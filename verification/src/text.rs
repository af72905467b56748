//! Scanning of character strings.

use vstd::prelude::*;
use vstd::string::{StrSliceExecFns, StringExecFns};

verus! {

/// Whether `needle` occurs in `hay` at position `at`.
pub open spec fn occurs_at(hay: Seq<char>, needle: Seq<char>, at: int) -> bool {
    0 <= at && at + needle.len() <= hay.len() && hay.subrange(at, at + needle.len()) == needle
}

/// Whether `needle` occurs somewhere in `hay`.
pub open spec fn contains_seq(hay: Seq<char>, needle: Seq<char>) -> bool {
    exists|at: int| occurs_at(hay, needle, at)
}

/// The characters of a string, in order.
pub fn chars_of(s: &str) -> (v: Vec<char>)
    ensures
        v@ == s@,
{
    let mut v: Vec<char> = Vec::new();
    for c in it: s.chars()
        invariant
            v@ == it.seq().take(it.index() as int),
            it.seq() == s@,
    {
        v.push(c);
    }
    v
}

/// Whether two strings hold the same characters.
pub fn str_equal(a: &str, b: &str) -> (r: bool)
    ensures
        r == (a@ == b@),
{
    let x = a.to_owned();
    let y = b.to_owned();
    x == y
}

/// Whether the character `c` occurs in `s`.
pub fn contains_char(s: &str, c: char) -> (r: bool)
    ensures
        r == s@.contains(c),
{
    let v = chars_of(s);
    let mut k: usize = 0;
    while k < v.len()
        invariant
            v@ == s@,
            k <= v@.len(),
            forall|i: int| 0 <= i < k ==> v@[i] != c,
        decreases v@.len() - k,
    {
        if v[k] == c {
            return true;
        }
        k += 1;
    }
    false
}

/// Whether `needle` occurs in `hay` at position `at`, character by character.
fn matches_at(hay: &Vec<char>, needle: &Vec<char>, at: usize) -> (r: bool)
    requires
        at + needle@.len() <= hay@.len(),
    ensures
        r == occurs_at(hay@, needle@, at as int),
{
    let mut k: usize = 0;
    while k < needle.len()
        invariant
            at + needle@.len() <= hay.len(),
            k <= needle@.len(),
            forall|i: int| 0 <= i < k ==> hay@[at + i] == needle@[i],
        decreases needle@.len() - k,
    {
        if hay[at + k] != needle[k] {
            assert(hay@.subrange(at as int, at + needle@.len())[k as int] == hay@[at + k]);
            return false;
        }
        k += 1;
    }
    assert(hay@.subrange(at as int, at + needle@.len()) =~= needle@);
    true
}

/// The first position at which `needle` occurs in `hay`.
pub fn find_seq(hay: &Vec<char>, needle: &Vec<char>) -> (r: Option<usize>)
    ensures
        match r {
            Some(at) => occurs_at(hay@, needle@, at as int) && forall|j: int|
                0 <= j < at ==> !occurs_at(hay@, needle@, j),
            None => !contains_seq(hay@, needle@),
        },
{
    if needle.len() > hay.len() {
        return None;
    }
    let last = hay.len() - needle.len();
    let mut at: usize = 0;
    loop
        invariant
            last == hay@.len() - needle@.len(),
            at <= last,
            forall|j: int| 0 <= j < at ==> !occurs_at(hay@, needle@, j),
        decreases last - at,
    {
        if matches_at(hay, needle, at) {
            return Some(at);
        }
        if at == last {
            return None;
        }
        at += 1;
    }
}

/// Whether `needle` occurs somewhere in `hay`.
pub fn contains_str(hay: &str, needle: &str) -> (r: bool)
    ensures
        r == contains_seq(hay@, needle@),
{
    let h = chars_of(hay);
    let n = chars_of(needle);
    find_seq(&h, &n).is_some()
}

/// Whether `at` is the first position of the character `c` in `s`.
pub open spec fn first_at(s: Seq<char>, c: char, at: int) -> bool {
    0 <= at < s.len() && s[at] == c && forall|j: int| 0 <= j < at ==> s[j] != c
}

/// Whether `at` is the last position of the character `c` in `s`.
pub open spec fn last_at(s: Seq<char>, c: char, at: int) -> bool {
    0 <= at < s.len() && s[at] == c && forall|j: int| at < j < s.len() ==> s[j] != c
}

/// `s` cut in two at the first `c`, which is left out; `None` where `s`
/// holds no `c`.
pub open spec fn cut_at_first(s: Seq<char>, c: char) -> Option<(Seq<char>, Seq<char>)> {
    if s.contains(c) {
        let at = choose|at: int| first_at(s, c, at);
        Some((s.take(at), s.skip(at + 1)))
    } else {
        None
    }
}

/// `s` cut in two at the last `c`, which is left out; `None` where `s` holds
/// no `c`.
pub open spec fn cut_at_last(s: Seq<char>, c: char) -> Option<(Seq<char>, Seq<char>)> {
    if s.contains(c) {
        let at = choose|at: int| last_at(s, c, at);
        Some((s.take(at), s.skip(at + 1)))
    } else {
        None
    }
}

/// The first position of `c` in `v`.
fn first_position(v: &Vec<char>, c: char) -> (r: Option<usize>)
    ensures
        match r {
            Some(at) => first_at(v@, c, at as int) && v@.contains(c) && (choose|k: int|
                first_at(v@, c, k)) == at,
            None => !v@.contains(c),
        },
{
    let mut k: usize = 0;
    while k < v.len()
        invariant
            k <= v@.len(),
            forall|j: int| 0 <= j < k ==> v@[j] != c,
        decreases v@.len() - k,
    {
        if v[k] == c {
            let ghost chosen = choose|i: int| first_at(v@, c, i);
            assert(first_at(v@, c, k as int));
            assert(chosen == k) by {
                if chosen < k {
                } else if k < chosen {
                }
            }
            return Some(k);
        }
        k += 1;
    }
    None
}

/// The last position of `c` in `v`.
fn last_position(v: &Vec<char>, c: char) -> (r: Option<usize>)
    ensures
        match r {
            Some(at) => last_at(v@, c, at as int) && v@.contains(c) && (choose|k: int|
                last_at(v@, c, k)) == at,
            None => !v@.contains(c),
        },
{
    let mut k: usize = v.len();
    while k > 0
        invariant
            k <= v@.len(),
            forall|j: int| k <= j < v@.len() ==> v@[j] != c,
        decreases k,
    {
        k -= 1;
        if v[k] == c {
            let ghost chosen = choose|i: int| last_at(v@, c, i);
            assert(last_at(v@, c, k as int));
            assert(chosen == k) by {
                if chosen < k {
                } else if k < chosen {
                }
            }
            return Some(k);
        }
    }
    None
}

/// The two parts of `s` around the position `at`, which is left out.
fn parts_around(s: &str, at: usize, len: usize) -> (r: (String, String))
    requires
        at < len,
        len == s@.len(),
    ensures
        r.0@ == s@.take(at as int),
        r.1@ == s@.skip(at + 1),
{
    let head = s.substring_char(0, at);
    let tail = s.substring_char(at + 1, len);
    assert(head@ =~= s@.take(at as int));
    assert(tail@ =~= s@.skip(at + 1));
    (head.to_owned(), tail.to_owned())
}

/// `s` cut in two at the first `c`.
pub fn split_once_char(s: &str, c: char) -> (r: Option<(String, String)>)
    ensures
        match r {
            Some(parts) => cut_at_first(s@, c) == Some((parts.0@, parts.1@)),
            None => cut_at_first(s@, c) is None,
        },
{
    let v = chars_of(s);
    match first_position(&v, c) {
        Some(at) => Some(parts_around(s, at, v.len())),
        None => None,
    }
}

/// `s` cut in two at the last `c`.
pub fn rsplit_once_char(s: &str, c: char) -> (r: Option<(String, String)>)
    ensures
        match r {
            Some(parts) => cut_at_last(s@, c) == Some((parts.0@, parts.1@)),
            None => cut_at_last(s@, c) is None,
        },
{
    let v = chars_of(s);
    match last_position(&v, c) {
        Some(at) => Some(parts_around(s, at, v.len())),
        None => None,
    }
}

/// Whether a character is blank, and so separates the columns of a line.
pub open spec fn is_blank(c: char) -> bool {
    c == ' ' || c == '\t' || c == '\n' || c == '\r'
}

/// What separates the pieces of a text.
#[derive(Clone, Copy, Debug, PartialEq, Eq, Structural)]
pub enum Breaks {
    /// Blanks, between the columns of a line.
    Blanks,
    /// Slashes, between the names of a path.
    Slashes,
    /// Ends of lines, between the lines of a text.
    LineEnds,
}

/// Whether a character separates two pieces.
pub open spec fn is_break(c: char, by: Breaks) -> bool {
    match by {
        Breaks::Blanks => is_blank(c),
        Breaks::Slashes => c == '/',
        Breaks::LineEnds => c == '\n' || c == '\r',
    }
}

/// The piece in hand, where there is one.
pub open spec fn closed_piece(piece: Seq<char>) -> Seq<Seq<char>> {
    if piece.len() > 0 {
        seq![piece]
    } else {
        seq![]
    }
}

/// The pieces of `s` from position `at` on, where `piece` is the part of a
/// piece that was read just before `at`.
pub open spec fn pieces_from(s: Seq<char>, by: Breaks, at: int, piece: Seq<char>) -> Seq<
    Seq<char>,
>
    decreases s.len() - at,
{
    if at < 0 || at >= s.len() {
        closed_piece(piece)
    } else if is_break(s[at], by) {
        closed_piece(piece) + pieces_from(s, by, at + 1, seq![])
    } else {
        pieces_from(s, by, at + 1, piece.push(s[at]))
    }
}

/// The pieces of `s`: its runs of characters that do not separate, in order.
/// None of them is empty.
pub open spec fn pieces(s: Seq<char>, by: Breaks) -> Seq<Seq<char>> {
    pieces_from(s, by, 0, seq![])
}

/// The columns of a line: its runs of characters that are not blank.
pub open spec fn columns(s: Seq<char>) -> Seq<Seq<char>> {
    pieces(s, Breaks::Blanks)
}

/// The names along a path: its runs of characters that are no slash.
pub open spec fn path_names(s: Seq<char>) -> Seq<Seq<char>> {
    pieces(s, Breaks::Slashes)
}

/// The lines of a text that are not empty.
pub open spec fn lines(s: Seq<char>) -> Seq<Seq<char>> {
    pieces(s, Breaks::LineEnds)
}

/// The mathematical values of a list of strings.
pub open spec fn string_views(v: Seq<String>) -> Seq<Seq<char>> {
    Seq::new(v.len(), |k: int| v[k]@)
}

/// Whether a character separates two pieces.
pub fn breaks(c: char, by: Breaks) -> (r: bool)
    ensures
        r == is_break(c, by),
{
    match by {
        Breaks::Blanks => c == ' ' || c == '\t' || c == '\n' || c == '\r',
        Breaks::Slashes => c == '/',
        Breaks::LineEnds => c == '\n' || c == '\r',
    }
}

/// The pieces of `line`.
pub fn split_pieces(line: &str, by: Breaks) -> (r: Vec<String>)
    ensures
        string_views(r@) == pieces(line@, by),
{
    let v = chars_of(line);
    let mut out: Vec<String> = Vec::new();
    let mut start: usize = 0;
    let mut k: usize = 0;
    assert(string_views(out@) =~= seq![]);
    assert(line@.subrange(0, 0) =~= seq![]);
    assert(seq![] + pieces_from(line@, by, 0, seq![]) =~= pieces(line@, by));
    while k < v.len()
        invariant
            v@ == line@,
            start <= k <= v@.len(),
            pieces(line@, by) == string_views(out@) + pieces_from(
                line@,
                by,
                k as int,
                line@.subrange(start as int, k as int),
            ),
        decreases v@.len() - k,
    {
        let ghost piece = line@.subrange(start as int, k as int);
        let ghost before = string_views(out@);
        if breaks(v[k], by) {
            if start < k {
                let found = line.substring_char(start, k);
                out.push(found.to_owned());
            }
            assert(string_views(out@) =~= before + closed_piece(piece));
            assert(before + (closed_piece(piece) + pieces_from(line@, by, k + 1, seq![]))
                =~= (before + closed_piece(piece)) + pieces_from(line@, by, k + 1, seq![]));
            start = k + 1;
            assert(line@.subrange(start as int, k + 1) =~= seq![]);
        } else {
            assert(line@.subrange(start as int, k + 1) =~= piece.push(line@[k as int]));
        }
        k += 1;
    }
    let ghost piece = line@.subrange(start as int, k as int);
    let ghost before = string_views(out@);
    if start < k {
        let found = line.substring_char(start, k);
        out.push(found.to_owned());
    }
    assert(string_views(out@) =~= before + closed_piece(piece));
    out
}

/// The columns of a line.
pub fn split_columns(line: &str) -> (r: Vec<String>)
    ensures
        string_views(r@) == columns(line@),
{
    split_pieces(line, Breaks::Blanks)
}

/// The strings of `parts` from position `from` on, in one, with a space
/// between each two.
pub open spec fn spaced(parts: Seq<Seq<char>>, from: int) -> Seq<char>
    decreases parts.len() - from,
{
    if from < 0 || from >= parts.len() {
        seq![]
    } else if from + 1 == parts.len() {
        parts[from]
    } else {
        parts[from] + seq![' '] + spaced(parts, from + 1)
    }
}

/// The strings of `parts` from position `from` on, in one, with a space
/// between each two.
pub fn join_spaced(parts: &Vec<String>, from: usize) -> (r: String)
    ensures
        r@ == spaced(string_views(parts@), from as int),
{
    let mut out = String::new();
    if from >= parts.len() {
        return out;
    }
    proof {
        reveal_strlit(" ");
    }
    let ghost all = string_views(parts@);
    let mut k: usize = from;
    assert(out@ + spaced(all, k as int) =~= spaced(all, from as int));
    while k < parts.len()
        invariant
            all == string_views(parts@),
            from <= k <= parts@.len(),
            from < parts@.len(),
            out@ + spaced(all, k as int) == spaced(all, from as int),
            " "@ == seq![' '],
        decreases parts@.len() - k,
    {
        let ghost before = out@;
        out.append(parts[k].as_str());
        assert(all[k as int] == parts@[k as int]@);
        if k + 1 < parts.len() {
            out.append(" ");
            assert(out@ + spaced(all, k + 1) =~= before + (all[k as int] + seq![' '] + spaced(
                all,
                k + 1,
            )));
        } else {
            assert(out@ + spaced(all, k + 1) =~= before + all[k as int]);
        }
        k += 1;
    }
    assert(out@ + spaced(all, k as int) =~= out@);
    out
}

} // verus!
