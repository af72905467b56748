//! Relative paths: the key under which two locations hold the same file.

use crate::text::{chars_of, find_seq, occurs_at};
use vstd::prelude::*;
use vstd::string::StrSliceExecFns;

verus! {

/// `s` without the slashes at its start.
pub open spec fn without_leading_slashes(s: Seq<char>) -> Seq<char>
    decreases s.len(),
{
    if s.len() > 0 && s[0] == '/' {
        without_leading_slashes(s.drop_first())
    } else {
        s
    }
}

/// The path of `target` relative to the root `base`, or `None` where
/// `target` does not lie at or beneath `base`. The root itself is `.`; a
/// path lies beneath the root where it goes on behind it with a slash.
pub open spec fn relative(base: Seq<char>, target: Seq<char>) -> Option<Seq<char>> {
    if !base.is_prefix_of(target) {
        None
    } else {
        let rest = target.skip(base.len() as int);
        if rest.len() == 0 {
            Some(seq!['.'])
        } else if rest[0] == '/' || (base.len() > 0 && base.last() == '/') {
            let tail = without_leading_slashes(rest);
            if tail.len() == 0 {
                Some(seq!['.'])
            } else {
                Some(tail)
            }
        } else {
            None
        }
    }
}

/// The number of slashes at the start of `v`, from position `from` on.
fn count_slashes(v: &Vec<char>, from: usize) -> (n: usize)
    requires
        from <= v@.len(),
    ensures
        from + n <= v@.len(),
        without_leading_slashes(v@.skip(from as int)) == v@.skip(from + n),
{
    let mut k = from;
    while k < v.len() && v[k] == '/'
        invariant
            from <= k <= v@.len(),
            without_leading_slashes(v@.skip(from as int)) == without_leading_slashes(
                v@.skip(k as int),
            ),
        decreases v@.len() - k,
    {
        assert(v@.skip(k as int).drop_first() =~= v@.skip(k + 1));
        k += 1;
    }
    assert(v@.skip(k as int).len() > 0 ==> v@.skip(k as int)[0] == v@[k as int]);
    k - from
}

/// `s` without the slashes at its start.
pub fn strip_leading_slashes(s: &str) -> (r: String)
    ensures
        r@ == without_leading_slashes(s@),
{
    let v = chars_of(s);
    let skipped = count_slashes(&v, 0);
    let tail = s.substring_char(skipped, v.len());
    assert(v@.skip(0) =~= v@);
    assert(tail@ =~= v@.skip(skipped as int));
    tail.to_owned()
}

/// Whether `v` begins with `prefix`.
fn starts_with(v: &Vec<char>, prefix: &Vec<char>) -> (r: bool)
    ensures
        r == prefix@.is_prefix_of(v@),
{
    if prefix.len() > v.len() {
        return false;
    }
    let mut k: usize = 0;
    while k < prefix.len()
        invariant
            prefix@.len() <= v@.len(),
            k <= prefix@.len(),
            forall|i: int| 0 <= i < k ==> prefix@[i] == v@[i],
        decreases prefix@.len() - k,
    {
        if prefix[k] != v[k] {
            return false;
        }
        k += 1;
    }
    assert(prefix@ =~= v@.subrange(0, prefix@.len() as int));
    true
}

/// The path of `target` relative to the root `base`.
pub fn relative_path(base: &str, target: &str) -> (r: Option<String>)
    ensures
        match r {
            Some(s) => relative(base@, target@) == Some(s@),
            None => relative(base@, target@) is None,
        },
{
    let b = chars_of(base);
    let t = chars_of(target);
    if !starts_with(&t, &b) {
        return None;
    }
    let n = b.len();
    if n == t.len() {
        proof {
            reveal_strlit(".");
        }
        assert("."@ =~= seq!['.']);
        return Some(".".to_owned());
    }
    assert(t@.skip(n as int)[0] == t@[n as int]);
    if t[n] == '/' || (n > 0 && b[n - 1] == '/') {
        let skipped = count_slashes(&t, n);
        if n + skipped == t.len() {
            proof {
                reveal_strlit(".");
            }
            assert("."@ =~= seq!['.']);
            Some(".".to_owned())
        } else {
            let tail = target.substring_char(n + skipped, t.len());
            assert(tail@ =~= t@.skip(n + skipped));
            Some(tail.to_owned())
        }
    } else {
        None
    }
}

/// What is to be read for the bytes of a path.
#[derive(Debug)]
pub enum ReadPlan {
    /// The member `inner` of the archive at `archive`.
    Member { archive: String, inner: String },
    /// The file at the path.
    Plain(String),
}

/// The mathematical value of a [`ReadPlan`].
pub enum ReadPlanView {
    Member { archive: Seq<char>, inner: Seq<char> },
    Plain(Seq<char>),
}

impl View for ReadPlan {
    type V = ReadPlanView;

    open spec fn view(&self) -> ReadPlanView {
        match *self {
            ReadPlan::Member { archive, inner } => ReadPlanView::Member {
                archive: archive@,
                inner: inner@,
            },
            ReadPlan::Plain(path) => ReadPlanView::Plain(path@),
        }
    }
}

/// The ending by which a path is known to lead into an archive.
pub open spec fn archive_ending() -> Seq<char> {
    seq!['.', 'z', 'i', 'p']
}

/// Whether `at` is the first place where the archive ending occurs in `path`.
pub open spec fn first_ending(path: Seq<char>, at: int) -> bool {
    occurs_at(path, archive_ending(), at) && forall|j: int|
        0 <= j < at ==> !occurs_at(path, archive_ending(), j)
}

/// Where the bytes of `path` are to be had: a path that holds `.zip` leads
/// into the archive that ends with the first `.zip`, to the member named by
/// what follows, less the slashes at its start; any other path is a file.
pub open spec fn read_plan_of(path: Seq<char>) -> ReadPlanView {
    if exists|at: int| first_ending(path, at) {
        let at = choose|at: int| first_ending(path, at);
        ReadPlanView::Member {
            archive: path.take(at + 4),
            inner: without_leading_slashes(path.skip(at + 4)),
        }
    } else {
        ReadPlanView::Plain(path)
    }
}

/// Where the bytes of `file_path` are to be had.
pub fn file_as_bytes(file_path: &str) -> (r: ReadPlan)
    ensures
        r@ == read_plan_of(file_path@),
{
    let v = chars_of(file_path);
    let ending: Vec<char> = vec!['.', 'z', 'i', 'p'];
    assert(ending@ =~= archive_ending());
    match find_seq(&v, &ending) {
        Some(at) => {
            assert(first_ending(file_path@, at as int));
            let ghost chosen = choose|k: int| first_ending(file_path@, k);
            assert(chosen == at) by {
                if chosen < at {
                    assert(!occurs_at(file_path@, archive_ending(), chosen));
                } else if at < chosen {
                    assert(!occurs_at(file_path@, archive_ending(), at as int));
                }
            }
            assert(occurs_at(v@, ending@, at as int) && ending@.len() == 4);
            assert(at + 4 <= v.len());
            let cut = at + 4;
            let skipped = count_slashes(&v, cut);
            let archive = file_path.substring_char(0, cut);
            let inner = file_path.substring_char(cut + skipped, v.len());
            assert(archive@ =~= file_path@.take(cut as int));
            assert(inner@ =~= v@.skip(cut + skipped));
            ReadPlan::Member { archive: archive.to_owned(), inner: inner.to_owned() }
        },
        None => {
            assert(forall|k: int| !first_ending(file_path@, k));
            ReadPlan::Plain(file_path.to_owned())
        },
    }
}

} // verus!
