//! The identity of one synchronisation endpoint.

use vstd::prelude::*;
use vstd::std_specs::cmp::PartialEqSpecImpl;
use vstd::string::StringExecFns;

verus! {

/// One endpoint: an FTP root (user, password, host, path), a ZIP archive, a
/// local folder, or a single named file.
#[derive(Debug, Clone, Eq, Hash)]
pub enum LocTypes {
    Ftp(String, String, String, String),
    Zip(String),
    Folder(String),
    SimpleFile(String),
}

/// The mathematical value of a [`LocTypes`]: the same variants over character
/// sequences.
pub enum LocView {
    Ftp(Seq<char>, Seq<char>, Seq<char>, Seq<char>),
    Zip(Seq<char>),
    Folder(Seq<char>),
    SimpleFile(Seq<char>),
}

impl View for LocTypes {
    type V = LocView;

    open spec fn view(&self) -> LocView {
        match *self {
            LocTypes::Ftp(user, password, host, path) => LocView::Ftp(
                user@,
                password@,
                host@,
                path@,
            ),
            LocTypes::Zip(path) => LocView::Zip(path@),
            LocTypes::Folder(path) => LocView::Folder(path@),
            LocTypes::SimpleFile(path) => LocView::SimpleFile(path@),
        }
    }
}

impl PartialEq for LocTypes {
    fn eq(&self, other: &LocTypes) -> (r: bool) {
        match (self, other) {
            (LocTypes::Ftp(u1, p1, h1, d1), LocTypes::Ftp(u2, p2, h2, d2)) => {
                *u1 == *u2 && *p1 == *p2 && *h1 == *h2 && *d1 == *d2
            },
            (LocTypes::Zip(a), LocTypes::Zip(b)) => *a == *b,
            (LocTypes::Folder(a), LocTypes::Folder(b)) => *a == *b,
            (LocTypes::SimpleFile(a), LocTypes::SimpleFile(b)) => *a == *b,
            _ => false,
        }
    }
}

impl PartialEqSpecImpl for LocTypes {
    open spec fn obeys_eq_spec() -> bool {
        true
    }

    open spec fn eq_spec(&self, other: &LocTypes) -> bool {
        self@ == other@
    }
}

impl LocView {
    /// The canonical display string: for an FTP root `user:password@host/path`,
    /// for every other kind the path itself.
    pub open spec fn text(self) -> Seq<char> {
        match self {
            LocView::Ftp(user, password, host, path) => user + seq![':'] + password + seq!['@']
                + host + seq!['/'] + path,
            LocView::Zip(path) => path,
            LocView::Folder(path) => path,
            LocView::SimpleFile(path) => path,
        }
    }

    /// Whether an entry of this kind carries bytes: all kinds but a folder.
    pub open spec fn content_bearing(self) -> bool {
        !(self is Folder)
    }

    /// Whether the backend of this kind never accepts a mutation: an archive.
    pub open spec fn read_only(self) -> bool {
        self is Zip
    }

    /// Where the child `rel` of this location lives: beneath an FTP root on
    /// the same server, at `path/rel`; beneath any other location in the
    /// local file system, at `text/rel`.
    pub open spec fn child(self, rel: Seq<char>) -> LocView {
        match self {
            LocView::Ftp(user, password, host, path) => LocView::Ftp(
                user,
                password,
                host,
                path + seq!['/'] + rel,
            ),
            _ => LocView::SimpleFile(self.text() + seq!['/'] + rel),
        }
    }
}

/// `parent`, a slash, `child`.
pub fn join_path(parent: &str, child: &str) -> (r: String)
    ensures
        r@ == parent@ + seq!['/'] + child@,
{
    proof {
        reveal_strlit("/");
    }
    let r = String::from_str(parent).concat("/").concat(child);
    assert("/"@ =~= seq!['/']);
    r
}

impl LocTypes {
    /// A copy of this descriptor.
    pub fn duplicate(&self) -> (r: LocTypes)
        ensures
            r == *self,
    {
        match self {
            LocTypes::Ftp(user, password, host, path) => LocTypes::Ftp(
                user.clone(),
                password.clone(),
                host.clone(),
                path.clone(),
            ),
            LocTypes::Zip(path) => LocTypes::Zip(path.clone()),
            LocTypes::Folder(path) => LocTypes::Folder(path.clone()),
            LocTypes::SimpleFile(path) => LocTypes::SimpleFile(path.clone()),
        }
    }

    /// The canonical display string of this descriptor.
    pub fn to_text(&self) -> (r: String)
        ensures
            r@ == self@.text(),
    {
        match self {
            LocTypes::Ftp(user, password, host, path) => {
                proof {
                    reveal_strlit(":");
                    reveal_strlit("@");
                }
                let head = user.clone().concat(":").concat(password.as_str()).concat("@").concat(
                    host.as_str(),
                );
                assert(":"@ =~= seq![':']);
                assert("@"@ =~= seq!['@']);
                join_path(head.as_str(), path.as_str())
            },
            LocTypes::Zip(path) => path.clone(),
            LocTypes::Folder(path) => path.clone(),
            LocTypes::SimpleFile(path) => path.clone(),
        }
    }

    /// Whether an entry of this kind carries bytes.
    pub fn is_content_bearing(&self) -> (r: bool)
        ensures
            r == self@.content_bearing(),
    {
        match self {
            LocTypes::Folder(_) => false,
            _ => true,
        }
    }

    /// Whether this is an archive, which accepts no mutation.
    pub fn is_read_only(&self) -> (r: bool)
        ensures
            r == self@.read_only(),
    {
        match self {
            LocTypes::Zip(_) => true,
            _ => false,
        }
    }

    /// The descriptor of the child `rel` of this location.
    pub fn child(&self, rel: &str) -> (r: LocTypes)
        ensures
            r@ == self@.child(rel@),
    {
        match self {
            LocTypes::Ftp(user, password, host, path) => LocTypes::Ftp(
                user.clone(),
                password.clone(),
                host.clone(),
                join_path(path.as_str(), rel),
            ),
            _ => {
                let text = self.to_text();
                LocTypes::SimpleFile(join_path(text.as_str(), rel))
            },
        }
    }
}

} // verus!
