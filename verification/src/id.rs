//! Typed identifiers: a kind, written as a three-letter prefix, and an opaque body.

use crate::fault::Fault;
use crate::text::{find_char, first_index, lemma_first_index, lemma_first_index_unique, text_eq};
use vstd::prelude::*;
use vstd::string::*;

verus! {

/// What an identifier names.
#[derive(Clone, Copy, Debug, PartialEq, Eq, Structural, Hash, PartialOrd, Ord)]
pub enum Kind {
    Leaf,
    Branch,
    Directory,
    File,
    Symlink,
    Lock,
    Target,
    Build,
}

/// An identifier: its kind and the opaque text that tells it from others of that kind.
#[derive(Clone, Debug, PartialEq, Eq, Hash, PartialOrd, Ord)]
pub struct Id {
    pub kind: Kind,
    pub body: String,
}

/// The mathematical value of an `Id`.
pub struct IdView {
    pub kind: Kind,
    pub body: Seq<char>,
}

impl View for Id {
    type V = IdView;

    open spec fn view(&self) -> IdView {
        IdView { kind: self.kind, body: self.body@ }
    }
}

/// The prefix under which identifiers of a kind are written.
pub open spec fn prefix(kind: Kind) -> Seq<char> {
    match kind {
        Kind::Leaf => seq!['l', 'e', 'f'],
        Kind::Branch => seq!['b', 'c', 'h'],
        Kind::Directory => seq!['d', 'i', 'r'],
        Kind::File => seq!['f', 'i', 'l'],
        Kind::Symlink => seq!['s', 'y', 'm'],
        Kind::Lock => seq!['l', 'o', 'k'],
        Kind::Target => seq!['t', 'g', 't'],
        Kind::Build => seq!['b', 'l', 'd'],
    }
}

/// The kind that a prefix stands for, if it is one of the known prefixes.
pub open spec fn kind_of(p: Seq<char>) -> Option<Kind> {
    if p == prefix(Kind::Leaf) {
        Some(Kind::Leaf)
    } else if p == prefix(Kind::Branch) {
        Some(Kind::Branch)
    } else if p == prefix(Kind::Directory) {
        Some(Kind::Directory)
    } else if p == prefix(Kind::File) {
        Some(Kind::File)
    } else if p == prefix(Kind::Symlink) {
        Some(Kind::Symlink)
    } else if p == prefix(Kind::Lock) {
        Some(Kind::Lock)
    } else if p == prefix(Kind::Target) {
        Some(Kind::Target)
    } else if p == prefix(Kind::Build) {
        Some(Kind::Build)
    } else {
        None
    }
}

/// How an identifier is written: prefix, underscore, body.
pub open spec fn printed(id: IdView) -> Seq<char> {
    prefix(id.kind).push('_') + id.body
}

/// What a text reads as: the part before the first underscore must be a known
/// prefix, and everything after that underscore is the body.
pub open spec fn parsed(s: Seq<char>) -> Option<IdView> {
    let i = first_index(s, '_');
    if i < s.len() {
        match kind_of(s.subrange(0, i)) {
            Some(kind) => Some(IdView { kind, body: s.subrange(i + 1, s.len() as int) }),
            None => None,
        }
    } else {
        None
    }
}

/// Every prefix has three characters, none of them an underscore, and names its own kind.
pub proof fn lemma_prefix(kind: Kind)
    ensures
        prefix(kind).len() == 3,
        forall|j: int| 0 <= j < 3 ==> prefix(kind)[j] != '_',
        kind_of(prefix(kind)) == Some(kind),
{
    assert(prefix(Kind::Leaf)[1] == 'e');
    assert(prefix(Kind::Branch)[1] == 'c');
    assert(prefix(Kind::Directory)[0] == 'd');
    assert(prefix(Kind::File)[0] == 'f');
    assert(prefix(Kind::Symlink)[0] == 's');
    assert(prefix(Kind::Lock)[1] == 'o');
    assert(prefix(Kind::Target)[0] == 't');
    assert(prefix(Kind::Build)[1] == 'l');
}

/// A prefix that names a kind is that kind's prefix.
pub proof fn lemma_kind_of(p: Seq<char>)
    ensures
        kind_of(p) matches Some(kind) ==> p == prefix(kind),
{
}

/// Reading what was written gives the identifier back.
pub proof fn lemma_parse_print(id: IdView)
    ensures
        parsed(printed(id)) == Some(id),
{
    let s = printed(id);
    lemma_prefix(id.kind);
    assert(s[3] == '_');
    assert forall|j: int| 0 <= j < 3 implies s[j] != '_' by {
        assert(s[j] == prefix(id.kind)[j]);
    }
    lemma_first_index_unique(s, '_', 3);
    assert(s.subrange(0, 3) =~= prefix(id.kind));
    assert(s.subrange(4, s.len() as int) =~= id.body);
}

/// Writing what was read gives the text back.
pub proof fn lemma_print_parse(s: Seq<char>)
    requires
        parsed(s) is Some,
    ensures
        printed(parsed(s).unwrap()) == s,
{
    let i = first_index(s, '_');
    lemma_first_index(s, '_');
    lemma_kind_of(s.subrange(0, i));
    assert(printed(parsed(s).unwrap()) =~= s);
}

fn prefix_text(kind: Kind) -> (r: &'static str)
    ensures
        r@ == prefix(kind),
{
    proof {
        reveal_strlit("lef");
        reveal_strlit("bch");
        reveal_strlit("dir");
        reveal_strlit("fil");
        reveal_strlit("sym");
        reveal_strlit("lok");
        reveal_strlit("tgt");
        reveal_strlit("bld");
    }
    let r = match kind {
        Kind::Leaf => "lef",
        Kind::Branch => "bch",
        Kind::Directory => "dir",
        Kind::File => "fil",
        Kind::Symlink => "sym",
        Kind::Lock => "lok",
        Kind::Target => "tgt",
        Kind::Build => "bld",
    };
    assert(r@ =~= prefix(kind));
    r
}

fn kind_of_text(p: &str) -> (r: Option<Kind>)
    ensures
        r == kind_of(p@),
{
    if text_eq(p, prefix_text(Kind::Leaf)) {
        Some(Kind::Leaf)
    } else if text_eq(p, prefix_text(Kind::Branch)) {
        Some(Kind::Branch)
    } else if text_eq(p, prefix_text(Kind::Directory)) {
        Some(Kind::Directory)
    } else if text_eq(p, prefix_text(Kind::File)) {
        Some(Kind::File)
    } else if text_eq(p, prefix_text(Kind::Symlink)) {
        Some(Kind::Symlink)
    } else if text_eq(p, prefix_text(Kind::Lock)) {
        Some(Kind::Lock)
    } else if text_eq(p, prefix_text(Kind::Target)) {
        Some(Kind::Target)
    } else if text_eq(p, prefix_text(Kind::Build)) {
        Some(Kind::Build)
    } else {
        None
    }
}

impl Id {
    /// An identifier of the given kind and body.
    pub fn new(kind: Kind, body: String) -> (id: Id)
        ensures
            id.kind == kind,
            id.body == body,
    {
        Id { kind, body }
    }

    /// Reads an identifier; `Invalid` when the text is not a known prefix,
    /// an underscore and a body.
    pub fn parse(text: &str) -> (r: Result<Id, Fault>)
        ensures
            match r {
                Ok(id) => parsed(text@) == Some(id@),
                Err(e) => e == Fault::Invalid && parsed(text@) is None,
            },
    {
        let n: usize = text.unicode_len();
        match find_char(text, '_') {
            None => Err(Fault::Invalid),
            Some(i) => match kind_of_text(text.substring_char(0, i)) {
                None => Err(Fault::Invalid),
                Some(kind) => {
                    let body: String = text.substring_char(i + 1, n).to_owned();
                    Ok(Id { kind, body })
                },
            },
        }
    }

    /// Writes the identifier: prefix, underscore, body.
    pub fn to_string(&self) -> (s: String)
        ensures
            s@ == printed(self@),
    {
        let mut s: String = prefix_text(self.kind).to_owned();
        s.append("_");
        s.append(self.body.as_str());
        proof {
            reveal_strlit("_");
            assert("_"@ =~= seq!['_']);
            assert(s@ =~= printed(self@));
        }
        s
    }

    /// Whether two identifiers are the same identifier.
    pub fn same(&self, other: &Id) -> (r: bool)
        ensures
            r == (self@ == other@),
    {
        self.kind == other.kind && self.body == other.body
    }

    /// A copy of the identifier.
    pub fn duplicate(&self) -> (id: Id)
        ensures
            id == *self,
    {
        Id { kind: self.kind, body: self.body.clone() }
    }

    /// Whether the identifier names a build.
    pub fn is_build(&self) -> (r: bool)
        ensures
            r == (self.kind == Kind::Build),
    {
        self.kind == Kind::Build
    }
}

/// The kind of artifact that a value is, given of which of the three
/// classes of artifacts it is an instance: the first that it is an instance
/// of, in the order directory, file, symlink.
pub open spec fn artifact_kind_of(is_directory: bool, is_file: bool, is_symlink: bool) -> Option<
    Kind,
> {
    if is_directory {
        Some(Kind::Directory)
    } else if is_file {
        Some(Kind::File)
    } else if is_symlink {
        Some(Kind::Symlink)
    } else {
        None
    }
}

/// The kind of artifact that a value is; `Invalid` when it is neither a
/// directory nor a file nor a symlink.
pub fn artifact_kind(is_directory: bool, is_file: bool, is_symlink: bool) -> (r: Result<Kind, Fault>)
    ensures
        match r {
            Ok(kind) => artifact_kind_of(is_directory, is_file, is_symlink) == Some(kind),
            Err(e) => e == Fault::Invalid && artifact_kind_of(is_directory, is_file, is_symlink)
                is None,
        },
{
    if is_directory {
        Ok(Kind::Directory)
    } else if is_file {
        Ok(Kind::File)
    } else if is_symlink {
        Ok(Kind::Symlink)
    } else {
        Err(Fault::Invalid)
    }
}

/// The values of a sequence of identifiers, in order.
pub open spec fn views(s: Seq<Id>) -> Seq<IdView> {
    Seq::new(s.len(), |i: int| s[i]@)
}

/// Whether `id` occurs among `ids`.
pub fn holds(ids: &Vec<Id>, id: &Id) -> (r: bool)
    ensures
        r == views(ids@).contains(id@),
{
    let mut i: usize = 0;
    while i < ids.len()
        invariant
            i <= ids.len(),
            forall|j: int| 0 <= j < i ==> views(ids@)[j] != id@,
        decreases ids.len() - i,
    {
        if ids[i].same(id) {
            assert(views(ids@)[i as int] == id@);
            return true;
        }
        i += 1;
    }
    false
}

/// Copies of the identifiers `ids[from..to]`.
pub fn copy_range(ids: &Vec<Id>, from: usize, to: usize) -> (r: Vec<Id>)
    requires
        from <= to <= ids.len(),
    ensures
        r@ == ids@.subrange(from as int, to as int),
{
    let mut r: Vec<Id> = Vec::new();
    let mut i: usize = from;
    while i < to
        invariant
            from <= i <= to <= ids.len(),
            r@ == ids@.subrange(from as int, i as int),
        decreases to - i,
    {
        r.push(ids[i].duplicate());
        assert(r@ =~= ids@.subrange(from as int, i + 1));
        i += 1;
    }
    r
}

} // verus!
