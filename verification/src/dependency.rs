//! How a package names what it depends on: by identifier, by name and
//! version, or by path.

use crate::fault::Fault;
use crate::id::{parsed, printed, Id, IdView, Kind};
use crate::outside::{
    json_members, json_object, json_object_members, json_object_text, Scalar, ScalarView,
};
use crate::text::{find_char, first_index, pair_views, text_eq};
use vstd::prelude::*;
use vstd::string::*;

verus! {

/// A path, as it was written.
#[derive(Clone, Debug, PartialEq, Eq, Hash, PartialOrd, Ord)]
pub struct Path {
    pub text: String,
}

/// A dependency. Every part may be absent.
#[derive(Clone, Debug, PartialEq, Eq, Hash, PartialOrd, Ord)]
pub struct Dependency {
    /// The package's identifier.
    pub id: Option<Id>,
    /// The name of the package.
    pub name: Option<String>,
    /// The package's path.
    pub path: Option<Path>,
    /// The package's version.
    pub version: Option<String>,
}

/// The mathematical value of a `Dependency`.
pub struct DependencyView {
    pub id: Option<IdView>,
    pub name: Option<Seq<char>>,
    pub path: Option<Seq<char>>,
    pub version: Option<Seq<char>>,
}

impl View for Path {
    type V = Seq<char>;

    open spec fn view(&self) -> Seq<char> {
        self.text@
    }
}

impl View for Dependency {
    type V = DependencyView;

    open spec fn view(&self) -> DependencyView {
        DependencyView {
            id: match self.id {
                Some(id) => Some(id@),
                None => None,
            },
            name: match self.name {
                Some(name) => Some(name@),
                None => None,
            },
            path: match self.path {
                Some(path) => Some(path@),
                None => None,
            },
            version: match self.version {
                Some(version) => Some(version@),
                None => None,
            },
        }
    }
}

/// Whether a path begins with a name, rather than at the root, with `.` or with `..`.
pub open spec fn starts_with_name(path: Seq<char>) -> bool {
    let first = path.subrange(0, first_index(path, '/'));
    first.len() > 0 && first != seq!['.'] && first != seq!['.', '.']
}

/// The members of the JSON object that stands for a dependency: the parts
/// that are present, under their names, in the order id, name, path, version.
pub open spec fn members(d: DependencyView) -> Seq<(Seq<char>, Seq<char>)> {
    (match d.id {
        Some(id) => seq![(seq!['i', 'd'], printed(id))],
        None => Seq::empty(),
    }) + (match d.name {
        Some(name) => seq![(seq!['n', 'a', 'm', 'e'], name)],
        None => Seq::empty(),
    }) + (match d.path {
        Some(path) => seq![(seq!['p', 'a', 't', 'h'], path)],
        None => Seq::empty(),
    }) + (match d.version {
        Some(version) => seq![(seq!['v', 'e', 'r', 's', 'i', 'o', 'n'], version)],
        None => Seq::empty(),
    })
}

/// How a dependency is written: an identifier alone as the identifier, a
/// name alone as the name, a name and a version with `@` between them, a
/// path alone as the path, with `./` before it if it begins with a name;
/// any other combination as a JSON object.
pub open spec fn shown(d: DependencyView) -> Seq<char> {
    match (d.id, d.name, d.version, d.path) {
        (Some(id), None, None, None) => printed(id),
        (None, Some(name), None, None) => name,
        (None, Some(name), Some(version), None) => name.push('@') + version,
        (None, None, None, Some(path)) => if starts_with_name(path) {
            seq!['.', '/'] + path
        } else {
            path
        },
        _ => json_object_text(members(d)),
    }
}

/// The value of member `name` in a list of members: that of the first
/// member of that name, or null when there is none.
pub open spec fn member(list: Seq<(Seq<char>, ScalarView)>, name: Seq<char>) -> ScalarView
    decreases list.len(),
{
    if list.len() == 0 {
        ScalarView::Null
    } else if list[0].0 == name {
        list[0].1
    } else {
        member(list.skip(1), name)
    }
}

/// The text of a member that is a text or null; `None` when it is neither.
pub open spec fn optional_text(value: ScalarView) -> Option<Option<Seq<char>>> {
    match value {
        ScalarView::Null => Some(None),
        ScalarView::Text(s) => Some(Some(s)),
        ScalarView::Other => None,
    }
}

/// The identifier of a package that a text reads as: the identifier of a directory.
pub open spec fn package_id(s: Seq<char>) -> Option<IdView> {
    match parsed(s) {
        Some(id) => if id.kind == Kind::Directory {
            Some(id)
        } else {
            None
        },
        None => None,
    }
}

/// The dependency that the members of a JSON object stand for: each part
/// is the text under its name, and absent when there is no such member or
/// it is null. `None` when a part is neither text nor null, or the
/// identifier is not the identifier of a package.
pub open spec fn of_members(list: Seq<(Seq<char>, ScalarView)>) -> Option<DependencyView> {
    match (
        optional_text(member(list, seq!['i', 'd'])),
        optional_text(member(list, seq!['n', 'a', 'm', 'e'])),
        optional_text(member(list, seq!['p', 'a', 't', 'h'])),
        optional_text(member(list, seq!['v', 'e', 'r', 's', 'i', 'o', 'n'])),
    ) {
        (Some(id), Some(name), Some(path), Some(version)) => match id {
            Some(text) => match package_id(text) {
                Some(id) => Some(DependencyView { id: Some(id), name, path, version }),
                None => None,
            },
            None => Some(DependencyView { id: None, name, path, version }),
        },
        _ => None,
    }
}

/// The dependency that a text without a leading brace reads as: a package
/// identifier; else a path, if it begins with `/` or `.`; else a name, with
/// a version behind the first `@` if there is one.
pub open spec fn plain(s: Seq<char>) -> DependencyView {
    let none = DependencyView { id: None, name: None, path: None, version: None };
    if package_id(s) is Some {
        DependencyView { id: package_id(s), ..none }
    } else if s.len() > 0 && (s[0] == '/' || s[0] == '.') {
        DependencyView { path: Some(s), ..none }
    } else {
        let at = first_index(s, '@');
        if at < s.len() {
            DependencyView {
                name: Some(s.subrange(0, at)),
                version: Some(s.subrange(at + 1, s.len() as int)),
                ..none
            }
        } else {
            DependencyView { name: Some(s), ..none }
        }
    }
}

/// What a text reads as: the dependency that a JSON object stands for,
/// when the text begins with a brace, and else what `plain` says.
pub open spec fn read(s: Seq<char>) -> Option<DependencyView> {
    if s.len() > 0 && s[0] == '{' {
        match json_object_members(s) {
            Some(list) => of_members(list),
            None => None,
        }
    } else {
        Some(plain(s))
    }
}

impl Path {
    /// The path that a text writes.
    pub fn new(text: String) -> (p: Path)
        ensures
            p.text == text,
    {
        Path { text }
    }

    /// The path as it was written.
    pub fn to_string(&self) -> (s: String)
        ensures
            s@ == self@,
    {
        self.text.clone()
    }

    /// Whether the path begins with a name, rather than at the root, with
    /// `.` or with `..`.
    pub fn starts_with_name(&self) -> (r: bool)
        ensures
            r == starts_with_name(self@),
    {
        let text: &str = self.text.as_str();
        let n: usize = text.unicode_len();
        let end: usize = match find_char(text, '/') {
            Some(i) => i,
            None => n,
        };
        let first: &str = text.substring_char(0, end);
        proof {
            reveal_strlit(".");
            reveal_strlit("..");
            assert("."@ =~= seq!['.']);
            assert(".."@ =~= seq!['.', '.']);
        }
        end > 0 && !text_eq(first, ".") && !text_eq(first, "..")
    }
}

impl std::str::FromStr for Path {
    type Err = Fault;

    fn from_str(text: &str) -> (r: Result<Path, Fault>)
        ensures
            r matches Ok(p) && p@ == text@,
    {
        Ok(Path { text: text.to_owned() })
    }
}

impl Default for Dependency {
    fn default() -> (d: Dependency)
        ensures
            d.id is None,
            d.name is None,
            d.path is None,
            d.version is None,
    {
        Dependency { id: None, name: None, path: None, version: None }
    }
}

fn lookup(list: &Vec<(String, Scalar)>, name: &str) -> (r: Option<Option<String>>)
    ensures
        optional_text(member(crate::outside::member_views(list@), name@)) == (match r {
            Some(Some(s)) => Some(Some(s@)),
            Some(None) => Some(None::<Seq<char>>),
            None => None,
        }),
{
    let ghost all = crate::outside::member_views(list@);
    let mut i: usize = 0;
    assert(all.skip(0) =~= all);
    while i < list.len()
        invariant
            i <= list.len(),
            all == crate::outside::member_views(list@),
            member(all, name@) == member(all.skip(i as int), name@),
        decreases list.len() - i,
    {
        let ghost rest = all.skip(i as int);
        assert(rest[0] == all[i as int]);
        assert(rest.skip(1) =~= all.skip(i + 1));
        if text_eq(list[i].0.as_str(), name) {
            return match &list[i].1 {
                Scalar::Null => Some(None),
                Scalar::Text(s) => Some(Some(s.clone())),
                Scalar::Other => None,
            };
        }
        i += 1;
    }
    Some(None)
}

fn read_package_id(text: &str) -> (r: Option<Id>)
    ensures
        package_id(text@) == (match r {
            Some(id) => Some(id@),
            None => None,
        }),
{
    match Id::parse(text) {
        Ok(id) => if id.kind == Kind::Directory {
            Some(id)
        } else {
            None
        },
        Err(_) => None,
    }
}

impl Dependency {
    /// The dependency on the package with this identifier.
    #[must_use]
    pub fn with_id(id: Id) -> (d: Dependency)
        ensures
            d.id == Some(id),
            d.name is None,
            d.path is None,
            d.version is None,
    {
        Dependency { id: Some(id), name: None, path: None, version: None }
    }

    /// The dependency on the package of this name.
    #[must_use]
    pub fn with_name(name: String) -> (d: Dependency)
        ensures
            d.id is None,
            d.name == Some(name),
            d.path is None,
            d.version is None,
    {
        Dependency { id: None, name: Some(name), path: None, version: None }
    }

    /// The dependency on this version of the package of this name.
    #[must_use]
    pub fn with_name_and_version(name: String, version: String) -> (d: Dependency)
        ensures
            d.id is None,
            d.name == Some(name),
            d.path is None,
            d.version == Some(version),
    {
        Dependency { id: None, name: Some(name), path: None, version: Some(version) }
    }

    /// The dependency on the package at this path.
    #[must_use]
    pub fn with_path(path: Path) -> (d: Dependency)
        ensures
            d.id is None,
            d.name is None,
            d.path == Some(path),
            d.version is None,
    {
        Dependency { id: None, name: None, path: Some(path), version: None }
    }

    /// Takes over each part that `other` has and keeps the others.
    pub fn merge(&mut self, other: Dependency)
        ensures
            final(self).id == (if other.id is Some {
                other.id
            } else {
                old(self).id
            }),
            final(self).name == (if other.name is Some {
                other.name
            } else {
                old(self).name
            }),
            final(self).path == (if other.path is Some {
                other.path
            } else {
                old(self).path
            }),
            final(self).version == (if other.version is Some {
                other.version
            } else {
                old(self).version
            }),
    {
        if let Some(id) = other.id {
            self.id = Some(id);
        }
        if let Some(name) = other.name {
            self.name = Some(name);
        }
        if let Some(path) = other.path {
            self.path = Some(path);
        }
        if let Some(version) = other.version {
            self.version = Some(version);
        }
    }

    /// The dependency that the members of a JSON object stand for;
    /// `Invalid` when they stand for none.
    pub fn from_members(list: &Vec<(String, Scalar)>) -> (r: Result<Dependency, Fault>)
        ensures
            match r {
                Ok(d) => of_members(crate::outside::member_views(list@)) == Some(d@),
                Err(e) => e == Fault::Invalid && of_members(crate::outside::member_views(list@))
                    is None,
            },
    {
        proof {
            reveal_strlit("id");
            reveal_strlit("name");
            reveal_strlit("path");
            reveal_strlit("version");
            assert("id"@ =~= seq!['i', 'd']);
            assert("name"@ =~= seq!['n', 'a', 'm', 'e']);
            assert("path"@ =~= seq!['p', 'a', 't', 'h']);
            assert("version"@ =~= seq!['v', 'e', 'r', 's', 'i', 'o', 'n']);
        }
        let id = lookup(list, "id");
        let name = lookup(list, "name");
        let path = lookup(list, "path");
        let version = lookup(list, "version");
        match (id, name, path, version) {
            (Some(id), Some(name), Some(path), Some(version)) => {
                let path: Option<Path> = match path {
                    Some(text) => Some(Path { text }),
                    None => None,
                };
                match id {
                    Some(text) => match read_package_id(text.as_str()) {
                        Some(id) => Ok(Dependency { id: Some(id), name, path, version }),
                        None => Err(Fault::Invalid),
                    },
                    None => Ok(Dependency { id: None, name, path, version }),
                }
            },
            _ => Err(Fault::Invalid),
        }
    }

    /// Reads a dependency; `Invalid` when the text begins with a brace and
    /// is not a JSON object that stands for a dependency.
    pub fn parse(text: &str) -> (r: Result<Dependency, Fault>)
        ensures
            match r {
                Ok(d) => read(text@) == Some(d@),
                Err(e) => e == Fault::Invalid && read(text@) is None,
            },
    {
        let n: usize = text.unicode_len();
        if n > 0 && text.get_char(0) == '{' {
            return match json_members(text) {
                Some(list) => Dependency::from_members(&list),
                None => Err(Fault::Invalid),
            };
        }
        if let Some(id) = read_package_id(text) {
            return Ok(Dependency { id: Some(id), name: None, path: None, version: None });
        }
        if n > 0 && (text.get_char(0) == '/' || text.get_char(0) == '.') {
            let path = Path { text: text.to_owned() };
            return Ok(Dependency { id: None, name: None, path: Some(path), version: None });
        }
        match find_char(text, '@') {
            Some(at) => {
                let name: String = text.substring_char(0, at).to_owned();
                let version: String = text.substring_char(at + 1, n).to_owned();
                Ok(Dependency { id: None, name: Some(name), path: None, version: Some(version) })
            },
            None => Ok(
                Dependency { id: None, name: Some(text.to_owned()), path: None, version: None },
            ),
        }
    }

    fn members(&self) -> (list: Vec<(String, String)>)
        ensures
            pair_views(list@) == members(self@),
    {
        proof {
            reveal_strlit("id");
            reveal_strlit("name");
            reveal_strlit("path");
            reveal_strlit("version");
            assert("id"@ =~= seq!['i', 'd']);
            assert("name"@ =~= seq!['n', 'a', 'm', 'e']);
            assert("path"@ =~= seq!['p', 'a', 't', 'h']);
            assert("version"@ =~= seq!['v', 'e', 'r', 's', 'i', 'o', 'n']);
        }
        let mut list: Vec<(String, String)> = Vec::new();
        if let Some(id) = &self.id {
            list.push(("id".to_owned(), id.to_string()));
        }
        if let Some(name) = &self.name {
            list.push(("name".to_owned(), name.clone()));
        }
        if let Some(path) = &self.path {
            list.push(("path".to_owned(), path.to_string()));
        }
        if let Some(version) = &self.version {
            list.push(("version".to_owned(), version.clone()));
        }
        assert(pair_views(list@) =~= members(self@));
        list
    }

    /// Writes the dependency.
    pub fn to_string(&self) -> (s: String)
        ensures
            s@ == shown(self@),
    {
        match (&self.id, &self.name, &self.version, &self.path) {
            (Some(id), None, None, None) => id.to_string(),
            (None, Some(name), None, None) => name.clone(),
            (None, Some(name), Some(version), None) => {
                let mut s: String = name.clone();
                s.append("@");
                s.append(version.as_str());
                proof {
                    reveal_strlit("@");
                    assert(s@ =~= name@.push('@') + version@);
                }
                s
            },
            (None, None, None, Some(path)) => {
                if path.starts_with_name() {
                    let mut s: String = "./".to_owned();
                    s.append(path.text.as_str());
                    proof {
                        reveal_strlit("./");
                        assert(s@ =~= seq!['.', '/'] + path@);
                    }
                    s
                } else {
                    path.to_string()
                }
            },
            _ => json_object(&self.members()),
        }
    }
}

impl std::str::FromStr for Dependency {
    type Err = Fault;

    fn from_str(text: &str) -> (r: Result<Dependency, Fault>)
        ensures
            match r {
                Ok(d) => read(text@) == Some(d@),
                Err(e) => e == Fault::Invalid && read(text@) is None,
            },
    {
        Dependency::parse(text)
    }
}

} // verus!
