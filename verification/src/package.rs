//! The packages of a flattened dependency tree, as the install engine sees them.

use vstd::prelude::*;
use crate::text::{glue, strings_view, text_eq};

verus! {

/// One edge of the flattened graph: the name of a dependency and the exact
/// version it was resolved to.
#[derive(Debug, PartialEq, Eq)]
pub struct Dependency {
    pub name: String,
    pub version: String,
}

/// One entry of a package's binary map: the command's name and its script.
#[derive(Debug, PartialEq, Eq)]
pub struct BinEntry {
    pub name: String,
    pub script: String,
}

/// A package of the flattened tree: the unit that the engine installs.
#[derive(Debug, PartialEq, Eq)]
pub struct FlatPackage {
    /// The package's name, with its scope where it has one (`@scope/pkg`).
    pub name: String,
    /// The exact version, an opaque non-empty string.
    pub version: String,
    /// Where the gzipped tar archive is fetched from.
    pub tarball_url: String,
    /// The digest that the archive must have, as `sha1-…` or `sha512-…`.
    pub integrity: String,
    /// The operating systems the package allows, `!` in front of one it refuses.
    pub os: Option<Vec<String>>,
    /// The processors the package allows.
    pub cpu: Option<Vec<String>>,
    /// The commands the package offers.
    pub bin: Option<Vec<BinEntry>>,
    /// The packages it depends on.
    pub dependencies: Vec<Dependency>,
}

/// The name and version that identify a package in a tree and in a report.
#[derive(Debug, PartialEq, Eq)]
pub struct PackageId {
    pub name: String,
    pub version: String,
}

/// A pair of name and version, as a mathematical value.
pub type IdModel = (Seq<char>, Seq<char>);

/// The mathematical value of a [`FlatPackage`].
pub struct PackageModel {
    pub name: Seq<char>,
    pub version: Seq<char>,
    pub tarball_url: Seq<char>,
    pub integrity: Seq<char>,
    pub os: Option<Seq<Seq<char>>>,
    pub cpu: Option<Seq<Seq<char>>>,
    pub bin: Option<Seq<(Seq<char>, Seq<char>)>>,
    pub dependencies: Seq<IdModel>,
}

impl PackageModel {
    /// The name and version that identify the package.
    pub open spec fn id(self) -> IdModel {
        (self.name, self.version)
    }
}

impl View for Dependency {
    type V = IdModel;

    open spec fn view(&self) -> IdModel {
        (self.name@, self.version@)
    }
}

impl View for BinEntry {
    type V = (Seq<char>, Seq<char>);

    open spec fn view(&self) -> (Seq<char>, Seq<char>) {
        (self.name@, self.script@)
    }
}

impl View for PackageId {
    type V = IdModel;

    open spec fn view(&self) -> IdModel {
        (self.name@, self.version@)
    }
}

/// The views of a list of dependencies, in order.
pub open spec fn dependencies_view(list: Seq<Dependency>) -> Seq<IdModel> {
    list.map_values(|d: Dependency| d@)
}

/// The views of a list of binary entries, in order.
pub open spec fn bins_view(list: Seq<BinEntry>) -> Seq<(Seq<char>, Seq<char>)> {
    list.map_values(|b: BinEntry| b@)
}

/// The views of a list of identifiers, in order.
pub open spec fn ids_view(list: Seq<PackageId>) -> Seq<IdModel> {
    list.map_values(|p: PackageId| p@)
}

/// The views of the packages of a tree, in order.
pub open spec fn tree_view(tree: Seq<FlatPackage>) -> Seq<PackageModel> {
    tree.map_values(|p: FlatPackage| p@)
}

impl View for FlatPackage {
    type V = PackageModel;

    open spec fn view(&self) -> PackageModel {
        PackageModel {
            name: self.name@,
            version: self.version@,
            tarball_url: self.tarball_url@,
            integrity: self.integrity@,
            os: match self.os {
                Some(list) => Some(strings_view(list@)),
                None => None,
            },
            cpu: match self.cpu {
                Some(list) => Some(strings_view(list@)),
                None => None,
            },
            bin: match self.bin {
                Some(list) => Some(bins_view(list@)),
                None => None,
            },
            dependencies: dependencies_view(self.dependencies@),
        }
    }
}

/// The key under which the store keeps a package's file map. It is made of
/// the name, the version and the integrity string, so that two archives
/// published under one name and version do not share an entry.
pub open spec fn package_key(name: Seq<char>, version: Seq<char>, integrity: Seq<char>) -> Seq<
    char,
> {
    "pkg::"@ + name + "::"@ + version + "::"@ + integrity
}

impl PackageId {
    /// The identifier of the package `name` at `version`.
    pub fn new(name: &str, version: &str) -> (id: PackageId)
        ensures
            id@ == (name@, version@),
    {
        PackageId { name: String::from_str(name), version: String::from_str(version) }
    }

    /// Whether this identifier names `name` at `version`.
    pub fn is(&self, name: &str, version: &str) -> (r: bool)
        ensures
            r == (self@ == (name@, version@)),
    {
        text_eq(self.name.as_str(), name) && text_eq(
            self.version.as_str(),
            version,
        )
    }

    /// An independent copy of this identifier.
    pub fn duplicate(&self) -> (id: PackageId)
        ensures
            id@ == self@,
    {
        PackageId { name: self.name.clone(), version: self.version.clone() }
    }
}

impl Dependency {
    /// The dependency on the package `name`, resolved to `version`.
    pub fn new(name: &str, version: &str) -> (d: Dependency)
        ensures
            d@ == (name@, version@),
    {
        Dependency { name: String::from_str(name), version: String::from_str(version) }
    }
}

impl FlatPackage {
    /// A package without platform limits, commands or dependencies.
    pub fn new(name: &str, version: &str, tarball_url: &str, integrity: &str) -> (p: FlatPackage)
        ensures
            p@ == (PackageModel {
                name: name@,
                version: version@,
                tarball_url: tarball_url@,
                integrity: integrity@,
                os: None,
                cpu: None,
                bin: None,
                dependencies: Seq::empty(),
            }),
    {
        let p = FlatPackage {
            name: String::from_str(name),
            version: String::from_str(version),
            tarball_url: String::from_str(tarball_url),
            integrity: String::from_str(integrity),
            os: None,
            cpu: None,
            bin: None,
            dependencies: Vec::new(),
        };
        assert(dependencies_view(p.dependencies@) =~= Seq::empty());
        p
    }

    /// The package's name and version.
    pub fn id(&self) -> (id: PackageId)
        ensures
            id@ == self@.id(),
    {
        PackageId { name: self.name.clone(), version: self.version.clone() }
    }

    /// The key of the package's file map in the store.
    pub fn cacache_key(&self) -> (key: String)
        ensures
            key@ == package_key(self@.name, self@.version, self@.integrity),
    {
        let mut key = glue("pkg::", self.name.as_str());
        key.append("::");
        key.append(self.version.as_str());
        key.append("::");
        key.append(self.integrity.as_str());
        key
    }
}

/// Whether `list` holds the identifier of `name` at `version`.
pub fn holds_id(list: &Vec<PackageId>, name: &str, version: &str) -> (r: bool)
    ensures
        r == ids_view(list@).contains((name@, version@)),
{
    let mut i: usize = 0;
    while i < list.len()
        invariant
            i <= list.len(),
            forall|k: int| 0 <= k < i ==> ids_view(list@)[k] != (name@, version@),
        decreases list.len() - i,
    {
        if list[i].is(name, version) {
            assert(ids_view(list@)[i as int] == (name@, version@));
            return true;
        }
        i = i + 1;
    }
    false
}

/// Two packages with one name and one version have the same key only if
/// they declare the same integrity string.
pub proof fn key_tells_archives_apart(
    name: Seq<char>,
    version: Seq<char>,
    first: Seq<char>,
    second: Seq<char>,
)
    ensures
        package_key(name, version, first) == package_key(name, version, second) <==> first
            == second,
{
    let head = "pkg::"@ + name + "::"@ + version + "::"@;
    let a = package_key(name, version, first);
    let b = package_key(name, version, second);
    assert(a.subrange(head.len() as int, a.len() as int) =~= first);
    assert(b.subrange(head.len() as int, b.len() as int) =~= second);
}

} // verus!
