//! The commands in front of the engine: what the user asked for, and which
//! packages of a resolved tree are the roots of the install.

use vstd::prelude::*;
use crate::package::{dependencies_view, ids_view, Dependency, IdModel, PackageId};
use crate::text::{chars_of, find_first, index_from, index_from_bounds, string_of, text_eq};

verus! {

/// What a specifier asks of the version of a package.
#[derive(Debug, PartialEq, Eq)]
pub enum VersionSpec {
    /// A distribution tag, such as `latest`.
    Tag(String),
    /// One exact version.
    Version(String),
    /// A range of versions.
    Range(String),
}

/// A package as the user names it.
#[derive(Debug, PartialEq, Eq)]
pub enum PackageSpec {
    /// A package of the registry: its scope, where it has one, its full
    /// name, and the version asked for, where one was given.
    Npm { scope: Option<String>, name: String, requested: Option<VersionSpec> },
    /// A package in a local directory. The engine does not install these.
    Dir { path: String },
}

/// The mathematical value of a [`VersionSpec`].
pub enum VersionModel {
    Tag(Seq<char>),
    Version(Seq<char>),
    Range(Seq<char>),
}

/// The mathematical value of a [`PackageSpec`].
pub enum SpecModel {
    Npm { scope: Option<Seq<char>>, name: Seq<char>, requested: Option<VersionModel> },
    Dir { path: Seq<char> },
}

impl View for VersionSpec {
    type V = VersionModel;

    open spec fn view(&self) -> VersionModel {
        match self {
            VersionSpec::Tag(t) => VersionModel::Tag(t@),
            VersionSpec::Version(v) => VersionModel::Version(v@),
            VersionSpec::Range(r) => VersionModel::Range(r@),
        }
    }
}

impl View for PackageSpec {
    type V = SpecModel;

    open spec fn view(&self) -> SpecModel {
        match self {
            PackageSpec::Npm { scope, name, requested } => SpecModel::Npm {
                scope: match scope {
                    Some(s) => Some(s@),
                    None => None,
                },
                name: name@,
                requested: match requested {
                    Some(r) => Some(r@),
                    None => None,
                },
            },
            PackageSpec::Dir { path } => SpecModel::Dir { path: path@ },
        }
    }
}

/// The views of a list of specifiers, in order.
pub open spec fn specs_view(list: Seq<PackageSpec>) -> Seq<SpecModel> {
    list.map_values(|s: PackageSpec| s@)
}

/// The scope of a package name: what stands between the `@` at its
/// beginning and its first slash. A name without either has no scope.
pub open spec fn scope_of(name: Seq<char>) -> Option<Seq<char>> {
    let slash = index_from(name, '/', 0);
    if name.len() > 0 && name[0] == '@' && slash < name.len() {
        Some(name.subrange(1, slash))
    } else {
        None
    }
}

/// The specifier of the registry package `name`, with no version asked for.
pub open spec fn registry_spec(name: Seq<char>) -> SpecModel {
    SpecModel::Npm { scope: scope_of(name), name, requested: None }
}

/// The version of the first package named `name` among the first `n` of
/// `resolved`.
pub open spec fn version_upto(resolved: Seq<IdModel>, name: Seq<char>, n: int) -> Option<Seq<char>>
    decreases n,
{
    if n <= 0 {
        None
    } else {
        match version_upto(resolved, name, n - 1) {
            Some(version) => Some(version),
            None => if resolved[n - 1].0 == name {
                Some(resolved[n - 1].1)
            } else {
                None
            },
        }
    }
}

/// The version that `name` was resolved to.
pub open spec fn resolved_version(resolved: Seq<IdModel>, name: Seq<char>) -> Option<Seq<char>> {
    version_upto(resolved, name, resolved.len() as int)
}

/// The roots that the first `n` specifiers give.
pub open spec fn roots_upto(specs: Seq<SpecModel>, resolved: Seq<IdModel>, n: int) -> Seq<IdModel>
    decreases n,
{
    if n <= 0 {
        Seq::empty()
    } else {
        let before = roots_upto(specs, resolved, n - 1);
        match specs[n - 1] {
            SpecModel::Npm { name, .. } => match resolved_version(resolved, name) {
                Some(version) => before.push((name, version)),
                None => before,
            },
            SpecModel::Dir { .. } => before,
        }
    }
}

/// The roots of an install: for each registry package asked for, in order,
/// its name and the version it was resolved to. A package that was not
/// resolved gives no root.
pub open spec fn roots_of(specs: Seq<SpecModel>, resolved: Seq<IdModel>) -> Seq<IdModel> {
    roots_upto(specs, resolved, specs.len() as int)
}

impl PackageSpec {
    /// The specifier of the registry package `name`, with its scope read
    /// from the name and no version asked for.
    pub fn registry(name: &str) -> (spec: PackageSpec)
        ensures
            spec@ == registry_spec(name@),
    {
        let chars = chars_of(name);
        let slash = find_first(&chars, '/');
        proof {
            if chars.len() > 0 && chars[0] == '@' {
                index_from_bounds(chars@, '/', 1);
            }
        }
        let scope = if chars.len() > 0 && chars[0] == '@' && slash < chars.len() {
            Some(string_of(&chars, 1, slash))
        } else {
            None
        };
        PackageSpec::Npm { scope, name: String::from_str(name), requested: None }
    }
}

/// The command that adds packages to a project.
#[derive(Debug, PartialEq, Eq)]
pub struct Add {
    /// The packages to add.
    pub packages: Vec<PackageSpec>,
}

/// The command that installs the dependencies of a project.
#[derive(Debug, PartialEq, Eq)]
pub struct Install;

/// The version that `name` was resolved to: that of the first package of
/// `resolved` with this name.
pub fn find_version(resolved: &Vec<PackageId>, name: &str) -> (version: Option<String>)
    ensures
        match version {
            Some(v) => resolved_version(ids_view(resolved@), name@) == Some(v@),
            None => resolved_version(ids_view(resolved@), name@) is None,
        },
{
    let ghost ids = ids_view(resolved@);
    let mut i: usize = 0;
    while i < resolved.len()
        invariant
            i <= resolved.len(),
            ids == ids_view(resolved@),
            version_upto(ids, name@, i as int) is None,
        decreases resolved.len() - i,
    {
        assert(ids[i as int] == resolved[i as int]@);
        if text_eq(resolved[i].name.as_str(), name) {
            proof {
                found_version_stays(ids, name@, i + 1, ids.len() as int);
            }
            return Some(resolved[i].version.clone());
        }
        i = i + 1;
    }
    None
}

/// Once a version is found among the first `n` packages, more packages do
/// not change it.
proof fn found_version_stays(resolved: Seq<IdModel>, name: Seq<char>, n: int, m: int)
    requires
        0 <= n <= m,
        version_upto(resolved, name, n) is Some,
    ensures
        version_upto(resolved, name, m) == version_upto(resolved, name, n),
    decreases m - n,
{
    if n < m {
        found_version_stays(resolved, name, n, m - 1);
    }
}

impl Add {
    /// The command that adds `packages`.
    pub fn new(packages: Vec<PackageSpec>) -> (add: Add)
        ensures
            add.packages == packages,
    {
        Add { packages }
    }

    /// The roots of the install that this command asks for, given the
    /// names and versions of the resolved packages: each registry package
    /// of the command, in order, at the version it was resolved to.
    pub fn requested_roots(&self, resolved: &Vec<PackageId>) -> (roots: Vec<PackageId>)
        ensures
            ids_view(roots@) == roots_of(specs_view(self.packages@), ids_view(resolved@)),
    {
        let ghost specs = specs_view(self.packages@);
        let mut roots: Vec<PackageId> = Vec::new();
        assert(ids_view(roots@) =~= Seq::empty());
        let mut i: usize = 0;
        while i < self.packages.len()
            invariant
                i <= self.packages.len(),
                specs == specs_view(self.packages@),
                ids_view(roots@) == roots_upto(specs, ids_view(resolved@), i as int),
            decreases self.packages.len() - i,
        {
            assert(specs[i as int] == self.packages[i as int]@);
            match &self.packages[i] {
                PackageSpec::Npm { name, .. } => {
                    match find_version(resolved, name.as_str()) {
                        Some(version) => {
                            let ghost before = ids_view(roots@);
                            let id = PackageId { name: name.clone(), version };
                            roots.push(id);
                            assert(ids_view(roots@) =~= before.push(id@));
                        },
                        None => {},
                    }
                },
                PackageSpec::Dir { .. } => {},
            }
            i = i + 1;
        }
        roots
    }
}

impl Install {
    /// What installing a project comes to: adding each dependency that its
    /// manifest declares, by name, with no version asked for.
    pub fn packages(dependencies: &Vec<Dependency>) -> (add: Add)
        ensures
            specs_view(add.packages@) == dependencies_view(dependencies@).map_values(
                |d: IdModel| registry_spec(d.0),
            ),
    {
        let mut packages: Vec<PackageSpec> = Vec::new();
        let mut i: usize = 0;
        while i < dependencies.len()
            invariant
                i <= dependencies.len(),
                packages.len() == i,
                forall|k: int|
                    0 <= k < i ==> (#[trigger] packages[k])@ == registry_spec(
                        dependencies[k].name@,
                    ),
            decreases dependencies.len() - i,
        {
            packages.push(PackageSpec::registry(dependencies[i].name.as_str()));
            i = i + 1;
        }
        assert(specs_view(packages@) =~= dependencies_view(dependencies@).map_values(
            |d: IdModel| registry_spec(d.0),
        ));
        Add { packages }
    }
}

} // verus!
