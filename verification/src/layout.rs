//! Where a package lives on disk: its directory under the store, the root
//! of its files, and the links that make its dependencies resolvable.

use vstd::prelude::*;
use crate::package::{
    dependencies_view, holds_id, ids_view, FlatPackage, IdModel, PackageId, PackageModel,
};
use crate::text::{chars_of, glue, replace_char, replaced, string_of, strings_view};

verus! {

/// What the engine needs to know of its surroundings: the `node_modules`
/// directory it installs into, and the tags of the host.
#[derive(Debug, PartialEq, Eq)]
pub struct InstallConfig {
    /// The `node_modules` directory that is the root of the install.
    pub node_modules: String,
    /// The host's operating system, as the package ecosystem names it.
    pub os: String,
    /// The host's processor, as the package ecosystem names it.
    pub cpu: String,
}

/// A link that has to exist after the install: at `link_path`, pointing at
/// `target_path`.
#[derive(Debug, PartialEq, Eq)]
pub struct LinkSlot {
    pub link_path: String,
    pub target_path: String,
}

/// The mathematical value of a [`LinkSlot`].
pub struct SlotModel {
    pub link_path: Seq<char>,
    pub target_path: Seq<char>,
}

impl View for LinkSlot {
    type V = SlotModel;

    open spec fn view(&self) -> SlotModel {
        SlotModel { link_path: self.link_path@, target_path: self.target_path@ }
    }
}

/// The views of a list of slots, in order.
pub open spec fn slots_view(list: Seq<LinkSlot>) -> Seq<SlotModel> {
    list.map_values(|s: LinkSlot| s@)
}

/// `part` below the directory `base`: the two are separated by one slash,
/// unless `base` is empty or already ends in one.
pub open spec fn joined(base: Seq<char>, part: Seq<char>) -> Seq<char> {
    if base.len() == 0 {
        part
    } else if base.last() == '/' {
        base + part
    } else {
        base + seq!['/'] + part
    }
}

/// A package's name as it appears in the name of its store directory:
/// the slash of a scoped name becomes a plus sign.
pub open spec fn escaped_name(name: Seq<char>) -> Seq<char> {
    replaced(name, '/', '+')
}

/// The store: the directory `.volt` under the install root.
pub open spec fn store_dir_of(root: Seq<char>) -> Seq<char> {
    joined(root, ".volt"@)
}

/// The directory of one package under the store: `name+@version`.
pub open spec fn package_dir_of(root: Seq<char>, id: IdModel) -> Seq<char> {
    joined(store_dir_of(root), escaped_name(id.0) + "@"@ + id.1)
}

/// The `node_modules` directory inside a package's store directory. It holds
/// the package itself and one link for each of its dependencies.
pub open spec fn modules_dir_of(root: Seq<char>, id: IdModel) -> Seq<char> {
    joined(package_dir_of(root, id), "node_modules"@)
}

/// The directory that receives a package's files. Here the name keeps its
/// slash, so that a scoped package lies in the directory of its scope.
pub open spec fn package_root_of(root: Seq<char>, id: IdModel) -> Seq<char> {
    joined(modules_dir_of(root, id), id.0)
}

/// The link by which `package` reaches its dependency `dep`.
pub open spec fn dependency_slot(root: Seq<char>, package: IdModel, dep: IdModel) -> SlotModel {
    SlotModel {
        link_path: joined(modules_dir_of(root, package), dep.0),
        target_path: package_root_of(root, dep),
    }
}

/// The slots of all dependencies of `package`, one for each edge, in the
/// order of its dependency list.
pub open spec fn dependency_slots(root: Seq<char>, package: PackageModel) -> Seq<SlotModel> {
    package.dependencies.map_values(|dep: IdModel| dependency_slot(root, package.id(), dep))
}

/// The links among those of the first `n` dependencies of `package` that
/// are to be created: those of the dependencies that are not excluded.
pub open spec fn links_upto(
    root: Seq<char>,
    package: PackageModel,
    excluded: Seq<IdModel>,
    n: int,
) -> Seq<SlotModel>
    decreases n,
{
    if n <= 0 {
        Seq::empty()
    } else {
        let before = links_upto(root, package, excluded, n - 1);
        let dep = package.dependencies[n - 1];
        if excluded.contains(dep) {
            before
        } else {
            before.push(dependency_slot(root, package.id(), dep))
        }
    }
}

/// The links to create for `package`: one for each dependency that was
/// not excluded from the install.
pub open spec fn links_wanted(
    root: Seq<char>,
    package: PackageModel,
    excluded: Seq<IdModel>,
) -> Seq<SlotModel> {
    links_upto(root, package, excluded, package.dependencies.len() as int)
}

/// The link that exposes a requested package directly under the install root.
pub open spec fn top_level_slot(root: Seq<char>, id: IdModel) -> SlotModel {
    SlotModel { link_path: joined(root, id.0), target_path: package_root_of(root, id) }
}

/// The directories between a package's `node_modules` directory and its
/// root: one for each slash among the first `n` characters of its name.
pub open spec fn scope_dirs(modules: Seq<char>, name: Seq<char>, n: int) -> Seq<Seq<char>>
    decreases n,
{
    if n <= 0 {
        Seq::empty()
    } else if name[n - 1] == '/' {
        scope_dirs(modules, name, n - 1).push(joined(modules, name.take(n - 1)))
    } else {
        scope_dirs(modules, name, n - 1)
    }
}

/// The directories to create for a package before its files are written,
/// each after the directory that contains it.
pub open spec fn package_dirs(root: Seq<char>, id: IdModel) -> Seq<Seq<char>> {
    seq![package_dir_of(root, id), modules_dir_of(root, id)] + scope_dirs(
        modules_dir_of(root, id),
        id.0,
        id.0.len() as int,
    ) + seq![package_root_of(root, id)]
}

/// The path of `part` below the directory `base`.
pub fn join(base: &str, part: &str) -> (path: String)
    ensures
        path@ == joined(base@, part@),
{
    let chars = chars_of(base);
    if chars.len() == 0 {
        assert(base@ + part@ =~= part@);
        glue(base, part)
    } else if chars[chars.len() - 1] == '/' {
        glue(base, part)
    } else {
        proof {
            reveal_strlit("/");
            assert("/"@ =~= seq!['/']);
        }
        let mut path = glue(base, "/");
        path.append(part);
        path
    }
}

/// The store directory under the install root `root`.
pub fn store_dir(root: &str) -> (path: String)
    ensures
        path@ == store_dir_of(root@),
{
    join(root, ".volt")
}

/// The store directory of the package `name` at `version`.
pub fn package_dir(root: &str, name: &str, version: &str) -> (path: String)
    ensures
        path@ == package_dir_of(root@, (name@, version@)),
{
    let store = store_dir(root);
    let mut segment = replace_char(name, '/', '+');
    segment.append("@");
    segment.append(version);
    join(store.as_str(), segment.as_str())
}

/// The `node_modules` directory inside the store directory of a package.
pub fn modules_dir(root: &str, name: &str, version: &str) -> (path: String)
    ensures
        path@ == modules_dir_of(root@, (name@, version@)),
{
    let dir = package_dir(root, name, version);
    join(dir.as_str(), "node_modules")
}

/// The directory that receives the files of the package `name` at `version`.
pub fn package_root(root: &str, name: &str, version: &str) -> (path: String)
    ensures
        path@ == package_root_of(root@, (name@, version@)),
{
    let modules = modules_dir(root, name, version);
    join(modules.as_str(), name)
}

/// The link that exposes the requested package `name` at `version` directly
/// under the install root.
pub fn top_level_link(root: &str, name: &str, version: &str) -> (slot: LinkSlot)
    ensures
        slot@ == top_level_slot(root@, (name@, version@)),
{
    LinkSlot { link_path: join(root, name), target_path: package_root(root, name, version) }
}

/// The links that make the dependencies of `package` resolvable: one
/// slot for each dependency that is not among `excluded`, in the order of
/// the dependency list. Each lies in the package's own `node_modules`
/// directory and points at the root of the dependency. A dependency that
/// was left out of the install gets no link at all.
pub fn link_dependencies(
    package: &FlatPackage,
    config: &InstallConfig,
    excluded: &Vec<PackageId>,
) -> (slots: Vec<LinkSlot>)
    ensures
        slots_view(slots@) == links_wanted(config.node_modules@, package@, ids_view(excluded@)),
{
    let root = config.node_modules.as_str();
    let modules = modules_dir(root, package.name.as_str(), package.version.as_str());
    let mut slots: Vec<LinkSlot> = Vec::new();
    assert(slots_view(slots@) =~= Seq::empty());
    let mut i: usize = 0;
    while i < package.dependencies.len()
        invariant
            i <= package.dependencies.len(),
            root@ == config.node_modules@,
            modules@ == modules_dir_of(root@, package@.id()),
            slots_view(slots@) == links_upto(root@, package@, ids_view(excluded@), i as int),
        decreases package.dependencies.len() - i,
    {
        let dep = &package.dependencies[i];
        assert(dependencies_view(package.dependencies@)[i as int] == dep@);
        if !holds_id(excluded, dep.name.as_str(), dep.version.as_str()) {
            let ghost before = slots_view(slots@);
            let slot = LinkSlot {
                link_path: join(modules.as_str(), dep.name.as_str()),
                target_path: package_root(root, dep.name.as_str(), dep.version.as_str()),
            };
            slots.push(slot);
            assert(slots_view(slots@) =~= before.push(slot@));
        }
        i = i + 1;
    }
    slots
}

/// The directories to create for the package `name` at `version` before its
/// files are written: its store directory, the `node_modules` directory in
/// it, the directory of its scope where the name has one, and its root.
pub fn package_directories(root: &str, name: &str, version: &str) -> (dirs: Vec<String>)
    ensures
        strings_view(dirs@) == package_dirs(root@, (name@, version@)),
{
    let ghost id = (name@, version@);
    let modules = modules_dir(root, name, version);
    let mut dirs: Vec<String> = Vec::new();
    dirs.push(package_dir(root, name, version));
    dirs.push(modules_dir(root, name, version));
    let chars = chars_of(name);
    let mut i: usize = 0;
    while i < chars.len()
        invariant
            i <= chars.len(),
            chars@ == name@,
            modules@ == modules_dir_of(root@, id),
            strings_view(dirs@) == seq![package_dir_of(root@, id), modules_dir_of(root@, id)]
                + scope_dirs(modules@, name@, i as int),
        decreases chars.len() - i,
    {
        if chars[i] == '/' {
            let scope = string_of(&chars, 0, i);
            assert(chars@.subrange(0, i as int) == name@.take(i as int));
            let dir = join(modules.as_str(), scope.as_str());
            let ghost before = strings_view(dirs@);
            dirs.push(dir);
            assert(strings_view(dirs@) =~= before.push(dir@));
            assert(strings_view(dirs@) =~= seq![
                package_dir_of(root@, id),
                modules_dir_of(root@, id),
            ] + scope_dirs(modules@, name@, i + 1));
        }
        i = i + 1;
    }
    let ghost before = strings_view(dirs@);
    let last = package_root(root, name, version);
    dirs.push(last);
    assert(strings_view(dirs@) =~= before.push(last@));
    assert(strings_view(dirs@) =~= package_dirs(root@, id));
    dirs
}

/// Below one directory, different parts have different paths.
pub proof fn joined_tells_parts_apart(base: Seq<char>, first: Seq<char>, second: Seq<char>)
    ensures
        joined(base, first) == joined(base, second) <==> first == second,
{
    if joined(base, first) == joined(base, second) {
        let a = joined(base, first);
        let b = joined(base, second);
        if base.len() == 0 {
        } else if base.last() == '/' {
            assert(a.subrange(base.len() as int, a.len() as int) =~= first);
            assert(b.subrange(base.len() as int, b.len() as int) =~= second);
        } else {
            assert(a.subrange(base.len() as int + 1, a.len() as int) =~= first);
            assert(b.subrange(base.len() as int + 1, b.len() as int) =~= second);
        }
    }
}

/// The link of a dependency points at the root of that dependency: the
/// directory to which the dependency's own files are written.
pub proof fn link_points_at_package_root(root: Seq<char>, package: PackageModel, k: int)
    requires
        0 <= k < package.dependencies.len(),
    ensures
        dependency_slots(root, package).len() == package.dependencies.len(),
        dependency_slots(root, package)[k].target_path == package_root_of(
            root,
            package.dependencies[k],
        ),
        dependency_slots(root, package)[k].link_path == joined(
            modules_dir_of(root, package.id()),
            package.dependencies[k].0,
        ),
{
}

/// The link of a requested package points at the root of that package.
pub proof fn top_level_link_points_at_package_root(root: Seq<char>, id: IdModel)
    ensures
        top_level_slot(root, id).target_path == package_root_of(root, id),
        top_level_slot(root, id).link_path == joined(root, id.0),
{
}

/// Whether `slot` is the link of one of the first `n` dependencies of
/// `package` that is not excluded.
pub open spec fn links_admitted_dependency(
    root: Seq<char>,
    package: PackageModel,
    excluded: Seq<IdModel>,
    n: int,
    slot: SlotModel,
) -> bool {
    exists|k: int|
        0 <= k < n && !excluded.contains(#[trigger] package.dependencies[k]) && dependency_slot(
            root,
            package.id(),
            package.dependencies[k],
        ) == slot
}

/// A dependency that was excluded from the install gets no link, and
/// every other dependency gets its own: the links to create among the
/// first `n` dependencies are exactly the slots of those that are not
/// excluded.
pub proof fn excluded_dependencies_get_no_link(
    root: Seq<char>,
    package: PackageModel,
    excluded: Seq<IdModel>,
    n: int,
)
    requires
        0 <= n <= package.dependencies.len(),
    ensures
        forall|k: int|
            0 <= k < n && !excluded.contains(#[trigger] package.dependencies[k]) ==> links_upto(
                root,
                package,
                excluded,
                n,
            ).contains(dependency_slot(root, package.id(), package.dependencies[k])),
        forall|j: int|
            0 <= j < links_upto(root, package, excluded, n).len() ==> links_admitted_dependency(
                root,
                package,
                excluded,
                n,
                #[trigger] links_upto(root, package, excluded, n)[j],
            ),
    decreases n,
{
    if n > 0 {
        excluded_dependencies_get_no_link(root, package, excluded, n - 1);
        let deps = package.dependencies;
        let before = links_upto(root, package, excluded, n - 1);
        let after = links_upto(root, package, excluded, n);
        let slot = dependency_slot(root, package.id(), deps[n - 1]);
        if excluded.contains(deps[n - 1]) {
            assert(after == before);
        } else {
            assert(after == before.push(slot));
            assert(after[before.len() as int] == slot);
        }
        assert forall|k: int|
            0 <= k < n && !excluded.contains(#[trigger] deps[k]) implies after.contains(
            dependency_slot(root, package.id(), deps[k]),
        ) by {
            if k < n - 1 {
                let j = choose|j: int|
                    0 <= j < before.len() && before[j] == dependency_slot(
                        root,
                        package.id(),
                        deps[k],
                    );
                assert(after[j] == dependency_slot(root, package.id(), deps[k]));
            }
        }
        assert forall|j: int| 0 <= j < after.len() implies links_admitted_dependency(
            root,
            package,
            excluded,
            n,
            #[trigger] after[j],
        ) by {
            if j < before.len() {
                assert(links_admitted_dependency(root, package, excluded, n - 1, before[j]));
                let k = choose|k: int|
                    0 <= k < n - 1 && !excluded.contains(#[trigger] deps[k]) && dependency_slot(
                        root,
                        package.id(),
                        deps[k],
                    ) == before[j];
                assert(0 <= k < n && !excluded.contains(deps[k]) && dependency_slot(
                    root,
                    package.id(),
                    deps[k],
                ) == after[j]);
            } else {
                assert(!excluded.contains(deps[n - 1]) && slot == after[j]);
            }
        }
    }
}

/// Where no package is excluded, every dependency gets its link: the
/// links to create are the slots of all edges, in order.
pub proof fn nothing_excluded_links_every_dependency(root: Seq<char>, package: PackageModel, n: int)
    requires
        0 <= n <= package.dependencies.len(),
    ensures
        links_upto(root, package, Seq::empty(), n) == dependency_slots(root, package).take(n),
    decreases n,
{
    if n > 0 {
        nothing_excluded_links_every_dependency(root, package, n - 1);
        assert(!Seq::<IdModel>::empty().contains(package.dependencies[n - 1]));
        assert(dependency_slots(root, package).take(n) =~= dependency_slots(root, package).take(
            n - 1,
        ).push(dependency_slot(root, package.id(), package.dependencies[n - 1])));
    } else {
        assert(dependency_slots(root, package).take(0) =~= Seq::empty());
    }
}

} // verus!
