//! The install as a whole: checking the tree, choosing the packages that
//! fit the host, keeping the report, and linking the requested packages.

use vstd::prelude::*;
use crate::errors::{ErrorModel, InstallError};
use crate::layout::{
    dependency_slot, joined_tells_parts_apart, modules_dir_of, slots_view, store_dir, store_dir_of,
    top_level_link, top_level_slot, InstallConfig, LinkSlot, SlotModel,
};
use crate::package::{
    dependencies_view, holds_id, ids_view, tree_view, Dependency, FlatPackage, IdModel,
    PackageId, PackageModel,
};
use crate::pipeline::Outcome;
use crate::platform::{ambiguous, compatible, is_ambiguous, is_compatible};
use crate::text::{strings_view, text_eq};

verus! {

/// How many packages may be in their pipelines at one time.
pub const MAX_IN_FLIGHT: usize = 32;

/// What is wrong with a package of a tree.
#[derive(Clone, Copy, Debug, PartialEq, Eq, Structural)]
pub enum InputFault {
    /// The version is empty.
    EmptyVersion,
    /// The integrity string is empty.
    EmptyIntegrity,
    /// A platform list both allows and refuses one tag.
    AmbiguousPlatform,
    /// Two dependencies of the package have the same name.
    DuplicateDependency,
    /// An earlier package of the tree has the same name and version.
    DuplicatePackage,
}

/// The first thing that is wrong with a tree: the position of the package
/// and its fault.
#[derive(Clone, Copy, Debug, PartialEq, Eq, Structural)]
pub struct InputError {
    pub package: usize,
    pub fault: InputFault,
}

/// Whether a list of platform tags is there and ambiguous.
pub open spec fn tags_ambiguous(tags: Option<Seq<Seq<char>>>) -> bool {
    match tags {
        Some(list) => ambiguous(list),
        None => false,
    }
}

/// Whether the tree holds a package with the identifier `id`.
pub open spec fn tree_holds(tree: Seq<PackageModel>, id: IdModel) -> bool {
    exists|k: int| 0 <= k < tree.len() && (#[trigger] tree[k]).id() == id
}

/// Whether a package before position `i` has the identifier of package `i`.
pub open spec fn repeats_earlier(tree: Seq<PackageModel>, i: int) -> bool {
    exists|j: int| 0 <= j < i && (#[trigger] tree[j]).id() == tree[i].id()
}

/// Whether some dependency of package `i` is not in the tree.
pub open spec fn lacks_dependency(tree: Seq<PackageModel>, i: int) -> bool {
    exists|d: int|
        0 <= d < tree[i].dependencies.len() && !tree_holds(tree, #[trigger] tree[i].dependencies[d])
}

/// Whether the graph of a tree is closed: every dependency of every
/// package is a package of the tree.
pub open spec fn graph_closed(tree: Seq<PackageModel>) -> bool {
    forall|i: int| 0 <= i < tree.len() ==> !lacks_dependency(tree, i)
}

/// Whether a name occurs twice among dependencies. The dependencies of a
/// package map each name to one version, so none may.
pub open spec fn repeats_dependency(dependencies: Seq<IdModel>) -> bool {
    exists|a: int, b: int|
        0 <= a < b < dependencies.len() && (#[trigger] dependencies[a]).0 == (
        #[trigger] dependencies[b]).0
}

/// What is wrong with package `i` of a tree, if anything: the first of the
/// faults in the order of [`InputFault`].
pub open spec fn fault_at(tree: Seq<PackageModel>, i: int) -> Option<InputFault> {
    let p = tree[i];
    if p.version.len() == 0 {
        Some(InputFault::EmptyVersion)
    } else if p.integrity.len() == 0 {
        Some(InputFault::EmptyIntegrity)
    } else if tags_ambiguous(p.os) || tags_ambiguous(p.cpu) {
        Some(InputFault::AmbiguousPlatform)
    } else if repeats_dependency(p.dependencies) {
        Some(InputFault::DuplicateDependency)
    } else if repeats_earlier(tree, i) {
        Some(InputFault::DuplicatePackage)
    } else {
        None
    }
}

/// Whether a tree can be installed: no package has a fault. Then the names
/// and versions identify the packages, the dependencies of a package have
/// distinct names, and no version or integrity string is empty. A tree
/// whose graph is not closed can be installed all the same: the link of a
/// dependency that the tree does not hold is created like every other, and
/// points at the place where that package would lie.
pub open spec fn well_formed(tree: Seq<PackageModel>) -> bool {
    forall|i: int| 0 <= i < tree.len() ==> fault_at(tree, i) is None
}

/// Whether `tree` holds a package named `name` at `version`.
pub fn tree_has(tree: &Vec<FlatPackage>, name: &str, version: &str) -> (r: bool)
    ensures
        r == tree_holds(tree_view(tree@), (name@, version@)),
{
    let ghost models = tree_view(tree@);
    let mut k: usize = 0;
    while k < tree.len()
        invariant
            k <= tree.len(),
            models == tree_view(tree@),
            forall|j: int| 0 <= j < k ==> (#[trigger] models[j]).id() != (name@, version@),
        decreases tree.len() - k,
    {
        assert(models[k as int] == tree[k as int]@);
        if text_eq(tree[k].name.as_str(), name) && text_eq(
            tree[k].version.as_str(),
            version,
        ) {
            return true;
        }
        k = k + 1;
    }
    false
}

/// In a package without a fault, every dependency has a link path of its
/// own: no two links of the package stand in each other's place.
pub proof fn dependencies_have_their_own_links(
    root: Seq<char>,
    package: PackageModel,
    a: int,
    b: int,
)
    requires
        !repeats_dependency(package.dependencies),
        0 <= a < b < package.dependencies.len(),
    ensures
        dependency_slot(root, package.id(), package.dependencies[a]).link_path != dependency_slot(
            root,
            package.id(),
            package.dependencies[b],
        ).link_path,
{
    let deps = package.dependencies;
    assert(deps[a].0 != deps[b].0);
    joined_tells_parts_apart(modules_dir_of(root, package.id()), deps[a].0, deps[b].0);
}

/// Whether no two packages of a tree have the same name and version.
pub open spec fn ids_distinct(tree: Seq<PackageModel>) -> bool {
    forall|i: int, j: int|
        0 <= i < j < tree.len() ==> (#[trigger] tree[i]).id() != (#[trigger] tree[j]).id()
}

/// The tree after `package` was merged into it: the package is added at
/// the end, unless the tree already holds one with its name and version,
/// which then stays.
pub open spec fn merged(tree: Seq<PackageModel>, package: PackageModel) -> Seq<PackageModel> {
    if tree_holds(tree, package.id()) {
        tree
    } else {
        tree.push(package)
    }
}

/// Merges a package of one resolved tree into the tree of the install.
/// Where several requested packages share a dependency, their trees hold
/// it more than once; the first copy stays and the later ones are dropped.
/// The answer says whether the package was added.
pub fn merge_package(tree: &mut Vec<FlatPackage>, package: FlatPackage) -> (added: bool)
    ensures
        tree_view(final(tree)@) == merged(tree_view(old(tree)@), package@),
        added == !tree_holds(tree_view(old(tree)@), package@.id()),
{
    if tree_has(tree, package.name.as_str(), package.version.as_str()) {
        false
    } else {
        let ghost before = tree_view(tree@);
        tree.push(package);
        assert(tree_view(tree@) =~= before.push(package@));
        true
    }
}

/// Merging keeps the names and versions of a tree distinct.
pub proof fn merging_keeps_ids_distinct(tree: Seq<PackageModel>, package: PackageModel)
    requires
        ids_distinct(tree),
    ensures
        ids_distinct(merged(tree, package)),
        tree_holds(merged(tree, package), package.id()),
{
    let after = merged(tree, package);
    if tree_holds(tree, package.id()) {
    } else {
        assert(after[tree.len() as int].id() == package.id());
        assert forall|i: int, j: int| 0 <= i < j < after.len() implies (#[trigger] after[i]).id()
            != (#[trigger] after[j]).id() by {
            if j < tree.len() {
                assert(tree[i].id() != tree[j].id());
            } else {
                assert(after[i] == tree[i]);
            }
        }
    }
}

/// Whether a package before position `i` has the identifier of package `i`.
fn repeated(tree: &Vec<FlatPackage>, i: usize) -> (r: bool)
    requires
        i < tree.len(),
    ensures
        r == repeats_earlier(tree_view(tree@), i as int),
{
    let ghost models = tree_view(tree@);
    assert(models[i as int] == tree[i as int]@);
    let mut j: usize = 0;
    while j < i
        invariant
            j <= i < tree.len(),
            models == tree_view(tree@),
            forall|k: int| 0 <= k < j ==> (#[trigger] models[k]).id() != models[i as int].id(),
        decreases i - j,
    {
        assert(models[j as int] == tree[j as int]@);
        if text_eq(tree[j].name.as_str(), tree[i].name.as_str())
            && text_eq(tree[j].version.as_str(), tree[i].version.as_str()) {
            return true;
        }
        j = j + 1;
    }
    false
}

/// Whether two dependencies of a package have the same name.
fn repeated_dependency(deps: &Vec<Dependency>) -> (r: bool)
    ensures
        r == repeats_dependency(dependencies_view(deps@)),
{
    let ghost ids = dependencies_view(deps@);
    let mut b: usize = 0;
    while b < deps.len()
        invariant
            b <= deps.len(),
            ids == dependencies_view(deps@),
            forall|x: int, y: int|
                0 <= x < y < b ==> (#[trigger] ids[x]).0 != (#[trigger] ids[y]).0,
        decreases deps.len() - b,
    {
        let mut a: usize = 0;
        while a < b
            invariant
                a <= b < deps.len(),
                ids == dependencies_view(deps@),
                forall|x: int| 0 <= x < a ==> (#[trigger] ids[x]).0 != ids[b as int].0,
            decreases b - a,
        {
            assert(ids[a as int] == deps[a as int]@);
            assert(ids[b as int] == deps[b as int]@);
            if text_eq(deps[a].name.as_str(), deps[b].name.as_str()) {
                return true;
            }
            a = a + 1;
        }
        b = b + 1;
    }
    false
}

/// Whether some dependency of package `i` is not in the tree.
pub fn has_open_dependency(tree: &Vec<FlatPackage>, i: usize) -> (r: bool)
    requires
        i < tree.len(),
    ensures
        r == lacks_dependency(tree_view(tree@), i as int),
{
    let ghost models = tree_view(tree@);
    assert(models[i as int] == tree[i as int]@);
    let deps = &tree[i].dependencies;
    let mut d: usize = 0;
    while d < deps.len()
        invariant
            d <= deps.len(),
            i < tree.len(),
            models == tree_view(tree@),
            models[i as int].dependencies == dependencies_view(deps@),
            forall|k: int|
                0 <= k < d ==> tree_holds(models, #[trigger] models[i as int].dependencies[k]),
        decreases deps.len() - d,
    {
        assert(models[i as int].dependencies[d as int] == deps[d as int]@);
        if !tree_has(tree, deps[d].name.as_str(), deps[d].version.as_str()) {
            return true;
        }
        d = d + 1;
    }
    false
}

/// Whether a list of platform tags is there and ambiguous.
fn ambiguous_tags(tags: &Option<Vec<String>>) -> (r: bool)
    ensures
        r == tags_ambiguous(
            match tags {
                Some(list) => Some(strings_view(list@)),
                None => None,
            },
        ),
{
    match tags {
        Some(list) => is_ambiguous(list),
        None => false,
    }
}

/// What is wrong with package `i` of `tree`, if anything.
pub fn check_package(tree: &Vec<FlatPackage>, i: usize) -> (fault: Option<InputFault>)
    requires
        i < tree.len(),
    ensures
        fault == fault_at(tree_view(tree@), i as int),
{
    let p = &tree[i];
    assert(tree_view(tree@)[i as int] == p@);
    if p.version.as_str().unicode_len() == 0 {
        Some(InputFault::EmptyVersion)
    } else if p.integrity.as_str().unicode_len() == 0 {
        Some(InputFault::EmptyIntegrity)
    } else if ambiguous_tags(&p.os) || ambiguous_tags(&p.cpu) {
        Some(InputFault::AmbiguousPlatform)
    } else if repeated_dependency(&p.dependencies) {
        Some(InputFault::DuplicateDependency)
    } else if repeated(tree, i) {
        Some(InputFault::DuplicatePackage)
    } else {
        None
    }
}

/// Whether the graph of `tree` is closed: every dependency of every
/// package is a package of the tree.
pub fn is_closed(tree: &Vec<FlatPackage>) -> (r: bool)
    ensures
        r == graph_closed(tree_view(tree@)),
{
    let mut i: usize = 0;
    while i < tree.len()
        invariant
            i <= tree.len(),
            forall|k: int| 0 <= k < i ==> !lacks_dependency(tree_view(tree@), k),
        decreases tree.len() - i,
    {
        if has_open_dependency(tree, i) {
            return false;
        }
        i = i + 1;
    }
    true
}

/// Checks a tree before it is installed. The answer is `Ok` exactly for a
/// well-formed tree; for every other tree it names the first package that
/// has a fault, and that fault.
pub fn validate_tree(tree: &Vec<FlatPackage>) -> (r: Result<(), InputError>)
    ensures
        match r {
            Ok(_) => well_formed(tree_view(tree@)),
            Err(e) => {
                &&& e.package < tree.len()
                &&& fault_at(tree_view(tree@), e.package as int) == Some(e.fault)
                &&& forall|j: int| 0 <= j < e.package ==> fault_at(tree_view(tree@), j) is None
            },
        },
{
    let mut i: usize = 0;
    while i < tree.len()
        invariant
            i <= tree.len(),
            forall|j: int| 0 <= j < i ==> fault_at(tree_view(tree@), j) is None,
        decreases tree.len() - i,
    {
        match check_package(tree, i) {
            Some(fault) => {
                return Err(InputError { package: i, fault });
            },
            None => {},
        }
        i = i + 1;
    }
    Ok(())
}

/// What an install is going to do: where the store lies, which packages of
/// the tree go through the pipeline, by position, and which are left out
/// because they do not fit the host.
#[derive(Debug, PartialEq, Eq)]
pub struct InstallPlan {
    pub store_dir: String,
    pub scheduled: Vec<usize>,
    pub incompatible: Vec<PackageId>,
}

/// The positions among the first `n` of the packages that fit the host.
pub open spec fn scheduled_upto(
    tree: Seq<PackageModel>,
    os: Seq<char>,
    cpu: Seq<char>,
    n: int,
) -> Seq<usize>
    decreases n,
{
    if n <= 0 {
        Seq::empty()
    } else if compatible(tree[n - 1], os, cpu) {
        scheduled_upto(tree, os, cpu, n - 1).push((n - 1) as usize)
    } else {
        scheduled_upto(tree, os, cpu, n - 1)
    }
}

/// The identifiers of the packages among the first `n` that do not fit the host.
pub open spec fn incompatible_upto(
    tree: Seq<PackageModel>,
    os: Seq<char>,
    cpu: Seq<char>,
    n: int,
) -> Seq<IdModel>
    decreases n,
{
    if n <= 0 {
        Seq::empty()
    } else if compatible(tree[n - 1], os, cpu) {
        incompatible_upto(tree, os, cpu, n - 1)
    } else {
        incompatible_upto(tree, os, cpu, n - 1).push(tree[n - 1].id())
    }
}

/// Plans the install of `tree` on the host that `config` describes. A tree
/// that is not well formed is refused with its first fault. Of a
/// well-formed tree, every package that fits the host is scheduled, and
/// every other package is listed as incompatible, both in the order of the
/// tree.
pub fn plan_install(config: &InstallConfig, tree: &Vec<FlatPackage>) -> (r: Result<
    InstallPlan,
    InputError,
>)
    ensures
        match r {
            Ok(plan) => {
                &&& well_formed(tree_view(tree@))
                &&& plan.store_dir@ == store_dir_of(config.node_modules@)
                &&& plan.scheduled@ == scheduled_upto(
                    tree_view(tree@),
                    config.os@,
                    config.cpu@,
                    tree.len() as int,
                )
                &&& ids_view(plan.incompatible@) == incompatible_upto(
                    tree_view(tree@),
                    config.os@,
                    config.cpu@,
                    tree.len() as int,
                )
            },
            Err(e) => {
                &&& e.package < tree.len()
                &&& fault_at(tree_view(tree@), e.package as int) == Some(e.fault)
                &&& forall|j: int| 0 <= j < e.package ==> fault_at(tree_view(tree@), j) is None
            },
        },
{
    match validate_tree(tree) {
        Err(e) => {
            return Err(e);
        },
        Ok(_) => {},
    }
    let ghost models = tree_view(tree@);
    let mut scheduled: Vec<usize> = Vec::new();
    let mut incompatible: Vec<PackageId> = Vec::new();
    assert(ids_view(incompatible@) =~= Seq::empty());
    let mut i: usize = 0;
    while i < tree.len()
        invariant
            i <= tree.len(),
            models == tree_view(tree@),
            scheduled@ == scheduled_upto(models, config.os@, config.cpu@, i as int),
            ids_view(incompatible@) == incompatible_upto(models, config.os@, config.cpu@, i as int),
        decreases tree.len() - i,
    {
        assert(models[i as int] == tree[i as int]@);
        if is_compatible(&tree[i], config.os.as_str(), config.cpu.as_str()) {
            scheduled.push(i);
        } else {
            let ghost before = ids_view(incompatible@);
            let id = tree[i].id();
            incompatible.push(id);
            assert(ids_view(incompatible@) =~= before.push(id@));
        }
        i = i + 1;
    }
    Ok(InstallPlan { store_dir: store_dir(config.node_modules.as_str()), scheduled, incompatible })
}

/// How many more pipelines may start, with `pending` packages waiting and
/// `in_flight` pipelines running: as many as are waiting, up to the limit
/// of [`MAX_IN_FLIGHT`] running at a time.
pub fn admissible(pending: usize, in_flight: usize) -> (n: usize)
    ensures
        n <= pending,
        in_flight >= MAX_IN_FLIGHT ==> n == 0,
        in_flight < MAX_IN_FLIGHT ==> n == if pending <= MAX_IN_FLIGHT - in_flight {
            pending as int
        } else {
            MAX_IN_FLIGHT - in_flight
        },
{
    if in_flight >= MAX_IN_FLIGHT {
        0
    } else if pending <= MAX_IN_FLIGHT - in_flight {
        pending
    } else {
        MAX_IN_FLIGHT - in_flight
    }
}

/// A package that failed, and why.
#[derive(Debug, PartialEq, Eq)]
pub struct Failure {
    pub package: PackageId,
    pub error: InstallError,
}

/// How long the pipeline of a package took.
#[derive(Debug, PartialEq, Eq)]
pub struct Timing {
    pub package: PackageId,
    pub millis: u64,
}

/// What an install did, package by package.
#[derive(Debug, PartialEq, Eq)]
pub struct InstallReport {
    /// The packages that were fetched and installed.
    pub installed: Vec<PackageId>,
    /// The packages that the store already held.
    pub skipped_existing: Vec<PackageId>,
    /// The packages that do not fit the host.
    pub incompatible: Vec<PackageId>,
    /// The packages that failed, in the order in which they were recorded.
    pub failed: Vec<Failure>,
    /// The time each pipeline took.
    pub durations: Vec<Timing>,
}

/// The mathematical value of an [`InstallReport`].
pub struct ReportModel {
    pub installed: Seq<IdModel>,
    pub skipped_existing: Seq<IdModel>,
    pub incompatible: Seq<IdModel>,
    pub failed: Seq<(IdModel, ErrorModel)>,
    pub durations: Seq<(IdModel, u64)>,
}

impl View for Failure {
    type V = (IdModel, ErrorModel);

    open spec fn view(&self) -> (IdModel, ErrorModel) {
        (self.package@, self.error@)
    }
}

impl View for Timing {
    type V = (IdModel, u64);

    open spec fn view(&self) -> (IdModel, u64) {
        (self.package@, self.millis)
    }
}

/// The views of a list of failures, in order.
pub open spec fn failures_view(list: Seq<Failure>) -> Seq<(IdModel, ErrorModel)> {
    list.map_values(|f: Failure| f@)
}

/// The views of a list of timings, in order.
pub open spec fn timings_view(list: Seq<Timing>) -> Seq<(IdModel, u64)> {
    list.map_values(|t: Timing| t@)
}

impl View for InstallReport {
    type V = ReportModel;

    open spec fn view(&self) -> ReportModel {
        ReportModel {
            installed: ids_view(self.installed@),
            skipped_existing: ids_view(self.skipped_existing@),
            incompatible: ids_view(self.incompatible@),
            failed: failures_view(self.failed@),
            durations: timings_view(self.durations@),
        }
    }
}

impl ReportModel {
    /// The report after the pipeline of `id` has ended with `result` in `millis`.
    pub open spec fn recorded(
        self,
        id: IdModel,
        result: Result<Outcome, ErrorModel>,
        millis: u64,
    ) -> ReportModel {
        let timed = ReportModel { durations: self.durations.push((id, millis)), ..self };
        match result {
            Ok(Outcome::Installed) => ReportModel { installed: self.installed.push(id), ..timed },
            Ok(Outcome::SkippedExisting) => ReportModel {
                skipped_existing: self.skipped_existing.push(id),
                ..timed
            },
            Err(error) => ReportModel { failed: self.failed.push((id, error)), ..timed },
        }
    }

    /// Whether a recorded failure ends the whole install.
    pub open spec fn aborted(self) -> bool {
        exists|i: int| 0 <= i < self.failed.len() && (#[trigger] self.failed[i]).1.aborts_install()
    }

    /// Whether the package `id` is there after the install.
    pub open spec fn holds(self, id: IdModel) -> bool {
        self.installed.contains(id) || self.skipped_existing.contains(id)
    }
}

/// The links of the first `n` requested packages that the report holds.
pub open spec fn root_links_upto(
    root: Seq<char>,
    report: ReportModel,
    roots: Seq<IdModel>,
    n: int,
) -> Seq<SlotModel>
    decreases n,
{
    if n <= 0 {
        Seq::empty()
    } else if report.holds(roots[n - 1]) {
        root_links_upto(root, report, roots, n - 1).push(top_level_slot(root, roots[n - 1]))
    } else {
        root_links_upto(root, report, roots, n - 1)
    }
}

/// What the install ends with: the error of the first package that
/// failed, or the links of the requested packages.
pub open spec fn finished(root: Seq<char>, report: ReportModel, roots: Seq<IdModel>) -> Result<
    Seq<SlotModel>,
    ErrorModel,
> {
    if report.failed.len() > 0 {
        Err(report.failed[0].1)
    } else {
        Ok(root_links_upto(root, report, roots, roots.len() as int))
    }
}

impl InstallReport {
    /// The report of an install in which no pipeline has ended yet.
    pub fn new(incompatible: Vec<PackageId>) -> (report: InstallReport)
        ensures
            report@ == (ReportModel {
                installed: Seq::empty(),
                skipped_existing: Seq::empty(),
                incompatible: ids_view(incompatible@),
                failed: Seq::empty(),
                durations: Seq::empty(),
            }),
    {
        let report = InstallReport {
            installed: Vec::new(),
            skipped_existing: Vec::new(),
            incompatible,
            failed: Vec::new(),
            durations: Vec::new(),
        };
        assert(ids_view(report.installed@) =~= Seq::empty());
        assert(ids_view(report.skipped_existing@) =~= Seq::empty());
        assert(failures_view(report.failed@) =~= Seq::empty());
        assert(timings_view(report.durations@) =~= Seq::empty());
        report
    }

    /// Records how the pipeline of the package `id` ended, and how long it
    /// took. A package that failed is listed with its error and does not
    /// touch what was recorded of the others.
    pub fn record(&mut self, id: PackageId, result: Result<Outcome, InstallError>, millis: u64)
        ensures
            final(self)@ == old(self)@.recorded(
                id@,
                match result {
                    Ok(outcome) => Ok(outcome),
                    Err(error) => Err(error@),
                },
                millis,
            ),
    {
        let ghost before = self@;
        let timing = Timing { package: id.duplicate(), millis };
        self.durations.push(timing);
        assert(timings_view(self.durations@) =~= before.durations.push((id@, millis)));
        match result {
            Ok(Outcome::Installed) => {
                self.installed.push(id);
                assert(ids_view(self.installed@) =~= before.installed.push(id@));
            },
            Ok(Outcome::SkippedExisting) => {
                self.skipped_existing.push(id);
                assert(ids_view(self.skipped_existing@) =~= before.skipped_existing.push(id@));
            },
            Err(error) => {
                let failure = Failure { package: id, error };
                self.failed.push(failure);
                assert(failures_view(self.failed@) =~= before.failed.push(failure@));
            },
        }
    }

    /// How many more pipelines may start now, with `pending` packages
    /// waiting and `in_flight` pipelines running: none once the install has
    /// to stop, and otherwise as many as [`admissible`] allows.
    pub fn admits(&self, pending: usize, in_flight: usize) -> (n: usize)
        ensures
            n == if self@.aborted() {
                0
            } else if in_flight >= MAX_IN_FLIGHT {
                0
            } else if pending <= MAX_IN_FLIGHT - in_flight {
                pending as int
            } else {
                MAX_IN_FLIGHT - in_flight
            },
    {
        if self.aborted() {
            0
        } else {
            admissible(pending, in_flight)
        }
    }

    /// Whether the package `name` at `version` is there after the install.
    pub fn holds(&self, name: &str, version: &str) -> (r: bool)
        ensures
            r == self@.holds((name@, version@)),
    {
        holds_id(&self.installed, name, version) || holds_id(&self.skipped_existing, name, version)
    }

    /// Whether the install has to stop: a package failed with an error of
    /// the store, which no other package can be expected to survive.
    pub fn aborted(&self) -> (r: bool)
        ensures
            r == self@.aborted(),
    {
        let mut i: usize = 0;
        while i < self.failed.len()
            invariant
                i <= self.failed.len(),
                forall|k: int| 0 <= k < i ==> !(#[trigger] self@.failed[k]).1.aborts_install(),
            decreases self.failed.len() - i,
        {
            assert(self@.failed[i as int] == self.failed[i as int]@);
            if self.failed[i].error.aborts_install() {
                return true;
            }
            i = i + 1;
        }
        false
    }

    /// The error of the first package that failed, if one did.
    pub fn first_error(&self) -> (error: Option<InstallError>)
        ensures
            match error {
                Some(e) => self@.failed.len() > 0 && e@ == self@.failed[0].1,
                None => self@.failed.len() == 0,
            },
    {
        if self.failed.len() > 0 {
            assert(failures_view(self.failed@)[0] == self.failed[0]@);
            Some(self.failed[0].error.duplicate())
        } else {
            None
        }
    }
}

/// Ends an install once every pipeline has ended. Where a package failed,
/// the answer is the error of the first one that did, and no link of a
/// requested package is created. Otherwise the answer lists the links to
/// create directly under the install root: one for each requested package
/// that the report holds as installed or skipped, in the order of `roots`.
pub fn finish_install(config: &InstallConfig, report: &InstallReport, roots: &Vec<PackageId>) -> (r:
    Result<Vec<LinkSlot>, InstallError>)
    ensures
        match r {
            Ok(slots) => finished(config.node_modules@, report@, ids_view(roots@)) == Ok::<
                Seq<SlotModel>,
                ErrorModel,
            >(slots_view(slots@)),
            Err(e) => finished(config.node_modules@, report@, ids_view(roots@)) == Err::<
                Seq<SlotModel>,
                ErrorModel,
            >(e@),
        },
{
    match report.first_error() {
        Some(error) => {
            return Err(error);
        },
        None => {},
    }
    let root = config.node_modules.as_str();
    let mut slots: Vec<LinkSlot> = Vec::new();
    assert(slots_view(slots@) =~= Seq::empty());
    let mut i: usize = 0;
    while i < roots.len()
        invariant
            i <= roots.len(),
            root@ == config.node_modules@,
            slots_view(slots@) == root_links_upto(root@, report@, ids_view(roots@), i as int),
        decreases roots.len() - i,
    {
        let id = &roots[i];
        assert(ids_view(roots@)[i as int] == id@);
        if report.holds(id.name.as_str(), id.version.as_str()) {
            let ghost before = slots_view(slots@);
            let slot = top_level_link(root, id.name.as_str(), id.version.as_str());
            slots.push(slot);
            assert(slots_view(slots@) =~= before.push(slot@));
        }
        i = i + 1;
    }
    Ok(slots)
}

/// Whether `id` names one of the first `n` packages that does not fit the host.
pub open spec fn names_misfit(
    tree: Seq<PackageModel>,
    os: Seq<char>,
    cpu: Seq<char>,
    n: int,
    id: IdModel,
) -> bool {
    exists|i: int| 0 <= i < n && !compatible(tree[i], os, cpu) && (#[trigger] tree[i]).id() == id
}

/// Whether `slot` is the link of one of the first `n` requested packages
/// that the report holds.
pub open spec fn links_held_root(
    root: Seq<char>,
    report: ReportModel,
    roots: Seq<IdModel>,
    n: int,
    slot: SlotModel,
) -> bool {
    exists|k: int|
        0 <= k < n && report.holds(#[trigger] roots[k]) && top_level_slot(root, roots[k]) == slot
}

/// The plan sorts every package of the tree into one of two lists: a
/// package is scheduled exactly when it fits the host, and is listed as
/// incompatible exactly when it does not. The scheduled positions ascend,
/// so that no package goes through the pipeline twice.
pub proof fn plan_sorts_every_package(
    tree: Seq<PackageModel>,
    os: Seq<char>,
    cpu: Seq<char>,
    n: int,
)
    requires
        0 <= n <= tree.len(),
        n <= usize::MAX,
    ensures
        forall|i: int|
            0 <= i < n ==> (compatible(#[trigger] tree[i], os, cpu) <==> scheduled_upto(
                tree,
                os,
                cpu,
                n,
            ).contains(i as usize)),
        forall|i: int|
            0 <= i < n && !compatible(#[trigger] tree[i], os, cpu) ==> incompatible_upto(
                tree,
                os,
                cpu,
                n,
            ).contains(tree[i].id()),
        forall|k: int|
            0 <= k < incompatible_upto(tree, os, cpu, n).len() ==> names_misfit(
                tree,
                os,
                cpu,
                n,
                #[trigger] incompatible_upto(tree, os, cpu, n)[k],
            ),
        forall|k: int|
            0 <= k < scheduled_upto(tree, os, cpu, n).len() ==> #[trigger] scheduled_upto(
                tree,
                os,
                cpu,
                n,
            )[k] < n,
        forall|a: int, b: int|
            0 <= a < b < scheduled_upto(tree, os, cpu, n).len() ==> #[trigger] scheduled_upto(
                tree,
                os,
                cpu,
                n,
            )[a] < #[trigger] scheduled_upto(tree, os, cpu, n)[b],
    decreases n,
{
    if n > 0 {
        plan_sorts_every_package(tree, os, cpu, n - 1);
        let before = scheduled_upto(tree, os, cpu, n - 1);
        let after = scheduled_upto(tree, os, cpu, n);
        let left = incompatible_upto(tree, os, cpu, n - 1);
        let out = incompatible_upto(tree, os, cpu, n);
        let last = (n - 1) as usize;
        if compatible(tree[n - 1], os, cpu) {
            assert(after == before.push(last));
            assert(after[before.len() as int] == last);
            assert(out == left);
        } else {
            assert(after == before);
            assert(out == left.push(tree[n - 1].id()));
            assert(out[left.len() as int] == tree[n - 1].id());
        }
        assert forall|i: int| 0 <= i < n implies (compatible(#[trigger] tree[i], os, cpu)
            <==> after.contains(i as usize)) by {
            if i < n - 1 {
                if before.contains(i as usize) {
                    let k = choose|k: int| 0 <= k < before.len() && before[k] == i as usize;
                    assert(after[k] == i as usize);
                }
                if after.contains(i as usize) {
                    let k = choose|k: int| 0 <= k < after.len() && after[k] == i as usize;
                    if k < before.len() {
                        assert(before[k] == i as usize);
                    }
                }
            } else {
                if after.contains(last) && !compatible(tree[n - 1], os, cpu) {
                    let k = choose|k: int| 0 <= k < after.len() && after[k] == last;
                    assert(before[k] < n - 1);
                }
            }
        }
        assert forall|i: int|
            0 <= i < n && !compatible(#[trigger] tree[i], os, cpu) implies out.contains(
            tree[i].id(),
        ) by {
            if i < n - 1 {
                let k = choose|k: int| 0 <= k < left.len() && left[k] == tree[i].id();
                assert(out[k] == tree[i].id());
            }
        }
        assert forall|k: int| 0 <= k < out.len() implies names_misfit(
            tree,
            os,
            cpu,
            n,
            #[trigger] out[k],
        ) by {
            if k < left.len() {
                assert(names_misfit(tree, os, cpu, n - 1, left[k]));
                let i = choose|i: int|
                    0 <= i < n - 1 && !compatible(tree[i], os, cpu) && (#[trigger] tree[i]).id()
                        == left[k];
                assert(0 <= i < n && !compatible(tree[i], os, cpu) && tree[i].id() == out[k]);
            } else {
                assert(!compatible(tree[n - 1], os, cpu) && tree[n - 1].id() == out[k]);
            }
        }
        assert forall|a: int, b: int| 0 <= a < b < after.len() implies #[trigger] after[a]
            < #[trigger] after[b] by {
            if b < before.len() {
                assert(before[a] < before[b]);
            } else {
                assert(before[a] < n - 1);
            }
        }
    }
}

/// Every package whose pipeline has ended is in the report, in the list
/// that its result names: installed, skipped, or failed with its error.
pub proof fn result_is_reported(report: ReportModel, id: IdModel, error: ErrorModel, millis: u64)
    ensures
        report.recorded(id, Ok(Outcome::Installed), millis).installed.contains(id),
        report.recorded(id, Ok(Outcome::SkippedExisting), millis).skipped_existing.contains(id),
        report.recorded(id, Err(error), millis).failed.contains((id, error)),
        report.recorded(id, Ok(Outcome::Installed), millis).holds(id),
        report.recorded(id, Ok(Outcome::SkippedExisting), millis).holds(id),
{
    let installed = report.recorded(id, Ok(Outcome::Installed), millis);
    assert(installed.installed[report.installed.len() as int] == id);
    let skipped = report.recorded(id, Ok(Outcome::SkippedExisting), millis);
    assert(skipped.skipped_existing[report.skipped_existing.len() as int] == id);
    let failed = report.recorded(id, Err(error), millis);
    assert(failed.failed[report.failed.len() as int] == (id, error));
}

/// The report after the pipelines of the first `n` of `ids` have ended, in
/// this order, each with its result and its time.
pub open spec fn recorded_upto(
    report: ReportModel,
    ids: Seq<IdModel>,
    results: Seq<Result<Outcome, ErrorModel>>,
    millis: Seq<u64>,
    n: int,
) -> ReportModel
    decreases n,
{
    if n <= 0 {
        report
    } else {
        recorded_upto(report, ids, results, millis, n - 1).recorded(
            ids[n - 1],
            results[n - 1],
            millis[n - 1],
        )
    }
}

/// Where every pipeline ends as skipped, as it does with a warm store, the
/// report lists exactly the packages that were run as skipped, and none as
/// installed or failed.
pub proof fn warm_install_reports_all_skipped(
    incompatible: Seq<IdModel>,
    ids: Seq<IdModel>,
    results: Seq<Result<Outcome, ErrorModel>>,
    millis: Seq<u64>,
    n: int,
)
    requires
        0 <= n <= ids.len(),
        ids.len() == results.len() == millis.len(),
        forall|k: int|
            0 <= k < n ==> #[trigger] results[k] == Ok::<Outcome, ErrorModel>(
                Outcome::SkippedExisting,
            ),
    ensures
        ({
            let fresh = ReportModel {
                installed: Seq::empty(),
                skipped_existing: Seq::empty(),
                incompatible,
                failed: Seq::empty(),
                durations: Seq::empty(),
            };
            let report = recorded_upto(fresh, ids, results, millis, n);
            &&& report.skipped_existing == ids.take(n)
            &&& report.installed == Seq::<IdModel>::empty()
            &&& report.failed == Seq::<(IdModel, ErrorModel)>::empty()
            &&& report.incompatible == incompatible
            &&& !report.aborted()
        }),
    decreases n,
{
    if n > 0 {
        warm_install_reports_all_skipped(incompatible, ids, results, millis, n - 1);
        assert(results[n - 1] == Ok::<Outcome, ErrorModel>(Outcome::SkippedExisting));
        assert(ids.take(n) =~= ids.take(n - 1).push(ids[n - 1]));
    } else {
        assert(ids.take(0) =~= Seq::<IdModel>::empty());
    }
}

/// With a warm store, the packages reported as skipped are the compatible
/// packages of the tree. The pipelines of the scheduled packages may end
/// in any order: where `order` lists the scheduled positions, each once,
/// and all end as skipped, a package is reported as skipped exactly when
/// it is a package of the tree that fits the host.
pub proof fn warm_install_skips_the_compatible_packages(
    tree: Seq<PackageModel>,
    os: Seq<char>,
    cpu: Seq<char>,
    order: Seq<usize>,
    millis: Seq<u64>,
    id: IdModel,
)
    requires
        tree.len() <= usize::MAX,
        order.len() == millis.len(),
        forall|k: int| 0 <= k < order.len() ==> (#[trigger] order[k]) < tree.len(),
        forall|position: usize|
            order.contains(position) <==> scheduled_upto(tree, os, cpu, tree.len() as int).contains(
                position,
            ),
    ensures
        ({
            let fresh = ReportModel {
                installed: Seq::empty(),
                skipped_existing: Seq::empty(),
                incompatible: incompatible_upto(tree, os, cpu, tree.len() as int),
                failed: Seq::empty(),
                durations: Seq::empty(),
            };
            let ids = order.map_values(|position: usize| tree[position as int].id());
            let results = order.map_values(
                |position: usize| Ok::<Outcome, ErrorModel>(Outcome::SkippedExisting),
            );
            let report = recorded_upto(fresh, ids, results, millis, order.len() as int);
            &&& report.skipped_existing.contains(id) <==> exists|i: int|
                0 <= i < tree.len() && compatible(#[trigger] tree[i], os, cpu) && tree[i].id() == id
            &&& report.installed.len() == 0
            &&& report.failed.len() == 0
        }),
{
    let n = tree.len() as int;
    let ids = order.map_values(|position: usize| tree[position as int].id());
    let results = order.map_values(
        |position: usize| Ok::<Outcome, ErrorModel>(Outcome::SkippedExisting),
    );
    let incompatible = incompatible_upto(tree, os, cpu, n);
    warm_install_reports_all_skipped(incompatible, ids, results, millis, order.len() as int);
    plan_sorts_every_package(tree, os, cpu, n);
    assert(ids.take(order.len() as int) =~= ids);
    if ids.contains(id) {
        let k = choose|k: int| 0 <= k < ids.len() && ids[k] == id;
        let position = order[k];
        assert(order.contains(position));
        assert(compatible(tree[position as int], os, cpu));
    }
    if exists|i: int|
        0 <= i < tree.len() && compatible(#[trigger] tree[i], os, cpu) && tree[i].id() == id {
        let i = choose|i: int|
            0 <= i < tree.len() && compatible(#[trigger] tree[i], os, cpu) && tree[i].id() == id;
        assert(scheduled_upto(tree, os, cpu, n).contains(i as usize));
        assert(order.contains(i as usize));
        let k = choose|k: int| 0 <= k < order.len() && order[k] == i as usize;
        assert(ids[k] == id);
    }
}

/// The failure of one package leaves the others as they were: recording
/// it changes neither the packages that the report holds as installed or
/// skipped, nor those it lists as incompatible, nor the failures recorded
/// before it.
pub proof fn failure_touches_no_other_package(
    report: ReportModel,
    id: IdModel,
    error: ErrorModel,
    millis: u64,
)
    ensures
        report.recorded(id, Err(error), millis).installed == report.installed,
        report.recorded(id, Err(error), millis).skipped_existing == report.skipped_existing,
        report.recorded(id, Err(error), millis).incompatible == report.incompatible,
        report.recorded(id, Err(error), millis).failed == report.failed.push((id, error)),
        report.recorded(id, Err(error), millis).failed.len() > 0,
        forall|other: IdModel|
            report.recorded(id, Err(error), millis).holds(other) == report.holds(other),
{
}

/// After a failure, the install ends with an error and links none of the
/// requested packages, whatever else is recorded later.
pub proof fn failed_install_links_no_root(
    root: Seq<char>,
    report: ReportModel,
    roots: Seq<IdModel>,
)
    requires
        report.failed.len() > 0,
    ensures
        finished(root, report, roots) == Err::<Seq<SlotModel>, ErrorModel>(report.failed[0].1),
{
}

/// Where no package failed, every requested package that the report holds
/// gets its link under the install root, and nothing else does.
pub proof fn roots_are_linked(root: Seq<char>, report: ReportModel, roots: Seq<IdModel>, n: int)
    requires
        0 <= n <= roots.len(),
    ensures
        forall|k: int|
            0 <= k < n && report.holds(#[trigger] roots[k]) ==> root_links_upto(
                root,
                report,
                roots,
                n,
            ).contains(top_level_slot(root, roots[k])),
        forall|j: int|
            0 <= j < root_links_upto(root, report, roots, n).len() ==> links_held_root(
                root,
                report,
                roots,
                n,
                #[trigger] root_links_upto(root, report, roots, n)[j],
            ),
    decreases n,
{
    if n > 0 {
        roots_are_linked(root, report, roots, n - 1);
        let before = root_links_upto(root, report, roots, n - 1);
        let after = root_links_upto(root, report, roots, n);
        let slot = top_level_slot(root, roots[n - 1]);
        if report.holds(roots[n - 1]) {
            assert(after == before.push(slot));
            assert(after[before.len() as int] == slot);
        } else {
            assert(after == before);
        }
        assert forall|k: int|
            0 <= k < n && report.holds(#[trigger] roots[k]) implies after.contains(
            top_level_slot(root, roots[k]),
        ) by {
            if k < n - 1 {
                let j = choose|j: int|
                    0 <= j < before.len() && before[j] == top_level_slot(root, roots[k]);
                assert(after[j] == top_level_slot(root, roots[k]));
            }
        }
        assert forall|j: int| 0 <= j < after.len() implies links_held_root(
            root,
            report,
            roots,
            n,
            #[trigger] after[j],
        ) by {
            if j < before.len() {
                assert(links_held_root(root, report, roots, n - 1, before[j]));
                let k = choose|k: int|
                    0 <= k < n - 1 && report.holds(#[trigger] roots[k]) && top_level_slot(
                        root,
                        roots[k],
                    ) == before[j];
                assert(0 <= k < n && report.holds(roots[k]) && top_level_slot(root, roots[k])
                    == after[j]);
            } else {
                assert(report.holds(roots[n - 1]) && slot == after[j]);
            }
        }
    }
}

} // verus!
