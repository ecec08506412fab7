//! The pipeline of one package: probe the store, fetch, verify, decompress,
//! extract, store, materialize, link. The engine decides each step here;
//! its caller does the input and output and reports back what happened.

use vstd::prelude::*;
use crate::errors::{ErrorModel, InstallError};
use crate::extract::{
    blob_digest, extract_tarball, extracted, files_are_sound, files_view, is_safe_path,
};
use crate::filemap::{
    all_paths_safe, decode_file_map, distinct_files_give_distinct_entries, encode_file_map,
    entries_of_files, file_map_json, file_map_of, file_map_view, has_distinct_paths,
    have_same_entries, json_file_map, same_entries_same_mapping,
    lookup, map_paths_safe, paths_distinct, paths_safe, safety_depends_on_the_mapping, EntryPair,
    FileEntry,
};
use crate::gzip::{decompress_gzip, decompressed};
use crate::integrity::{
    algorithm_of, check_integrity, checksum_matches, integrity_outcome, sri_digest,
};
use crate::layout::{
    joined, link_dependencies, links_wanted, package_directories, package_dirs, package_root,
    package_root_of, slots_view, InstallConfig, LinkSlot, SlotModel,
};
use crate::materialize::{
    chunked_plan, chunks_cover_file_map, chunks_view, is_written, materialize_plan,
    plans_of_one_mapping_write_the_same, writes_in, Step, StepModel,
};
use crate::package::{ids_view, package_key, FlatPackage, IdModel, PackageId, PackageModel};
use crate::scripts::generate_script;
use crate::store::{blobs_of, blobs_view, unique_blobs, Blob, BlobModel};
use crate::tar::entries_of;
use crate::text::strings_view;

verus! {

/// How the pipeline of a package ended, where it did not fail.
#[derive(Clone, Copy, Debug, PartialEq, Eq, Structural)]
pub enum Outcome {
    /// The archive was fetched and the package installed from it.
    Installed,
    /// The store already held the package: nothing was fetched.
    SkippedExisting,
}

/// Where the pipeline of a package stands.
#[derive(Debug, PartialEq, Eq)]
pub enum Stage {
    /// Nothing has happened yet.
    Start,
    /// The store is being asked for the package's file map.
    Probing,
    /// The archive is being fetched.
    Fetching,
    /// The blobs and the file map are being written to the store.
    Storing { files: Vec<FileEntry> },
    /// The files are being written below the package's root. `warm` says
    /// that the file map came from the store.
    Materializing { warm: bool },
    /// The links of the dependencies are being created.
    Linking { warm: bool },
    /// The package is installed.
    Done { outcome: Outcome },
    /// The pipeline failed with `error`; nothing more is done for the package.
    Failed { error: InstallError },
}

/// What the caller reports back to the pipeline.
#[derive(Debug, PartialEq, Eq)]
pub enum Event {
    /// The pipeline is to begin.
    Begin,
    /// The store holds no file map for the package.
    CacheMiss,
    /// The store holds this file map for the package.
    CacheHit { files: Vec<FileEntry> },
    /// The archive was fetched: `body` is the response.
    Fetched { body: Vec<u8> },
    /// The blobs and the file map are in the store.
    Stored,
    /// The files are written.
    Materialized,
    /// The links exist.
    Linked,
    /// What the pipeline asked for last failed with `error`.
    Failed { error: InstallError },
}

/// What the pipeline asks its caller to do next.
#[derive(Debug, PartialEq, Eq)]
pub enum Action {
    /// Ask the store for the file map under `key`.
    ProbeCache { key: String },
    /// Fetch the archive from `url`.
    Fetch { url: String },
    /// Write each blob, with its contents taken from `archive`, and then
    /// the file map under `key`.
    Store { key: String, archive: Vec<u8>, blobs: Vec<Blob>, file_map: Vec<u8> },
    /// Create `directories` in order, then run each chunk of steps.
    Materialize { directories: Vec<String>, chunks: Vec<Vec<Step>> },
    /// Create the links of `slots`.
    Link { slots: Vec<LinkSlot> },
    /// Nothing is left to do: record the stage the pipeline ended in.
    Finish,
    /// The event does not belong to the stage: it was ignored.
    Wait,
}

/// The mathematical value of a [`Stage`].
pub enum StageModel {
    Start,
    Probing,
    Fetching,
    Storing { files: Seq<EntryPair> },
    Materializing { warm: bool },
    Linking { warm: bool },
    Done { outcome: Outcome },
    Failed { error: ErrorModel },
}

/// The mathematical value of an [`Event`].
pub enum EventModel {
    Begin,
    CacheMiss,
    CacheHit { files: Seq<EntryPair> },
    Fetched { body: Seq<u8> },
    Stored,
    Materialized,
    Linked,
    Failed { error: ErrorModel },
}

/// The mathematical value of an [`Action`].
pub enum ActionModel {
    ProbeCache { key: Seq<char> },
    Fetch { url: Seq<char> },
    Store { key: Seq<char>, archive: Seq<u8>, blobs: Seq<BlobModel>, file_map: Seq<u8> },
    Materialize { directories: Seq<Seq<char>>, chunks: Seq<Seq<StepModel>> },
    Link { slots: Seq<SlotModel> },
    Finish,
    Wait,
}

impl View for Stage {
    type V = StageModel;

    open spec fn view(&self) -> StageModel {
        match self {
            Stage::Start => StageModel::Start,
            Stage::Probing => StageModel::Probing,
            Stage::Fetching => StageModel::Fetching,
            Stage::Storing { files } => StageModel::Storing { files: file_map_view(files@) },
            Stage::Materializing { warm } => StageModel::Materializing { warm: *warm },
            Stage::Linking { warm } => StageModel::Linking { warm: *warm },
            Stage::Done { outcome } => StageModel::Done { outcome: *outcome },
            Stage::Failed { error } => StageModel::Failed { error: error@ },
        }
    }
}

impl View for Event {
    type V = EventModel;

    open spec fn view(&self) -> EventModel {
        match self {
            Event::Begin => EventModel::Begin,
            Event::CacheMiss => EventModel::CacheMiss,
            Event::CacheHit { files } => EventModel::CacheHit { files: file_map_view(files@) },
            Event::Fetched { body } => EventModel::Fetched { body: body@ },
            Event::Stored => EventModel::Stored,
            Event::Materialized => EventModel::Materialized,
            Event::Linked => EventModel::Linked,
            Event::Failed { error } => EventModel::Failed { error: error@ },
        }
    }
}

impl View for Action {
    type V = ActionModel;

    open spec fn view(&self) -> ActionModel {
        match self {
            Action::ProbeCache { key } => ActionModel::ProbeCache { key: key@ },
            Action::Fetch { url } => ActionModel::Fetch { url: url@ },
            Action::Store { key, archive, blobs, file_map } => ActionModel::Store {
                key: key@,
                archive: archive@,
                blobs: blobs_view(blobs@),
                file_map: file_map@,
            },
            Action::Materialize { directories, chunks } => ActionModel::Materialize {
                directories: strings_view(directories@),
                chunks: chunks_view(chunks@),
            },
            Action::Link { slots } => ActionModel::Link { slots: slots_view(slots@) },
            Action::Finish => ActionModel::Finish,
            Action::Wait => ActionModel::Wait,
        }
    }
}

impl StageModel {
    /// Whether the pipeline has ended.
    pub open spec fn is_terminal(self) -> bool {
        self is Done || self is Failed
    }
}

impl ActionModel {
    /// Whether the action writes to the store or below the install root.
    pub open spec fn writes(self) -> bool {
        self is Store || self is Materialize || self is Link
    }
}

/// The step that follows once the file map of `package` is known: the
/// package is materialized from it, unless the map holds a path that is
/// not safe or holds a path twice, which is an error of the store.
pub open spec fn materializing(
    root: Seq<char>,
    package: PackageModel,
    files: Seq<EntryPair>,
    warm: bool,
) -> (StageModel, ActionModel) {
    if paths_safe(files) && paths_distinct(files) {
        (
            StageModel::Materializing { warm },
            ActionModel::Materialize {
                directories: package_dirs(root, package.id()),
                chunks: chunked_plan(package_root_of(root, package.id()), files),
            },
        )
    } else {
        (StageModel::Failed { error: ErrorModel::Cas }, ActionModel::Finish)
    }
}

/// The step that follows once the archive of `package` is fetched: the
/// body passes the integrity gate, is decompressed and extracted, and what
/// it holds goes to the store; or the package fails at the first of these
/// that goes wrong. The file map goes to the store only as a text that
/// reads back as the same mapping; a text that does not is an error of
/// the store.
pub open spec fn ingested(package: PackageModel, body: Seq<u8>) -> (StageModel, ActionModel) {
    match integrity_outcome(body, package.integrity) {
        Err(error) => (StageModel::Failed { error }, ActionModel::Finish),
        Ok(_) => match decompressed(body) {
            None => (StageModel::Failed { error: ErrorModel::Decompress }, ActionModel::Finish),
            Some(archive) => match extracted(archive) {
                None => (StageModel::Failed { error: ErrorModel::Tar }, ActionModel::Finish),
                Some(files) => match file_map_json(entries_of_files(files)) {
                    None => (StageModel::Failed { error: ErrorModel::Cas }, ActionModel::Finish),
                    Some(file_map) => if json_file_map(file_map) == Some(
                        lookup(entries_of_files(files)),
                    ) {
                        (
                            StageModel::Storing { files: entries_of_files(files) },
                            ActionModel::Store {
                                key: package_key(package.name, package.version, package.integrity),
                                archive,
                                blobs: blobs_of(files),
                                file_map,
                            },
                        )
                    } else {
                        (StageModel::Failed { error: ErrorModel::Cas }, ActionModel::Finish)
                    },
                },
            },
        },
    }
}

/// What happens where an event does not move the pipeline on: a failure
/// ends it, anything else is ignored.
pub open spec fn otherwise(stage: StageModel, event: EventModel) -> (StageModel, ActionModel) {
    match event {
        EventModel::Failed { error } => (StageModel::Failed { error }, ActionModel::Finish),
        _ => (stage, ActionModel::Wait),
    }
}

/// The pipeline of `package`: the stage that follows `stage` on `event`,
/// and what the caller is to do next.
pub open spec fn step(
    root: Seq<char>,
    package: PackageModel,
    excluded: Seq<IdModel>,
    stage: StageModel,
    event: EventModel,
) -> (StageModel, ActionModel) {
    match stage {
        StageModel::Start => match event {
            EventModel::Begin => (
                StageModel::Probing,
                ActionModel::ProbeCache {
                    key: package_key(package.name, package.version, package.integrity),
                },
            ),
            _ => otherwise(stage, event),
        },
        StageModel::Probing => match event {
            EventModel::CacheHit { files } => materializing(root, package, files, true),
            EventModel::CacheMiss => (
                StageModel::Fetching,
                ActionModel::Fetch { url: package.tarball_url },
            ),
            _ => otherwise(stage, event),
        },
        StageModel::Fetching => match event {
            EventModel::Fetched { body } => ingested(package, body),
            _ => otherwise(stage, event),
        },
        StageModel::Storing { files } => match event {
            EventModel::Stored => materializing(root, package, files, false),
            _ => otherwise(stage, event),
        },
        StageModel::Materializing { warm } => match event {
            EventModel::Materialized => (
                StageModel::Linking { warm },
                ActionModel::Link { slots: links_wanted(root, package, excluded) },
            ),
            _ => otherwise(stage, event),
        },
        StageModel::Linking { warm } => match event {
            EventModel::Linked => (
                StageModel::Done {
                    outcome: if warm {
                        Outcome::SkippedExisting
                    } else {
                        Outcome::Installed
                    },
                },
                ActionModel::Finish,
            ),
            _ => otherwise(stage, event),
        },
        StageModel::Done { .. } => (stage, ActionModel::Finish),
        StageModel::Failed { .. } => (stage, ActionModel::Finish),
    }
}

impl StageModel {
    /// How the pipeline ended, where it has: with an outcome or an error.
    pub open spec fn result(self) -> Option<Result<Outcome, ErrorModel>> {
        match self {
            StageModel::Done { outcome } => Some(Ok(outcome)),
            StageModel::Failed { error } => Some(Err(error)),
            _ => None,
        }
    }
}

impl Stage {
    /// How the pipeline ended, for the report; nothing while it is under way.
    pub fn result(&self) -> (r: Option<Result<Outcome, InstallError>>)
        ensures
            match r {
                Some(Ok(outcome)) => self@.result() == Some(Ok::<Outcome, ErrorModel>(outcome)),
                Some(Err(error)) => self@.result() == Some(Err::<Outcome, ErrorModel>(error@)),
                None => self@.result() is None,
            },
    {
        match self {
            Stage::Done { outcome } => Some(Ok(*outcome)),
            Stage::Failed { error } => Some(Err(error.duplicate())),
            _ => None,
        }
    }
}

/// What a fetch comes to, as an event. `response` is the status and the
/// body of the registry's answer, or nothing where the transport failed.
/// A status from 200 to 299 hands on the body; every other status is an
/// error of the registry, and a failed transport an error of the network.
pub fn fetched(response: Option<(u16, Vec<u8>)>) -> (event: Event)
    ensures
        event@ == match response {
            Some((status, body)) => if 200 <= status <= 299 {
                EventModel::Fetched { body: body@ }
            } else {
                EventModel::Failed { error: ErrorModel::Registry { status } }
            },
            None => EventModel::Failed { error: ErrorModel::Network },
        },
{
    match response {
        Some((status, body)) => {
            if 200 <= status && status <= 299 {
                Event::Fetched { body }
            } else {
                Event::Failed { error: InstallError::Registry { status } }
            }
        },
        None => Event::Failed { error: InstallError::Network },
    }
}

/// What a probe of the store comes to, as an event. `found` is the text
/// that the store holds under the package's key, or nothing. No text is a
/// miss; a text that is a file map with safe paths is a hit with that map;
/// any other text is an error of the store.
pub fn probed(found: Option<&[u8]>) -> (event: Event)
    ensures
        match found {
            None => event@ == EventModel::CacheMiss,
            Some(bytes) => match event@ {
                EventModel::CacheHit { files } => {
                    &&& json_file_map(bytes@) == Some(lookup(files))
                    &&& paths_distinct(files)
                    &&& paths_safe(files)
                },
                EventModel::Failed { error } => {
                    &&& error == ErrorModel::Cas
                    &&& !(json_file_map(bytes@) matches Some(map)
                        && map_paths_safe(map))
                },
                _ => false,
            },
        },
{
    match found {
        None => Event::CacheMiss,
        Some(bytes) => match decode_file_map(bytes) {
            Ok(files) => Event::CacheHit { files },
            Err(error) => Event::Failed { error },
        },
    }
}

/// The step that follows once the file map of `package` is known.
fn materialize(
    config: &InstallConfig,
    package: &FlatPackage,
    files: &Vec<FileEntry>,
    warm: bool,
) -> (r: (Stage, Action))
    ensures
        (r.0@, r.1@) == materializing(
            config.node_modules@,
            package@,
            file_map_view(files@),
            warm,
        ),
{
    if !all_paths_safe(files) || !has_distinct_paths(files) {
        return (Stage::Failed { error: InstallError::Cas }, Action::Finish);
    }
    let root = config.node_modules.as_str();
    let name = package.name.as_str();
    let version = package.version.as_str();
    let package_root = package_root(root, name, version);
    let action = Action::Materialize {
        directories: package_directories(root, name, version),
        chunks: materialize_plan(package_root.as_str(), files),
    };
    (Stage::Materializing { warm }, action)
}

/// The step that follows once the archive of `package` is fetched.
fn ingest(package: &FlatPackage, body: &Vec<u8>) -> (r: (Stage, Action))
    ensures
        (r.0@, r.1@) == ingested(package@, body@),
{
    match check_integrity(body.as_slice(), package.integrity.as_str()) {
        Err(error) => {
            return (Stage::Failed { error }, Action::Finish);
        },
        Ok(_) => {},
    }
    let archive = match decompress_gzip(body.as_slice()) {
        Ok(archive) => archive,
        Err(error) => {
            return (Stage::Failed { error }, Action::Finish);
        },
    };
    let files = match extract_tarball(archive.as_slice()) {
        Ok(files) => files,
        Err(error) => {
            return (Stage::Failed { error }, Action::Finish);
        },
    };
    let entries = file_map_of(&files);
    proof {
        let listed = entries_of(archive@)->0;
        files_are_sound(archive@, listed, listed.len() as int);
        distinct_files_give_distinct_entries(files_view(files@));
    }
    let file_map = match encode_file_map(&entries) {
        Ok(file_map) => file_map,
        Err(error) => {
            return (Stage::Failed { error }, Action::Finish);
        },
    };
    proof {
        let pairs = file_map_view(entries@);
        assert forall|i: int| 0 <= i < pairs.len() implies is_safe_path(
            (#[trigger] pairs[i]).0,
        ) by {
            assert(is_safe_path(files_view(files@)[i].path));
        }
        safety_depends_on_the_mapping(pairs);
    }
    match decode_file_map(file_map.as_slice()) {
        Ok(back) => {
            proof {
                same_entries_same_mapping(file_map_view(entries@), file_map_view(back@));
            }
            if !have_same_entries(&entries, &back) {
                return (Stage::Failed { error: InstallError::Cas }, Action::Finish);
            }
        },
        Err(error) => {
            return (Stage::Failed { error }, Action::Finish);
        },
    }
    let action = Action::Store {
        key: package.cacache_key(),
        archive,
        blobs: unique_blobs(&files),
        file_map,
    };
    (Stage::Storing { files: entries }, action)
}

/// What happens where an event does not move the pipeline on.
fn ignore_or_fail(state: Stage, event: Event) -> (r: (Stage, Action))
    ensures
        (r.0@, r.1@) == otherwise(state@, event@),
{
    match event {
        Event::Failed { error } => (Stage::Failed { error }, Action::Finish),
        _ => (state, Action::Wait),
    }
}

/// Installs a package, one step at a time. Given the stage the package's
/// pipeline is in and what its caller reports, the function returns the
/// next stage and what the caller is to do next. The steps follow one
/// another in a fixed order: the store is probed; on a hit the package is
/// materialized from the file map the store holds; on a miss the archive
/// is fetched, verified against the package's integrity string,
/// decompressed and extracted, its blobs and file map are stored, and the
/// package is materialized; then the links of its dependencies are
/// created, but for the dependencies in `excluded`. A failure reported by
/// the caller, and every failure of a check made here, ends the pipeline in
/// the stage `Failed`. An event that does not belong to the stage is
/// ignored.
pub fn install_package(
    config: &InstallConfig,
    package: &FlatPackage,
    excluded: &Vec<PackageId>,
    state: Stage,
    event: Event,
) -> (r: (Stage, Action))
    ensures
        (r.0@, r.1@) == step(
            config.node_modules@,
            package@,
            ids_view(excluded@),
            state@,
            event@,
        ),
{
    match state {
        Stage::Start => match event {
            Event::Begin => (Stage::Probing, Action::ProbeCache { key: package.cacache_key() }),
            _ => ignore_or_fail(Stage::Start, event),
        },
        Stage::Probing => match event {
            Event::CacheHit { files } => materialize(config, package, &files, true),
            Event::CacheMiss => (
                Stage::Fetching,
                Action::Fetch { url: package.tarball_url.clone() },
            ),
            _ => ignore_or_fail(Stage::Probing, event),
        },
        Stage::Fetching => match event {
            Event::Fetched { body } => ingest(package, &body),
            _ => ignore_or_fail(Stage::Fetching, event),
        },
        Stage::Storing { files } => match event {
            Event::Stored => {
                generate_script(config, package);
                materialize(config, package, &files, false)
            },
            _ => ignore_or_fail(Stage::Storing { files }, event),
        },
        Stage::Materializing { warm } => match event {
            Event::Materialized => (
                Stage::Linking { warm },
                Action::Link { slots: link_dependencies(package, config, excluded) },
            ),
            _ => ignore_or_fail(Stage::Materializing { warm }, event),
        },
        Stage::Linking { warm } => match event {
            Event::Linked => (
                Stage::Done {
                    outcome: if warm {
                        Outcome::SkippedExisting
                    } else {
                        Outcome::Installed
                    },
                },
                Action::Finish,
            ),
            _ => ignore_or_fail(Stage::Linking { warm }, event),
        },
        Stage::Done { outcome } => (Stage::Done { outcome }, Action::Finish),
        Stage::Failed { error } => (Stage::Failed { error }, Action::Finish),
    }
}

impl StageModel {
    /// How far the pipeline has come: the stages in their order, the two
    /// ends last.
    pub open spec fn rank(self) -> nat {
        match self {
            StageModel::Start => 0,
            StageModel::Probing => 1,
            StageModel::Fetching => 2,
            StageModel::Storing { .. } => 3,
            StageModel::Materializing { .. } => 4,
            StageModel::Linking { .. } => 5,
            StageModel::Done { .. } => 6,
            StageModel::Failed { .. } => 6,
        }
    }
}

/// Whether `action` is what a pipeline asks for on entering `stage`.
pub open spec fn asked_on_entering(action: ActionModel, stage: StageModel) -> bool {
    match action {
        ActionModel::ProbeCache { .. } => stage is Probing,
        ActionModel::Fetch { .. } => stage is Fetching,
        ActionModel::Store { .. } => stage is Storing,
        ActionModel::Materialize { .. } => stage is Materializing,
        ActionModel::Link { .. } => stage is Linking,
        ActionModel::Finish => stage.is_terminal(),
        ActionModel::Wait => false,
    }
}

/// The steps of a package follow one another in a fixed order. A step
/// either ignores its event, and then the stage stays and nothing is asked
/// for; or it moves the pipeline forward, and asks for the work of the
/// stage it enters. So the store is probed before the archive is fetched,
/// the archive is stored before the package is materialized, the package
/// is materialized before its links are created, and none of these is
/// asked for twice.
pub proof fn steps_follow_in_order(
    root: Seq<char>,
    package: PackageModel,
    excluded: Seq<IdModel>,
    stage: StageModel,
    event: EventModel,
)
    ensures
        ({
            let (next, action) = step(root, package, excluded, stage, event);
            if action is Wait {
                next == stage && !stage.is_terminal()
            } else {
                &&& asked_on_entering(action, next)
                &&& stage.rank() <= next.rank()
                &&& !stage.is_terminal() ==> stage.rank() < next.rank()
                &&& stage.is_terminal() ==> next == stage
            }
        }),
{
}

/// The stage a pipeline ends in, and what it asks for on the way, when it
/// starts in `stage` and its caller reports `events` one after the other.
pub open spec fn run(
    root: Seq<char>,
    package: PackageModel,
    excluded: Seq<IdModel>,
    stage: StageModel,
    events: Seq<EventModel>,
) -> (StageModel, Seq<ActionModel>)
    decreases events.len(),
{
    if events.len() == 0 {
        (stage, Seq::empty())
    } else {
        let (next, action) = step(root, package, excluded, stage, events[0]);
        let (last, actions) = run(root, package, excluded, next, events.drop_first());
        (last, seq![action] + actions)
    }
}

/// Whether no archive among the events has the integrity that `package` declares.
pub open spec fn every_body_mismatches(package: PackageModel, events: Seq<EventModel>) -> bool {
    forall|i: int|
        0 <= i < events.len() ==> (#[trigger] events[i] matches EventModel::Fetched { body }
            ==> !checksum_matches(body, package.integrity))
}

/// Whether the store is never reported to hold the package.
pub open spec fn store_is_cold(events: Seq<EventModel>) -> bool {
    forall|i: int| 0 <= i < events.len() ==> !(#[trigger] events[i] is CacheHit)
}

/// A pipeline that has ended stays where it is, and asks for nothing but
/// to be recorded.
pub proof fn ended_pipeline_stays(
    root: Seq<char>,
    package: PackageModel,
    excluded: Seq<IdModel>,
    stage: StageModel,
    events: Seq<EventModel>,
)
    requires
        stage.is_terminal(),
    ensures
        run(root, package, excluded, stage, events).0 == stage,
        run(root, package, excluded, stage, events).1.len() == events.len(),
        forall|i: int|
            0 <= i < events.len() ==> #[trigger] run(root, package, excluded, stage, events).1[i]
                is Finish,
    decreases events.len(),
{
    if events.len() > 0 {
        ended_pipeline_stays(root, package, excluded, stage, events.drop_first());
    }
}

/// The integrity gate, for one archive: a body whose digest is not the
/// declared one ends the pipeline with an integrity error that names both
/// digests, and nothing is asked for but to record it.
pub proof fn mismatch_fails_package(
    root: Seq<char>,
    package: PackageModel,
    excluded: Seq<IdModel>,
    body: Seq<u8>,
)
    requires
        !checksum_matches(body, package.integrity),
    ensures
        step(root, package, excluded, StageModel::Fetching, EventModel::Fetched { body }) == (
            StageModel::Failed {
                error: ErrorModel::Integrity {
                    expected: package.integrity,
                    actual: sri_digest(algorithm_of(package.integrity), body),
                },
            },
            ActionModel::Finish,
        ),
{
}

/// The integrity gate, for whole runs: where the store does not hold the
/// package and no fetched archive has the declared integrity, nothing is
/// ever written for the package, to the store or below the install root,
/// and the package is never reported as installed. This holds from every
/// stage before the archive is accepted, whatever the caller reports and
/// in whatever order.
pub proof fn integrity_gate(
    root: Seq<char>,
    package: PackageModel,
    excluded: Seq<IdModel>,
    stage: StageModel,
    events: Seq<EventModel>,
)
    requires
        stage is Start || stage is Probing || stage is Fetching || stage is Failed,
        store_is_cold(events),
        every_body_mismatches(package, events),
    ensures
        !(run(root, package, excluded, stage, events).0 is Done),
        forall|i: int|
            0 <= i < run(root, package, excluded, stage, events).1.len() ==> !(#[trigger] run(
                root,
                package,
                excluded,
                stage,
                events,
            ).1[i]).writes(),
    decreases events.len(),
{
    if events.len() > 0 {
        let (next, action) = step(root, package, excluded, stage, events[0]);
        let rest = events.drop_first();
        assert(!(events[0] is CacheHit));
        assert(events[0] matches EventModel::Fetched { body } ==> !checksum_matches(
            body,
            package.integrity,
        ));
        assert forall|i: int| 0 <= i < rest.len() implies !(#[trigger] rest[i] is CacheHit) by {
            assert(rest[i] == events[i + 1]);
        }
        assert forall|i: int| 0 <= i < rest.len() implies (#[trigger] rest[i] matches
            EventModel::Fetched { body } ==> !checksum_matches(body, package.integrity)) by {
            assert(rest[i] == events[i + 1]);
        }
        integrity_gate(root, package, excluded, next, rest);
        let (last, actions) = run(root, package, excluded, next, rest);
        let all = run(root, package, excluded, stage, events).1;
        assert(all == seq![action] + actions);
        assert forall|i: int| 0 <= i < all.len() implies !(#[trigger] all[i]).writes() by {
            if i > 0 {
                assert(all[i] == actions[i - 1]);
            }
        }
    }
}

/// Whether a stage lies on the way of a package that the store already
/// held, or is the end of a pipeline that failed.
pub open spec fn is_warm_or_failed(stage: StageModel) -> bool {
    match stage {
        StageModel::Materializing { warm } => warm,
        StageModel::Linking { warm } => warm,
        StageModel::Done { outcome } => outcome == Outcome::SkippedExisting,
        StageModel::Failed { .. } => true,
        _ => false,
    }
}

/// A package that the store holds is installed without the network: once
/// the store has answered with the package's file map, the archive is
/// never fetched and nothing is written to the store, whatever the caller
/// reports afterwards; and where the pipeline ends well, it reports the
/// package as skipped.
pub proof fn warm_store_needs_no_fetch(
    root: Seq<char>,
    package: PackageModel,
    excluded: Seq<IdModel>,
    stage: StageModel,
    events: Seq<EventModel>,
)
    requires
        is_warm_or_failed(stage) || (stage is Probing && events.len() > 0 && events[0] is CacheHit),
    ensures
        run(root, package, excluded, stage, events).0 is Done ==> run(
            root,
            package,
            excluded,
            stage,
            events,
        ).0 == (StageModel::Done { outcome: Outcome::SkippedExisting }),
        forall|i: int|
            0 <= i < run(root, package, excluded, stage, events).1.len() ==> {
                let action = #[trigger] run(root, package, excluded, stage, events).1[i];
                !(action is Fetch) && !(action is Store)
            },
    decreases events.len(),
{
    if events.len() > 0 {
        let (next, action) = step(root, package, excluded, stage, events[0]);
        let rest = events.drop_first();
        assert(is_warm_or_failed(next));
        warm_store_needs_no_fetch(root, package, excluded, next, rest);
        let (last, actions) = run(root, package, excluded, next, rest);
        let all = run(root, package, excluded, stage, events).1;
        assert(all == seq![action] + actions);
        assert forall|i: int| 0 <= i < all.len() implies !(#[trigger] all[i] is Fetch) && !(all[i]
            is Store) by {
            if i > 0 {
                assert(all[i] == actions[i - 1]);
            }
        }
    }
}

/// Materializing a package from the store writes what materializing it
/// from its archive wrote. Where the file map that the store hands back
/// spells out the mapping that was stored, the step after a hit and the
/// step after storing ask for the same directories and the same writes,
/// in whatever order the store lists the entries.
pub proof fn warm_plan_writes_what_the_cold_plan_wrote(
    root: Seq<char>,
    package: PackageModel,
    excluded: Seq<IdModel>,
    stored: Seq<EntryPair>,
    found: Seq<EntryPair>,
    write: StepModel,
)
    requires
        paths_safe(stored),
        paths_distinct(stored),
        paths_distinct(found),
        lookup(stored) == lookup(found),
    ensures
        ({
            let cold = step(
                root,
                package,
                excluded,
                StageModel::Storing { files: stored },
                EventModel::Stored,
            );
            let warm = step(
                root,
                package,
                excluded,
                StageModel::Probing,
                EventModel::CacheHit { files: found },
            );
            let target = package_root_of(root, package.id());
            &&& cold.0 == StageModel::Materializing { warm: false }
            &&& warm.0 == StageModel::Materializing { warm: true }
            &&& cold.1 == ActionModel::Materialize {
                directories: package_dirs(root, package.id()),
                chunks: chunked_plan(target, stored),
            }
            &&& warm.1 == ActionModel::Materialize {
                directories: package_dirs(root, package.id()),
                chunks: chunked_plan(target, found),
            }
            &&& is_written(target, stored, write) <==> is_written(target, found, write)
        }),
{
    safety_depends_on_the_mapping(stored);
    safety_depends_on_the_mapping(found);
    plans_of_one_mapping_write_the_same(package_root_of(root, package.id()), stored, found, write);
}

/// What goes to the store reads back: where an archive is accepted, the
/// text of the file map that is stored spells out the mapping of the
/// files that the archive holds, and these have safe paths, each once.
pub proof fn stored_file_map_reads_back(package: PackageModel, body: Seq<u8>)
    requires
        ingested(package, body).1 is Store,
    ensures
        ({
            let (stage, action) = ingested(package, body);
            &&& stage is Storing
            &&& json_file_map(action->Store_file_map) == Some(lookup(stage->Storing_files))
            &&& paths_distinct(stage->Storing_files)
            &&& paths_safe(stage->Storing_files)
        }),
{
    let archive = decompressed(body)->0;
    let files = extracted(archive)->0;
    let listed = entries_of(archive)->0;
    files_are_sound(archive, listed, listed.len() as int);
    distinct_files_give_distinct_entries(files);
    let pairs = entries_of_files(files);
    assert forall|i: int| 0 <= i < pairs.len() implies is_safe_path((#[trigger] pairs[i]).0) by {
        assert(is_safe_path(files[i].path));
    }
}

/// A package that was installed from its archive is installed from the
/// store with the same files. Where the store hands back the text that a
/// cold install stored, every list of entries that the text spells out,
/// in whatever order, gives a plan with the writes of the cold plan.
pub proof fn reinstall_from_the_store_writes_the_same_files(
    root: Seq<char>,
    package: PackageModel,
    excluded: Seq<IdModel>,
    body: Seq<u8>,
    found: Seq<EntryPair>,
    write: StepModel,
)
    requires
        ingested(package, body).1 is Store,
        paths_distinct(found),
        json_file_map(ingested(package, body).1->Store_file_map) == Some(lookup(found)),
    ensures
        ({
            let stored = ingested(package, body).0->Storing_files;
            let target = package_root_of(root, package.id());
            let warm = step(
                root,
                package,
                excluded,
                StageModel::Probing,
                EventModel::CacheHit { files: found },
            );
            &&& warm.0 == StageModel::Materializing { warm: true }
            &&& warm.1 == ActionModel::Materialize {
                directories: package_dirs(root, package.id()),
                chunks: chunked_plan(target, found),
            }
            &&& is_written(target, stored, write) <==> is_written(target, found, write)
        }),
{
    stored_file_map_reads_back(package, body);
    let stored = ingested(package, body).0->Storing_files;
    warm_plan_writes_what_the_cold_plan_wrote(root, package, excluded, stored, found, write);
}

/// With a warm store and a caller that reports success, the pipeline runs
/// from its start to the end in four steps: it probes the store,
/// materializes the package from the file map, links its dependencies, and
/// reports the package as skipped.
pub proof fn warm_install_succeeds(
    root: Seq<char>,
    package: PackageModel,
    excluded: Seq<IdModel>,
    files: Seq<EntryPair>,
)
    requires
        paths_safe(files),
        paths_distinct(files),
    ensures
        run(
            root,
            package,
            excluded,
            StageModel::Start,
            seq![
                EventModel::Begin,
                EventModel::CacheHit { files },
                EventModel::Materialized,
                EventModel::Linked,
            ],
        ) == (
            StageModel::Done { outcome: Outcome::SkippedExisting },
            seq![
                ActionModel::ProbeCache {
                    key: package_key(package.name, package.version, package.integrity),
                },
                ActionModel::Materialize {
                    directories: package_dirs(root, package.id()),
                    chunks: chunked_plan(package_root_of(root, package.id()), files),
                },
                ActionModel::Link { slots: links_wanted(root, package, excluded) },
                ActionModel::Finish,
            ],
        ),
{
    let e0 = EventModel::Begin;
    let e1 = EventModel::CacheHit { files };
    let e2 = EventModel::Materialized;
    let e3 = EventModel::Linked;
    let all = seq![e0, e1, e2, e3];
    let s1 = StageModel::Probing;
    let s2 = StageModel::Materializing { warm: true };
    let s3 = StageModel::Linking { warm: true };
    let s4 = StageModel::Done { outcome: Outcome::SkippedExisting };
    assert(all.drop_first() =~= seq![e1, e2, e3]);
    assert(seq![e1, e2, e3].drop_first() =~= seq![e2, e3]);
    assert(seq![e2, e3].drop_first() =~= seq![e3]);
    assert(seq![e3].drop_first() =~= Seq::<EventModel>::empty());
    let r4 = run(root, package, excluded, s4, Seq::<EventModel>::empty());
    assert(r4 == (s4, Seq::<ActionModel>::empty()));
    let r3 = run(root, package, excluded, s3, seq![e3]);
    assert(r3.0 == s4);
    assert(r3.1 =~= seq![ActionModel::Finish]);
    let r2 = run(root, package, excluded, s2, seq![e2, e3]);
    assert(r2.0 == s4);
    assert(r2.1 =~= seq![
        ActionModel::Link { slots: links_wanted(root, package, excluded) },
        ActionModel::Finish,
    ]);
    let r1 = run(root, package, excluded, s1, seq![e1, e2, e3]);
    assert(r1.0 == s4);
    assert(r1.1 =~= seq![
        ActionModel::Materialize {
            directories: package_dirs(root, package.id()),
            chunks: chunked_plan(package_root_of(root, package.id()), files),
        },
        ActionModel::Link { slots: links_wanted(root, package, excluded) },
        ActionModel::Finish,
    ]);
    let r0 = run(root, package, excluded, StageModel::Start, all);
    assert(r0.0 == s4);
    assert(r0.1 =~= seq![
        ActionModel::ProbeCache {
            key: package_key(package.name, package.version, package.integrity),
        },
        ActionModel::Materialize {
            directories: package_dirs(root, package.id()),
            chunks: chunked_plan(package_root_of(root, package.id()), files),
        },
        ActionModel::Link { slots: links_wanted(root, package, excluded) },
        ActionModel::Finish,
    ]);
}

/// What is written below a package's root is what its archive holds:
/// file `i` of the archive is written by chunk `i / 6` of the plan, as
/// write `i % 6` of that chunk, under its sanitized path below `root` and
/// with the digest of the bytes that the archive has for it.
pub proof fn materialized_files_match_archive(root: Seq<char>, archive: Seq<u8>, i: int)
    requires
        extracted(archive) is Some,
        0 <= i < extracted(archive)->0.len(),
    ensures
        ({
            let files = extracted(archive)->0;
            let plan = chunked_plan(root, entries_of_files(files));
            let file = files[i];
            &&& plan.len() * 6 >= files.len() > (plan.len() - 1) * 6
            &&& is_safe_path(file.path)
            &&& 0 <= i % 6 < writes_in(plan[i / 6]).len()
            &&& writes_in(plan[i / 6])[i % 6] == (StepModel::WriteFile {
                path: joined(root, file.path),
                digest: blob_digest(archive.subrange(file.start, file.start + file.size)),
            })
        }),
{
    let entries = entries_of(archive)->0;
    let files = extracted(archive)->0;
    files_are_sound(archive, entries, entries.len() as int);
    let pairs = entries_of_files(files);
    chunks_cover_file_map(root, pairs, i);
    assert(pairs[i] == (files[i].path, files[i].digest));
}

} // verus!
