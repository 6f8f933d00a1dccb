//! The per-version build pipeline: from fetched provenance to a persisted record, with the
//! decision to reuse a cached patch, as a state machine driven by the outcomes of the steps
//! that the caller performs.
use vstd::prelude::*;

use crate::config::PatchedVersionMeta;
use crate::error::PipelineError;
use crate::version::spigot::{SpigotBuildData, SpigotVersionRefs};
use crate::PISTON_DATA_BASE_URL;

verus! {

/// A cached record can be reused: it exists, was built from the same provenance, no
/// rebuild was forced, and its patch file is still present.
pub open spec fn skip_spec(
    remote: SpigotVersionRefs,
    cached: Option<PatchedVersionMeta>,
    force: bool,
    patch_present: bool,
) -> bool {
    &&& cached is Some
    &&& cached->0.commit_hashes@ == remote@
    &&& !force
    &&& patch_present
}

/// A cached record is stale when its provenance differs from the fetched one.
pub fn is_stale(remote: &SpigotVersionRefs, cached: &PatchedVersionMeta) -> (r: bool)
    ensures
        r == (remote@ != cached.commit_hashes@),
{
    !remote.same_as(&cached.commit_hashes)
}

/// Whether the cached build of a version can be reused instead of rebuilding it. An
/// unreadable record is passed as `None`, exactly like a missing one.
pub fn should_skip(
    remote: &SpigotVersionRefs,
    cached: &Option<PatchedVersionMeta>,
    force: bool,
    patch_present: bool,
) -> (r: bool)
    ensures
        r == skip_spec(*remote, *cached, force, patch_present),
{
    match cached {
        Some(record) => !is_stale(remote, record) && !force && patch_present,
        None => false,
    }
}

/// The stages of one version's processing.
#[derive(Clone, Debug, PartialEq, Eq)]
pub enum BuildState {
    Init,
    ProvenanceFetched(SpigotVersionRefs),
    SkipCached,
    Building(SpigotVersionRefs),
    /// The external build succeeded; its payloads are still to be located.
    Built(SpigotVersionRefs),
    PayloadsResolved(SpigotVersionRefs),
    Diffed(SpigotVersionRefs),
    MetadataPersisted,
    Failed(PipelineError),
}

/// The outcome of the step that the caller performed.
#[derive(Clone, Debug, PartialEq, Eq)]
pub enum BuildEvent {
    /// The provenance of the version was fetched.
    Provenance(SpigotVersionRefs),
    /// The cached record was read (`None` when missing or unreadable), and whether the
    /// patch file it names is present.
    Cache { record: Option<PatchedVersionMeta>, patch_present: bool },
    /// The external build exited with this code.
    BuildExited(i32),
    /// Both payloads were located.
    PayloadsFound,
    /// The patch file was written.
    PatchWritten,
    /// The record was written.
    RecordWritten,
    /// The step failed.
    StepFailed(PipelineError),
}

/// What the caller has to do next.
#[derive(Clone, Copy, Debug, PartialEq, Eq, Structural)]
pub enum BuildAction {
    FetchProvenance,
    ReadCache,
    RunBuild,
    LocatePayloads,
    WritePatch,
    WriteRecord,
    Done,
}

pub open spec fn is_terminal(s: BuildState) -> bool {
    s is SkipCached || s is MetadataPersisted || s is Failed
}

pub open spec fn step_spec(state: BuildState, event: BuildEvent, force: bool) -> BuildState {
    if is_terminal(state) {
        state
    } else {
        match event {
            BuildEvent::StepFailed(e) => BuildState::Failed(e),
            BuildEvent::Provenance(refs) => if state is Init {
                BuildState::ProvenanceFetched(refs)
            } else {
                state
            },
            BuildEvent::Cache { record, patch_present } => match state {
                BuildState::ProvenanceFetched(refs) => if skip_spec(
                    refs,
                    record,
                    force,
                    patch_present,
                ) {
                    BuildState::SkipCached
                } else {
                    BuildState::Building(refs)
                },
                _ => state,
            },
            BuildEvent::BuildExited(code) => match state {
                BuildState::Building(refs) => if code != 0 {
                    BuildState::Failed(PipelineError::BuildFailed(code))
                } else {
                    BuildState::Built(refs)
                },
                _ => state,
            },
            BuildEvent::PayloadsFound => match state {
                BuildState::Built(refs) => BuildState::PayloadsResolved(refs),
                _ => state,
            },
            BuildEvent::PatchWritten => match state {
                BuildState::PayloadsResolved(refs) => BuildState::Diffed(refs),
                _ => state,
            },
            BuildEvent::RecordWritten => match state {
                BuildState::Diffed(_) => BuildState::MetadataPersisted,
                _ => state,
            },
        }
    }
}

pub open spec fn action_spec(state: BuildState) -> BuildAction {
    match state {
        BuildState::Init => BuildAction::FetchProvenance,
        BuildState::ProvenanceFetched(_) => BuildAction::ReadCache,
        BuildState::Building(_) => BuildAction::RunBuild,
        BuildState::Built(_) => BuildAction::LocatePayloads,
        BuildState::PayloadsResolved(_) => BuildAction::WritePatch,
        BuildState::Diffed(_) => BuildAction::WriteRecord,
        _ => BuildAction::Done,
    }
}

/// The next state after `event`. Terminal states stay as they are; a failure is final for
/// the version; an event that does not belong to the current stage changes nothing.
pub fn step(state: BuildState, event: BuildEvent, force: bool) -> (r: BuildState)
    ensures
        r == step_spec(state, event, force),
{
    match state {
        BuildState::SkipCached | BuildState::MetadataPersisted | BuildState::Failed(_) => {
            return state;
        },
        _ => {},
    }
    match event {
        BuildEvent::StepFailed(e) => BuildState::Failed(e),
        BuildEvent::Provenance(refs) => match state {
            BuildState::Init => BuildState::ProvenanceFetched(refs),
            _ => state,
        },
        BuildEvent::Cache { record, patch_present } => match state {
            BuildState::ProvenanceFetched(refs) => {
                if should_skip(&refs, &record, force, patch_present) {
                    BuildState::SkipCached
                } else {
                    BuildState::Building(refs)
                }
            },
            _ => state,
        },
        BuildEvent::BuildExited(code) => match state {
            BuildState::Building(refs) => {
                if code != 0 {
                    BuildState::Failed(PipelineError::BuildFailed(code))
                } else {
                    BuildState::Built(refs)
                }
            },
            _ => state,
        },
        BuildEvent::PayloadsFound => match state {
            BuildState::Built(refs) => BuildState::PayloadsResolved(refs),
            _ => state,
        },
        BuildEvent::PatchWritten => match state {
            BuildState::PayloadsResolved(refs) => BuildState::Diffed(refs),
            _ => state,
        },
        BuildEvent::RecordWritten => match state {
            BuildState::Diffed(_) => BuildState::MetadataPersisted,
            _ => state,
        },
    }
}

/// The step the caller performs in `state`.
pub fn next_action(state: &BuildState) -> (r: BuildAction)
    ensures
        r == action_spec(*state),
{
    match state {
        BuildState::Init => BuildAction::FetchProvenance,
        BuildState::ProvenanceFetched(_) => BuildAction::ReadCache,
        BuildState::Building(_) => BuildAction::RunBuild,
        BuildState::Built(_) => BuildAction::LocatePayloads,
        BuildState::PayloadsResolved(_) => BuildAction::WritePatch,
        BuildState::Diffed(_) => BuildAction::WriteRecord,
        _ => BuildAction::Done,
    }
}

/// Idempotent skip: with a valid cached record built from the fetched provenance, its patch
/// present and no forced rebuild, the version is skipped: nothing is built and nothing is
/// written.
pub proof fn lemma_idempotent_skip(remote: SpigotVersionRefs, record: PatchedVersionMeta)
    requires
        record.commit_hashes@ == remote@,
    ensures
        step_spec(
            BuildState::ProvenanceFetched(remote),
            BuildEvent::Cache { record: Some(record), patch_present: true },
            false,
        ) == BuildState::SkipCached,
        action_spec(BuildState::SkipCached) == BuildAction::Done,
{
}

/// Staleness triggers a rebuild: when any field of the fetched provenance differs from the
/// cached record's, the version is rebuilt, whatever else holds.
pub proof fn lemma_stale_provenance_rebuilds(
    remote: SpigotVersionRefs,
    record: PatchedVersionMeta,
    force: bool,
    patch_present: bool,
)
    requires
        remote.build_data@ != record.commit_hashes.build_data@ || remote.bukkit@
            != record.commit_hashes.bukkit@ || remote.craft_bukkit@
            != record.commit_hashes.craft_bukkit@ || remote.spigot@ != record.commit_hashes.spigot@,
    ensures
        step_spec(
            BuildState::ProvenanceFetched(remote),
            BuildEvent::Cache { record: Some(record), patch_present },
            force,
        ) == BuildState::Building(remote),
{
}

/// Corrupted record recovery: a record that is missing or cannot be read leads to a
/// rebuild, never to a failure.
pub proof fn lemma_unreadable_record_rebuilds(
    remote: SpigotVersionRefs,
    force: bool,
    patch_present: bool,
)
    ensures
        step_spec(
            BuildState::ProvenanceFetched(remote),
            BuildEvent::Cache { record: None, patch_present },
            force,
        ) == BuildState::Building(remote),
{
}

/// A forced rebuild never reuses the cache, even with unchanged provenance.
pub proof fn lemma_force_rebuilds(
    remote: SpigotVersionRefs,
    record: Option<PatchedVersionMeta>,
    patch_present: bool,
)
    ensures
        step_spec(
            BuildState::ProvenanceFetched(remote),
            BuildEvent::Cache { record, patch_present },
            true,
        ) == BuildState::Building(remote),
{
}

/// Failures stay with the version: a failed step ends it in `Failed`, from any stage that
/// is not terminal, and a terminal stage is never left.
pub proof fn lemma_failure_is_final(state: BuildState, e: PipelineError, event: BuildEvent, force: bool)
    ensures
        !is_terminal(state) ==> step_spec(state, BuildEvent::StepFailed(e), force)
            == BuildState::Failed(e),
        is_terminal(state) ==> step_spec(state, event, force) == state,
{
}

/// The file name of a version's patch.
pub fn patch_file_name(version: &str) -> (r: String)
    ensures
        r@ == version@ + ".patch"@,
{
    String::from_str(version).concat(".patch")
}

/// The file name of a version's record.
pub fn record_file_name(version: &str) -> (r: String)
    ensures
        r@ == version@ + ".json"@,
{
    String::from_str(version).concat(".json")
}

/// The download address of the upstream artifact: the one the build's own data names when
/// it could be read, else the content-addressed one derived from the artifact's digest.
pub fn vanilla_download_url(build_data: Option<SpigotBuildData>, vanilla_hash: &str) -> (r: String)
    ensures
        build_data matches Some(d) ==> r@ == d.server_url@,
        build_data is None ==> r@ == PISTON_DATA_BASE_URL@ + "/"@ + vanilla_hash@
            + "/server.jar"@,
{
    match build_data {
        Some(d) => d.server_url,
        None => String::from_str(PISTON_DATA_BASE_URL).concat("/").concat(vanilla_hash).concat(
            "/server.jar",
        ),
    }
}

/// The record of a version built from `refs`, with the digests of its patch and artifacts.
pub fn assemble_record(
    version: &str,
    refs: SpigotVersionRefs,
    patch_hash: String,
    vanilla_jar_hash: String,
    patched_jar_hash: String,
    vanilla_download_url: String,
) -> (r: PatchedVersionMeta)
    ensures
        r.patch_file@ == version@ + ".patch"@,
        r.commit_hashes == refs,
        r.patch_hash == patch_hash,
        r.vanilla_jar_hash == vanilla_jar_hash,
        r.patched_jar_hash == patched_jar_hash,
        r.vanilla_download_url == vanilla_download_url,
{
    PatchedVersionMeta {
        patch_file: patch_file_name(version),
        commit_hashes: refs,
        patch_hash,
        vanilla_jar_hash,
        patched_jar_hash,
        vanilla_download_url,
    }
}

/// The arguments of the external build: the build tool archive and the version to build.
pub fn build_arguments(buildtools_jar: &str, version: &str) -> (r: Vec<String>)
    ensures
        r@.len() == 4,
        r@[0]@ == "-jar"@,
        r@[1]@ == buildtools_jar@,
        r@[2]@ == "--rev"@,
        r@[3]@ == version@,
{
    let mut args: Vec<String> = Vec::new();
    args.push(String::from_str("-jar"));
    args.push(String::from_str(buildtools_jar));
    args.push(String::from_str("--rev"));
    args.push(String::from_str(version));
    args
}

} // verus!
