use bin_patch_gen::config::{runtime_home, Config, PatchedVersionMeta};
use bin_patch_gen::pipeline::{
    assemble_record, build_arguments, is_stale, next_action, patch_file_name, record_file_name,
    should_skip, step, vanilla_download_url, BuildAction, BuildEvent, BuildState,
};
use bin_patch_gen::version::spigot::{SpigotBuildData, SpigotVersionMeta, SpigotVersionRefs};
use bin_patch_gen::{MinecraftVersion, PipelineError};

fn refs() -> SpigotVersionRefs {
    SpigotVersionRefs {
        build_data: "bd1".to_string(),
        bukkit: "b1".to_string(),
        craft_bukkit: "cb1".to_string(),
        spigot: "s1".to_string(),
    }
}

fn record(r: SpigotVersionRefs) -> PatchedVersionMeta {
    assemble_record(
        "1.8",
        r,
        "ph".to_string(),
        "vh".to_string(),
        "sh".to_string(),
        "https://example.invalid/server.jar".to_string(),
    )
}

/// Drives one version through the pipeline with the given cache and outcomes.
fn run_version(cached: Option<PatchedVersionMeta>, patch_present: bool, force: bool) -> (BuildState, u32) {
    let mut state = BuildState::Init;
    let mut builds = 0u32;
    loop {
        let event = match next_action(&state) {
            BuildAction::FetchProvenance => BuildEvent::Provenance(refs()),
            BuildAction::ReadCache => BuildEvent::Cache { record: cached.clone(), patch_present },
            BuildAction::RunBuild => {
                builds += 1;
                BuildEvent::BuildExited(0)
            }
            BuildAction::LocatePayloads => BuildEvent::PayloadsFound,
            BuildAction::WritePatch => BuildEvent::PatchWritten,
            BuildAction::WriteRecord => BuildEvent::RecordWritten,
            BuildAction::Done => return (state, builds),
        };
        state = step(state, event, force);
    }
}

#[test]
fn idempotent_skip_builds_nothing() {
    let (state, builds) = run_version(Some(record(refs())), true, false);
    assert_eq!(state, BuildState::SkipCached);
    assert_eq!(builds, 0);
}

#[test]
fn staleness_of_each_field_triggers_rebuild() {
    let variants = [
        SpigotVersionRefs { build_data: "x".to_string(), ..refs() },
        SpigotVersionRefs { bukkit: "x".to_string(), ..refs() },
        SpigotVersionRefs { craft_bukkit: "x".to_string(), ..refs() },
        SpigotVersionRefs { spigot: "x".to_string(), ..refs() },
    ];
    for cached in variants {
        assert!(is_stale(&refs(), &record(cached.clone())));
        assert!(!should_skip(&refs(), &Some(record(cached.clone())), false, true));
        let (state, builds) = run_version(Some(record(cached)), true, false);
        assert_eq!(state, BuildState::MetadataPersisted);
        assert_eq!(builds, 1);
    }
}

#[test]
fn end_to_end_twice_then_forced() {
    let (first, builds) = run_version(None, false, false);
    assert_eq!(first, BuildState::MetadataPersisted);
    assert_eq!(builds, 1);
    let (second, builds) = run_version(Some(record(refs())), true, false);
    assert_eq!(second, BuildState::SkipCached);
    assert_eq!(builds, 0);
    let (forced, builds) = run_version(Some(record(refs())), true, true);
    assert_eq!(forced, BuildState::MetadataPersisted);
    assert_eq!(builds, 1);
}

#[test]
fn corrupted_record_rebuilds() {
    let (state, builds) = run_version(None, true, false);
    assert_eq!(state, BuildState::MetadataPersisted);
    assert_eq!(builds, 1);
}

#[test]
fn missing_patch_file_rebuilds() {
    assert!(!should_skip(&refs(), &Some(record(refs())), false, false));
    assert!(should_skip(&refs(), &Some(record(refs())), false, true));
}

#[test]
fn build_failure_is_final() {
    let s = step(BuildState::Building(refs()), BuildEvent::BuildExited(3), false);
    assert_eq!(s, BuildState::Failed(PipelineError::BuildFailed(3)));
    assert_eq!(next_action(&s), BuildAction::Done);
    let s2 = step(s.clone(), BuildEvent::PayloadsFound, false);
    assert_eq!(s2, s);
}

#[test]
fn step_failure_from_any_stage() {
    let states = [
        BuildState::Init,
        BuildState::ProvenanceFetched(refs()),
        BuildState::Building(refs()),
        BuildState::Built(refs()),
        BuildState::PayloadsResolved(refs()),
        BuildState::Diffed(refs()),
    ];
    for s in states {
        assert_eq!(
            step(s, BuildEvent::StepFailed(PipelineError::PayloadNotFound), false),
            BuildState::Failed(PipelineError::PayloadNotFound)
        );
    }
    assert_eq!(
        step(BuildState::SkipCached, BuildEvent::StepFailed(PipelineError::DiffFailed), false),
        BuildState::SkipCached
    );
}

#[test]
fn out_of_order_event_changes_nothing() {
    assert_eq!(step(BuildState::Init, BuildEvent::PatchWritten, false), BuildState::Init);
    assert_eq!(
        step(BuildState::Building(refs()), BuildEvent::PayloadsFound, false),
        BuildState::Building(refs())
    );
}

#[test]
fn successful_build_then_locate() {
    let built = step(BuildState::Building(refs()), BuildEvent::BuildExited(0), false);
    assert_eq!(built, BuildState::Built(refs()));
    assert_eq!(next_action(&built), BuildAction::LocatePayloads);
    assert_eq!(next_action(&BuildState::Building(refs())), BuildAction::RunBuild);
    assert_eq!(step(built, BuildEvent::PayloadsFound, false), BuildState::PayloadsResolved(refs()));
}

#[test]
fn download_url_prefers_build_data() {
    let d = SpigotBuildData { server_url: "https://launcher.example/server.jar".to_string() };
    assert_eq!(vanilla_download_url(Some(d), "abc"), "https://launcher.example/server.jar");
    assert_eq!(
        vanilla_download_url(None, "0123abcd"),
        "https://piston-data.mojang.com/v1/objects/0123abcd/server.jar"
    );
}

#[test]
fn record_fields() {
    let r = record(refs());
    assert_eq!(r.patch_file, "1.8.patch");
    assert_eq!(r.commit_hashes, refs());
    assert_eq!(r.patch_hash, "ph");
    assert_eq!(r.vanilla_jar_hash, "vh");
    assert_eq!(r.patched_jar_hash, "sh");
    assert_eq!(patch_file_name("1.21.3"), "1.21.3.patch");
    assert_eq!(record_file_name("1.21.3"), "1.21.3.json");
}

#[test]
fn build_arguments_order() {
    assert_eq!(build_arguments("/tmp/BuildTools.jar", "1.8"), vec!["-jar", "/tmp/BuildTools.jar", "--rev", "1.8"]);
}

#[test]
fn refs_equality_by_field() {
    let meta = SpigotVersionMeta { name: "1.8".to_string(), description: String::new(), refs: refs() };
    assert!(meta.refs_eq(refs()));
    assert!(!meta.refs_eq(SpigotVersionRefs { spigot: "s2".to_string(), ..refs() }));
}

#[test]
fn java_homes() {
    let c = Config {
        java_8_home: "/j8".to_string(),
        java_16_home: "/j16".to_string(),
        java_17_home: "/j17".to_string(),
        java_21_home: "/j21".to_string(),
    };
    assert_eq!(c.java_home(8), "/j8");
    assert_eq!(c.java_home(16), "/j16");
    assert_eq!(c.java_home(17), "/j17");
    assert_eq!(c.java_home(21), "/j21");
    assert_eq!(runtime_home(&c, &MinecraftVersion::of("1.18.2".to_string()).unwrap()), "/j17");
    assert_eq!(runtime_home(&c, &MinecraftVersion::of("1.8".to_string()).unwrap()), "/j8");
    assert_eq!(
        Config::from_homes(Some("a".to_string()), Some("b".to_string()), Some("c".to_string()), Some("d".to_string())),
        Some(Config {
            java_8_home: "a".to_string(),
            java_16_home: "b".to_string(),
            java_17_home: "c".to_string(),
            java_21_home: "d".to_string(),
        })
    );
    assert_eq!(Config::from_homes(Some("a".to_string()), None, Some("c".to_string()), Some("d".to_string())), None);
}
