//! Builds and applies binary patches that turn an upstream server artifact into its
//! derivative build, with the per-version decisions, payload resolution, diffing and
//! integrity metadata verified.
use vstd::prelude::*;

pub mod archive;
pub mod config;
pub mod diff_engine;
pub mod digest;
pub mod error;
pub mod maven;
pub mod payload;
pub mod pipeline;
pub mod text;
pub mod util;
pub mod version;
pub mod version_id;

pub use error::PipelineError;
pub use version_id::MinecraftVersion;

verus! {

/// The user agent being used for all HTTP requests.
pub const USER_AGENT: &'static str =
    "Mozilla/5.0 (Windows NT 10.0; Win64; x64; rv:131.0) Gecko/20100101 Firefox/131.0";

/// The directory inside a multi-release archive that holds nested payloads.
pub const JAR_VERSIONS_PATH: &'static str = "META-INF/versions/";

/// The manifest list of a multi-release archive.
pub const JAR_VERSIONS_LIST: &'static str = "META-INF/versions.list";

/// A release identifier inside a longer name.
pub const MINECRAFT_VERSION_REGEX: &'static str = r"(1\.\d{1,2}(?:\.\d{1,2})?)";

/// The file name of an upstream server payload.
pub const SERVER_JAR_REGEX: &'static str = r"server-(1\.\d{1,2}(?:\.\d{1,2})?)\.jar";

/// The file name of a derivative server payload nested in a launcher archive.
pub const SPIGOT_SERVER_JAR_REGEX: &'static str = r"spigot-(1\.\d{1,2}(?:\.\d{1,2})?)-R0.1-SNAPSHOT\.jar";

/// Where upstream artifacts are served by content digest.
pub const PISTON_DATA_BASE_URL: &'static str = "https://piston-data.mojang.com/v1/objects";

} // verus!
