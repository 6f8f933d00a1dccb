//! The release index and per-release metadata as the launcher metadata service serves them.
use vstd::prelude::*;

verus! {

#[derive(Clone, Debug, PartialEq, Eq)]
pub struct PistonLatestVersions {
    pub release: String,
    pub snapshot: String,
}

#[derive(Clone, Debug, PartialEq, Eq)]
pub struct PistonVersion {
    pub id: String,
    pub url: String,
    pub version_type: String,
}

#[derive(Clone, Debug, PartialEq, Eq)]
pub struct PistonVersionsResponse {
    pub latest: PistonLatestVersions,
    pub versions: Vec<PistonVersion>,
}

#[derive(Clone, Debug, PartialEq, Eq)]
pub struct PistonVersionDownload {
    pub url: String,
}

#[derive(Clone, Debug, PartialEq, Eq)]
pub struct PistonVersionDownloads {
    pub server: PistonVersionDownload,
    pub server_mappings: PistonVersionDownload,
}

#[derive(Clone, Debug, PartialEq, Eq)]
pub struct PistonVersionMeta {
    pub downloads: PistonVersionDownloads,
}

} // verus!
