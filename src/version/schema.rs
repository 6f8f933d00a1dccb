//! The upstream release index and per-release metadata.
use vstd::prelude::*;

verus! {

#[derive(Clone, Debug, PartialEq, Eq)]
pub struct LatestVersions {
    pub release: String,
    pub snapshot: String,
}

#[derive(Clone, Debug, PartialEq, Eq)]
pub struct Version {
    pub id: String,
    pub url: String,
    pub version_type: String,
}

#[derive(Clone, Debug, PartialEq, Eq)]
pub struct VersionsResponse {
    pub latest: LatestVersions,
    pub versions: Vec<Version>,
}

#[derive(Clone, Debug, PartialEq, Eq)]
pub struct VersionDownload {
    pub url: String,
}

#[derive(Clone, Debug, PartialEq, Eq)]
pub struct VersionDownloads {
    pub server: VersionDownload,
    pub server_mappings: VersionDownload,
}

#[derive(Clone, Debug, PartialEq, Eq)]
pub struct VersionMeta {
    pub downloads: VersionDownloads,
}

} // verus!
