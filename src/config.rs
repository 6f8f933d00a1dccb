//! Runtime installations per required major version, and the persisted per-version record.
use vstd::prelude::*;

use crate::version::spigot::SpigotVersionRefs;
use crate::version_id::{java_version_for, MinecraftVersion};

verus! {

/// The runtime major versions that builds may need.
pub open spec fn is_java_key(version: u8) -> bool {
    version == 8 || version == 16 || version == 17 || version == 21
}

/// The installation path of each supported runtime major version.
#[derive(Clone, Debug, PartialEq, Eq)]
pub struct Config {
    pub java_8_home: String,
    pub java_16_home: String,
    pub java_17_home: String,
    pub java_21_home: String,
}

impl Config {
    pub open spec fn home_of(&self, version: u8) -> Seq<char> {
        if version == 8 {
            self.java_8_home@
        } else if version == 16 {
            self.java_16_home@
        } else if version == 17 {
            self.java_17_home@
        } else {
            self.java_21_home@
        }
    }

    /// The installation of runtime major version `version`, one of the supported keys.
    pub fn java_home(&self, version: u8) -> (r: String)
        requires
            is_java_key(version),
        ensures
            r@ == self.home_of(version),
    {
        if version == 8 {
            self.java_8_home.clone()
        } else if version == 16 {
            self.java_16_home.clone()
        } else if version == 17 {
            self.java_17_home.clone()
        } else {
            self.java_21_home.clone()
        }
    }

    /// A configuration from per-version settings taken from elsewhere (the environment),
    /// used only when every supported version has one.
    pub fn from_homes(
        java_8: Option<String>,
        java_16: Option<String>,
        java_17: Option<String>,
        java_21: Option<String>,
    ) -> (r: Option<Config>)
        ensures
            r is Some <==> (java_8 is Some && java_16 is Some && java_17 is Some && java_21 is Some),
            r matches Some(c) ==> c.java_8_home == java_8->0 && c.java_16_home == java_16->0
                && c.java_17_home == java_17->0 && c.java_21_home == java_21->0,
    {
        match (java_8, java_16, java_17, java_21) {
            (Some(a), Some(b), Some(c), Some(d)) => Some(
                Config { java_8_home: a, java_16_home: b, java_17_home: c, java_21_home: d },
            ),
            _ => None,
        }
    }
}

/// The runtime installation that building `version` needs.
pub fn runtime_home(config: &Config, version: &MinecraftVersion) -> (r: String)
    ensures
        r@ == config.home_of(java_version_for(version.1, version.2)),
{
    let key = version.get_java_version();
    config.java_home(key)
}

/// What is recorded for a version once its patch is built: the patch file name, the
/// provenance it was built from, and the digests of the patch and of both artifacts.
#[derive(Clone, Debug, PartialEq, Eq)]
pub struct PatchedVersionMeta {
    pub patch_file: String,
    pub commit_hashes: SpigotVersionRefs,
    pub patch_hash: String,
    pub vanilla_jar_hash: String,
    pub patched_jar_hash: String,
    pub vanilla_download_url: String,
}

} // verus!
