//! Build provenance published for each upstream release.
use vstd::prelude::*;

verus! {

/// The commit of each upstream repository that a build is made from.
#[derive(Clone, Debug, PartialEq, Eq)]
pub struct SpigotVersionRefs {
    pub build_data: String,
    pub bukkit: String,
    pub craft_bukkit: String,
    pub spigot: String,
}

impl View for SpigotVersionRefs {
    type V = (Seq<char>, Seq<char>, Seq<char>, Seq<char>);

    open spec fn view(&self) -> Self::V {
        (self.build_data@, self.bukkit@, self.craft_bukkit@, self.spigot@)
    }
}

impl SpigotVersionRefs {
    /// Two provenance references are equal when every named commit matches.
    pub fn same_as(&self, other: &SpigotVersionRefs) -> (r: bool)
        ensures
            r == (self@ == other@),
    {
        self.build_data == other.build_data && self.bukkit == other.bukkit
            && self.craft_bukkit == other.craft_bukkit && self.spigot == other.spigot
    }

    /// A copy with the same commits.
    pub fn copied(&self) -> (r: SpigotVersionRefs)
        ensures
            r@ == self@,
    {
        SpigotVersionRefs {
            build_data: self.build_data.clone(),
            bukkit: self.bukkit.clone(),
            craft_bukkit: self.craft_bukkit.clone(),
            spigot: self.spigot.clone(),
        }
    }
}

/// The published metadata of one release.
#[derive(Clone, Debug, PartialEq, Eq)]
pub struct SpigotVersionMeta {
    pub name: String,
    pub description: String,
    pub refs: SpigotVersionRefs,
}

impl SpigotVersionMeta {
    /// Whether the published references equal `other`, field by field.
    pub fn refs_eq(&self, other: SpigotVersionRefs) -> (r: bool)
        ensures
            r == (self.refs@ == other@),
    {
        self.refs.same_as(&other)
    }
}

/// The part of a build's own data that names the upstream artifact's download.
#[derive(Clone, Debug, PartialEq, Eq)]
pub struct SpigotBuildData {
    pub server_url: String,
}

} // verus!
