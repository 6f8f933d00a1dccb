//! The runtime libraries of a built server, as a list of `group:artifact:version`
//! coordinates with the project's placeholders filled in.
use vstd::prelude::*;

use crate::error::PipelineError;
use crate::text::{replace_all, replace_spec};

verus! {

/// One library coordinate, `group:artifact:version`.
#[derive(Clone, Debug, PartialEq, Eq)]
pub struct MavenDependency(pub String);

/// What the project descriptor says of one dependency.
#[derive(Clone, Debug, PartialEq, Eq)]
pub struct DependencyInfo {
    pub group_id: String,
    pub artifact_id: String,
    pub version: Option<String>,
    pub scope: Option<String>,
}

/// A dependency ships with the server: it is in the default or `compile` scope and is not
/// the upstream server itself.
pub open spec fn is_bundled(d: DependencyInfo) -> bool {
    &&& (d.scope is None || d.scope->0@ == "compile"@)
    &&& d.artifact_id@ != "minecraft-server"@
}

pub open spec fn coordinate_of(d: DependencyInfo) -> Seq<char> {
    d.group_id@ + ":"@ + d.artifact_id@ + ":"@ + d.version->0@
}

/// The coordinates of the bundled dependencies among `deps`, in order; `None` when one of
/// them has no version.
pub open spec fn bundled_coordinates(deps: Seq<DependencyInfo>) -> Option<Seq<Seq<char>>>
    decreases deps.len(),
{
    if deps.len() == 0 {
        Some(Seq::empty())
    } else {
        let rest = bundled_coordinates(deps.drop_last());
        let d = deps.last();
        if !is_bundled(d) {
            rest
        } else if d.version is None {
            None
        } else {
            match rest {
                Some(r) => Some(r.push(coordinate_of(d))),
                None => None,
            }
        }
    }
}

proof fn lemma_missing_version_persists(deps: Seq<DependencyInfo>, i: int)
    requires
        0 <= i <= deps.len(),
        bundled_coordinates(deps.take(i)) is None,
    ensures
        bundled_coordinates(deps) is None,
    decreases deps.len() - i,
{
    if i < deps.len() {
        assert(deps.take(i + 1).drop_last() =~= deps.take(i));
        lemma_missing_version_persists(deps, i + 1);
    } else {
        assert(deps.take(i) =~= deps);
    }
}

pub open spec fn dependencies_view(v: Seq<MavenDependency>) -> Seq<Seq<char>> {
    v.map_values(|d: MavenDependency| d.0@)
}

impl MavenDependency {
    /// The coordinate `group:artifact:version`.
    pub fn from_parts(group_id: &str, artifact_id: &str, version: &str) -> (r: MavenDependency)
        ensures
            r.0@ == group_id@ + ":"@ + artifact_id@ + ":"@ + version@,
    {
        MavenDependency(
            String::from_str(group_id).concat(":").concat(artifact_id).concat(":").concat(version),
        )
    }
}

/// Whether a dependency ships with the server.
pub fn is_bundled_dependency(d: &DependencyInfo) -> (r: bool)
    ensures
        r == is_bundled(*d),
{
    let in_scope = match &d.scope {
        None => true,
        Some(s) => *s == String::from_str("compile"),
    };
    in_scope && d.artifact_id != String::from_str("minecraft-server")
}

/// The coordinates of the dependencies that ship with the server, in descriptor order;
/// `InvalidDependency` when one of them has no version.
pub fn read_dependencies(deps: &Vec<DependencyInfo>) -> (r: Result<Vec<MavenDependency>, PipelineError>)
    ensures
        r is Ok <==> bundled_coordinates(deps@) is Some,
        r matches Ok(v) ==> bundled_coordinates(deps@) == Some(dependencies_view(v@)),
        r matches Err(e) ==> e == PipelineError::InvalidDependency,
{
    let mut out: Vec<MavenDependency> = Vec::new();
    let mut i: usize = 0;
    assert(deps@.take(0) =~= Seq::<DependencyInfo>::empty());
    assert(dependencies_view(out@) =~= Seq::<Seq<char>>::empty());
    while i < deps.len()
        invariant
            i <= deps@.len(),
            bundled_coordinates(deps@.take(i as int)) == Some(dependencies_view(out@)),
        decreases deps.len() - i,
    {
        let d = &deps[i];
        proof {
            assert(deps@.take(i + 1).drop_last() =~= deps@.take(i as int));
            assert(deps@.take(i + 1).last() == deps@[i as int]);
        }
        if is_bundled_dependency(d) {
            match &d.version {
                Some(v) => {
                    let dep = MavenDependency::from_parts(
                        d.group_id.as_str(),
                        d.artifact_id.as_str(),
                        v.as_str(),
                    );
                    let ghost before = out@;
                    out.push(dep);
                    assert(dependencies_view(out@) =~= dependencies_view(before).push(
                        coordinate_of(deps@[i as int]),
                    ));
                },
                None => {
                    proof {
                        lemma_missing_version_persists(deps@, i + 1);
                    }
                    return Err(PipelineError::InvalidDependency);
                },
            }
        }
        i = i + 1;
    }
    assert(deps@.take(deps@.len() as int) =~= deps@);
    Ok(out)
}

/// The game version as the coordinates use it: `1_21_R1` becomes `1.21.1`.
pub open spec fn minecraft_version_spec(property: Seq<char>) -> Seq<char> {
    replace_spec(replace_spec(property, "_"@, "."@), "R"@, ""@)
}

/// One coordinate with its placeholders filled in.
pub open spec fn resolved_line(dep: Seq<char>, project_version: Seq<char>, mc: Seq<char>) -> Seq<char> {
    replace_spec(
        replace_spec(dep, "${project.version}"@, project_version),
        "${minecraft.version}"@,
        mc,
    )
}

/// The resolved coordinates, one per line, without a final newline.
pub open spec fn rendered(deps: Seq<Seq<char>>, project_version: Seq<char>, mc: Seq<char>) -> Seq<
    char,
>
    decreases deps.len(),
{
    if deps.len() == 0 {
        Seq::empty()
    } else if deps.len() == 1 {
        resolved_line(deps[0], project_version, mc)
    } else {
        rendered(deps.drop_last(), project_version, mc) + "\n"@ + resolved_line(
            deps.last(),
            project_version,
            mc,
        )
    }
}

/// The library list of a server: each coordinate with `${project.version}` replaced by the
/// project's version and `${minecraft.version}` by the game version taken from the
/// project's `minecraft_version` property, one per line.
pub fn render_dependencies(
    deps: &Vec<MavenDependency>,
    project_version: &str,
    minecraft_version_property: &str,
) -> (r: String)
    ensures
        r@ == rendered(
            dependencies_view(deps@),
            project_version@,
            minecraft_version_spec(minecraft_version_property@),
        ),
{
    proof {
        reveal_strlit("_");
        reveal_strlit("R");
        reveal_strlit("${project.version}");
        reveal_strlit("${minecraft.version}");
    }
    let dotted = replace_all(minecraft_version_property, "_", ".");
    let mc = replace_all(dotted.as_str(), "R", "");
    let ghost view = dependencies_view(deps@);
    let mut content = String::new();
    let mut i: usize = 0;
    while i < deps.len()
        invariant
            i <= deps@.len(),
            view == dependencies_view(deps@),
            mc@ == minecraft_version_spec(minecraft_version_property@),
            "${project.version}"@.len() > 0,
            "${minecraft.version}"@.len() > 0,
            content@ == rendered(view.take(i as int), project_version@, mc@),
        decreases deps.len() - i,
    {
        let with_project = replace_all(deps[i].0.as_str(), "${project.version}", project_version);
        let line = replace_all(with_project.as_str(), "${minecraft.version}", mc.as_str());
        proof {
            assert(view.take(i + 1).drop_last() =~= view.take(i as int));
            assert(view.take(i + 1).last() == view[i as int]);
            if i == 0 {
                assert(view.take(1)[0] == view[0]);
            }
        }
        if i == 0 {
            content = line;
        } else {
            content = content.concat("\n").concat(line.as_str());
        }
        i = i + 1;
    }
    assert(view.take(deps@.len() as int) =~= view);
    content
}

} // verus!
