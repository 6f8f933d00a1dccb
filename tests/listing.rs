use bin_patch_gen::maven::{is_bundled_dependency, read_dependencies, render_dependencies, DependencyInfo, MavenDependency};
use bin_patch_gen::text::replace_all;
use bin_patch_gen::version::filter_versions;
use bin_patch_gen::PipelineError;

fn dep(group: &str, artifact: &str, version: Option<&str>, scope: Option<&str>) -> DependencyInfo {
    DependencyInfo {
        group_id: group.to_string(),
        artifact_id: artifact.to_string(),
        version: version.map(String::from),
        scope: scope.map(String::from),
    }
}

#[test]
fn replaces_every_occurrence() {
    assert_eq!(replace_all("1_21_R1", "_", "."), "1.21.R1");
    assert_eq!(replace_all("1.21.R1", "R", ""), "1.21.1");
    assert_eq!(replace_all("aaa", "aa", "b"), "ba");
    assert_eq!(replace_all("", "x", "y"), "");
    assert_eq!(replace_all("no match", "zz", "y"), "no match");
}

#[test]
fn bundled_dependencies_only() {
    assert!(is_bundled_dependency(&dep("g", "a", Some("1"), None)));
    assert!(is_bundled_dependency(&dep("g", "a", Some("1"), Some("compile"))));
    assert!(!is_bundled_dependency(&dep("g", "a", Some("1"), Some("test"))));
    assert!(!is_bundled_dependency(&dep("g", "minecraft-server", Some("1"), None)));
    let deps = vec![
        dep("org.spigotmc", "minecraft-server", Some("1.8"), None),
        dep("net.sf.jopt-simple", "jopt-simple", Some("3.2"), Some("compile")),
        dep("junit", "junit", Some("4.11"), Some("test")),
        dep("org.spigotmc", "spigot-api", Some("${project.version}"), None),
    ];
    assert_eq!(
        read_dependencies(&deps),
        Ok(vec![
            MavenDependency("net.sf.jopt-simple:jopt-simple:3.2".to_string()),
            MavenDependency("org.spigotmc:spigot-api:${project.version}".to_string()),
        ])
    );
}

#[test]
fn bundled_dependency_without_version() {
    let deps = vec![dep("g", "a", None, None)];
    assert_eq!(read_dependencies(&deps), Err(PipelineError::InvalidDependency));
    let test_only = vec![dep("g", "a", None, Some("test"))];
    assert_eq!(read_dependencies(&test_only), Ok(vec![]));
}

#[test]
fn renders_placeholders() {
    let deps = vec![
        MavenDependency("org.spigotmc:spigot-api:${project.version}".to_string()),
        MavenDependency("org.spigotmc:minecraft-server:${minecraft.version}-SNAPSHOT".to_string()),
        MavenDependency("com.google.guava:guava:17.0".to_string()),
    ];
    assert_eq!(
        render_dependencies(&deps, "1.21.3-R0.1-SNAPSHOT", "1_21_R2"),
        "org.spigotmc:spigot-api:1.21.3-R0.1-SNAPSHOT\norg.spigotmc:minecraft-server:1.21.2-SNAPSHOT\ncom.google.guava:guava:17.0"
    );
    assert_eq!(render_dependencies(&vec![], "v", "m"), "");
}

#[test]
fn filters_release_links() {
    let html = r#"<html><body>
        <a href="../">up</a>
        <a href="1.8.json">1.8.json</a>
        <a href="1.21.3.json">1.21.3.json</a>
        <a href="1.21.3-pre1.json">pre</a>
        <a>no target</a>
        <a href="1.10">1.10</a>
        <a href="latest.json">latest</a>
    </body></html>"#;
    assert_eq!(
        filter_versions(html),
        Ok(vec!["1.8".to_string(), "1.21.3".to_string(), "1.10".to_string()])
    );
    assert_eq!(filter_versions(""), Ok(vec![]));
}
