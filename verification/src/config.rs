//! Project configuration: the recognized fields of the build file and the
//! defaults that fill in absent source-set blocks.

use vstd::prelude::*;

verus! {

/// One compilation unit group: source roots, optional resource roots, and
/// the output root, each absent when the build file leaves it out.
pub struct SourceSet {
    pub java: Option<Vec<String>>,
    pub resources: Option<Vec<String>>,
    pub output: Option<String>,
}

impl Default for SourceSet {
    /// A source set with empty source and resource root lists and no output
    /// root.
    fn default() -> (r: SourceSet)
        ensures
            r.java matches Some(j) && j@.len() == 0,
            r.resources matches Some(rs) && rs@.len() == 0,
            r.output is None,
    {
        SourceSet { java: Some(Vec::new()), resources: Some(Vec::new()), output: None }
    }
}

/// The project block of the configuration: name, version, main class, and
/// optional directory overrides.
pub struct Project {
    pub name: String,
    pub version: String,
    pub main_class: String,
    pub source_dir: Option<String>,
    pub resource_dir: Option<String>,
    pub output_dir: Option<String>,
}

/// A loaded configuration: the project block, the `main` and `test` source
/// sets, and the declared direct dependencies, each a
/// `(group:artifact, version)` pair.
pub struct Config {
    pub project: Project,
    pub main: Option<SourceSet>,
    pub test: Option<SourceSet>,
    pub dependencies: Option<Vec<(String, String)>>,
    pub test_dependencies: Option<Vec<(String, String)>>,
}

/// Whether a source set is the default `main` layout.
pub open spec fn spec_is_default_main(m: SourceSet) -> bool {
    &&& m.java matches Some(j) && j@.map_values(|p: String| p@) == seq!["src/main/java"@]
    &&& m.resources matches Some(rs) && rs@.map_values(|p: String| p@) == seq![
        "src/main/resources"@,
    ]
    &&& m.output matches Some(o) && o@ == "build/classes/java/main"@
}

/// Whether a source set is the default `test` layout.
pub open spec fn spec_is_default_test(m: SourceSet) -> bool {
    &&& m.java matches Some(j) && j@.map_values(|p: String| p@) == seq!["src/test/java"@]
    &&& m.resources matches Some(rs) && rs@.map_values(|p: String| p@) == seq![
        "src/test/resources"@,
    ]
    &&& m.output matches Some(o) && o@ == "build/classes/java/test"@
}

/// The default `main` source set layout.
pub fn default_main_source_set() -> (r: SourceSet)
    ensures
        spec_is_default_main(r),
{
    let mut java: Vec<String> = Vec::new();
    java.push(String::from_str("src/main/java"));
    let mut resources: Vec<String> = Vec::new();
    resources.push(String::from_str("src/main/resources"));
    let r = SourceSet {
        java: Some(java),
        resources: Some(resources),
        output: Some(String::from_str("build/classes/java/main")),
    };
    assert(r.java matches Some(j) && j@.map_values(|p: String| p@) =~= seq!["src/main/java"@]);
    assert(r.resources matches Some(rs) && rs@.map_values(|p: String| p@) =~= seq![
        "src/main/resources"@,
    ]);
    r
}

/// The default `test` source set layout.
pub fn default_test_source_set() -> (r: SourceSet)
    ensures
        spec_is_default_test(r),
{
    let mut java: Vec<String> = Vec::new();
    java.push(String::from_str("src/test/java"));
    let mut resources: Vec<String> = Vec::new();
    resources.push(String::from_str("src/test/resources"));
    let r = SourceSet {
        java: Some(java),
        resources: Some(resources),
        output: Some(String::from_str("build/classes/java/test")),
    };
    assert(r.java matches Some(j) && j@.map_values(|p: String| p@) =~= seq!["src/test/java"@]);
    assert(r.resources matches Some(rs) && rs@.map_values(|p: String| p@) =~= seq![
        "src/test/resources"@,
    ]);
    r
}

/// Fills in the default `main` and `test` source-set layouts where the
/// configuration leaves them out; everything else is kept as loaded.
pub fn config_with_defaults(c: Config) -> (r: Config)
    ensures
        r.project == c.project,
        r.dependencies == c.dependencies,
        r.test_dependencies == c.test_dependencies,
        match c.main {
            Some(_) => r.main == c.main,
            None => r.main matches Some(m) && spec_is_default_main(m),
        },
        match c.test {
            Some(_) => r.test == c.test,
            None => r.test matches Some(t) && spec_is_default_test(t),
        },
{
    let main = match c.main {
        Some(m) => Some(m),
        None => Some(default_main_source_set()),
    };
    let test = match c.test {
        Some(t) => Some(t),
        None => Some(default_test_source_set()),
    };
    Config {
        project: c.project,
        main,
        test,
        dependencies: c.dependencies,
        test_dependencies: c.test_dependencies,
    }
}

} // verus!
