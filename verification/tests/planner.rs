use rgradle::plan::artifact_rel_path;
use rgradle::plan::build_classpath;
use rgradle::plan::filter_jars;
use rgradle::plan::is_stale;
use rgradle::plan::join_paths;
use rgradle::plan::path_under_root;
use rgradle::plan::plan_compilation;
use rgradle::plan::runtime_classpath;
use rgradle::plan::SourceEntry;

fn entry(path: &str, source: Option<u64>, artifact: Option<u64>) -> SourceEntry {
    SourceEntry { path: path.to_string(), source_mtime: source, artifact_mtime: artifact }
}

#[test]
fn newer_source_is_stale() {
    assert!(is_stale(Some(2), Some(1)));
}

#[test]
fn newer_artifact_is_not_stale() {
    assert!(!is_stale(Some(1), Some(2)));
}

#[test]
fn equal_times_are_not_stale() {
    assert!(!is_stale(Some(5), Some(5)));
}

#[test]
fn missing_artifact_is_stale() {
    assert!(is_stale(Some(1), None));
}

#[test]
fn unreadable_source_is_stale() {
    assert!(is_stale(None, Some(1)));
    assert!(is_stale(None, None));
}

#[test]
fn plan_selects_exactly_the_stale_files() {
    let entries = vec![
        entry("src/A.java", Some(10), Some(20)),
        entry("src/B.java", Some(30), Some(20)),
        entry("src/C.java", Some(10), None),
    ];
    let plan = plan_compilation(&entries);
    assert_eq!(plan, vec!["src/B.java".to_string(), "src/C.java".to_string()]);
}

#[test]
fn second_planning_run_after_a_build_is_empty() {
    let before = vec![
        entry("src/A.java", Some(10), Some(20)),
        entry("src/B.java", Some(30), Some(20)),
        entry("src/C.java", Some(10), None),
    ];
    let first = plan_compilation(&before);
    assert_eq!(first.len(), 2);
    // The build compiles the planned files, stamping their artifacts with
    // the build time; nothing else changes.
    let build_time = 40;
    let after: Vec<SourceEntry> = before
        .iter()
        .map(|e| SourceEntry {
            path: e.path.clone(),
            source_mtime: e.source_mtime,
            artifact_mtime: if first.contains(&e.path) {
                Some(build_time)
            } else {
                e.artifact_mtime
            },
        })
        .collect();
    let second = plan_compilation(&after);
    assert_eq!(second, Vec::<String>::new());
}

#[test]
fn artifact_path_replaces_source_extension() {
    assert_eq!(artifact_rel_path("com/example/Main.java"), "com/example/Main.class");
}

#[test]
fn artifact_path_appends_extension_when_none_matches() {
    assert_eq!(artifact_rel_path("com/example/README"), "com/example/README.class");
}

#[test]
fn paths_join_under_root() {
    assert_eq!(path_under_root("build/classes/java/main", "com/A.class"),
        "build/classes/java/main/com/A.class");
}

#[test]
fn join_paths_uses_separator_between_entries() {
    let parts = vec!["a".to_string(), "b".to_string(), "c".to_string()];
    assert_eq!(join_paths(&parts, ':'), "a:b:c");
    assert_eq!(join_paths(&parts, ';'), "a;b;c");
    assert_eq!(join_paths(&vec!["only".to_string()], ':'), "only");
    assert_eq!(join_paths(&Vec::new(), ':'), "");
}

#[test]
fn filter_jars_keeps_only_archives() {
    let names = vec![
        "a-1.0.jar".to_string(),
        "a-1.0.pom".to_string(),
        "notes.txt".to_string(),
        "b-2.0.jar".to_string(),
    ];
    assert_eq!(filter_jars(&names), vec!["a-1.0.jar".to_string(), "b-2.0.jar".to_string()]);
}

#[test]
fn test_compile_classpath_puts_main_output_before_archives() {
    let jars = vec!["x.jar".to_string()];
    let main_out = "build/classes/java/main".to_string();
    assert_eq!(build_classpath(&jars, Some(&main_out), true, ':'),
        "build/classes/java/main:x.jar");
    assert_eq!(build_classpath(&jars, Some(&main_out), false, ':'), "x.jar");
    assert_eq!(build_classpath(&jars, None, true, ':'), "x.jar");
}

#[test]
fn runtime_classpath_puts_output_roots_before_archives() {
    let jars = vec!["x.jar".to_string(), "y.jar".to_string()];
    let main_out = "out/main".to_string();
    assert_eq!(runtime_classpath(&main_out, None, &jars, ':'), "out/main:x.jar:y.jar");
}

#[test]
fn test_run_classpath_puts_main_output_before_test_output() {
    let jars = vec!["x.jar".to_string()];
    let main_out = "out/main".to_string();
    let test_out = "out/test".to_string();
    assert_eq!(
        runtime_classpath(&main_out, Some(&test_out), &jars, ':'),
        "out/main:out/test:x.jar"
    );
}
