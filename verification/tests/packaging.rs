use rgradle::cli::Cli;
use rgradle::cli::Commands;
use rgradle::config::config_with_defaults;
use rgradle::config::Config;
use rgradle::config::Project;
use rgradle::config::SourceSet;
use rgradle::discover::class_name_of;
use rgradle::discover::find_test_artifact_classes;
use rgradle::discover::find_test_classes;
use rgradle::package::class_path_section;
use rgradle::package::jar_file_name;
use rgradle::package::lib_entries;
use rgradle::package::manifest_header;

#[test]
fn jar_name_joins_project_name_and_version() {
    assert_eq!(jar_file_name("MyJavaApp", "0.1.0"), "MyJavaApp-0.1.0.jar");
}

#[test]
fn manifest_header_names_the_main_class() {
    assert_eq!(
        manifest_header("com.example.Main"),
        "Manifest-Version: 1.0\nMain-Class: com.example.Main\n\n"
    );
}

#[test]
fn class_path_section_is_empty_without_archives() {
    assert_eq!(class_path_section(&Vec::new()), "");
}

#[test]
fn class_path_section_lists_one_archive() {
    assert_eq!(class_path_section(&vec!["lib/a.jar".to_string()]), "Class-Path: lib/a.jar\n");
}

#[test]
fn class_path_section_wraps_after_three_entries() {
    let deps = vec![
        "lib/a.jar".to_string(),
        "lib/b.jar".to_string(),
        "lib/c.jar".to_string(),
        "lib/d.jar".to_string(),
    ];
    assert_eq!(
        class_path_section(&deps),
        "Class-Path: lib/a.jar  lib/b.jar  lib/c.jar\n  lib/d.jar\n"
    );
}

#[test]
fn lib_entries_prefix_the_lib_directory() {
    let names = vec!["a.jar".to_string(), "b.jar".to_string()];
    assert_eq!(lib_entries(&names), vec!["lib/a.jar".to_string(), "lib/b.jar".to_string()]);
}

#[test]
fn class_names_replace_separators_and_drop_extension() {
    assert_eq!(class_name_of("com/example/MainTest.java"), "com.example.MainTest");
    assert_eq!(class_name_of("com\\example\\MainTest.java"), "com.example.MainTest");
}

#[test]
fn find_test_classes_keeps_only_test_sources() {
    let paths = vec![
        "com/example/MainTest.java".to_string(),
        "com/example/Main.java".to_string(),
        "com/example/util/IoTest.java".to_string(),
    ];
    assert_eq!(
        find_test_classes(&paths),
        vec!["com.example.MainTest".to_string(), "com.example.util.IoTest".to_string()]
    );
}

#[test]
fn find_test_artifact_classes_filters_compiled_output() {
    let paths = vec![
        "com/example/MainTest.class".to_string(),
        "com/example/Main.class".to_string(),
        "com/example/TestHelpers.class".to_string(),
        "readme.txt".to_string(),
    ];
    assert_eq!(
        find_test_artifact_classes(&paths),
        vec!["com.example.MainTest".to_string(), "com.example.TestHelpers".to_string()]
    );
}

fn bare_config(main: Option<SourceSet>, test: Option<SourceSet>) -> Config {
    Config {
        project: Project {
            name: "demo".to_string(),
            version: "0.1.0".to_string(),
            main_class: "com.example.Main".to_string(),
            source_dir: None,
            resource_dir: None,
            output_dir: None,
        },
        main,
        test,
        dependencies: None,
        test_dependencies: None,
    }
}

#[test]
fn absent_source_sets_get_the_default_layout() {
    let cfg = config_with_defaults(bare_config(None, None));
    let main = cfg.main.unwrap();
    assert_eq!(main.java, Some(vec!["src/main/java".to_string()]));
    assert_eq!(main.resources, Some(vec!["src/main/resources".to_string()]));
    assert_eq!(main.output, Some("build/classes/java/main".to_string()));
    let test = cfg.test.unwrap();
    assert_eq!(test.java, Some(vec!["src/test/java".to_string()]));
    assert_eq!(test.resources, Some(vec!["src/test/resources".to_string()]));
    assert_eq!(test.output, Some("build/classes/java/test".to_string()));
}

#[test]
fn declared_source_sets_are_kept() {
    let declared = SourceSet {
        java: Some(vec!["lib/java".to_string()]),
        resources: None,
        output: Some("out".to_string()),
    };
    let cfg = config_with_defaults(bare_config(Some(declared), None));
    let main = cfg.main.unwrap();
    assert_eq!(main.java, Some(vec!["lib/java".to_string()]));
    assert_eq!(main.resources, None);
    assert_eq!(main.output, Some("out".to_string()));
}

#[test]
fn default_source_set_is_empty() {
    let d = SourceSet::default();
    assert_eq!(d.java, Some(Vec::new()));
    assert_eq!(d.resources, Some(Vec::new()));
    assert_eq!(d.output, None);
}

#[test]
fn commands_carry_the_uber_flag() {
    let cli = Cli { command: Commands::Package { uber: true } };
    assert!(matches!(cli.command, Commands::Package { uber: true }));
    assert_eq!(Commands::Fetch, Commands::Fetch);
}
