use rgradle::plan::build_classpath;
use rgradle::pom::parse_pom_model;
use rgradle::resolve::dep_to_url;
use rgradle::resolve::get_max_concurrent_downloads;
use rgradle::resolve::make_key;
use rgradle::resolve::FetchOutcome;
use rgradle::resolve::Resolver;
use rgradle::resolve::WorkItem;

fn descriptor(artifact: &str, deps: &[(&str, &str, &str, Option<&str>)]) -> Vec<u8> {
    let mut doc = String::new();
    doc.push_str("<project>\n");
    doc.push_str(&format!("  <artifactId>{}</artifactId>\n", artifact));
    doc.push_str("  <dependencies>\n");
    for (g, a, v, scope) in deps {
        doc.push_str("    <dependency>\n");
        doc.push_str(&format!("      <groupId>{}</groupId>\n", g));
        doc.push_str(&format!("      <artifactId>{}</artifactId>\n", a));
        doc.push_str(&format!("      <version>{}</version>\n", v));
        if let Some(sc) = scope {
            doc.push_str(&format!("      <scope>{}</scope>\n", sc));
        }
        doc.push_str("    </dependency>\n");
    }
    doc.push_str("  </dependencies>\n</project>\n");
    doc.into_bytes()
}

#[test]
fn derives_urls_from_coordinates() {
    let (base, jar, pom) = dep_to_url("org.slf4j:slf4j-api", "2.0.9").unwrap();
    assert_eq!(base, "https://repo1.maven.org/maven2/org/slf4j/slf4j-api/2.0.9");
    assert_eq!(jar, "slf4j-api-2.0.9.jar");
    assert_eq!(pom, "slf4j-api-2.0.9.pom");
}

#[test]
fn rejects_malformed_dependency_keys() {
    assert_eq!(dep_to_url("nocolon", "1.0"), None);
    assert_eq!(dep_to_url("a:b:c", "1.0"), None);
}

#[test]
fn coordinate_keys_join_key_and_version() {
    assert_eq!(make_key("g:a", "1.0"), "g:a:1.0");
}

#[test]
fn cyclic_graph_is_fetched_exactly_once_per_key() {
    // A depends on B, and B depends back on A: the visited set must cut the
    // cycle after exactly two units of fetch work.
    let mut r = Resolver::new(vec![("g:a".to_string(), "1.0".to_string())]);
    let mut fetched: Vec<String> = Vec::new();
    while let Some(work) = r.next_work() {
        fetched.push(work.key.clone());
        let doc = if work.dep == "g:a" {
            descriptor("a", &[("g", "b", "1.0", None)])
        } else {
            descriptor("b", &[("g", "a", "1.0", None)])
        };
        r.record_outcome(work.key.clone(), true, FetchOutcome::Fetched);
        r.record_outcome(work.key.clone(), false, FetchOutcome::Fetched);
        let model = parse_pom_model(&doc).unwrap();
        r.process_metadata(&model);
    }
    assert_eq!(fetched, vec!["g:a:1.0".to_string(), "g:b:1.0".to_string()]);
    assert_eq!(r.error_count(), 0);
}

#[test]
fn test_scoped_and_optional_dependencies_are_not_enqueued() {
    let mut r = Resolver::new(vec![("g:root".to_string(), "1.0".to_string())]);
    let work = r.next_work().unwrap();
    assert_eq!(work.dep, "g:root");
    let doc = br#"<project>
  <artifactId>root</artifactId>
  <dependencies>
    <dependency>
      <groupId>g</groupId>
      <artifactId>x</artifactId>
      <version>1.0</version>
      <scope>test</scope>
    </dependency>
    <dependency>
      <groupId>g</groupId>
      <artifactId>opt</artifactId>
      <version>1.0</version>
      <optional>true</optional>
    </dependency>
    <dependency>
      <groupId>g</groupId>
      <artifactId>y</artifactId>
      <version>1.0</version>
      <scope>compile</scope>
    </dependency>
  </dependencies>
</project>"#;
    let model = parse_pom_model(doc).unwrap();
    r.process_metadata(&model);
    let next = r.next_work().unwrap();
    assert_eq!(next.dep, "g:y");
    assert_eq!(next.version, "1.0");
    assert!(r.next_work().is_none());
}

#[test]
fn resolution_scenario_fills_cache_and_classpath() {
    // Root g:a 1.0 declares g:b 2.0 (scope compile); all four fetches
    // succeed: the cache receives exactly the four files, the error count
    // is zero, and a later compile classpath lists both archives.
    let mut r = Resolver::new(vec![("g:a".to_string(), "1.0".to_string())]);
    let mut cache: Vec<String> = Vec::new();
    let mut jars: Vec<String> = Vec::new();
    while let Some(work) = r.next_work() {
        cache.push(work.jar_name.clone());
        cache.push(work.pom_name.clone());
        jars.push(work.jar_name.clone());
        r.record_outcome(work.key.clone(), true, FetchOutcome::Fetched);
        r.record_outcome(work.key.clone(), false, FetchOutcome::Fetched);
        let doc = if work.dep == "g:a" {
            descriptor("a", &[("g", "b", "2.0", Some("compile"))])
        } else {
            descriptor("b", &[])
        };
        let model = parse_pom_model(&doc).unwrap();
        r.process_metadata(&model);
    }
    assert_eq!(
        cache,
        vec![
            "a-1.0.jar".to_string(),
            "a-1.0.pom".to_string(),
            "b-2.0.jar".to_string(),
            "b-2.0.pom".to_string()
        ]
    );
    assert_eq!(r.error_count(), 0);
    let classpath = build_classpath(&jars, None, false, ':');
    assert_eq!(classpath, "a-1.0.jar:b-2.0.jar");
}

#[test]
fn metadata_not_found_is_one_error_and_siblings_complete() {
    // Two roots; the metadata fetch for g:gone is not found: that node
    // contributes no edges, the aggregate error count is exactly one, and
    // the sibling branch still completes.
    let mut r = Resolver::new(vec![
        ("g:gone".to_string(), "1.0".to_string()),
        ("g:ok".to_string(), "1.0".to_string()),
    ]);
    let mut completed: Vec<String> = Vec::new();
    while let Some(work) = r.next_work() {
        r.record_outcome(work.key.clone(), true, FetchOutcome::Fetched);
        if work.dep == "g:gone" {
            r.record_outcome(work.key.clone(), false, FetchOutcome::NotFound);
        } else {
            r.record_outcome(work.key.clone(), false, FetchOutcome::Fetched);
            let doc = descriptor("ok", &[]);
            let model = parse_pom_model(&doc).unwrap();
            r.process_metadata(&model);
        }
        completed.push(work.key);
    }
    assert_eq!(r.error_count(), 1);
    assert_eq!(completed, vec!["g:gone:1.0".to_string(), "g:ok:1.0".to_string()]);
}

#[test]
fn duplicate_roots_are_deduplicated() {
    let mut r = Resolver::new(vec![
        ("g:a".to_string(), "1.0".to_string()),
        ("g:a".to_string(), "1.0".to_string()),
    ]);
    let first: Option<WorkItem> = r.next_work();
    assert_eq!(first.unwrap().key, "g:a:1.0");
    assert!(r.next_work().is_none());
}

#[test]
fn same_artifact_different_versions_are_distinct_nodes() {
    let mut r = Resolver::new(vec![
        ("g:a".to_string(), "1.0".to_string()),
        ("g:a".to_string(), "2.0".to_string()),
    ]);
    assert_eq!(r.next_work().unwrap().key, "g:a:1.0");
    assert_eq!(r.next_work().unwrap().key, "g:a:2.0");
    assert!(r.next_work().is_none());
}

#[test]
fn malformed_queue_entry_is_skipped_but_visited() {
    let mut r = Resolver::new(vec![
        ("nocolon".to_string(), "1.0".to_string()),
        ("g:b".to_string(), "1.0".to_string()),
    ]);
    let work = r.next_work().unwrap();
    assert_eq!(work.dep, "g:b");
    assert!(r.next_work().is_none());
}

#[test]
fn failed_fetch_outcomes_are_counted() {
    let mut r = Resolver::new(vec![("g:a".to_string(), "1.0".to_string())]);
    let work = r.next_work().unwrap();
    r.record_outcome(work.key.clone(), true, FetchOutcome::Failed("connection reset".to_string()));
    r.record_outcome(work.key.clone(), false, FetchOutcome::NotFound);
    assert_eq!(r.error_count(), 2);
}

#[test]
fn cached_outcomes_are_not_errors() {
    let mut r = Resolver::new(vec![("g:a".to_string(), "1.0".to_string())]);
    let work = r.next_work().unwrap();
    r.record_outcome(work.key.clone(), true, FetchOutcome::Cached);
    r.record_outcome(work.key.clone(), false, FetchOutcome::Cached);
    assert_eq!(r.error_count(), 0);
}

#[test]
fn unparsable_metadata_is_recorded_as_one_error() {
    let mut r = Resolver::new(vec![("g:a".to_string(), "1.0".to_string())]);
    let work = r.next_work().unwrap();
    r.record_outcome(work.key.clone(), true, FetchOutcome::Fetched);
    r.record_outcome(work.key.clone(), false, FetchOutcome::Fetched);
    let bad = b"<project><artifactId>a</artifactId><";
    match parse_pom_model(bad) {
        Ok(model) => r.process_metadata(&model),
        Err(_) => r.record_unparsable(work.key.clone()),
    }
    assert_eq!(r.error_count(), 1);
    assert!(r.next_work().is_none());
}

#[test]
fn download_cap_is_four_per_core() {
    assert_eq!(get_max_concurrent_downloads(1), 4);
    assert_eq!(get_max_concurrent_downloads(8), 32);
}
