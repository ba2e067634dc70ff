use rgradle::pom::parse_pom_model;

#[test]
fn parses_coordinates_properties_and_dependencies() {
    let doc = br#"<project>
  <groupId>org.example</groupId>
  <artifactId>demo</artifactId>
  <version>1.0.0</version>
  <properties>
    <slf4j.version>2.0.9</slf4j.version>
  </properties>
  <dependencies>
    <dependency>
      <groupId>org.slf4j</groupId>
      <artifactId>slf4j-api</artifactId>
      <version>${slf4j.version}</version>
    </dependency>
  </dependencies>
</project>"#;
    let model = parse_pom_model(doc).unwrap();
    assert_eq!(model.group_id, Some("org.example".to_string()));
    assert_eq!(model.artifact_id, "demo".to_string());
    assert_eq!(model.version, Some("1.0.0".to_string()));
    assert_eq!(model.dependencies.len(), 1);
    let dep = &model.dependencies[0];
    assert_eq!(dep.group_id, "org.slf4j");
    assert_eq!(dep.artifact_id, "slf4j-api");
    assert_eq!(dep.version, "2.0.9");
    assert_eq!(dep.scope, None);
    assert!(!dep.optional);
}

#[test]
fn dependency_artifact_id_passes_through_the_resolver() {
    let doc = br#"<project>
  <artifactId>demo</artifactId>
  <properties>
    <lib.name>slf4j-api</lib.name>
  </properties>
  <dependencies>
    <dependency>
      <groupId>org.slf4j</groupId>
      <artifactId>${lib.name}</artifactId>
      <version>2.0.9</version>
    </dependency>
  </dependencies>
</project>"#;
    let model = parse_pom_model(doc).unwrap();
    assert_eq!(model.dependencies.len(), 1);
    assert_eq!(model.dependencies[0].artifact_id, "slf4j-api");
}

#[test]
fn records_scope_and_optional_flags() {
    let doc = br#"<project>
  <artifactId>demo</artifactId>
  <dependencies>
    <dependency>
      <groupId>junit</groupId>
      <artifactId>junit</artifactId>
      <version>4.13.2</version>
      <scope>test</scope>
    </dependency>
    <dependency>
      <groupId>g</groupId>
      <artifactId>opt</artifactId>
      <version>1.0</version>
      <optional>True</optional>
    </dependency>
  </dependencies>
</project>"#;
    let model = parse_pom_model(doc).unwrap();
    assert_eq!(model.dependencies.len(), 2);
    assert_eq!(model.dependencies[0].scope, Some("test".to_string()));
    assert!(!model.dependencies[0].optional);
    assert_eq!(model.dependencies[1].scope, None);
    assert!(model.dependencies[1].optional);
}

#[test]
fn drops_partial_dependency_entries() {
    let doc = br#"<project>
  <artifactId>demo</artifactId>
  <dependencies>
    <dependency>
      <groupId>g</groupId>
      <artifactId>incomplete</artifactId>
    </dependency>
    <dependency>
      <groupId>g</groupId>
      <artifactId>whole</artifactId>
      <version>1.0</version>
    </dependency>
  </dependencies>
</project>"#;
    let model = parse_pom_model(doc).unwrap();
    assert_eq!(model.dependencies.len(), 1);
    assert_eq!(model.dependencies[0].artifact_id, "whole");
}

#[test]
fn group_and_version_fall_back_to_parent() {
    let doc = br#"<project>
  <parent>
    <groupId>org.parent</groupId>
    <artifactId>parent-pom</artifactId>
    <version>7</version>
  </parent>
  <artifactId>child</artifactId>
</project>"#;
    let model = parse_pom_model(doc).unwrap();
    assert_eq!(model.group_id, Some("org.parent".to_string()));
    assert_eq!(model.version, Some("7".to_string()));
    let parent = model.parent.unwrap();
    assert_eq!(parent.group_id, "org.parent");
    assert_eq!(parent.artifact_id, "parent-pom");
    assert_eq!(parent.version, "7");
}

#[test]
fn own_coordinates_beat_parent_fallback() {
    let doc = br#"<project>
  <parent>
    <groupId>org.parent</groupId>
    <artifactId>parent-pom</artifactId>
    <version>7</version>
  </parent>
  <groupId>org.own</groupId>
  <artifactId>child</artifactId>
  <version>2.0</version>
</project>"#;
    let model = parse_pom_model(doc).unwrap();
    assert_eq!(model.group_id, Some("org.own".to_string()));
    assert_eq!(model.version, Some("2.0".to_string()));
}

#[test]
fn no_parent_and_no_group_leaves_group_absent() {
    let doc = br#"<project>
  <artifactId>solo</artifactId>
</project>"#;
    let model = parse_pom_model(doc).unwrap();
    assert_eq!(model.group_id, None);
    assert_eq!(model.version, None);
    assert!(model.parent.is_none());
}

#[test]
fn unparsable_markup_is_an_error() {
    let doc = br#"<project><artifactId>broken</artifactId></oops"#;
    assert!(parse_pom_model(doc).is_err());
}

#[test]
fn properties_are_collected() {
    let doc = br#"<project>
  <artifactId>demo</artifactId>
  <properties>
    <one>1</one>
    <two>2</two>
  </properties>
</project>"#;
    let model = parse_pom_model(doc).unwrap();
    assert_eq!(model.properties.len(), 2);
    let one: Vec<char> = "one".chars().collect();
    let two: Vec<char> = "two".chars().collect();
    assert_eq!(model.properties.get(&one), Some("1".to_string()));
    assert_eq!(model.properties.get(&two), Some("2".to_string()));
}
