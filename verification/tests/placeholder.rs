use rgradle::props::Properties;
use rgradle::props::resolve_placeholders;

fn props_of(pairs: &[(&str, &str)]) -> Properties {
    let mut p = Properties::new();
    for (k, v) in pairs {
        p.insert(k.to_string(), v.to_string());
    }
    p
}

#[test]
fn expands_simple_reference() {
    let props = props_of(&[("ver", "1.2")]);
    assert_eq!(resolve_placeholders("${ver}.0", &props), "1.2.0");
}

#[test]
fn unresolvable_reference_is_unchanged() {
    let props = props_of(&[]);
    assert_eq!(resolve_placeholders("${missing}", &props), "${missing}");
}

#[test]
fn expands_chained_references() {
    let props = props_of(&[("a", "${b}.final"), ("b", "2.7")]);
    assert_eq!(resolve_placeholders("v${a}", &props), "v2.7.final");
}

#[test]
fn expands_several_references_in_one_string() {
    let props = props_of(&[("g", "org.example"), ("v", "3.1")]);
    assert_eq!(resolve_placeholders("${g}:lib:${v}", &props), "org.example:lib:3.1");
}

#[test]
fn plain_text_is_unchanged() {
    let props = props_of(&[("ver", "1.2")]);
    assert_eq!(resolve_placeholders("no references here", &props), "no references here");
}

#[test]
fn unclosed_reference_is_unchanged() {
    let props = props_of(&[("ver", "1.2")]);
    assert_eq!(resolve_placeholders("${ver", &props), "${ver");
}

#[test]
fn expansion_is_idempotent_at_fixed_point() {
    let props = props_of(&[("a", "${b}"), ("b", "x")]);
    let once = resolve_placeholders("${a}-${b}", &props);
    assert_eq!(once, "x-x");
    let twice = resolve_placeholders(&once, &props);
    assert_eq!(twice, once);
}

#[test]
fn bound_key_is_substituted_inside_an_unresolvable_reference() {
    let props = props_of(&[("k", "y")]);
    assert_eq!(resolve_placeholders("${x${k}}", &props), "${xy}");
}

#[test]
fn inner_substitution_can_complete_an_outer_reference() {
    let props = props_of(&[("k", "y"), ("xy", "z")]);
    assert_eq!(resolve_placeholders("${x${k}}", &props), "z");
}

#[test]
fn self_referential_property_terminates() {
    let props = props_of(&[("a", "${a}")]);
    assert_eq!(resolve_placeholders("${a}", &props), "${a}");
}

#[test]
fn insert_replaces_existing_key() {
    let mut p = Properties::new();
    p.insert("k".to_string(), "one".to_string());
    p.insert("k".to_string(), "two".to_string());
    assert_eq!(p.len(), 1);
    let key: Vec<char> = "k".chars().collect();
    assert_eq!(p.get(&key), Some("two".to_string()));
}

#[test]
fn get_of_absent_key_is_none() {
    let p = props_of(&[("k", "v")]);
    let key: Vec<char> = "other".chars().collect();
    assert_eq!(p.get(&key), None);
}
