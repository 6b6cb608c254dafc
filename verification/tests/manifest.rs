use npm_powertoys::error::UpdateError;
use npm_powertoys::manifest::{scan_manifest, Dependency, Manifest, Section};

fn triples(list: &Vec<Dependency>) -> Vec<(String, String, Section)> {
    list.iter().map(|d| (d.name.clone(), d.specifier.clone(), d.section)).collect()
}

fn triple(name: &str, specifier: &str, section: Section) -> (String, String, Section) {
    (name.to_string(), specifier.to_string(), section)
}

#[test]
fn section_keys() {
    assert_eq!(Section::Dependencies.key(), "dependencies");
    assert_eq!(Section::DevDependencies.key(), "devDependencies");
}

#[test]
fn dependencies_are_listed_in_document_order() {
    let text = r#"{
        "name": "demo",
        "devDependencies": { "vitest": "~1.2.0" },
        "dependencies": { "zod": "^3.0.0", "left-pad": "1.0.0", "any": "*" }
    }"#;
    let list = scan_manifest(text).unwrap();
    assert_eq!(
        triples(&list),
        vec![
            triple("zod", "^3.0.0", Section::Dependencies),
            triple("left-pad", "1.0.0", Section::Dependencies),
            triple("any", "*", Section::Dependencies),
            triple("vitest", "~1.2.0", Section::DevDependencies),
        ]
    );
}

#[test]
fn one_section_is_enough() {
    let list = scan_manifest(r#"{"devDependencies":{"a":"1.0.0"}}"#).unwrap();
    assert_eq!(triples(&list), vec![triple("a", "1.0.0", Section::DevDependencies)]);
    let list = scan_manifest(r#"{"dependencies":{"a":"1.0.0"}}"#).unwrap();
    assert_eq!(triples(&list), vec![triple("a", "1.0.0", Section::Dependencies)]);
    let list = scan_manifest(r#"{"dependencies":{}}"#).unwrap();
    assert!(list.is_empty());
}

#[test]
fn a_name_may_stand_in_both_sections() {
    let list =
        scan_manifest(r#"{"dependencies":{"a":"^1.0.0"},"devDependencies":{"a":"~2.0.0"}}"#)
            .unwrap();
    assert_eq!(
        triples(&list),
        vec![
            triple("a", "^1.0.0", Section::Dependencies),
            triple("a", "~2.0.0", Section::DevDependencies),
        ]
    );
}

#[test]
fn manifest_without_sections_is_refused() {
    assert_eq!(
        scan_manifest(r#"{"name":"demo","version":"1.0.0"}"#).err(),
        Some(UpdateError::NoDependencies)
    );
    assert_eq!(scan_manifest("{}").err(), Some(UpdateError::NoDependencies));
    assert_eq!(scan_manifest("[1, 2]").err(), Some(UpdateError::NoDependencies));
}

#[test]
fn a_section_that_is_no_object_does_not_count() {
    assert_eq!(
        scan_manifest(r#"{"dependencies":"none","devDependencies":[1]}"#).err(),
        Some(UpdateError::NoDependencies)
    );
    let list = scan_manifest(r#"{"dependencies":null,"devDependencies":{"a":"1.0.0"}}"#).unwrap();
    assert_eq!(triples(&list), vec![triple("a", "1.0.0", Section::DevDependencies)]);
}

#[test]
fn invalid_json_is_refused() {
    assert_eq!(scan_manifest("{").err(), Some(UpdateError::ManifestParseError));
    assert_eq!(scan_manifest("").err(), Some(UpdateError::ManifestParseError));
    assert_eq!(
        scan_manifest(r#"{"dependencies":{"a":"1.0.0"},}"#).err(),
        Some(UpdateError::ManifestParseError)
    );
    assert_eq!(Manifest::parse("nope").err(), Some(UpdateError::ManifestParseError));
}

#[test]
fn values_that_are_no_strings_are_read_without_quotes() {
    let list = scan_manifest(r#"{"dependencies":{"a":1,"b":["^1.0.0"],"c":{"x":"y"},"d":null}}"#)
        .unwrap();
    assert_eq!(
        triples(&list),
        vec![
            triple("a", "1", Section::Dependencies),
            triple("b", "[^1.0.0]", Section::Dependencies),
            triple("c", "{x:y}", Section::Dependencies),
            triple("d", "null", Section::Dependencies),
        ]
    );
}

#[test]
fn a_string_is_read_as_its_characters() {
    let list = scan_manifest(r#"{"dependencies":{"a":"say \"hi\"","b":""}}"#).unwrap();
    assert_eq!(
        triples(&list),
        vec![
            triple("a", "say \"hi\"", Section::Dependencies),
            triple("b", "", Section::Dependencies),
        ]
    );
}

#[test]
fn manifest_is_printed_with_indentation() {
    let manifest = Manifest::parse(r#"{"name":"demo","dependencies":{"b":"1.0.0","a":"2.0.0"}}"#)
        .unwrap();
    assert_eq!(
        manifest.render().unwrap(),
        "{\n  \"name\": \"demo\",\n  \"dependencies\": {\n    \"b\": \"1.0.0\",\n    \"a\": \"2.0.0\"\n  }\n}"
    );
}
