use flat_index::names::ExtraName;
use flat_index::requires_dist::{
    DynamicFieldKind, MetadataError, RawManifest, RawOptionalGroup, RawProject, RequiresDist,
};

#[test]
fn dynamic_dependencies_fail_even_with_literal_list() {
    // A dynamically-computed "dependencies" field wins over the literal
    // list that is also present.
    let text = r#"
[project]
name = "demo"
dynamic = ["dependencies"]
dependencies = ["anyio"]
"#;
    let err = RequiresDist::parse_pyproject_toml(text).unwrap_err();
    assert_eq!(err, MetadataError::DynamicField(DynamicFieldKind::Dependencies));
}

#[test]
fn dynamic_optional_dependencies_fail() {
    let text = r#"
[project]
name = "demo"
dynamic = ["optional-dependencies"]
"#;
    let err = RequiresDist::parse_pyproject_toml(text).unwrap_err();
    assert_eq!(err, MetadataError::DynamicField(DynamicFieldKind::OptionalDependencies));
}

#[test]
fn dynamic_version_is_recorded_not_fatal() {
    let text = r#"
[project]
name = "demo"
dynamic = ["version", "readme"]
dependencies = ["anyio"]
"#;
    let dist = RequiresDist::parse_pyproject_toml(text).unwrap();
    assert!(dist.dynamic);
    assert_eq!(dist.requires_dist.len(), 1);
    assert_eq!(dist.requires_dist[0].verbatim, "anyio");
    assert!(dist.requires_dist[0].extra.is_none());
}

#[test]
fn poetry_without_dependencies_key_fails() {
    // No literal "dependencies" key, no dynamic declaration, but a legacy
    // alternate dependency section: must not silently yield zero
    // dependencies.
    let text = r#"
[project]
name = "demo"

[tool.poetry]
"#;
    let err = RequiresDist::parse_pyproject_toml(text).unwrap_err();
    assert_eq!(err, MetadataError::PoetrySyntax);
}

#[test]
fn poetry_with_dependencies_key_succeeds() {
    let text = r#"
[project]
name = "demo"
dependencies = []

[tool.poetry]
"#;
    let dist = RequiresDist::parse_pyproject_toml(text).unwrap();
    assert_eq!(dist.requires_dist.len(), 0);
    assert!(!dist.dynamic);
}

#[test]
fn extras_requirements_carry_their_group_marker() {
    let text = r#"
[project]
name = "demo"
dependencies = ["anyio"]

[project.optional-dependencies]
test = ["pytest>=7", "coverage"]
docs = ["sphinx"]
"#;
    let dist = RequiresDist::parse_pyproject_toml(text).unwrap();
    assert_eq!(dist.name.as_str(), "demo");
    assert_eq!(dist.requires_dist.len(), 4);
    // Base requirements first, then the groups in declared order.
    assert_eq!(dist.requires_dist[0].verbatim, "anyio");
    assert!(dist.requires_dist[0].extra.is_none());
    assert_eq!(dist.requires_dist[1].verbatim, "pytest>=7");
    assert_eq!(dist.requires_dist[1].extra, Some(ExtraName::new("test")));
    assert_eq!(dist.requires_dist[2].verbatim, "coverage");
    assert_eq!(dist.requires_dist[2].extra, Some(ExtraName::new("test")));
    assert_eq!(dist.requires_dist[3].verbatim, "sphinx");
    assert_eq!(dist.requires_dist[3].extra, Some(ExtraName::new("docs")));
    assert_eq!(dist.provides_extras.len(), 2);
    assert_eq!(dist.provides_extras[0], ExtraName::new("test"));
    assert_eq!(dist.provides_extras[1], ExtraName::new("docs"));
}

#[test]
fn missing_project_section_fails() {
    let text = r#"
[build-system]
requires = ["setuptools"]
"#;
    let err = RequiresDist::parse_pyproject_toml(text).unwrap_err();
    assert_eq!(err, MetadataError::FieldNotFound);
}

#[test]
fn malformed_text_fails_as_parse_error() {
    let err = RequiresDist::parse_pyproject_toml("[project\nname=").unwrap_err();
    assert_eq!(err, MetadataError::ConfigParse);
    let err = RequiresDist::parse_pyproject_toml("[project]\nname = 7").unwrap_err();
    assert_eq!(err, MetadataError::ConfigParse);
    let err =
        RequiresDist::parse_pyproject_toml("[project]\nname = \"demo\"\ndependencies = [1]")
            .unwrap_err();
    assert_eq!(err, MetadataError::ConfigParse);
}

#[test]
fn from_parts_orders_base_then_groups() {
    let manifest = RawManifest {
        project: Some(RawProject {
            name: "My_Demo".to_string(),
            dynamic: vec!["readme".to_string()],
            dependencies: Some(vec!["base1".to_string(), "base2".to_string()]),
            optional_dependencies: Some(vec![
                RawOptionalGroup {
                    extra: "Extra_One".to_string(),
                    requirements: vec!["r1".to_string()],
                },
                RawOptionalGroup {
                    extra: "two".to_string(),
                    requirements: vec!["r2".to_string(), "r3".to_string()],
                },
            ]),
        }),
        has_poetry_tool: false,
    };
    let dist = RequiresDist::from_parts(manifest).unwrap();
    assert_eq!(dist.name.as_str(), "my-demo");
    assert!(!dist.dynamic);
    let got: Vec<(String, Option<String>)> = dist
        .requires_dist
        .iter()
        .map(|r| (r.verbatim.clone(), r.extra.as_ref().map(|e| e.as_str().to_string())))
        .collect();
    assert_eq!(
        got,
        vec![
            ("base1".to_string(), None),
            ("base2".to_string(), None),
            ("r1".to_string(), Some("extra-one".to_string())),
            ("r2".to_string(), Some("two".to_string())),
            ("r3".to_string(), Some("two".to_string())),
        ]
    );
    assert_eq!(dist.provides_extras[0].as_str(), "extra-one");
    assert_eq!(dist.provides_extras[1].as_str(), "two");
}

#[test]
fn from_parts_without_project_fails() {
    let manifest = RawManifest { project: None, has_poetry_tool: false };
    assert_eq!(RequiresDist::from_parts(manifest).unwrap_err(), MetadataError::FieldNotFound);
}

#[test]
fn parsing_is_deterministic() {
    let text = r#"
[project]
name = "demo"
dependencies = ["anyio", "idna"]

[project.optional-dependencies]
test = ["pytest"]
"#;
    let a = RequiresDist::parse_pyproject_toml(text).unwrap();
    let b = RequiresDist::parse_pyproject_toml(text).unwrap();
    assert_eq!(a.name.as_str(), b.name.as_str());
    assert_eq!(a.dynamic, b.dynamic);
    assert_eq!(a.requires_dist.len(), b.requires_dist.len());
    for (x, y) in a.requires_dist.iter().zip(b.requires_dist.iter()) {
        assert_eq!(x.verbatim, y.verbatim);
        assert_eq!(x.extra, y.extra);
    }
    assert_eq!(a.provides_extras, b.provides_extras);
}
