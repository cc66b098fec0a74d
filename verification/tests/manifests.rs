use why::manifest::cargo::{
    parse_cargo_lock, parse_cargo_toml, CargoDependency, CargoParser, DependencyType,
};
use why::manifest::nodejs::{parse_package_json, NodeJsParser};
use why::manifest::{
    get_parser_type, lookup, normalize_packages, parse_dependencies, ManifestError, ManifestParser,
    ManifestParserType, ManifestValue,
};

const MANIFEST: &str = r#"
[package]
name = "demo"
version = "0.1.0"

[dependencies]
serde = { version = "1.0", features = ["derive", "rc"], optional = true }
anyhow = "1"
local = { path = "../local" }
odd = 3
mixed = { version = 2, features = ["a", 1, "b"], optional = "yes" }

[dev-dependencies]
tempfile = "3"

[build-dependencies]
cc = { version = "1.0" }
"#;

fn names(deps: &Vec<CargoDependency>) -> Vec<&str> {
    deps.iter().map(|d| d.name.as_str()).collect()
}

#[test]
fn a_manifest_declares_runtime_development_and_build_dependencies() {
    let deps = parse_cargo_toml(MANIFEST).unwrap();
    assert_eq!(names(&deps), vec!["anyhow", "local", "mixed", "serde", "tempfile", "cc"]);
    let anyhow = &deps[0];
    assert_eq!(anyhow.version.as_deref(), Some("1"));
    assert!(anyhow.features.is_empty());
    assert!(!anyhow.optional);
    assert_eq!(anyhow.dependency_type, DependencyType::Normal);
    assert_eq!(anyhow.source, "Cargo.toml");
    let local = &deps[1];
    assert_eq!(local.version, None);
    let mixed = &deps[2];
    assert_eq!(mixed.version, None);
    assert_eq!(mixed.features, vec!["a", "b"]);
    assert!(!mixed.optional);
    let serde = &deps[3];
    assert_eq!(serde.version.as_deref(), Some("1.0"));
    assert_eq!(serde.features, vec!["derive", "rc"]);
    assert!(serde.optional);
    assert_eq!(deps[4].dependency_type, DependencyType::Development);
    assert_eq!(deps[5].dependency_type, DependencyType::Build);
    assert_eq!(deps[5].version.as_deref(), Some("1.0"));
}

#[test]
fn a_manifest_without_dependency_tables_declares_nothing() {
    assert!(parse_cargo_toml("[package]\nname = \"x\"\n").unwrap().is_empty());
    assert!(parse_cargo_toml("").unwrap().is_empty());
    assert!(parse_cargo_toml("dependencies = \"none\"\n").unwrap().is_empty());
}

#[test]
fn invalid_toml_is_an_error() {
    assert!(matches!(parse_cargo_toml("[dependencies\nserde = "), Err(ManifestError::InvalidToml)));
    assert!(matches!(CargoParser::parse("a = = 1"), Err(ManifestError::InvalidToml)));
}

#[test]
fn dependencies_can_be_read_from_a_tree() {
    let doc = vec![
        ("package".to_string(), ManifestValue::Other),
        (
            "dependencies".to_string(),
            ManifestValue::Table(vec![
                ("b".to_string(), ManifestValue::Text("2".to_string())),
                ("skip".to_string(), ManifestValue::Flag(true)),
                (
                    "a".to_string(),
                    ManifestValue::Table(vec![
                        ("optional".to_string(), ManifestValue::Flag(true)),
                        (
                            "features".to_string(),
                            ManifestValue::List(vec![
                                ManifestValue::Text("x".to_string()),
                                ManifestValue::Other,
                                ManifestValue::Text("y".to_string()),
                            ]),
                        ),
                    ]),
                ),
            ]),
        ),
        ("build-dependencies".to_string(), ManifestValue::Table(vec![("cc".to_string(), ManifestValue::Text("1".to_string()))])),
        ("dev-dependencies".to_string(), ManifestValue::List(vec![])),
    ];
    let deps = CargoParser::dependencies_of(&doc);
    assert_eq!(names(&deps), vec!["b", "a", "cc"]);
    assert_eq!(deps[1].features, vec!["x", "y"]);
    assert!(deps[1].optional);
    assert_eq!(deps[1].version, None);
    assert_eq!(deps[2].dependency_type, DependencyType::Build);
    let mut more = Vec::new();
    CargoParser::extract_dependencies(
        &vec![("z".to_string(), ManifestValue::Text("9".to_string()))],
        &mut more,
        DependencyType::Development,
    );
    assert_eq!(names(&more), vec!["z"]);
    assert_eq!(more[0].dependency_type, DependencyType::Development);
}

#[test]
fn lookup_gives_the_first_entry_of_a_key() {
    let entries = vec![
        ("a".to_string(), ManifestValue::Flag(true)),
        ("b".to_string(), ManifestValue::Text("x".to_string())),
        ("a".to_string(), ManifestValue::Flag(false)),
    ];
    assert!(matches!(lookup(&entries, "a"), Some(ManifestValue::Flag(true))));
    assert!(matches!(lookup(&entries, "b"), Some(ManifestValue::Text(_))));
    assert!(lookup(&entries, "c").is_none());
}

const PACKAGE: &str = r#"{
  "name": "demo",
  "dependencies": { "react": "^18.0.0", "left-pad": "1.3.0", "weird": 7 },
  "devDependencies": { "jest": "~29" }
}"#;

#[test]
fn a_package_manifest_declares_packages() {
    let deps = parse_package_json(PACKAGE).unwrap();
    let got: Vec<(&str, &str, why::manifest::nodejs::DependencyType)> =
        deps.iter().map(|d| (d.name.as_str(), d.version.as_str(), d.dependency_type)).collect();
    assert_eq!(
        got,
        vec![
            ("left-pad", "1.3.0", why::manifest::nodejs::DependencyType::Normal),
            ("react", "^18.0.0", why::manifest::nodejs::DependencyType::Normal),
            ("jest", "~29", why::manifest::nodejs::DependencyType::Development),
        ]
    );
}

#[test]
fn a_json_document_that_is_no_object_declares_nothing() {
    assert!(parse_package_json("[1, 2]").unwrap().is_empty());
    assert!(parse_package_json("\"text\"").unwrap().is_empty());
    assert!(parse_package_json("{}").unwrap().is_empty());
    assert!(parse_package_json("{\"dependencies\": [\"a\"]}").unwrap().is_empty());
}

#[test]
fn invalid_json_is_an_error() {
    assert!(matches!(parse_package_json("{ \"dependencies\": "), Err(ManifestError::InvalidJson)));
    assert!(matches!(NodeJsParser::parse(""), Err(ManifestError::InvalidJson)));
}

#[test]
fn the_file_name_selects_the_parser() {
    assert_eq!(get_parser_type("Cargo.toml").unwrap(), ManifestParserType::Cargo);
    assert_eq!(get_parser_type("/work/proj/Cargo.toml").unwrap(), ManifestParserType::Cargo);
    assert_eq!(get_parser_type("web/package.json").unwrap(), ManifestParserType::NodeJs);
    match get_parser_type("proj/pom.xml") {
        Err(ManifestError::UnsupportedManifest(p)) => assert_eq!(p, "proj/pom.xml"),
        other => panic!("unexpected {:?}", other),
    }
    assert_eq!(get_parser_type("proj/Cargo.toml/").unwrap(), ManifestParserType::Cargo);
    assert_eq!(get_parser_type("web/package.json//").unwrap(), ManifestParserType::NodeJs);
    assert_eq!(get_parser_type("proj/Cargo.toml/.").unwrap(), ManifestParserType::Cargo);
    assert!(get_parser_type("proj/Cargo.toml/..").is_err());
    assert!(get_parser_type("proj/NotCargo.toml").is_err());
    assert!(get_parser_type("").is_err());
}

#[test]
fn dependencies_are_parsed_by_the_kind_of_the_manifest() {
    let deps = parse_dependencies("p/Cargo.toml", MANIFEST).unwrap();
    assert_eq!(deps.len(), 6);
    let deps = parse_dependencies("p/package.json", PACKAGE).unwrap();
    assert_eq!(names(&deps), vec!["left-pad", "react", "jest"]);
    assert_eq!(deps[0].version.as_deref(), Some("1.3.0"));
    assert!(deps[0].features.is_empty());
    assert!(!deps[0].optional);
    assert_eq!(deps[0].source, "package.json");
    assert_eq!(deps[0].dependency_type, DependencyType::Normal);
    assert_eq!(deps[2].dependency_type, DependencyType::Development);
    assert!(matches!(parse_dependencies("p/Cargo.toml", "= ="), Err(ManifestError::InvalidToml)));
    assert!(matches!(parse_dependencies("p/package.json", "{"), Err(ManifestError::InvalidJson)));
    assert!(matches!(parse_dependencies("p/build.gradle", MANIFEST), Err(ManifestError::UnsupportedManifest(_))));
}

#[test]
fn packages_become_dependency_records() {
    let packages = parse_package_json(PACKAGE).unwrap();
    let deps = normalize_packages(packages);
    assert_eq!(names(&deps), vec!["left-pad", "react", "jest"]);
    assert_eq!(deps[1].version.as_deref(), Some("^18.0.0"));
}

const LOCK: &str = r#"
# This file is automatically @generated by Cargo.
version = 3

[[package]]
name = "demo"
version = "0.1.0"
dependencies = [
 "serde",
 "tokio 1.30.0",
]

[[package]]
name = "libc"
version = "0.2.150"
source = "registry+https://github.com/rust-lang/crates.io-index"

[[package]]
name = "serde"
version = "1.0.190"
dependencies = [
 "serde_derive",
]

[[package]]
name = "tokio"
version = "1.30.0"
dependencies = [
 "libc 0.2.150 (registry+https://github.com/rust-lang/crates.io-index)",
 "serde",
 7,
]
"#;

fn pair(a: &str, b: &str) -> (String, String) {
    (a.to_string(), b.to_string())
}

#[test]
fn a_lock_file_gives_the_relationships_between_packages() {
    assert_eq!(
        parse_cargo_lock(LOCK).unwrap(),
        vec![
            pair("demo", "serde"),
            pair("demo", "tokio"),
            pair("serde", "serde_derive"),
            pair("tokio", "libc"),
            pair("tokio", "serde"),
        ]
    );
}

#[test]
fn a_lock_file_without_packages_gives_no_relationship() {
    assert!(parse_cargo_lock("version = 3\n").unwrap().is_empty());
    assert!(parse_cargo_lock("").unwrap().is_empty());
    assert!(parse_cargo_lock("package = \"none\"\n").unwrap().is_empty());
    assert!(parse_cargo_lock("[[package]]\nversion = \"1\"\ndependencies = [\"a\"]\n").unwrap().is_empty());
    assert!(parse_cargo_lock("[[package]]\nname = \"a\"\ndependencies = \"b\"\n").unwrap().is_empty());
}

#[test]
fn a_lock_file_that_is_no_toml_is_an_error() {
    assert!(matches!(parse_cargo_lock("[[package]\nname ="), Err(ManifestError::InvalidToml)));
}

#[test]
fn relationships_can_be_read_from_a_tree() {
    let package = |name: &str, deps: Vec<ManifestValue>| {
        ManifestValue::Table(vec![
            ("name".to_string(), ManifestValue::Text(name.to_string())),
            ("dependencies".to_string(), ManifestValue::List(deps)),
        ])
    };
    let doc = vec![
        ("version".to_string(), ManifestValue::Other),
        (
            "package".to_string(),
            ManifestValue::List(vec![
                package("a", vec![ManifestValue::Text("b 1.0".to_string()), ManifestValue::Other]),
                ManifestValue::Text("stray".to_string()),
                package("b", vec![]),
                package("c", vec![ManifestValue::Text("a".to_string()), ManifestValue::Text(" odd".to_string())]),
            ]),
        ),
    ];
    assert_eq!(CargoParser::relationships_of(&doc), vec![pair("a", "b"), pair("c", "a"), pair("c", "")]);
}
