use why::analyzer::rust_analyzer::{PathSegment, SourceContent, SourceFile, SourcePath, SyntaxEvent, UseTree};
use why::analyzer::{analyze, Analysis, AnalysisError, AnalyzedDependency, DependencyAnalyzer};
use why::analyzer::dependency_graph::DependencyGraph;
use why::manifest::cargo::{parse_cargo_lock, parse_cargo_toml};
use why::manifest::ManifestError;

const MANIFEST: &str = r#"
[dependencies]
serde = { version = "1.0", features = ["derive", "rc"] }
tokio = "1"
unused = "0.3"

[dev-dependencies]
tempfile = "3"
"#;

fn path(segments: &[&str]) -> SourcePath {
    SourcePath {
        segments: segments.iter().map(|s| PathSegment { ident: s.to_string(), has_arguments: false }).collect(),
    }
}

fn import(root: &str, name: &str) -> SyntaxEvent {
    SyntaxEvent::Use(UseTree::Path {
        ident: root.to_string(),
        tree: Box::new(UseTree::Name { ident: name.to_string() }),
    })
}

fn files() -> Vec<SourceFile> {
    vec![
        SourceFile {
            path: "proj/src/main.rs".to_string(),
            content: SourceContent::Parsed(vec![
                import("serde", "derive_more"),
                import("tokio", "spawn"),
                SyntaxEvent::Path(path(&["spawn"])),
                SyntaxEvent::Path(path(&["tokio", "runtime", "Runtime"])),
                SyntaxEvent::Macro(path(&["tokio", "select"])),
            ]),
        },
        SourceFile {
            path: "proj/src/lib.rs".to_string(),
            content: SourceContent::Unparsed("use tokio::net;\nuse tempfile::tempdir;\n".to_string()),
        },
        SourceFile {
            path: "proj/target/debug/gen.rs".to_string(),
            content: SourceContent::Unparsed("use unused::x;\n".to_string()),
        },
    ]
}

#[test]
fn the_analyzer_knows_where_it_looks_for_files() {
    let a = DependencyAnalyzer::new("proj");
    assert_eq!(a.project_path(), "proj");
    assert_eq!(a.manifest_path(), "proj/Cargo.toml");
    assert_eq!(a.lock_path(), "proj/Cargo.lock");
    assert_eq!(a.find_manifest_file(true).unwrap(), "proj/Cargo.toml");
    match a.find_manifest_file(false) {
        Err(AnalysisError::NoManifest(dir)) => assert_eq!(dir, "proj"),
        other => panic!("unexpected {:?}", other.map(|_| ())),
    }
}

#[test]
fn an_analysis_ties_the_parts_together() {
    let a = DependencyAnalyzer::new("proj");
    let result = a.analyze("proj/Cargo.toml", MANIFEST, &files(), &None).ok().unwrap();
    let names: Vec<&str> = result.dependencies.iter().map(|d| d.name.as_str()).collect();
    assert_eq!(names, vec!["serde", "tokio", "unused", "tempfile"]);
    assert_eq!(result.usage_data.get("serde").unwrap().len(), 2);
    assert_eq!(result.usage_data.get("tokio").unwrap().len(), 6);
    assert_eq!(result.usage_data.get("unused").unwrap().len(), 0);
    assert_eq!(result.usage_data.get("tempfile").unwrap().len(), 1);
    assert_eq!(result.metrics.usage_count.get("tokio"), Some(&2));
    assert_eq!(result.metrics.is_used.get("unused"), Some(&false));
    assert_eq!(result.metrics.importance_scores.get("unused"), Some(&0));
    // tokio: 2 files, 4 kinds: import 3, function 1, trait 1, macro 1
    // 2/20 * (1 + 4/5) * (1 + 0.1 + 0.03 + 0.06 + 0.02) = 0.21780
    assert_eq!(result.metrics.importance_scores.get("tokio"), Some(&217_800));
    // serde: 1/20 * 1.2 * 1.1 = 0.066, and one of its two features is unused
    assert_eq!(result.metrics.importance_scores.get("serde"), Some(&66_000));
    assert_eq!(result.metrics.is_partially_used.get("serde"), Some(&true));
    assert_eq!(result.metrics.removable_dependencies, vec!["serde", "unused", "tempfile"]);
    assert_eq!(result.dependency_graph.node_count(), 4);
    assert_eq!(result.dependency_graph.edge_count(), 0);
    assert!(result.dependency_graph.find_circular_dependencies().is_empty());
}

#[test]
fn lock_data_gives_the_graph_its_edges() {
    let a = DependencyAnalyzer::new("proj");
    let lock = Some(vec![
        ("serde".to_string(), "tokio".to_string()),
        ("tokio".to_string(), "serde".to_string()),
        ("tokio".to_string(), "mio".to_string()),
    ]);
    let result = a.analyze("proj/Cargo.toml", MANIFEST, &files(), &lock).ok().unwrap();
    assert_eq!(result.dependency_graph.edge_count(), 2);
    let groups = result.dependency_graph.find_circular_dependencies();
    assert_eq!(groups.len(), 1);
    assert_eq!(groups[0].len(), 2);
    let deps = parse_cargo_toml(MANIFEST).unwrap();
    let bare = a.generate_dependency_graph(&deps, &None);
    assert_eq!(bare.edge_count(), 0);
}

#[test]
fn a_manifest_that_cannot_be_read_fails_the_analysis() {
    let a = DependencyAnalyzer::new("proj");
    assert!(matches!(
        a.analyze("proj/Cargo.toml", "[dependencies", &files(), &None),
        Err(AnalysisError::Manifest(ManifestError::InvalidToml))
    ));
    assert!(matches!(
        a.analyze("proj/setup.py", MANIFEST, &files(), &None),
        Err(AnalysisError::Manifest(ManifestError::UnsupportedManifest(_)))
    ));
    assert!(a.parse_manifest("proj/Cargo.toml", MANIFEST).is_ok());
    assert!(a.parse_manifest("proj/package.json", MANIFEST).is_err());
}

fn row<'a>(analysis: &'a Analysis, name: &str) -> &'a AnalyzedDependency {
    analysis.dependencies.iter().find(|d| d.name == name).unwrap()
}

#[test]
fn the_flattened_analysis_has_one_row_for_each_dependency() {
    let manifest = parse_cargo_toml(MANIFEST).unwrap();
    let analysis = analyze("proj", &manifest, "proj/Cargo.toml", MANIFEST, &files(), &None).ok().unwrap();
    let names: Vec<&str> = analysis.dependencies.iter().map(|d| d.name.as_str()).collect();
    assert_eq!(names, vec!["serde", "tokio", "unused", "tempfile"]);
    let serde = row(&analysis, "serde");
    assert_eq!(serde.version, "1.0");
    assert_eq!(serde.usage_count, 1);
    assert_eq!(serde.importance_score, 66_000);
    assert!(serde.removable);
    assert_eq!(serde.used_features, vec!["derive"]);
    assert_eq!(serde.unused_features, vec!["rc"]);
    let tokio = row(&analysis, "tokio");
    assert_eq!(tokio.usage_count, 2);
    assert_eq!(tokio.importance_score, 217_800);
    assert!(!tokio.removable);
    assert!(tokio.used_features.is_empty());
    let unused = row(&analysis, "unused");
    assert_eq!(unused.usage_count, 0);
    assert_eq!(unused.importance_score, 0);
    assert!(unused.removable);
}

#[test]
fn a_row_for_a_dependency_that_was_not_analyzed_is_empty() {
    let mut manifest = parse_cargo_toml(MANIFEST).unwrap();
    manifest[0].name = "stranger".to_string();
    manifest[0].version = None;
    let analysis = analyze("proj", &manifest, "proj/Cargo.toml", MANIFEST, &files(), &None).ok().unwrap();
    let stranger = row(&analysis, "stranger");
    assert_eq!(stranger.version, "");
    assert_eq!(stranger.usage_count, 0);
    assert_eq!(stranger.importance_score, 0);
    assert!(!stranger.removable);
    assert!(stranger.used_features.is_empty());
    assert!(stranger.unused_features.is_empty());
}

#[test]
fn filter_dependency_keeps_the_rows_of_one_name() {
    let manifest = parse_cargo_toml(MANIFEST).unwrap();
    let mut analysis = analyze("proj", &manifest, "proj/Cargo.toml", MANIFEST, &files(), &None).ok().unwrap();
    let copy = row(&analysis, "tokio").duplicate();
    assert_eq!(copy.name, "tokio");
    assert_eq!(copy.importance_score, 217_800);
    analysis.filter_dependency("tokio");
    assert_eq!(analysis.dependencies.len(), 1);
    assert_eq!(analysis.dependencies[0].name, "tokio");
    analysis.filter_dependency("serde");
    assert!(analysis.dependencies.is_empty());
}

#[test]
fn analyzing_twice_gives_the_same_rows() {
    let manifest = parse_cargo_toml(MANIFEST).unwrap();
    let first = analyze("proj", &manifest, "proj/Cargo.toml", MANIFEST, &files(), &None).ok().unwrap();
    let second = analyze("proj", &manifest, "proj/Cargo.toml", MANIFEST, &files(), &None).ok().unwrap();
    assert_eq!(format!("{:?}", first), format!("{:?}", second));
}

#[test]
fn a_lock_file_seeds_the_edges_of_the_graph() {
    let lock = "[[package]]\nname = \"proj\"\ndependencies = [\"serde\", \"tokio\"]\n\n[[package]]\nname = \"serde\"\ndependencies = [\"tokio 1.0\"]\n\n[[package]]\nname = \"tokio\"\ndependencies = [\"mio\", \"serde 1.0 (registry)\"]\n";
    let pairs = parse_cargo_lock(lock).unwrap();
    let deps = parse_cargo_toml(MANIFEST).unwrap();
    let graph = DependencyGraph::from_cargo_lock(&pairs, &deps);
    assert_eq!(graph.edge_count(), 2);
    assert!(graph.has_path("serde", "tokio"));
    assert!(graph.has_path("tokio", "serde"));
    assert!(!graph.has_path("serde", "unused"));
    let groups = graph.find_circular_dependencies();
    assert_eq!(groups.len(), 1);
    let a = DependencyAnalyzer::new("proj");
    let result = a.analyze("proj/Cargo.toml", MANIFEST, &files(), &Some(pairs)).ok().unwrap();
    assert_eq!(result.dependency_graph.edge_count(), 2);
}
