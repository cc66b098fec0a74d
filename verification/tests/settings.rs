use why::utils::config::{
    AnalysisConfig, ColorScheme, Config, ExportConfig, ExportFormat, GeneralConfig, TuiConfig,
};
use why::utils::fs::{find_file, find_manifest_file, find_rust_files, is_excluded, is_rust_source};

#[test]
fn default_settings() {
    let general = GeneralConfig::default();
    assert_eq!(general.project_dir, None);
    assert!(general.include_dev_dependencies);
    assert!(general.include_build_dependencies);
    assert_eq!(general.max_search_depth, 5);
    let analysis = AnalysisConfig::default();
    assert_eq!(analysis.removal_threshold, 100_000);
    assert_eq!(analysis.threads, None);
    assert!(!analysis.follow_symlinks);
    assert_eq!(analysis.exclude_patterns, vec!["**/target/**", "**/node_modules/**", "**/.git/**"]);
    let export = ExportConfig::default();
    assert_eq!(export.default_format, ExportFormat::Json);
    assert_eq!(export.output_dir, ".");
    let colors = ColorScheme::default();
    assert_eq!(colors.primary, "#268bd2");
    assert_eq!(colors.secondary, "#2aa198");
    assert_eq!(colors.background, "#073642");
    assert_eq!(colors.highlight, "#d33682");
    let tui = TuiConfig::default();
    assert!(tui.use_unicode);
    assert!(tui.show_help_bar);
    assert_eq!(tui.color_scheme.primary, "#268bd2");
    let all = Config::default();
    assert_eq!(all.general.max_search_depth, 5);
    assert_eq!(all.analysis.removal_threshold, 100_000);
    assert_eq!(all.export.default_format, ExportFormat::Json);
    assert!(all.tui.show_help_bar);
}

#[test]
fn paths_in_build_output_and_version_control_are_excluded() {
    assert!(is_excluded("proj/target/debug/x.rs"));
    assert!(is_excluded("/target/"));
    assert!(is_excluded("a/.git/config"));
    assert!(!is_excluded("target/debug/x.rs"));
    assert!(!is_excluded("proj/src/targets/x.rs"));
    assert!(!is_excluded("proj/.github/x.rs"));
    assert!(!is_excluded(""));
}

#[test]
fn rust_sources_are_known_by_their_extension() {
    assert!(is_rust_source("src/main.rs"));
    assert!(is_rust_source("a.rs"));
    assert!(is_rust_source("dir.rs/b.rs"));
    assert!(is_rust_source("a.b.rs"));
    assert!(!is_rust_source(".rs"));
    assert!(!is_rust_source("src/.rs"));
    assert!(!is_rust_source("src/main.rs.bak"));
    assert!(!is_rust_source("dir.rs/readme"));
    assert!(!is_rust_source("mainrs"));
    assert!(!is_rust_source(""));
    for path in ["src/main.rs", ".rs", "a/.rs", "x.rs", "a.b/c", "a/b.rS", "..rs", "a/b.c.rs"] {
        let expected = std::path::Path::new(path).extension().map_or(false, |e| e == "rs");
        assert_eq!(is_rust_source(path), expected, "for {}", path);
    }
}

#[test]
fn the_files_to_scan_are_picked_in_order() {
    let paths: Vec<String> = ["p/src/b.rs", "p/target/x/c.rs", "p/README.md", "p/src/a.rs", "p/.git/h.rs", "p/build.rs"]
        .iter()
        .map(|p| p.to_string())
        .collect();
    assert_eq!(find_rust_files(&paths), vec!["p/src/b.rs", "p/src/a.rs", "p/build.rs"]);
    assert!(find_rust_files(&Vec::new()).is_empty());
}

#[test]
fn a_file_is_found_by_its_name() {
    let paths: Vec<String> =
        ["p", "p/src", "p/src/MyCargo.toml", "p/sub/Cargo.toml", "p/Cargo.toml"].iter().map(|p| p.to_string()).collect();
    assert_eq!(find_file(&paths, "Cargo.toml"), Some("p/sub/Cargo.toml".to_string()));
    assert_eq!(find_file(&paths, "src"), Some("p/src".to_string()));
    assert_eq!(find_file(&paths, "Cargo.lock"), None);
}

#[test]
fn the_manifest_is_looked_for_in_the_project_directory() {
    assert_eq!(find_manifest_file("proj", true), Some("proj/Cargo.toml".to_string()));
    assert_eq!(find_manifest_file("proj/", true), Some("proj/Cargo.toml".to_string()));
    assert_eq!(find_manifest_file("proj", false), None);
}
