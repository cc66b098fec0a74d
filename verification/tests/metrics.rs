use why::analyzer::metrics::{
    calculate_feature_usage, calculate_importance_score, calculate_metrics, calculate_usage_depth,
    count_files, count_usage_types, determine_if_partially_used, find_removable_dependencies,
    find_removable_with, mentioned, PARTIAL_USE_THRESHOLD, REMOVAL_THRESHOLD, SCORE_ONE,
};
use why::analyzer::{DependencyMetrics, DependencyUsage, DependencyUsageData, UsageCounts, UsageType};
use why::manifest::cargo::{CargoDependency, DependencyType};

fn dep(name: &str, features: &[&str], kind: DependencyType, optional: bool) -> CargoDependency {
    CargoDependency {
        name: name.to_string(),
        version: Some("1".to_string()),
        features: features.iter().map(|f| f.to_string()).collect(),
        optional,
        dependency_type: kind,
        source: "Cargo.toml".to_string(),
    }
}

fn usage(file: &str, item: &str, kind: UsageType) -> DependencyUsage {
    DependencyUsage { file: file.to_string(), line: 0, imported_item: item.to_string(), usage_type: kind }
}

fn index_of(entries: Vec<(&str, Vec<DependencyUsage>)>) -> DependencyUsageData {
    let mut index = DependencyUsageData::new();
    for (name, usages) in entries {
        index.track(name.to_string());
        for u in usages {
            index.record(name, u);
        }
    }
    index
}

fn counts(imports: usize, functions: usize, types: usize, traits: usize, macros: usize, others: usize) -> UsageCounts {
    UsageCounts { imports, functions, types, traits, macros, others }
}

fn as_fraction(score: u32) -> f64 {
    score as f64 / SCORE_ONE as f64
}

#[test]
fn an_unused_dependency_is_removable() {
    let deps = vec![dep("dep-x", &[], DependencyType::Normal, false)];
    let index = index_of(vec![("dep-x", vec![])]);
    let metrics = calculate_metrics(&deps, &index);
    assert_eq!(metrics.is_used.get("dep-x"), Some(&false));
    assert_eq!(metrics.importance_scores.get("dep-x"), Some(&0));
    assert_eq!(metrics.usage_count.get("dep-x"), Some(&0));
    assert_eq!(metrics.is_partially_used.get("dep-x"), Some(&false));
    assert_eq!(metrics.removable_dependencies, vec!["dep-x".to_string()]);
}

#[test]
fn a_feature_named_in_a_call_is_used() {
    let deps = vec![dep("dep-y", &["async"], DependencyType::Normal, false)];
    let index = index_of(vec![(
        "dep-y",
        vec![
            usage("src/main.rs", "dep-y::<rest>", UsageType::Import),
            usage("src/main.rs", "dep-y::run_async", UsageType::Function),
        ],
    )]);
    let metrics = calculate_metrics(&deps, &index);
    let features = metrics.feature_usage.get("dep-y").unwrap();
    assert_eq!(features.get("async"), Some(&true));
    assert_eq!(features.len(), 1);
    assert_eq!(metrics.is_partially_used.get("dep-y"), Some(&false));
    assert_eq!(metrics.is_used.get("dep-y"), Some(&true));
}

#[test]
fn one_used_feature_of_two_is_partial_use() {
    let deps = vec![dep("dep-z", &["a", "b"], DependencyType::Normal, false)];
    let index = index_of(vec![("dep-z", vec![usage("src/lib.rs", "dep-z::a", UsageType::Function)])]);
    let metrics = calculate_metrics(&deps, &index);
    let features = metrics.feature_usage.get("dep-z").unwrap();
    assert_eq!(features.get("a"), Some(&true));
    assert_eq!(features.get("b"), Some(&false));
    assert_eq!(features.len(), 2);
    assert_eq!(metrics.is_partially_used.get("dep-z"), Some(&true));
}

fn broad_usages() -> Vec<DependencyUsage> {
    let mut usages = Vec::new();
    for i in 0..25 {
        usages.push(usage(&format!("src/f{}.rs", i), "big::<rest>", UsageType::Import));
    }
    usages.push(usage("src/f0.rs", "big::run", UsageType::Function));
    usages.push(usage("src/f0.rs", "Thing", UsageType::Type));
    usages.push(usage("src/f0.rs", "big::Shape", UsageType::Trait));
    usages.push(usage("src/f0.rs", "big!", UsageType::Macro));
    usages
}

#[test]
fn broad_and_varied_usage_caps_breadth_and_variety() {
    let usages = broad_usages();
    for (kind, class_factor) in [
        (DependencyType::Normal, 1.0),
        (DependencyType::Build, 0.7),
        (DependencyType::Development, 0.5),
    ] {
        for (optional, optional_factor) in [(false, 1.0), (true, 0.7)] {
            let deps = vec![dep("big", &[], kind, optional)];
            let index = index_of(vec![("big", usages.clone())]);
            let metrics = calculate_metrics(&deps, &index);
            assert_eq!(metrics.usage_count.get("big"), Some(&25));
            let depth: f64 = 0.1 + 0.3 * 1.0 / 10.0 + 0.3 * 1.0 / 10.0 + 0.3 * 1.0 / 5.0 + 0.2 * 1.0 / 10.0;
            let expected = (1.0 * 2.0 * (1.0 + depth) * class_factor * optional_factor).min(1.0);
            let score = *metrics.importance_scores.get("big").unwrap();
            assert!((as_fraction(score) - expected).abs() < 1e-9, "{} vs {}", score, expected);
        }
    }
}

#[test]
fn golden_scores() {
    let usages = broad_usages();
    let index = index_of(vec![("big", usages)]);
    let score = |kind, optional| {
        let deps = vec![dep("big", &[], kind, optional)];
        *calculate_metrics(&deps, &index).importance_scores.get("big").unwrap()
    };
    assert_eq!(score(DependencyType::Normal, false), 1_000_000);
    assert_eq!(score(DependencyType::Development, true), 868_000);
    assert_eq!(score(DependencyType::Build, true), 1_000_000);
    assert_eq!(score(DependencyType::Development, false), 1_000_000);
}

#[test]
fn importance_follows_the_formula() {
    let d = dep("d", &[], DependencyType::Normal, false);
    let one = vec![usage("a.rs", "d::x", UsageType::Import)];
    // one file, one kind, an import: 1/20 * (1 + 1/5) * (1 + 0.1) = 0.066
    assert_eq!(calculate_importance_score(&d, &one, 1, &counts(1, 0, 0, 0, 0, 0)), 66_000);
    // four files, import and function (3 calls): 4/20 * 1.4 * (1 + 0.1 + 0.09) = 0.3332
    assert_eq!(calculate_importance_score(&d, &one, 4, &counts(2, 3, 0, 0, 0, 0)), 333_200);
    // a kind that is not rewarded adds nothing
    assert_eq!(calculate_importance_score(&d, &one, 4, &counts(2, 3, 0, 0, 0, 7)), 333_200);
    // only usages of no rewarded kind: 2/20 * 1 * 1 = 0.1
    assert_eq!(calculate_importance_score(&d, &one, 2, &counts(0, 0, 0, 0, 0, 5)), 100_000);
    let dev = dep("d", &[], DependencyType::Development, false);
    assert_eq!(calculate_importance_score(&dev, &one, 1, &counts(1, 0, 0, 0, 0, 0)), 33_000);
    let build_optional = dep("d", &[], DependencyType::Build, true);
    // 0.066 * 0.7 * 0.7 = 0.03234
    assert_eq!(calculate_importance_score(&build_optional, &one, 1, &counts(1, 0, 0, 0, 0, 0)), 32_340);
    // no usages: zero, whatever the counts say
    assert_eq!(calculate_importance_score(&d, &Vec::new(), 9, &counts(9, 9, 9, 9, 9, 9)), 0);
    // zero files with usages: the breadth factor is zero
    assert_eq!(calculate_importance_score(&d, &one, 0, &counts(1, 0, 0, 0, 0, 0)), 0);
}

#[test]
fn importance_does_not_fall_with_more_files() {
    let one = vec![usage("a.rs", "d::x", UsageType::Import)];
    for kind in [DependencyType::Normal, DependencyType::Development, DependencyType::Build] {
        for optional in [false, true] {
            let d = dep("d", &[], kind, optional);
            let c = counts(3, 2, 0, 1, 0, 4);
            let mut last = 0;
            for files in 0..30 {
                let score = calculate_importance_score(&d, &one, files, &c);
                assert!(score >= last);
                assert!(score <= SCORE_ONE);
                last = score;
            }
        }
    }
}

#[test]
fn usage_depth_caps_each_part_and_the_sum() {
    assert_eq!(calculate_usage_depth(&counts(0, 0, 0, 0, 0, 0)), 0);
    assert_eq!(calculate_usage_depth(&counts(5, 0, 0, 0, 0, 0)), 10);
    assert_eq!(calculate_usage_depth(&counts(0, 4, 0, 0, 0, 0)), 12);
    assert_eq!(calculate_usage_depth(&counts(0, 40, 0, 0, 0, 0)), 30);
    assert_eq!(calculate_usage_depth(&counts(0, 0, 7, 0, 0, 0)), 21);
    assert_eq!(calculate_usage_depth(&counts(0, 0, 0, 2, 0, 0)), 12);
    assert_eq!(calculate_usage_depth(&counts(0, 0, 0, 9, 0, 0)), 30);
    assert_eq!(calculate_usage_depth(&counts(0, 0, 0, 0, 3, 0)), 6);
    assert_eq!(calculate_usage_depth(&counts(0, 0, 0, 0, 30, 0)), 20);
    assert_eq!(calculate_usage_depth(&counts(0, 0, 0, 0, 0, 30)), 0);
    assert_eq!(calculate_usage_depth(&counts(1, 10, 10, 5, 10, 0)), 100);
    assert_eq!(calculate_usage_depth(&counts(1, 10, 10, 5, 0, 0)), 100);
    assert_eq!(calculate_usage_depth(&counts(0, 10, 10, 5, 0, 0)), 90);
}

#[test]
fn file_count_counts_distinct_files() {
    let usages = vec![
        usage("a.rs", "x", UsageType::Import),
        usage("b.rs", "x", UsageType::Import),
        usage("a.rs", "y", UsageType::Function),
        usage("a.rs", "z", UsageType::Type),
    ];
    assert_eq!(count_files(&usages), 2);
    assert!(count_files(&usages) <= usages.len());
    assert_eq!(count_files(&Vec::new()), 0);
}

#[test]
fn usage_types_are_tallied() {
    let usages = vec![
        usage("a.rs", "x", UsageType::Import),
        usage("a.rs", "x", UsageType::Import),
        usage("a.rs", "y", UsageType::Function),
        usage("a.rs", "z", UsageType::Trait),
        usage("a.rs", "m!", UsageType::Macro),
        usage("a.rs", "o", UsageType::Other),
        usage("a.rs", "T", UsageType::Type),
        usage("a.rs", "o", UsageType::Other),
    ];
    let c = count_usage_types(&usages);
    assert_eq!(c.get(UsageType::Import), 2);
    assert_eq!(c.get(UsageType::Function), 1);
    assert_eq!(c.get(UsageType::Type), 1);
    assert_eq!(c.get(UsageType::Trait), 1);
    assert_eq!(c.get(UsageType::Macro), 1);
    assert_eq!(c.get(UsageType::Other), 2);
}

#[test]
fn feature_usage_keeps_the_order_of_declaration() {
    let d = dep("d", &["json", "derive", "json", "rt"], DependencyType::Normal, false);
    let usages = vec![usage("a.rs", "d::derive::Thing", UsageType::Type)];
    let features = calculate_feature_usage(&d, &usages);
    assert_eq!(features.len(), 3);
    assert_eq!(features.key_at(0), "json");
    assert_eq!(features.key_at(1), "derive");
    assert_eq!(features.key_at(2), "rt");
    assert_eq!(features.get("json"), Some(&false));
    assert_eq!(features.get("derive"), Some(&true));
    assert_eq!(features.get("rt"), Some(&false));
    assert!(determine_if_partially_used(&d, &features));
    assert!(mentioned(&usages, &"derive".to_string()));
    assert!(!mentioned(&usages, &"json".to_string()));
}

#[test]
fn no_features_means_not_partially_used() {
    let d = dep("d", &[], DependencyType::Normal, false);
    let features = calculate_feature_usage(&d, &Vec::new());
    assert_eq!(features.len(), 0);
    assert!(!determine_if_partially_used(&d, &features));
    let with = dep("d", &["x"], DependencyType::Normal, false);
    let unused = calculate_feature_usage(&with, &Vec::new());
    assert_eq!(unused.get("x"), Some(&false));
    assert!(determine_if_partially_used(&with, &unused));
}

#[test]
fn removable_set_follows_the_thresholds() {
    assert_eq!(REMOVAL_THRESHOLD, 100_000);
    assert_eq!(PARTIAL_USE_THRESHOLD, 300_000);
    let mut m = DependencyMetrics::new();
    let rows: Vec<(&str, bool, u32, bool)> = vec![
        ("unused", false, 900_000, false),
        ("tiny", true, 99_999, false),
        ("edge", true, 100_000, false),
        ("partial-low", true, 299_999, true),
        ("partial-edge", true, 300_000, true),
        ("whole-low", true, 299_999, false),
        ("important", true, 1_000_000, true),
    ];
    for (name, used, score, partial) in rows {
        m.is_used.insert(name.to_string(), used);
        m.importance_scores.insert(name.to_string(), score);
        m.is_partially_used.insert(name.to_string(), partial);
    }
    assert_eq!(find_removable_dependencies(&m), vec!["unused", "tiny", "partial-low"]);
    assert_eq!(find_removable_with(&m, 100_000, 300_000), vec!["unused", "tiny", "partial-low"]);
    assert_eq!(
        find_removable_with(&m, 100_001, 300_001),
        vec!["unused", "tiny", "edge", "partial-low", "partial-edge"]
    );
    assert_eq!(find_removable_with(&m, 0, 0), vec!["unused"]);
    assert_eq!(
        find_removable_with(&m, 500_000, 0),
        vec!["unused", "tiny", "edge", "partial-low", "partial-edge", "whole-low"]
    );
}

#[test]
fn removable_set_without_scores_counts_a_score_of_one() {
    let mut m = DependencyMetrics::new();
    m.is_used.insert("a".to_string(), true);
    m.is_used.insert("b".to_string(), false);
    m.is_partially_used.insert("a".to_string(), true);
    assert_eq!(find_removable_dependencies(&m), vec!["b"]);
}

#[test]
fn metrics_hold_every_declared_dependency_in_order() {
    let deps = vec![
        dep("b", &[], DependencyType::Normal, false),
        dep("a", &["f"], DependencyType::Development, false),
        dep("c", &[], DependencyType::Build, true),
    ];
    let index = index_of(vec![
        ("b", vec![usage("x.rs", "b::<rest>", UsageType::Import), usage("x.rs", "b::go", UsageType::Function)]),
        ("a", vec![]),
        ("c", vec![usage("build.rs", "c::f", UsageType::Function)]),
    ]);
    let m = calculate_metrics(&deps, &index);
    assert_eq!(m.is_used.len(), 3);
    assert_eq!(m.is_used.key_at(0), "b");
    assert_eq!(m.is_used.key_at(1), "a");
    assert_eq!(m.is_used.key_at(2), "c");
    assert_eq!(m.is_used.get("b"), Some(&true));
    assert_eq!(m.is_used.get("a"), Some(&false));
    // b: 1/20 * 1.4 * (1 + 0.1 + 0.03) = 0.0791
    assert_eq!(m.importance_scores.get("b"), Some(&79_100));
    // c: 1/20 * 1.2 * 1.03 * 0.7 * 0.7 = 0.030282
    assert_eq!(m.importance_scores.get("c"), Some(&30_282));
    assert_eq!(m.importance_scores.get("a"), Some(&0));
    assert_eq!(m.removable_dependencies, vec!["b", "a", "c"]);
    assert_eq!(m.usage_types.get("b").unwrap().get(UsageType::Function), 1);
}

#[test]
fn a_dependency_missing_from_the_index_counts_as_unused() {
    let deps = vec![dep("ghost", &["x"], DependencyType::Normal, false)];
    let index = DependencyUsageData::new();
    let m = calculate_metrics(&deps, &index);
    assert_eq!(m.is_used.get("ghost"), Some(&false));
    assert_eq!(m.importance_scores.get("ghost"), Some(&0));
    assert_eq!(m.removable_dependencies, vec!["ghost"]);
}

#[test]
fn the_last_declaration_of_a_name_counts() {
    let deps = vec![
        dep("same", &[], DependencyType::Normal, false),
        dep("same", &[], DependencyType::Development, false),
    ];
    let index = index_of(vec![("same", vec![usage("a.rs", "same::<rest>", UsageType::Import)])]);
    let m = calculate_metrics(&deps, &index);
    assert_eq!(m.is_used.len(), 1);
    assert_eq!(m.importance_scores.get("same"), Some(&33_000));
}
