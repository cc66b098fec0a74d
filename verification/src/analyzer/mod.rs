//! Usage sites, the usage index, the metrics computed from it, and the
//! analysis that ties scanning, scoring and the dependency graph together.

pub mod dependency_graph;
pub mod metrics;
pub mod rust_analyzer;

use crate::analyzer::dependency_graph::{DependencyGraph, GRAPH_CAPACITY};
use crate::analyzer::metrics::{calculate_metrics, metrics_rows, record_names, removable_names};
use crate::analyzer::rust_analyzer::{RustAnalyzer, SourceFile, usage_index};
use crate::manifest::cargo::{CargoDependency, DependencyRecord, records, texts};
use crate::manifest::{ManifestError, manifest_dependencies, parse_dependencies};
use crate::name_map::{NameMap, distinct_names};
use crate::text::{copy_strings, join_path, joined_path, list_contains, same_text};
use vstd::prelude::*;

verus! {

/// How a usage site refers to its dependency.
#[derive(Clone, Copy, PartialEq, Eq, Structural, Debug, Hash)]
pub enum UsageType {
    Import,
    Function,
    Type,
    Trait,
    Macro,
    Other,
}

/// One place in a source file where a dependency is referenced.
#[derive(Clone, Debug)]
pub struct DependencyUsage {
    pub file: String,
    pub line: usize,
    pub imported_item: String,
    pub usage_type: UsageType,
}

/// What a usage site is: the model of `DependencyUsage`.
pub ghost struct UsageSite {
    pub file: Seq<char>,
    pub line: nat,
    pub referenced_symbol: Seq<char>,
    pub kind: UsageType,
}

impl View for DependencyUsage {
    type V = UsageSite;

    open spec fn view(&self) -> UsageSite {
        UsageSite {
            file: self.file@,
            line: self.line as nat,
            referenced_symbol: self.imported_item@,
            kind: self.usage_type,
        }
    }
}

/// The usage sites of a sequence of usages.
pub open spec fn sites(usages: Seq<DependencyUsage>) -> Seq<UsageSite> {
    usages.map_values(|u: DependencyUsage| u@)
}

/// The usage index: for each tracked dependency name, its usage sites in the
/// order in which they were recorded.
#[derive(Debug)]
pub struct DependencyUsageData {
    pub usage_locations: NameMap<Vec<DependencyUsage>>,
}

impl DependencyUsageData {
    /// The index is a well-formed map.
    pub open spec fn wf(&self) -> bool {
        self.usage_locations.wf()
    }

    /// Whether the index tracks `name`.
    pub open spec fn tracks(&self, name: Seq<char>) -> bool {
        self.usage_locations.has(name)
    }

    /// The sites recorded for `name`; none where the index does not track it.
    pub open spec fn sites_of(&self, name: Seq<char>) -> Seq<UsageSite> {
        match self.usage_locations.value_of(name) {
            Some(v) => sites(v@),
            None => Seq::empty(),
        }
    }

    /// The index as a map from names to usage sites.
    pub open spec fn model(&self) -> Map<Seq<char>, Seq<UsageSite>> {
        Map::new(|n: Seq<char>| self.tracks(n), |n: Seq<char>| self.sites_of(n))
    }

    /// An index that tracks nothing.
    pub fn new() -> (d: Self)
        ensures
            d.wf(),
            d.model() == Map::<Seq<char>, Seq<UsageSite>>::empty(),
            d.usage_locations.names().len() == 0,
    {
        let d = DependencyUsageData { usage_locations: NameMap::new() };
        assert(d.model() =~= Map::<Seq<char>, Seq<UsageSite>>::empty());
        d
    }

    /// Starts tracking `name` with no sites, dropping what was recorded for it.
    pub fn track(&mut self, name: String)
        requires
            old(self).wf(),
        ensures
            final(self).wf(),
            final(self).model() == old(self).model().insert(name@, Seq::empty()),
            final(self).usage_locations.names() == (if old(self).tracks(name@) {
                old(self).usage_locations.names()
            } else {
                old(self).usage_locations.names().push(name@)
            }),
    {
        let ghost before = *self;
        self.usage_locations.insert(name, Vec::new());
        proof {
            assert forall|n: Seq<char>| self.tracks(n) implies #[trigger] self.model()[n]
                == before.model().insert(name@, Seq::empty())[n] by {
                assert(self.usage_locations@.dom().contains(n));
                if n == name@ {
                    assert(self.usage_locations@[n]@ == Seq::<DependencyUsage>::empty());
                    assert(self.sites_of(n) =~= Seq::<UsageSite>::empty());
                } else {
                    assert(before.usage_locations@.dom().contains(n));
                    assert(self.usage_locations@[n] == before.usage_locations@[n]);
                }
            }
            assert forall|n: Seq<char>| #[trigger]
                self.model().dom().contains(n) == before.model().insert(
                    name@,
                    Seq::empty(),
                ).dom().contains(n) by {
                assert(self.usage_locations@.dom().contains(n) == self.tracks(n));
                assert(before.usage_locations@.dom().contains(n) == before.tracks(n));
            }
            assert(self.model() =~= before.model().insert(name@, Seq::empty()));
        }
    }

    /// Appends `usage` to the sites of `name`. Where the index does not track
    /// `name`, nothing changes.
    pub fn record(&mut self, name: &str, usage: DependencyUsage)
        requires
            old(self).wf(),
        ensures
            final(self).wf(),
            final(self).usage_locations.names() == old(self).usage_locations.names(),
            final(self).model() == record_site(old(self).model(), name@, usage@),
    {
        let ghost before = *self;
        let found = self.usage_locations.push_to(name, usage);
        proof {
            let target = record_site(before.model(), name@, usage@);
            assert forall|n: Seq<char>| self.tracks(n) implies #[trigger] self.model()[n]
                == target[n] by {
                let j = self.usage_locations.names().index_of(n);
                assert(0 <= j < self.usage_locations.names().len()
                    && self.usage_locations.names()[j] == n);
                self.usage_locations.lemma_position(j);
                before.usage_locations.lemma_position(j);
                if found && n == name@ {
                    assert(self.usage_locations.values()[j]@ == before.usage_locations.values()[j]@.push(
                        usage,
                    ));
                    assert(sites(self.usage_locations.values()[j]@) =~= sites(
                        before.usage_locations.values()[j]@,
                    ).push(usage@));
                } else {
                    assert(self.usage_locations.values()[j]@ == before.usage_locations.values()[j]@);
                }
            }
            assert(self.model() =~= target);
        }
    }

    /// The usages recorded for `name`.
    pub fn get(&self, name: &str) -> (r: Option<&Vec<DependencyUsage>>)
        requires
            self.wf(),
        ensures
            r is Some == self.tracks(name@),
            r matches Some(v) ==> sites(v@) == self.sites_of(name@),
            r is None ==> self.sites_of(name@) == Seq::<UsageSite>::empty(),
    {
        self.usage_locations.get(name)
    }
}

impl Default for DependencyUsageData {
    fn default() -> (d: Self)
        ensures
            d.wf(),
            d.model() == Map::<Seq<char>, Seq<UsageSite>>::empty(),
            d.usage_locations.names().len() == 0,
    {
        DependencyUsageData::new()
    }
}

/// How many usage sites of each kind a dependency has: one counter for each
/// kind, in place of a hash map keyed by the kind, of which nothing could be
/// proved.
#[derive(Clone, Copy, Debug)]
pub struct UsageCounts {
    pub imports: usize,
    pub functions: usize,
    pub types: usize,
    pub traits: usize,
    pub macros: usize,
    pub others: usize,
}

/// The model of `UsageCounts`: a count for each usage kind.
pub ghost struct KindCounts {
    pub imports: nat,
    pub functions: nat,
    pub types: nat,
    pub traits: nat,
    pub macros: nat,
    pub others: nat,
}

impl KindCounts {
    /// The count for `kind`.
    pub open spec fn of(self, kind: UsageType) -> nat {
        match kind {
            UsageType::Import => self.imports,
            UsageType::Function => self.functions,
            UsageType::Type => self.types,
            UsageType::Trait => self.traits,
            UsageType::Macro => self.macros,
            UsageType::Other => self.others,
        }
    }
}

impl View for UsageCounts {
    type V = KindCounts;

    open spec fn view(&self) -> KindCounts {
        KindCounts {
            imports: self.imports as nat,
            functions: self.functions as nat,
            types: self.types as nat,
            traits: self.traits as nat,
            macros: self.macros as nat,
            others: self.others as nat,
        }
    }
}

impl UsageCounts {
    /// The count for `kind`.
    pub fn get(&self, kind: UsageType) -> (n: usize)
        ensures
            n == self@.of(kind),
    {
        match kind {
            UsageType::Import => self.imports,
            UsageType::Function => self.functions,
            UsageType::Type => self.types,
            UsageType::Trait => self.traits,
            UsageType::Macro => self.macros,
            UsageType::Other => self.others,
        }
    }
}

/// What the scorer computes for one dependency. The score is a fraction of
/// one in millionths.
pub ghost struct MetricsRow {
    pub is_used: bool,
    pub file_count: nat,
    pub usage_kind_counts: KindCounts,
    /// The declared features, each once, in the order of their declaration.
    pub feature_names: Seq<Seq<char>>,
    pub feature_usage: Map<Seq<char>, bool>,
    pub importance_score: nat,
    pub partially_used: bool,
}

/// The metrics of every declared dependency, one map per metric, and the names
/// of the dependencies that are candidates for removal. An importance score
/// is a fraction of one in millionths.
#[derive(Debug)]
pub struct DependencyMetrics {
    pub importance_scores: NameMap<u32>,
    pub is_used: NameMap<bool>,
    pub usage_count: NameMap<usize>,
    pub usage_types: NameMap<UsageCounts>,
    pub feature_usage: NameMap<NameMap<bool>>,
    pub is_partially_used: NameMap<bool>,
    pub removable_dependencies: Vec<String>,
}

impl DependencyMetrics {
    /// Every map is well-formed and all of them hold the same names in the
    /// same order.
    pub open spec fn wf(&self) -> bool {
        &&& self.importance_scores.wf()
        &&& self.is_used.wf()
        &&& self.usage_count.wf()
        &&& self.usage_types.wf()
        &&& self.feature_usage.wf()
        &&& self.is_partially_used.wf()
        &&& self.importance_scores.names() == self.is_used.names()
        &&& self.usage_count.names() == self.is_used.names()
        &&& self.usage_types.names() == self.is_used.names()
        &&& self.feature_usage.names() == self.is_used.names()
        &&& self.is_partially_used.names() == self.is_used.names()
        &&& forall|i: int|
            0 <= i < self.feature_usage.values().len() ==> (
            #[trigger] self.feature_usage.values()[i]).wf()
    }

    /// The names for which metrics are held, in the order of declaration.
    pub open spec fn names(&self) -> Seq<Seq<char>> {
        self.is_used.names()
    }

    /// The metrics held for `name`.
    pub open spec fn row(&self, name: Seq<char>) -> MetricsRow {
        MetricsRow {
            is_used: self.is_used@[name],
            file_count: self.usage_count@[name] as nat,
            usage_kind_counts: self.usage_types@[name]@,
            feature_names: self.feature_usage@[name].names(),
            feature_usage: self.feature_usage@[name]@,
            importance_score: self.importance_scores@[name] as nat,
            partially_used: self.is_partially_used@[name],
        }
    }

    /// The metrics as a map from dependency names to rows.
    pub open spec fn rows(&self) -> Map<Seq<char>, MetricsRow> {
        Map::new(|n: Seq<char>| self.is_used.has(n), |n: Seq<char>| self.row(n))
    }

    /// Metrics for no dependency.
    pub fn new() -> (m: Self)
        ensures
            m.wf(),
            m.names() == Seq::<Seq<char>>::empty(),
            m.rows() == Map::<Seq<char>, MetricsRow>::empty(),
            m.removable_dependencies@ == Seq::<String>::empty(),
    {
        let m = DependencyMetrics {
            importance_scores: NameMap::new(),
            is_used: NameMap::new(),
            usage_count: NameMap::new(),
            usage_types: NameMap::new(),
            feature_usage: NameMap::new(),
            is_partially_used: NameMap::new(),
            removable_dependencies: Vec::new(),
        };
        assert(m.rows() =~= Map::<Seq<char>, MetricsRow>::empty());
        m
    }
}

impl Default for DependencyMetrics {
    fn default() -> (m: Self)
        ensures
            m.wf(),
            m.names() == Seq::<Seq<char>>::empty(),
            m.rows() == Map::<Seq<char>, MetricsRow>::empty(),
            m.removable_dependencies@ == Seq::<String>::empty(),
    {
        DependencyMetrics::new()
    }
}

/// The index `m` after one more site for `name`: appended where `m` tracks
/// the name, dropped where it does not.
pub open spec fn record_site(
    m: Map<Seq<char>, Seq<UsageSite>>,
    name: Seq<char>,
    site: UsageSite,
) -> Map<Seq<char>, Seq<UsageSite>> {
    if m.dom().contains(name) {
        m.insert(name, m[name].push(site))
    } else {
        m
    }
}

/// One row of the flattened analysis: a dependency with what the analysis
/// found out about it. The importance score is in millionths.
#[derive(Clone, Debug)]
pub struct AnalyzedDependency {
    pub name: String,
    pub version: String,
    pub usage_count: usize,
    pub importance_score: u32,
    pub removable: bool,
    pub used_features: Vec<String>,
    pub unused_features: Vec<String>,
}

/// What a row of the analysis is: the model of `AnalyzedDependency`.
pub ghost struct AnalysisRow {
    pub name: Seq<char>,
    pub version: Seq<char>,
    pub file_count: nat,
    pub importance_score: nat,
    pub removable: bool,
    pub used_features: Seq<Seq<char>>,
    pub unused_features: Seq<Seq<char>>,
}

impl View for AnalyzedDependency {
    type V = AnalysisRow;

    open spec fn view(&self) -> AnalysisRow {
        AnalysisRow {
            name: self.name@,
            version: self.version@,
            file_count: self.usage_count as nat,
            importance_score: self.importance_score as nat,
            removable: self.removable,
            used_features: texts(self.used_features@),
            unused_features: texts(self.unused_features@),
        }
    }
}

impl AnalyzedDependency {
    /// A copy of the row.
    pub fn duplicate(&self) -> (copy: Self)
        ensures
            copy@ == self@,
    {
        let copy = AnalyzedDependency {
            name: self.name.clone(),
            version: self.version.clone(),
            usage_count: self.usage_count,
            importance_score: self.importance_score,
            removable: self.removable,
            used_features: copy_strings(&self.used_features),
            unused_features: copy_strings(&self.unused_features),
        };
        assert(texts(copy.used_features@) =~= texts(self.used_features@));
        assert(texts(copy.unused_features@) =~= texts(self.unused_features@));
        copy
    }
}

/// The rows of a sequence of analyzed dependencies.
pub open spec fn rows_of(deps: Seq<AnalyzedDependency>) -> Seq<AnalysisRow> {
    deps.map_values(|d: AnalyzedDependency| d@)
}

/// The rows of `rows` that are about the dependency `name`, in their order.
pub open spec fn rows_about(rows: Seq<AnalysisRow>, name: Seq<char>) -> Seq<AnalysisRow>
    decreases rows.len(),
{
    if rows.len() == 0 {
        Seq::empty()
    } else if rows.last().name == name {
        rows_about(rows.drop_last(), name).push(rows.last())
    } else {
        rows_about(rows.drop_last(), name)
    }
}

/// The flattened analysis: one row for each dependency.
#[derive(Debug)]
pub struct Analysis {
    pub dependencies: Vec<AnalyzedDependency>,
}

impl Analysis {
    /// Keeps the rows about the dependency `dep_name` and drops the others.
    pub fn filter_dependency(&mut self, dep_name: &str)
        ensures
            rows_of(final(self).dependencies@) == rows_about(
                rows_of(old(self).dependencies@),
                dep_name@,
            ),
    {
        let mut kept: Vec<AnalyzedDependency> = Vec::new();
        let ghost all = rows_of(self.dependencies@);
        let mut i: usize = 0;
        assert(all.take(0) =~= Seq::<AnalysisRow>::empty());
        assert(rows_of(kept@) =~= Seq::<AnalysisRow>::empty());
        while i < self.dependencies.len()
            invariant
                i <= self.dependencies.len(),
                *self == *old(self),
                all == rows_of(self.dependencies@),
                rows_of(kept@) == rows_about(all.take(i as int), dep_name@),
            decreases self.dependencies.len() - i,
        {
            proof {
                assert(all.take(i + 1).drop_last() =~= all.take(i as int));
                assert(all.take(i + 1).last() == self.dependencies@[i as int]@);
            }
            if same_text(self.dependencies[i].name.as_str(), dep_name) {
                let ghost before = rows_of(kept@);
                let copy = self.dependencies[i].duplicate();
                kept.push(copy);
                assert(rows_of(kept@) =~= before.push(copy@));
            }
            i += 1;
        }
        assert(all.take(self.dependencies@.len() as int) =~= all);
        self.dependencies = kept;
    }
}

/// The names among the first `n` of `names` whose flag in `usage` is
/// `used`, in their order.
pub open spec fn features_with(
    names: Seq<Seq<char>>,
    usage: Map<Seq<char>, bool>,
    used: bool,
    n: nat,
) -> Seq<Seq<char>>
    decreases n,
{
    if n == 0 || n > names.len() {
        Seq::empty()
    } else if usage[names[n - 1]] == used {
        features_with(names, usage, used, (n - 1) as nat).push(names[n - 1])
    } else {
        features_with(names, usage, used, (n - 1) as nat)
    }
}

/// The row of the flattened analysis for a dependency: its version, or the
/// empty text where none is declared, and from the metrics held under its
/// name its file count, its score, whether it is removable, and its declared
/// features, used and unused. Where the metrics hold nothing under the name,
/// the counts are zero, the lists empty, and the dependency is not marked
/// removable.
pub open spec fn analysis_row(dep: DependencyRecord, rows: Map<Seq<char>, MetricsRow>) -> AnalysisRow {
    let held = rows.dom().contains(dep.name);
    let row = rows[dep.name];
    AnalysisRow {
        name: dep.name,
        version: match dep.version_constraint {
            Some(v) => v,
            None => Seq::empty(),
        },
        file_count: if held {
            row.file_count
        } else {
            0
        },
        importance_score: if held {
            row.importance_score
        } else {
            0
        },
        removable: held && crate::analyzer::metrics::removable(row),
        used_features: if held {
            features_with(row.feature_names, row.feature_usage, true, row.feature_names.len())
        } else {
            Seq::empty()
        },
        unused_features: if held {
            features_with(row.feature_names, row.feature_usage, false, row.feature_names.len())
        } else {
            Seq::empty()
        },
    }
}

/// The rows of the flattened analysis for the dependencies `deps`.
pub open spec fn analysis_rows(deps: Seq<DependencyRecord>, rows: Map<Seq<char>, MetricsRow>) -> Seq<
    AnalysisRow,
> {
    deps.map_values(|d: DependencyRecord| analysis_row(d, rows))
}

/// The names of a feature-usage map whose flag is `used`.
fn features_flagged(usage: &NameMap<bool>, used: bool) -> (out: Vec<String>)
    requires
        usage.wf(),
    ensures
        texts(out@) == features_with(usage.names(), usage@, used, usage.names().len()),
{
    let mut out: Vec<String> = Vec::new();
    let mut i: usize = 0;
    assert(texts(out@) =~= Seq::<Seq<char>>::empty());
    while i < usage.len()
        invariant
            i <= usage.names().len(),
            usage.wf(),
            texts(out@) == features_with(usage.names(), usage@, used, i as nat),
        decreases usage.names().len() - i,
    {
        proof {
            usage.lemma_position(i as int);
        }
        if *usage.value_at(i) == used {
            let ghost before = texts(out@);
            out.push(usage.key_at(i).clone());
            assert(texts(out@) =~= before.push(usage.names()[i as int]));
        }
        i += 1;
    }
    out
}

/// The outcome of an analysis: the declared dependencies, the usage index,
/// the metrics and the dependency graph.
#[derive(Debug)]
pub struct AnalysisResult {
    pub dependencies: Vec<CargoDependency>,
    pub usage_data: DependencyUsageData,
    pub metrics: DependencyMetrics,
    pub dependency_graph: DependencyGraph,
}

impl AnalysisResult {
    /// The parts of the result fit together: the usage index, the metrics
    /// and the graph are those of the dependencies.
    pub open spec fn wf(&self) -> bool {
        &&& self.usage_data.wf()
        &&& self.metrics.wf()
        &&& self.dependency_graph.wf()
        &&& self.usage_data.usage_locations.names() == distinct_names(
            record_names(records(self.dependencies@)),
        )
        &&& self.metrics.names() == distinct_names(record_names(records(self.dependencies@)))
        &&& self.metrics.rows() == metrics_rows(
            records(self.dependencies@),
            self.usage_data.model(),
        )
        &&& texts(self.metrics.removable_dependencies@) == removable_names(
            self.metrics,
            self.metrics.names(),
        )
        &&& self.dependency_graph.nodes() == record_names(records(self.dependencies@))
    }

    /// The flattened analysis of the dependencies `manifest`: one row for
    /// each, in their order.
    pub fn summarize(&self, manifest: &Vec<CargoDependency>) -> (analysis: Analysis)
        requires
            self.metrics.wf(),
            texts(self.metrics.removable_dependencies@) == removable_names(
                self.metrics,
                self.metrics.names(),
            ),
        ensures
            rows_of(analysis.dependencies@) == analysis_rows(
                records(manifest@),
                self.metrics.rows(),
            ),
    {
        let mut rows: Vec<AnalyzedDependency> = Vec::new();
        let ghost target = analysis_rows(records(manifest@), self.metrics.rows());
        let mut i: usize = 0;
        assert(rows_of(rows@) =~= target.take(0));
        while i < manifest.len()
            invariant
                i <= manifest.len(),
                self.metrics.wf(),
                texts(self.metrics.removable_dependencies@) == removable_names(
                    self.metrics,
                    self.metrics.names(),
                ),
                target == analysis_rows(records(manifest@), self.metrics.rows()),
                rows_of(rows@) == target.take(i as int),
            decreases manifest.len() - i,
        {
            let dep = &manifest[i];
            let name = dep.name.as_str();
            let version: String = match &dep.version {
                Some(v) => v.clone(),
                None => String::new(),
            };
            let usage_count: usize = match self.metrics.usage_count.get(name) {
                Some(n) => *n,
                None => 0,
            };
            let importance_score: u32 = match self.metrics.importance_scores.get(name) {
                Some(s) => *s,
                None => 0,
            };
            let removable: bool = list_contains(&self.metrics.removable_dependencies, name);
            let mut used_features: Vec<String> = Vec::new();
            let mut unused_features: Vec<String> = Vec::new();
            match self.metrics.feature_usage.position(name) {
                Some(at) => {
                    let usage = self.metrics.feature_usage.value_at(at);
                    used_features = features_flagged(usage, true);
                    unused_features = features_flagged(usage, false);
                },
                None => {
                    assert(texts(used_features@) =~= Seq::<Seq<char>>::empty());
                    assert(texts(unused_features@) =~= Seq::<Seq<char>>::empty());
                },
            }
            let row = AnalyzedDependency {
                name: dep.name.clone(),
                version,
                usage_count,
                importance_score,
                removable,
                used_features,
                unused_features,
            };
            let ghost before = rows_of(rows@);
            rows.push(row);
            proof {
                let m = self.metrics;
                crate::analyzer::metrics::lemma_removable_names(m, m.names(), name@);
                if m.names().contains(name@) {
                    crate::analyzer::metrics::lemma_flagged_is_removable(m, name@);
                    let k = m.names().index_of(name@);
                    m.feature_usage.lemma_position(k);
                }
                assert(row@ == analysis_row(manifest@[i as int]@, m.rows()));
                assert(rows_of(rows@) =~= before.push(row@));
                assert(target[i as int] == analysis_row(manifest@[i as int]@, m.rows()));
                assert(target.take(i + 1) =~= target.take(i as int).push(target[i as int]));
            }
            i += 1;
        }
        assert(target.take(manifest@.len() as int) =~= target);
        Analysis { dependencies: rows }
    }
}

/// Why an analysis could not be made.
#[derive(Debug)]
pub enum AnalysisError {
    /// The project has no manifest of a supported kind; the project
    /// directory is given.
    NoManifest(String),
    /// The manifest could not be read.
    Manifest(ManifestError),
    /// The manifest declares more dependencies than the graph can hold.
    TooManyDependencies,
}

/// The name of the manifest file that is looked for in a project directory.
pub open spec fn manifest_file_name() -> Seq<char> {
    "Cargo.toml"@
}

/// The analyzer of one project. It decides and computes; reading the
/// project's files is left to its caller.
pub struct DependencyAnalyzer {
    project_path: String,
}

impl DependencyAnalyzer {
    /// The directory of the project.
    pub closed spec fn root(&self) -> Seq<char> {
        self.project_path@
    }

    /// An analyzer for the project in the directory `project_path`.
    pub fn new(project_path: &str) -> (a: Self)
        ensures
            a.root() == project_path@,
    {
        DependencyAnalyzer { project_path: String::from_str(project_path) }
    }

    /// The directory of the project.
    pub fn project_path(&self) -> (p: &str)
        ensures
            p@ == self.root(),
    {
        self.project_path.as_str()
    }

    /// The path at which the project's manifest is looked for.
    pub fn manifest_path(&self) -> (path: String)
        ensures
            path@ == joined_path(self.root(), manifest_file_name()),
    {
        join_path(self.project_path.as_str(), "Cargo.toml")
    }

    /// The path at which the project's lock file is looked for.
    pub fn lock_path(&self) -> (path: String)
        ensures
            path@ == joined_path(self.root(), "Cargo.lock"@),
    {
        join_path(self.project_path.as_str(), "Cargo.lock")
    }

    /// The manifest of the project, given whether a file exists at the
    /// manifest path: that path, or an error that names the project
    /// directory.
    pub fn find_manifest_file(&self, exists: bool) -> (r: Result<String, AnalysisError>)
        ensures
            match r {
                Ok(path) => exists && path@ == joined_path(self.root(), manifest_file_name()),
                Err(AnalysisError::NoManifest(dir)) => !exists && dir@ == self.root(),
                Err(_) => false,
            },
    {
        if exists {
            Ok(self.manifest_path())
        } else {
            Err(AnalysisError::NoManifest(self.project_path.clone()))
        }
    }

    /// The dependencies that the manifest at `manifest_path` with the text
    /// `content` declares.
    pub fn parse_manifest(&self, manifest_path: &str, content: &str) -> (r: Result<
        Vec<CargoDependency>,
        ManifestError,
    >)
        ensures
            match r {
                Ok(deps) => manifest_dependencies(manifest_path@, content@) == Some(records(deps@)),
                Err(_) => manifest_dependencies(manifest_path@, content@) is None,
            },
    {
        parse_dependencies(manifest_path, content)
    }

    /// The usage index of the project's source files.
    pub fn analyze_code(&self, dependencies: &Vec<CargoDependency>, files: &Vec<SourceFile>) -> (usage_data:
        DependencyUsageData)
        ensures
            usage_data.wf(),
            usage_data.usage_locations.names() == distinct_names(
                record_names(records(dependencies@)),
            ),
            usage_data.model() == usage_index(records(dependencies@), files@),
    {
        let analyzer = RustAnalyzer::new(self.project_path.as_str());
        analyzer.analyze(dependencies, files)
    }

    /// The metrics of the dependencies, computed from the usage index.
    pub fn calculate_metrics(
        &self,
        dependencies: &Vec<CargoDependency>,
        usage_data: &DependencyUsageData,
    ) -> (m: DependencyMetrics)
        requires
            usage_data.wf(),
        ensures
            m.wf(),
            m.names() == distinct_names(record_names(records(dependencies@))),
            m.rows() == metrics_rows(records(dependencies@), usage_data.model()),
            texts(m.removable_dependencies@) == removable_names(m, m.names()),
    {
        calculate_metrics(dependencies, usage_data)
    }

    /// The dependency graph of the project: with the relationships of the
    /// lock data where there is lock data, without edges where there is
    /// none.
    pub fn generate_dependency_graph(
        &self,
        dependencies: &Vec<CargoDependency>,
        lock: &Option<Vec<(String, String)>>,
    ) -> (g: DependencyGraph)
        requires
            dependencies.len() <= GRAPH_CAPACITY,
            lock matches Some(pairs) ==> pairs.len() <= GRAPH_CAPACITY,
        ensures
            g.wf(),
            g.nodes() == record_names(records(dependencies@)),
            g.edges() == match lock {
                Some(pairs) => g.linked(
                    crate::analyzer::dependency_graph::pair_names(pairs@),
                    pairs@.len(),
                ),
                None => Seq::<(int, int)>::empty(),
            },
    {
        match lock {
            Some(pairs) => DependencyGraph::from_cargo_lock(pairs, dependencies),
            None => DependencyGraph::new(dependencies),
        }
    }

    /// Analyzes the project: reads the dependencies from the manifest,
    /// scans the source files for their usage, scores them, and builds the
    /// dependency graph. Fails where the manifest cannot be read, or
    /// declares more dependencies, or the lock data holds more
    /// relationships, than the graph can hold.
    pub fn analyze(
        &self,
        manifest_path: &str,
        manifest_content: &str,
        files: &Vec<SourceFile>,
        lock: &Option<Vec<(String, String)>>,
    ) -> (r: Result<AnalysisResult, AnalysisError>)
        ensures
            match r {
                Ok(result) => result.wf() && manifest_dependencies(
                    manifest_path@,
                    manifest_content@,
                ) == Some(records(result.dependencies@)) && result.usage_data.model()
                    == usage_index(records(result.dependencies@), files@)
                    && result.dependency_graph.edges() == (match lock {
                    Some(pairs) => result.dependency_graph.linked(
                        crate::analyzer::dependency_graph::pair_names(pairs@),
                        pairs@.len(),
                    ),
                    None => Seq::<(int, int)>::empty(),
                }),
                Err(AnalysisError::Manifest(_)) => manifest_dependencies(
                    manifest_path@,
                    manifest_content@,
                ) is None,
                Err(AnalysisError::TooManyDependencies) => manifest_dependencies(
                    manifest_path@,
                    manifest_content@,
                ) matches Some(deps) && (deps.len() > GRAPH_CAPACITY || (lock matches Some(pairs)
                    && pairs.len() > GRAPH_CAPACITY)),
                Err(AnalysisError::NoManifest(_)) => false,
            },
    {
        let dependencies = match self.parse_manifest(manifest_path, manifest_content) {
            Ok(deps) => deps,
            Err(e) => {
                return Err(AnalysisError::Manifest(e));
            },
        };
        assert(records(dependencies@).len() == dependencies@.len());
        if dependencies.len() > GRAPH_CAPACITY {
            return Err(AnalysisError::TooManyDependencies);
        }
        match lock {
            Some(pairs) => {
                if pairs.len() > GRAPH_CAPACITY {
                    return Err(AnalysisError::TooManyDependencies);
                }
            },
            None => {},
        }
        let usage_data = self.analyze_code(&dependencies, files);
        let metrics = self.calculate_metrics(&dependencies, &usage_data);
        let dependency_graph = self.generate_dependency_graph(&dependencies, lock);
        Ok(AnalysisResult { dependencies, usage_data, metrics, dependency_graph })
    }
}

/// Analyzes the project in `project_path` and flattens the outcome into one
/// row for each dependency of `manifest`.
pub fn analyze(
    project_path: &str,
    manifest: &Vec<CargoDependency>,
    manifest_path: &str,
    manifest_content: &str,
    files: &Vec<SourceFile>,
    lock: &Option<Vec<(String, String)>>,
) -> (r: Result<Analysis, AnalysisError>)
    ensures
        match r {
            Ok(analysis) => manifest_dependencies(manifest_path@, manifest_content@) matches Some(
                deps,
            ) && rows_of(analysis.dependencies@) == analysis_rows(
                records(manifest@),
                metrics_rows(deps, usage_index(deps, files@)),
            ),
            Err(AnalysisError::Manifest(_)) => manifest_dependencies(
                manifest_path@,
                manifest_content@,
            ) is None,
            Err(AnalysisError::TooManyDependencies) => manifest_dependencies(
                manifest_path@,
                manifest_content@,
            ) matches Some(deps) && (deps.len() > GRAPH_CAPACITY || (lock matches Some(pairs)
                && pairs.len() > GRAPH_CAPACITY)),
            Err(AnalysisError::NoManifest(_)) => false,
        },
{
    let analyzer = DependencyAnalyzer::new(project_path);
    match analyzer.analyze(manifest_path, manifest_content, files, lock) {
        Ok(result) => {
            let analysis = result.summarize(manifest);
            Ok(analysis)
        },
        Err(e) => Err(e),
    }
}

} // verus!
