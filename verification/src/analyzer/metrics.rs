//! The scorer: per-dependency counts, feature usage, the importance score and
//! the set of removable dependencies.
//!
//! A score is an exact fraction of one, held in millionths: every factor of
//! the score is a fraction whose denominator divides one million.

use crate::analyzer::{
    DependencyMetrics, DependencyUsage, DependencyUsageData, KindCounts, MetricsRow, UsageCounts,
    UsageSite, UsageType, sites,
};
use crate::manifest::cargo::{CargoDependency, DependencyRecord, DependencyType, records, texts};
use crate::name_map::{NameMap, distinct_names, lemma_distinct_names};
use crate::text::{contains, contains_text, list_contains};
use vstd::prelude::*;

verus! {

/// The score one, in millionths.
pub const SCORE_ONE: u32 = 1_000_000;

/// A used dependency that scores below this is removable.
pub const REMOVAL_THRESHOLD: u32 = 100_000;

/// A partially used dependency that scores below this is removable.
pub const PARTIAL_USE_THRESHOLD: u32 = 300_000;

/// The smaller of two numbers.
pub open spec fn least(a: nat, b: nat) -> nat {
    if a <= b {
        a
    } else {
        b
    }
}

/// How many of `s` are of kind `kind`.
pub open spec fn kind_count(s: Seq<UsageSite>, kind: UsageType) -> nat
    decreases s.len(),
{
    if s.len() == 0 {
        0
    } else {
        kind_count(s.drop_last(), kind) + if s.last().kind == kind {
            1nat
        } else {
            0nat
        }
    }
}

/// The count of each kind among `s`.
pub open spec fn tally(s: Seq<UsageSite>) -> KindCounts {
    KindCounts {
        imports: kind_count(s, UsageType::Import),
        functions: kind_count(s, UsageType::Function),
        types: kind_count(s, UsageType::Type),
        traits: kind_count(s, UsageType::Trait),
        macros: kind_count(s, UsageType::Macro),
        others: kind_count(s, UsageType::Other),
    }
}

/// The file of each site of `s`.
pub open spec fn files(s: Seq<UsageSite>) -> Seq<Seq<char>> {
    s.map_values(|u: UsageSite| u.file)
}

/// The number of distinct files among the sites of `s`.
pub open spec fn distinct_files(s: Seq<UsageSite>) -> nat {
    files(s).to_set().len()
}

/// Some site of `s` has a symbol text that contains `feature`.
pub open spec fn mentions(s: Seq<UsageSite>, feature: Seq<char>) -> bool {
    exists|i: int| 0 <= i < s.len() && contains_text(#[trigger] s[i].referenced_symbol, feature)
}

/// For each declared feature, whether some site mentions it.
pub open spec fn feature_usage_of(features: Seq<Seq<char>>, s: Seq<UsageSite>) -> Map<
    Seq<char>,
    bool,
> {
    Map::new(|f: Seq<char>| features.contains(f), |f: Seq<char>| mentions(s, f))
}

/// Features are declared and at least one of them is mentioned by no site.
pub open spec fn partially_used(features: Seq<Seq<char>>, s: Seq<UsageSite>) -> bool {
    features.len() > 0 && exists|i: int| 0 <= i < features.len() && !mentions(s, #[trigger] features[i])
}

/// One where the count is positive, else zero.
pub open spec fn present(count: nat) -> nat {
    if count > 0 {
        1
    } else {
        0
    }
}

/// How many of the five rewarded kinds (import, function, type, trait,
/// macro) occur.
pub open spec fn kinds_present(c: KindCounts) -> nat {
    present(c.imports) + present(c.functions) + present(c.types) + present(c.traits) + present(
        c.macros,
    )
}

/// The depth of usage in hundredths, before the cap: 10 for any import, 3 for
/// each function or type reference up to 10 each, 6 for each trait reference
/// up to 5, 2 for each macro invocation up to 10.
pub open spec fn raw_depth(c: KindCounts) -> nat {
    10 * present(c.imports) + 3 * least(c.functions, 10) + 3 * least(c.types, 10) + 6 * least(
        c.traits,
        5,
    ) + 2 * least(c.macros, 10)
}

/// The depth of usage in hundredths, at most 100.
pub open spec fn usage_depth(c: KindCounts) -> nat {
    least(raw_depth(c), 100)
}

/// The factor of a dependency class in tenths.
pub open spec fn class_tenths(class: DependencyType) -> nat {
    match class {
        DependencyType::Normal => 10,
        DependencyType::Build => 7,
        DependencyType::Development => 5,
    }
}

/// The factor of optionality in tenths.
pub open spec fn optional_tenths(optional: bool) -> nat {
    if optional {
        7
    } else {
        10
    }
}

/// The product of the factors in millionths, before the cap:
/// `min(files, 20)/20 * (1 + kinds/5) * (1 + depth/100) * class/10 * optional/10`.
#[verifier::opaque]
pub open spec fn score_product(
    file_count: nat,
    kinds: nat,
    depth: nat,
    class: nat,
    optional: nat,
) -> nat {
    least(file_count, 20) * (5 + kinds) * (100 + depth) * class * optional
}

/// The importance in millionths of a used dependency, at most one million.
pub open spec fn importance(
    file_count: nat,
    c: KindCounts,
    class: DependencyType,
    optional: bool,
) -> nat {
    least(
        score_product(
            file_count,
            kinds_present(c),
            usage_depth(c),
            class_tenths(class),
            optional_tenths(optional),
        ),
        1_000_000,
    )
}

/// The importance score in millionths of a dependency with the usage sites
/// `s`: zero where there is none.
pub open spec fn importance_score(record: DependencyRecord, s: Seq<UsageSite>) -> nat {
    if s.len() == 0 {
        0
    } else {
        importance(distinct_files(s), tally(s), record.class, record.optional)
    }
}

/// The metrics of a dependency with the usage sites `s`.
pub open spec fn metrics_row(record: DependencyRecord, s: Seq<UsageSite>) -> MetricsRow {
    MetricsRow {
        is_used: s.len() > 0,
        file_count: distinct_files(s),
        usage_kind_counts: tally(s),
        feature_names: distinct_names(record.features),
        feature_usage: feature_usage_of(record.features, s),
        importance_score: importance_score(record, s),
        partially_used: partially_used(record.features, s),
    }
}

/// The sites that `index` holds for `name`; none where it does not track it.
pub open spec fn sites_in(index: Map<Seq<char>, Seq<UsageSite>>, name: Seq<char>) -> Seq<
    UsageSite,
> {
    if index.dom().contains(name) {
        index[name]
    } else {
        Seq::empty()
    }
}

/// The metrics of the declared dependencies, by name. Where a name is
/// declared more than once, its last declaration counts.
pub open spec fn metrics_rows(
    recs: Seq<DependencyRecord>,
    index: Map<Seq<char>, Seq<UsageSite>>,
) -> Map<Seq<char>, MetricsRow>
    decreases recs.len(),
{
    if recs.len() == 0 {
        Map::empty()
    } else {
        metrics_rows(recs.drop_last(), index).insert(
            recs.last().name,
            metrics_row(recs.last(), sites_in(index, recs.last().name)),
        )
    }
}

/// The name of each record.
pub open spec fn record_names(recs: Seq<DependencyRecord>) -> Seq<Seq<char>> {
    recs.map_values(|r: DependencyRecord| r.name)
}

/// A dependency with these metrics is a candidate for removal: it is unused,
/// or scores below a tenth, or is partially used and scores below three
/// tenths.
pub open spec fn removable(row: MetricsRow) -> bool {
    ||| !row.is_used
    ||| row.importance_score < REMOVAL_THRESHOLD
    ||| (row.partially_used && row.importance_score < PARTIAL_USE_THRESHOLD)
}

/// The score that `m` holds for `name`, or one where it holds none.
pub open spec fn score_or_one(m: DependencyMetrics, name: Seq<char>) -> nat {
    match m.importance_scores.value_of(name) {
        Some(s) => s as nat,
        None => SCORE_ONE as nat,
    }
}

/// `name` is flagged for removal by what `m` holds for it, with `low` as the
/// score below which a used dependency is removable and `partial` as the
/// score below which a partially used one is. A missing usage flag counts as
/// unused, a missing score as one, a missing partial-use flag as not
/// partially used.
pub open spec fn flagged_at(m: DependencyMetrics, name: Seq<char>, low: nat, partial: nat) -> bool {
    ||| m.is_used.value_of(name) != Some(true)
    ||| score_or_one(m, name) < low
    ||| (m.is_partially_used.value_of(name) == Some(true) && score_or_one(m, name) < partial)
}

/// `name` is flagged for removal at the default thresholds.
pub open spec fn flagged(m: DependencyMetrics, name: Seq<char>) -> bool {
    flagged_at(m, name, REMOVAL_THRESHOLD as nat, PARTIAL_USE_THRESHOLD as nat)
}

/// The names of `names` that `m` flags for removal at the given thresholds,
/// in their order.
pub open spec fn removable_names_at(
    m: DependencyMetrics,
    names: Seq<Seq<char>>,
    low: nat,
    partial: nat,
) -> Seq<Seq<char>>
    decreases names.len(),
{
    if names.len() == 0 {
        Seq::empty()
    } else if flagged_at(m, names.last(), low, partial) {
        removable_names_at(m, names.drop_last(), low, partial).push(names.last())
    } else {
        removable_names_at(m, names.drop_last(), low, partial)
    }
}

/// The names of `names` that `m` flags for removal at the default
/// thresholds, in their order.
pub open spec fn removable_names(m: DependencyMetrics, names: Seq<Seq<char>>) -> Seq<Seq<char>> {
    removable_names_at(m, names, REMOVAL_THRESHOLD as nat, PARTIAL_USE_THRESHOLD as nat)
}

/// `removable_names_at` holds exactly the flagged names of `names`.
pub proof fn lemma_removable_names_at(
    m: DependencyMetrics,
    names: Seq<Seq<char>>,
    low: nat,
    partial: nat,
    n: Seq<char>,
)
    ensures
        removable_names_at(m, names, low, partial).contains(n) <==> names.contains(n) && flagged_at(
            m,
            n,
            low,
            partial,
        ),
    decreases names.len(),
{
    if names.len() > 0 {
        let rest = removable_names_at(m, names.drop_last(), low, partial);
        let all = removable_names_at(m, names, low, partial);
        lemma_removable_names_at(m, names.drop_last(), low, partial, n);
        if names.contains(n) {
            let i = choose|i: int| 0 <= i < names.len() && names[i] == n;
            if i < names.len() - 1 {
                assert(names.drop_last()[i] == n);
            }
        }
        if names.drop_last().contains(n) {
            let i = choose|i: int| 0 <= i < names.drop_last().len() && names.drop_last()[i] == n;
            assert(names[i] == n);
        }
        if flagged_at(m, names.last(), low, partial) {
            if rest.contains(n) {
                let j = choose|j: int| 0 <= j < rest.len() && rest[j] == n;
                assert(rest.push(names.last())[j] == n);
            }
            if n == names.last() {
                assert(rest.push(names.last())[rest.len() as int] == n);
                assert(names[names.len() - 1] == n);
            }
            if all.contains(n) {
                let j = choose|j: int| 0 <= j < all.len() && all[j] == n;
                if j < rest.len() {
                    assert(rest[j] == n);
                }
            }
        }
    }
}

/// `removable_names` holds exactly the flagged names of `names`.
pub proof fn lemma_removable_names(m: DependencyMetrics, names: Seq<Seq<char>>, n: Seq<char>)
    ensures
        removable_names(m, names).contains(n) <==> names.contains(n) && flagged(m, n),
{
    lemma_removable_names_at(m, names, REMOVAL_THRESHOLD as nat, PARTIAL_USE_THRESHOLD as nat, n);
}

/// What the metrics flag for removal under a name they hold is what is
/// removable by the row of that name.
pub proof fn lemma_flagged_is_removable(m: DependencyMetrics, n: Seq<char>)
    requires
        m.wf(),
        m.names().contains(n),
    ensures
        flagged(m, n) == removable(m.rows()[n]),
{
    let j = choose|j: int| 0 <= j < m.names().len() && m.names()[j] == n;
    m.is_used.lemma_position(j);
    m.importance_scores.lemma_position(j);
    m.is_partially_used.lemma_position(j);
}

/// The metrics hold a row for every declared name: the row of a declaration
/// of that name, the last one, computed from the sites that the index holds
/// for the name. They hold no row for any other name.
pub proof fn lemma_rows_of_declared(
    recs: Seq<DependencyRecord>,
    index: Map<Seq<char>, Seq<UsageSite>>,
    n: Seq<char>,
) -> (at: int)
    requires
        record_names(recs).contains(n),
    ensures
        0 <= at < recs.len(),
        recs[at].name == n,
        forall|k: int| at < k < recs.len() ==> (#[trigger] recs[k]).name != n,
        metrics_rows(recs, index).dom().contains(n),
        metrics_rows(recs, index)[n] == metrics_row(recs[at], sites_in(index, n)),
    decreases recs.len(),
{
    let i = choose|i: int| 0 <= i < record_names(recs).len() && record_names(recs)[i] == n;
    assert(recs[i].name == n);
    if recs.last().name == n {
        recs.len() - 1
    } else {
        assert(record_names(recs.drop_last())[i] == n);
        let at = lemma_rows_of_declared(recs.drop_last(), index, n);
        assert(recs[at] == recs.drop_last()[at]);
        assert forall|k: int| at < k < recs.len() implies (#[trigger] recs[k]).name != n by {
            if k < recs.len() - 1 {
                assert(recs[k] == recs.drop_last()[k]);
            }
        }
        at
    }
}

/// A declared dependency for which the index holds no site has a score of
/// zero, is not marked used, and is removable.
pub proof fn lemma_unused_in_metrics(
    recs: Seq<DependencyRecord>,
    index: Map<Seq<char>, Seq<UsageSite>>,
    n: Seq<char>,
)
    requires
        record_names(recs).contains(n),
        sites_in(index, n).len() == 0,
    ensures
        metrics_rows(recs, index).dom().contains(n),
        metrics_rows(recs, index)[n].importance_score == 0,
        !metrics_rows(recs, index)[n].is_used,
        removable(metrics_rows(recs, index)[n]),
{
    let at = lemma_rows_of_declared(recs, index, n);
}

/// The file count of a declared dependency is at most the number of its
/// usage sites, and its score at most one.
pub proof fn lemma_bounds_in_metrics(
    recs: Seq<DependencyRecord>,
    index: Map<Seq<char>, Seq<UsageSite>>,
    n: Seq<char>,
)
    requires
        record_names(recs).contains(n),
    ensures
        metrics_rows(recs, index)[n].file_count <= sites_in(index, n).len(),
        metrics_rows(recs, index)[n].importance_score <= SCORE_ONE,
{
    let at = lemma_rows_of_declared(recs, index, n);
    lemma_file_count_at_most_sites(recs[at], sites_in(index, n));
}

/// An unused dependency scores zero and is not marked used.
pub proof fn lemma_unused_scores_zero(record: DependencyRecord, s: Seq<UsageSite>)
    requires
        s.len() == 0,
    ensures
        metrics_row(record, s).importance_score == 0,
        !metrics_row(record, s).is_used,
        removable(metrics_row(record, s)),
{
}

/// The number of distinct files of a dependency's usage sites is at most the
/// number of its sites.
pub proof fn lemma_file_count_at_most_sites(record: DependencyRecord, s: Seq<UsageSite>)
    ensures
        distinct_files(s) <= s.len(),
        metrics_row(record, s).file_count <= s.len(),
{
    files(s).lemma_cardinality_of_set();
}

/// With the kinds of usage, the class and the optionality held fixed, the
/// importance does not fall when the file count grows.
pub proof fn lemma_importance_monotonic(
    fewer: nat,
    more: nat,
    c: KindCounts,
    class: DependencyType,
    optional: bool,
)
    requires
        fewer <= more,
    ensures
        importance(fewer, c, class, optional) <= importance(more, c, class, optional),
{
    reveal(score_product);
    let k = 5 + kinds_present(c);
    let d = 100 + usage_depth(c);
    let t = class_tenths(class);
    let o = optional_tenths(optional);
    let a = least(fewer, 20);
    let b = least(more, 20);
    assert(a * k * d * t * o <= b * k * d * t * o) by (nonlinear_arith)
        requires
            a <= b,
            0 <= k,
            0 <= d,
            0 <= t,
            0 <= o,
    ;
}

/// The importance is at most one, that is one million millionths.
pub proof fn lemma_importance_bounded(record: DependencyRecord, s: Seq<UsageSite>)
    ensures
        importance_score(record, s) <= SCORE_ONE,
{
}

/// Counts the usages of each kind.
pub fn count_usage_types(usages: &Vec<DependencyUsage>) -> (c: UsageCounts)
    ensures
        c@ == tally(sites(usages@)),
{
    let mut c = UsageCounts { imports: 0, functions: 0, types: 0, traits: 0, macros: 0, others: 0 };
    let mut i: usize = 0;
    let ghost all = sites(usages@);
    assert(all.take(0) =~= Seq::<UsageSite>::empty());
    while i < usages.len()
        invariant
            i <= usages.len(),
            all == sites(usages@),
            c@ == tally(all.take(i as int)),
            c.imports <= i,
            c.functions <= i,
            c.types <= i,
            c.traits <= i,
            c.macros <= i,
            c.others <= i,
        decreases usages.len() - i,
    {
        proof {
            assert(all.take(i + 1).drop_last() =~= all.take(i as int));
            assert(all.take(i + 1).last() == usages@[i as int]@);
        }
        match usages[i].usage_type {
            UsageType::Import => {
                c.imports += 1;
            },
            UsageType::Function => {
                c.functions += 1;
            },
            UsageType::Type => {
                c.types += 1;
            },
            UsageType::Trait => {
                c.traits += 1;
            },
            UsageType::Macro => {
                c.macros += 1;
            },
            UsageType::Other => {
                c.others += 1;
            },
        }
        i += 1;
    }
    assert(all.take(usages@.len() as int) =~= all);
    c
}

/// Counts the distinct files among the usages. The files seen so far are
/// kept in a list without repetitions, which stands for a set of them.
pub fn count_files(usages: &Vec<DependencyUsage>) -> (n: usize)
    ensures
        n == distinct_files(sites(usages@)),
{
    let mut seen: Vec<String> = Vec::new();
    let mut i: usize = 0;
    let ghost all = files(sites(usages@));
    assert(all.take(0).to_set() =~= texts(seen@).to_set());
    while i < usages.len()
        invariant
            i <= usages.len(),
            all == files(sites(usages@)),
            all.len() == usages.len(),
            seen.len() <= i,
            texts(seen@).no_duplicates(),
            texts(seen@).to_set() == all.take(i as int).to_set(),
        decreases usages.len() - i,
    {
        let ghost before = texts(seen@);
        proof {
            assert(all.take(i + 1) =~= all.take(i as int).push(all[i as int]));
            all.take(i as int).lemma_push_to_set_commute(all[i as int]);
            assert(all[i as int] == usages@[i as int].file@);
        }
        if !list_contains(&seen, usages[i].file.as_str()) {
            seen.push(usages[i].file.clone());
            proof {
                assert(texts(seen@) =~= before.push(all[i as int]));
                before.lemma_push_to_set_commute(all[i as int]);
            }
        } else {
            assert(before.to_set().insert(all[i as int]) =~= before.to_set());
        }
        i += 1;
    }
    proof {
        assert(all.take(usages@.len() as int) =~= all);
        texts(seen@).unique_seq_to_set();
    }
    seen.len()
}

/// Whether some usage has a symbol text that contains `feature`.
pub fn mentioned(usages: &Vec<DependencyUsage>, feature: &String) -> (r: bool)
    ensures
        r == mentions(sites(usages@), feature@),
{
    let mut i: usize = 0;
    while i < usages.len()
        invariant
            i <= usages.len(),
            forall|j: int|
                0 <= j < i ==> !contains_text(
                    #[trigger] sites(usages@)[j].referenced_symbol,
                    feature@,
                ),
        decreases usages.len() - i,
    {
        if contains(usages[i].imported_item.as_str(), feature.as_str()) {
            assert(contains_text(sites(usages@)[i as int].referenced_symbol, feature@));
            return true;
        }
        i += 1;
    }
    false
}

/// Finds out which declared features are used: a feature counts as used where
/// the symbol text of some usage contains its name. This is a coarse textual
/// test and only approximates what a feature unlocks.
pub fn calculate_feature_usage(dep: &CargoDependency, usages: &Vec<DependencyUsage>) -> (usage:
    NameMap<bool>)
    ensures
        usage.wf(),
        usage.names() == distinct_names(dep@.features),
        usage@ == feature_usage_of(dep@.features, sites(usages@)),
{
    let mut usage: NameMap<bool> = NameMap::new();
    let mut i: usize = 0;
    let ghost features = dep@.features;
    let ghost all = sites(usages@);
    assert(features.take(0) =~= Seq::<Seq<char>>::empty());
    assert(usage@ =~= feature_usage_of(features.take(0), all));
    while i < dep.features.len()
        invariant
            i <= dep.features.len(),
            features == texts(dep.features@),
            all == sites(usages@),
            usage.wf(),
            usage.names() == distinct_names(features.take(i as int)),
            usage@ == feature_usage_of(features.take(i as int), all),
        decreases dep.features.len() - i,
    {
        let used = mentioned(usages, &dep.features[i]);
        let ghost before = usage@;
        proof {
            assert(features.take(i + 1).drop_last() =~= features.take(i as int));
            assert(features.take(i + 1).last() == dep.features@[i as int]@);
        }
        usage.insert(dep.features[i].clone(), used);
        proof {
            let f = features[i as int];
            let done = features.take(i as int);
            let next = features.take(i + 1);
            let target = feature_usage_of(next, all);
            assert forall|x: Seq<char>| target.dom().contains(x) <==> before.insert(
                f,
                used,
            ).dom().contains(x) by {
                if next.contains(x) {
                    let j = choose|j: int| 0 <= j < next.len() && next[j] == x;
                    if j < i {
                        assert(done[j] == x);
                    }
                }
                if done.contains(x) {
                    let j = choose|j: int| 0 <= j < done.len() && done[j] == x;
                    assert(next[j] == x);
                }
                if x == f {
                    assert(next[i as int] == x);
                }
            }
            assert(target =~= before.insert(f, used));
        }
        i += 1;
    }
    assert(features.take(dep.features@.len() as int) =~= features);
    usage
}

/// Whether a dependency is partially used: it declares features and at least
/// one of them is unused.
pub fn determine_if_partially_used(dep: &CargoDependency, feature_usage: &NameMap<bool>) -> (r:
    bool)
    requires
        feature_usage.wf(),
    ensures
        r == (dep@.features.len() > 0 && exists|i: int|
            0 <= i < feature_usage.values().len() && !#[trigger] feature_usage.values()[i]),
{
    assert(dep@.features.len() == dep.features@.len());
    if dep.features.len() == 0 {
        return false;
    }
    let mut i: usize = 0;
    while i < feature_usage.len()
        invariant
            dep@.features.len() > 0,
            i <= feature_usage.names().len(),
            feature_usage.wf(),
            forall|j: int| 0 <= j < i ==> #[trigger] feature_usage.values()[j],
        decreases feature_usage.names().len() - i,
    {
        if !*feature_usage.value_at(i) {
            assert(!feature_usage.values()[i as int]);
            return true;
        }
        i += 1;
    }
    false
}

/// A feature-usage map that was computed from `features` and `s` has an
/// unused entry exactly where the dependency is partially used.
pub proof fn lemma_partial_use(usage: NameMap<bool>, features: Seq<Seq<char>>, s: Seq<UsageSite>)
    requires
        usage.wf(),
        usage.names() == distinct_names(features),
        usage@ == feature_usage_of(features, s),
    ensures
        (features.len() > 0 && exists|i: int|
            0 <= i < usage.values().len() && !#[trigger] usage.values()[i]) == partially_used(
            features,
            s,
        ),
{
    lemma_distinct_names(features);
    if features.len() > 0 {
        if exists|i: int| 0 <= i < usage.values().len() && !#[trigger] usage.values()[i] {
            let i = choose|i: int| 0 <= i < usage.values().len() && !#[trigger] usage.values()[i];
            usage.lemma_position(i);
            let n = usage.names()[i];
            assert(distinct_names(features).contains(n));
            assert(features.contains(n));
            let j = choose|j: int| 0 <= j < features.len() && features[j] == n;
            assert(!mentions(s, features[j]));
        }
        if partially_used(features, s) {
            let j = choose|j: int| 0 <= j < features.len() && !mentions(s, #[trigger] features[j]);
            let n = features[j];
            assert(features.contains(n));
            assert(distinct_names(features).contains(n));
            let i = choose|i: int| 0 <= i < usage.names().len() && usage.names()[i] == n;
            usage.lemma_position(i);
            assert(!usage.values()[i]);
        }
    }
}

/// The depth of usage in hundredths.
pub fn calculate_usage_depth(usage_types: &UsageCounts) -> (depth: u32)
    ensures
        depth == usage_depth(usage_types@),
        depth <= 100,
{
    let mut depth: u32 = 0;
    if usage_types.imports > 0 {
        depth += 10;
    }
    let functions: u32 = if usage_types.functions < 10 {
        usage_types.functions as u32
    } else {
        10
    };
    depth += 3 * functions;
    let types: u32 = if usage_types.types < 10 {
        usage_types.types as u32
    } else {
        10
    };
    depth += 3 * types;
    let traits: u32 = if usage_types.traits < 5 {
        usage_types.traits as u32
    } else {
        5
    };
    depth += 6 * traits;
    let macros: u32 = if usage_types.macros < 10 {
        usage_types.macros as u32
    } else {
        10
    };
    depth += 2 * macros;
    if depth > 100 {
        100
    } else {
        depth
    }
}

/// More than twenty files count as twenty.
pub proof fn lemma_breadth_is_capped(file_count: nat, kinds: nat, depth: nat, class: nat, optional: nat)
    ensures
        score_product(file_count, kinds, depth, class, optional) == score_product(
            least(file_count, 20),
            kinds,
            depth,
            class,
            optional,
        ),
{
    reveal(score_product);
}

/// The product of the factors of a score, in millionths.
fn factor_product(base: u32, kinds: u32, depth: u32, class: u32, optional: u32) -> (product: u32)
    requires
        base <= 20,
        kinds <= 5,
        depth <= 100,
        class <= 10,
        optional <= 10,
    ensures
        product == score_product(
            base as nat,
            kinds as nat,
            depth as nat,
            class as nat,
            optional as nat,
        ),
        product <= 4_000_000,
{
    reveal(score_product);
    assert(base * (5 + kinds) <= 200) by (nonlinear_arith)
        requires
            base <= 20,
            kinds <= 5,
    ;
    let breadth: u32 = base * (5 + kinds);
    assert(breadth * (100 + depth) <= 40_000) by (nonlinear_arith)
        requires
            breadth <= 200,
            depth <= 100,
    ;
    let deep: u32 = breadth * (100 + depth);
    assert(deep * class <= 400_000) by (nonlinear_arith)
        requires
            deep <= 40_000,
            class <= 10,
    ;
    let classed: u32 = deep * class;
    assert(classed * optional <= 4_000_000) by (nonlinear_arith)
        requires
            classed <= 400_000,
            optional <= 10,
    ;
    classed * optional
}

/// The importance score of a dependency in millionths: zero where it has no
/// usages, else the capped product of the breadth, variety, depth, class and
/// optionality factors.
pub fn calculate_importance_score(
    dep: &CargoDependency,
    usages: &Vec<DependencyUsage>,
    usage_count: usize,
    usage_types: &UsageCounts,
) -> (score: u32)
    ensures
        score == (if usages@.len() == 0 {
            0
        } else {
            importance(usage_count as nat, usage_types@, dep@.class, dep@.optional)
        }),
        score <= SCORE_ONE,
{
    if usages.len() == 0 {
        return 0;
    }
    let base: u32 = if usage_count < 20 {
        usage_count as u32
    } else {
        20
    };
    let mut kinds: u32 = 0;
    if usage_types.imports > 0 {
        kinds += 1;
    }
    if usage_types.functions > 0 {
        kinds += 1;
    }
    if usage_types.types > 0 {
        kinds += 1;
    }
    if usage_types.traits > 0 {
        kinds += 1;
    }
    if usage_types.macros > 0 {
        kinds += 1;
    }
    let depth: u32 = calculate_usage_depth(usage_types);
    let class: u32 = match dep.dependency_type {
        DependencyType::Normal => 10,
        DependencyType::Development => 5,
        DependencyType::Build => 7,
    };
    let optional: u32 = if dep.optional {
        7
    } else {
        10
    };
    proof {
        lemma_breadth_is_capped(
            usage_count as nat,
            kinds as nat,
            depth as nat,
            class as nat,
            optional as nat,
        );
    }
    let product: u32 = factor_product(base, kinds, depth, class, optional);
    if product > SCORE_ONE {
        SCORE_ONE
    } else {
        product
    }
}

/// The dependencies that are candidates for removal at the given
/// thresholds, in the order in which the metrics hold them: those that are
/// unused, those that score below `low`, and those that are partially used
/// and score below `partial`.
pub fn find_removable_with(metrics: &DependencyMetrics, low: u32, partial: u32) -> (out: Vec<String>)
    requires
        metrics.is_used.wf(),
        metrics.importance_scores.wf(),
        metrics.is_partially_used.wf(),
    ensures
        texts(out@) == removable_names_at(
            *metrics,
            metrics.is_used.names(),
            low as nat,
            partial as nat,
        ),
{
    let mut out: Vec<String> = Vec::new();
    let mut i: usize = 0;
    let ghost names = metrics.is_used.names();
    assert(names.take(0) =~= Seq::<Seq<char>>::empty());
    assert(texts(out@) =~= Seq::<Seq<char>>::empty());
    while i < metrics.is_used.len()
        invariant
            i <= metrics.is_used.names().len(),
            names == metrics.is_used.names(),
            metrics.is_used.wf(),
            metrics.importance_scores.wf(),
            metrics.is_partially_used.wf(),
            texts(out@) == removable_names_at(
                *metrics,
                names.take(i as int),
                low as nat,
                partial as nat,
            ),
        decreases metrics.is_used.names().len() - i,
    {
        let name = metrics.is_used.key_at(i);
        let used: bool = *metrics.is_used.value_at(i);
        proof {
            metrics.is_used.lemma_position(i as int);
            assert(names.take(i + 1).drop_last() =~= names.take(i as int));
            assert(names.take(i + 1).last() == name@);
        }
        let score: u32 = match metrics.importance_scores.get(name.as_str()) {
            Some(s) => *s,
            None => SCORE_ONE,
        };
        let is_partial: bool = match metrics.is_partially_used.get(name.as_str()) {
            Some(p) => *p,
            None => false,
        };
        let flag: bool = !used || score < low || (is_partial && score < partial);
        assert(flag == flagged_at(*metrics, name@, low as nat, partial as nat));
        if flag {
            let ghost before = texts(out@);
            out.push(name.clone());
            assert(texts(out@) =~= before.push(name@));
        }
        i += 1;
    }
    assert(names.take(metrics.is_used.names().len() as int) =~= names);
    out
}

/// The dependencies that are candidates for removal at the default
/// thresholds, in the order in which the metrics hold them.
pub fn find_removable_dependencies(metrics: &DependencyMetrics) -> (out: Vec<String>)
    requires
        metrics.is_used.wf(),
        metrics.importance_scores.wf(),
        metrics.is_partially_used.wf(),
    ensures
        texts(out@) == removable_names(*metrics, metrics.is_used.names()),
{
    find_removable_with(metrics, REMOVAL_THRESHOLD, PARTIAL_USE_THRESHOLD)
}

/// Computes the metrics of every declared dependency from the usage index.
pub fn calculate_metrics(dependencies: &Vec<CargoDependency>, usage_data: &DependencyUsageData) -> (m:
    DependencyMetrics)
    requires
        usage_data.wf(),
    ensures
        m.wf(),
        m.names() == distinct_names(record_names(records(dependencies@))),
        m.rows() == metrics_rows(records(dependencies@), usage_data.model()),
        texts(m.removable_dependencies@) == removable_names(m, m.names()),
        forall|n: Seq<char>|
            m.names().contains(n) ==> (#[trigger] texts(m.removable_dependencies@).contains(n)
                <==> removable(m.rows()[n])),
{
    let mut metrics = DependencyMetrics::new();
    let empty: Vec<DependencyUsage> = Vec::new();
    let ghost recs = records(dependencies@);
    let ghost index = usage_data.model();
    let mut i: usize = 0;
    assert(recs.take(0) =~= Seq::<DependencyRecord>::empty());
    assert(record_names(recs.take(0)) =~= Seq::<Seq<char>>::empty());
    while i < dependencies.len()
        invariant
            i <= dependencies.len(),
            recs == records(dependencies@),
            index == usage_data.model(),
            usage_data.wf(),
            empty@.len() == 0,
            metrics.wf(),
            metrics.names() == distinct_names(record_names(recs.take(i as int))),
            metrics.rows() == metrics_rows(recs.take(i as int), index),
        decreases dependencies.len() - i,
    {
        let dep = &dependencies[i];
        let usages: &Vec<DependencyUsage> = match usage_data.get(dep.name.as_str()) {
            Some(u) => u,
            None => &empty,
        };
        let ghost s = sites(usages@);
        proof {
            assert(sites(empty@) =~= Seq::<UsageSite>::empty());
            assert(s == sites_in(index, dep@.name));
            assert(recs.take(i + 1).drop_last() =~= recs.take(i as int));
            assert(recs.take(i + 1).last() == dep@);
            assert(record_names(recs.take(i + 1)).drop_last() =~= record_names(
                recs.take(i as int),
            ));
            assert(record_names(recs.take(i + 1)).last() == dep@.name);
        }
        let is_used: bool = usages.len() > 0;
        let usage_count: usize = count_files(usages);
        let usage_types: UsageCounts = count_usage_types(usages);
        let feature_usage: NameMap<bool> = calculate_feature_usage(dep, usages);
        let importance_score: u32 = calculate_importance_score(
            dep,
            usages,
            usage_count,
            &usage_types,
        );
        let is_partially_used: bool = determine_if_partially_used(dep, &feature_usage);
        proof {
            lemma_partial_use(feature_usage, dep@.features, s);
        }
        let ghost before = metrics;
        let ghost row = metrics_row(dep@, s);
        metrics.is_used.insert(dep.name.clone(), is_used);
        metrics.usage_count.insert(dep.name.clone(), usage_count);
        metrics.importance_scores.insert(dep.name.clone(), importance_score);
        metrics.usage_types.insert(dep.name.clone(), usage_types);
        metrics.feature_usage.insert(dep.name.clone(), feature_usage);
        metrics.is_partially_used.insert(dep.name.clone(), is_partially_used);
        proof {
            assert(metrics.row(dep@.name) == row);
            assert forall|n: Seq<char>| #[trigger]
                metrics.rows().dom().contains(n) == before.rows().insert(
                    dep@.name,
                    row,
                ).dom().contains(n) by {
                assert(metrics.is_used@.dom().contains(n) == metrics.is_used.has(n));
                assert(before.is_used@.dom().contains(n) == before.is_used.has(n));
            }
            assert forall|n: Seq<char>| metrics.rows().dom().contains(n) implies #[trigger]
                metrics.rows()[n] == before.rows().insert(dep@.name, row)[n] by {
                if n != dep@.name {
                    assert(metrics.row(n) == before.row(n));
                    assert(before.is_used@.dom().contains(n));
                }
            }
            assert(metrics.rows() =~= before.rows().insert(dep@.name, row));
            assert forall|k: int| 0 <= k < metrics.feature_usage.values().len() implies (
            #[trigger] metrics.feature_usage.values()[k]).wf() by {
                if before.feature_usage.has(dep@.name) {
                    let at = before.feature_usage.names().index_of(dep@.name);
                    if k != at {
                        assert(metrics.feature_usage.values()[k]
                            == before.feature_usage.values()[k]);
                    }
                } else {
                    if k < before.feature_usage.values().len() {
                        assert(metrics.feature_usage.values()[k]
                            == before.feature_usage.values()[k]);
                    }
                }
            }
        }
        i += 1;
    }
    assert(recs.take(dependencies@.len() as int) =~= recs);
    let removable_list = find_removable_dependencies(&metrics);
    let ghost before = metrics;
    metrics.removable_dependencies = removable_list;
    proof {
        assert(metrics.rows() =~= before.rows());
        assert(removable_names(metrics, metrics.names()) == removable_names(before, before.names()))
            by {
            lemma_removable_names_same(before, metrics, before.names());
        }
        assert forall|n: Seq<char>| metrics.names().contains(n) implies (#[trigger] texts(
            metrics.removable_dependencies@,
        ).contains(n) <==> removable(metrics.rows()[n])) by {
            lemma_removable_names(metrics, metrics.names(), n);
            lemma_flagged_is_removable(metrics, n);
        }
    }
    metrics
}

/// Two metrics that hold the same usage flags, scores and partial-use flags
/// flag the same names.
proof fn lemma_removable_names_same(a: DependencyMetrics, b: DependencyMetrics, names: Seq<Seq<char>>)
    requires
        a.is_used == b.is_used,
        a.importance_scores == b.importance_scores,
        a.is_partially_used == b.is_partially_used,
    ensures
        removable_names(a, names) == removable_names(b, names),
{
    lemma_removable_names_same_at(
        a,
        b,
        names,
        REMOVAL_THRESHOLD as nat,
        PARTIAL_USE_THRESHOLD as nat,
    );
}

/// The same at any thresholds.
proof fn lemma_removable_names_same_at(
    a: DependencyMetrics,
    b: DependencyMetrics,
    names: Seq<Seq<char>>,
    low: nat,
    partial: nat,
)
    requires
        a.is_used == b.is_used,
        a.importance_scores == b.importance_scores,
        a.is_partially_used == b.is_partially_used,
    ensures
        removable_names_at(a, names, low, partial) == removable_names_at(b, names, low, partial),
    decreases names.len(),
{
    if names.len() > 0 {
        lemma_removable_names_same_at(a, b, names.drop_last(), low, partial);
    }
}

} // verus!
