//! Dependency records, and the manifest layout with runtime, development and
//! build-time dependency tables.

use crate::analyzer::dependency_graph::pair_names;
use crate::manifest::{
    ManifestError, ManifestNode, ManifestParser, ManifestValue, entries_model, items_model,
    lemma_model, lookup, value_for,
};
use crate::text::{head_before, head_text};
pub use crate::text::texts;
use toml::Value;
use vstd::prelude::*;

verus! {

/// toml's map, the type of a table.
#[verifier::external_type_specification]
#[verifier::external_body]
#[verifier::reject_recursive_types(K)]
#[verifier::reject_recursive_types(V)]
pub struct ExTomlMap<K, V>(toml::map::Map<K, V>);

/// toml's value.
#[verifier::external_type_specification]
#[verifier::external_body]
pub struct ExTomlValue(toml::Value);

/// toml's error of parsing.
#[verifier::external_type_specification]
#[verifier::external_body]
pub struct ExTomlError(toml::de::Error);

/// The entries of a TOML table, in the order in which the table gives them.
/// A list holds its texts and its tables; any other item of a list is a
/// value of no content, as is a number or a date.
pub uninterp spec fn toml_entries(table: toml::map::Map<String, toml::Value>) -> Seq<
    (Seq<char>, ManifestNode),
>;

/// The entries of the table that a text is as a TOML document; `None` where
/// the text is no TOML document.
pub uninterp spec fn toml_document(text: Seq<char>) -> Option<Seq<(Seq<char>, ManifestNode)>>;

/// toml's `from_str` for a table: parses a TOML document. The contract names
/// what the document holds and says that the call fails exactly where the
/// text is no document.
#[verifier::external_body]
fn toml_parse(text: &str) -> (r: Result<toml::map::Map<String, toml::Value>, toml::de::Error>)
    ensures
        match r {
            Ok(table) => toml_document(text@) == Some(toml_entries(table)),
            Err(_) => toml_document(text@) is None,
        },
{
    toml::from_str(text)
}

/// Walks a toml table with `Map::iter` and hands out its entries as plain
/// values: texts, flags and tables one for one, of a list the texts and the
/// tables, and a value of no content for everything else.
#[verifier::external_body]
fn toml_table_entries(table: &toml::map::Map<String, toml::Value>) -> (entries: Vec<
    (String, ManifestValue),
>)
    ensures
        entries_model(entries@) == toml_entries(*table),
{
    table.iter().map(|(k, v)| (k.clone(), match v {
        Value::String(s) => ManifestValue::Text(s.clone()),
        Value::Boolean(b) => ManifestValue::Flag(*b),
        Value::Table(t) => ManifestValue::Table(toml_table_entries(t)),
        Value::Array(a) => ManifestValue::List(a.iter().map(|x| match x {
            Value::String(s) => ManifestValue::Text(s.clone()),
            Value::Table(t) => ManifestValue::Table(toml_table_entries(t)),
            _ => ManifestValue::Other,
        }).collect()),
        Value::Integer(_) | Value::Float(_) | Value::Datetime(_) => ManifestValue::Other,
    })).collect()
}

/// The class under which a dependency is declared.
#[derive(Clone, Copy, PartialEq, Eq, Structural, Debug)]
pub enum DependencyType {
    Normal,
    Development,
    Build,
}

/// One declared dependency.
#[derive(Clone, Debug)]
pub struct CargoDependency {
    pub name: String,
    pub version: Option<String>,
    pub features: Vec<String>,
    pub optional: bool,
    pub dependency_type: DependencyType,
    pub source: String,
}

/// What a declared dependency is: the model of `CargoDependency`.
pub ghost struct DependencyRecord {
    pub name: Seq<char>,
    pub version_constraint: Option<Seq<char>>,
    pub features: Seq<Seq<char>>,
    pub optional: bool,
    pub class: DependencyType,
    pub declared_in: Seq<char>,
}

impl View for CargoDependency {
    type V = DependencyRecord;

    open spec fn view(&self) -> DependencyRecord {
        DependencyRecord {
            name: self.name@,
            version_constraint: match self.version {
                Some(v) => Some(v@),
                None => None,
            },
            features: texts(self.features@),
            optional: self.optional,
            class: self.dependency_type,
            declared_in: self.source@,
        }
    }
}

/// The records of a sequence of dependencies.
pub open spec fn records(deps: Seq<CargoDependency>) -> Seq<DependencyRecord> {
    deps.map_values(|d: CargoDependency| d@)
}

/// The text of a value, where it is a text.
pub open spec fn text_of(node: Option<ManifestNode>) -> Option<Seq<char>> {
    match node {
        Some(ManifestNode::Text(s)) => Some(s),
        _ => None,
    }
}

/// The texts among the items of a list, in their order.
pub open spec fn texts_in(items: Seq<ManifestNode>) -> Seq<Seq<char>>
    decreases items.len(),
{
    if items.len() == 0 {
        Seq::empty()
    } else {
        match items.last() {
            ManifestNode::Text(s) => texts_in(items.drop_last()).push(s),
            _ => texts_in(items.drop_last()),
        }
    }
}

/// The feature flags that a value lists: its texts where it is a list.
pub open spec fn features_of(node: Option<ManifestNode>) -> Seq<Seq<char>> {
    match node {
        Some(ManifestNode::List(items)) => texts_in(items),
        _ => Seq::empty(),
    }
}

/// The flag that a value is; `false` where it is none.
pub open spec fn flag_of(node: Option<ManifestNode>) -> bool {
    match node {
        Some(ManifestNode::Flag(b)) => b,
        _ => false,
    }
}

/// The dependency that an entry of a dependency table declares. A text is a
/// bare version constraint. A table gives the constraint under `version`,
/// the feature flags under `features` and the optionality under `optional`.
/// An entry of any other shape declares nothing.
pub open spec fn declared(name: Seq<char>, value: ManifestNode, class: DependencyType) -> Option<
    DependencyRecord,
> {
    match value {
        ManifestNode::Text(version) => Some(
            DependencyRecord {
                name,
                version_constraint: Some(version),
                features: Seq::empty(),
                optional: false,
                class,
                declared_in: "Cargo.toml"@,
            },
        ),
        ManifestNode::Table(fields) => Some(
            DependencyRecord {
                name,
                version_constraint: text_of(value_for(fields, "version"@)),
                features: features_of(value_for(fields, "features"@)),
                optional: flag_of(value_for(fields, "optional"@)),
                class,
                declared_in: "Cargo.toml"@,
            },
        ),
        _ => None,
    }
}

/// The dependencies that the first `n` entries of a dependency table
/// declare, in the order of the entries.
pub open spec fn table_records(
    entries: Seq<(Seq<char>, ManifestNode)>,
    class: DependencyType,
    n: nat,
) -> Seq<DependencyRecord>
    decreases n,
{
    if n == 0 || n > entries.len() {
        Seq::empty()
    } else {
        match declared(entries[n - 1].0, entries[n - 1].1, class) {
            Some(record) => table_records(entries, class, (n - 1) as nat).push(record),
            None => table_records(entries, class, (n - 1) as nat),
        }
    }
}

/// The dependencies that the table under `section` declares; none where the
/// document has no table there.
pub open spec fn section_records(
    doc: Seq<(Seq<char>, ManifestNode)>,
    section: Seq<char>,
    class: DependencyType,
) -> Seq<DependencyRecord> {
    match value_for(doc, section) {
        Some(ManifestNode::Table(entries)) => table_records(entries, class, entries.len()),
        _ => Seq::empty(),
    }
}

/// The dependencies that a manifest declares: those of the runtime table,
/// then those of the development table, then those of the build table.
pub open spec fn cargo_dependencies(doc: Seq<(Seq<char>, ManifestNode)>) -> Seq<DependencyRecord> {
    section_records(doc, "dependencies"@, DependencyType::Normal) + section_records(
        doc,
        "dev-dependencies"@,
        DependencyType::Development,
    ) + section_records(doc, "build-dependencies"@, DependencyType::Build)
}

/// The parser of manifests with runtime, development and build tables.
#[derive(Debug, Default)]
pub struct CargoParser;

impl CargoParser {
    /// The texts among the items of a list.
    fn list_texts(items: &Vec<ManifestValue>) -> (out: Vec<String>)
        ensures
            texts(out@) == texts_in(items_model(items@)),
    {
        let mut out: Vec<String> = Vec::new();
        let ghost model = items_model(items@);
        let mut i: usize = 0;
        assert(model.take(0) =~= Seq::<ManifestNode>::empty());
        assert(texts(out@) =~= Seq::<Seq<char>>::empty());
        while i < items.len()
            invariant
                i <= items.len(),
                model == items_model(items@),
                texts(out@) == texts_in(model.take(i as int)),
            decreases items.len() - i,
        {
            proof {
                assert(model.take(i + 1).drop_last() =~= model.take(i as int));
                assert(model.take(i + 1).last() == items@[i as int].model());
            }
            match &items[i] {
                ManifestValue::Text(s) => {
                    let ghost before = texts(out@);
                    out.push(s.clone());
                    assert(texts(out@) =~= before.push(s@));
                },
                _ => {},
            }
            i += 1;
        }
        assert(model.take(items@.len() as int) =~= model);
        out
    }

    /// Appends the dependencies that a dependency table declares.
    pub fn extract_dependencies(
        deps_table: &Vec<(String, ManifestValue)>,
        dependencies: &mut Vec<CargoDependency>,
        dep_type: DependencyType,
    )
        ensures
            records(final(dependencies)@) == records(old(dependencies)@) + table_records(
                entries_model(deps_table@),
                dep_type,
                deps_table@.len(),
            ),
    {
        let ghost model = entries_model(deps_table@);
        let ghost start = records(dependencies@);
        let mut i: usize = 0;
        assert(start + table_records(model, dep_type, 0) =~= start);
        while i < deps_table.len()
            invariant
                i <= deps_table.len(),
                model == entries_model(deps_table@),
                records(dependencies@) == start + table_records(model, dep_type, i as nat),
            decreases deps_table.len() - i,
        {
            let name = &deps_table[i].0;
            let ghost before = records(dependencies@);
            proof {
                lemma_model(deps_table@[i as int].1);
            }
            match &deps_table[i].1 {
                ManifestValue::Text(version) => {
                    let dep = CargoDependency {
                        name: name.clone(),
                        version: Some(version.clone()),
                        features: Vec::new(),
                        optional: false,
                        dependency_type: dep_type,
                        source: String::from_str("Cargo.toml"),
                    };
                    assert(dep@.features =~= Seq::<Seq<char>>::empty());
                    dependencies.push(dep);
                    assert(records(dependencies@) =~= before.push(dep@));
                },
                ManifestValue::Table(table) => {
                    let version: Option<String> = match lookup(table, "version") {
                        Some(ManifestValue::Text(v)) => Some(v.clone()),
                        _ => None,
                    };
                    let features: Vec<String> = match lookup(table, "features") {
                        Some(ManifestValue::List(items)) => {
                            proof {
                                lemma_model(ManifestValue::List(*items));
                            }
                            Self::list_texts(items)
                        },
                        _ => Vec::new(),
                    };
                    let optional: bool = match lookup(table, "optional") {
                        Some(ManifestValue::Flag(b)) => *b,
                        _ => false,
                    };
                    let dep = CargoDependency {
                        name: name.clone(),
                        version,
                        features,
                        optional,
                        dependency_type: dep_type,
                        source: String::from_str("Cargo.toml"),
                    };
                    assert(dep@.features =~= features_of(
                        value_for(entries_model(table@), "features"@),
                    ));
                    dependencies.push(dep);
                    assert(records(dependencies@) =~= before.push(dep@));
                },
                _ => {},
            }
            i += 1;
        }
    }

    /// Appends the dependencies that the table under `section` declares.
    fn extract_section(
        doc: &Vec<(String, ManifestValue)>,
        section: &str,
        dependencies: &mut Vec<CargoDependency>,
        dep_type: DependencyType,
    )
        ensures
            records(final(dependencies)@) == records(old(dependencies)@) + section_records(
                entries_model(doc@),
                section@,
                dep_type,
            ),
    {
        match lookup(doc, section) {
            Some(ManifestValue::Table(entries)) => {
                proof {
                    lemma_model(ManifestValue::Table(*entries));
                }
                Self::extract_dependencies(entries, dependencies, dep_type);
            },
            _ => {
                assert(records(dependencies@) + Seq::<DependencyRecord>::empty() =~= records(
                    dependencies@,
                ));
            },
        }
    }

    /// The dependencies that a manifest declares, given the entries of the
    /// manifest's top table.
    pub fn dependencies_of(doc: &Vec<(String, ManifestValue)>) -> (dependencies: Vec<
        CargoDependency,
    >)
        ensures
            records(dependencies@) == cargo_dependencies(entries_model(doc@)),
    {
        let mut dependencies: Vec<CargoDependency> = Vec::new();
        assert(records(dependencies@) =~= Seq::<DependencyRecord>::empty());
        Self::extract_section(doc, "dependencies", &mut dependencies, DependencyType::Normal);
        Self::extract_section(
            doc,
            "dev-dependencies",
            &mut dependencies,
            DependencyType::Development,
        );
        Self::extract_section(doc, "build-dependencies", &mut dependencies, DependencyType::Build);
        proof {
            let m = entries_model(doc@);
            assert(Seq::<DependencyRecord>::empty() + section_records(
                m,
                "dependencies"@,
                DependencyType::Normal,
            ) =~= section_records(m, "dependencies"@, DependencyType::Normal));
        }
        dependencies
    }
}

impl ManifestParser for CargoParser {
    type Dependency = CargoDependency;

    /// The dependencies that the manifest text declares; an error where the
    /// text is no TOML document.
    fn parse(content: &str) -> (r: Result<Vec<CargoDependency>, ManifestError>)
        ensures
            match r {
                Ok(dependencies) => toml_document(content@) matches Some(doc) && records(
                    dependencies@,
                ) == cargo_dependencies(doc),
                Err(e) => e is InvalidToml && toml_document(content@) is None,
            },
    {
        match toml_parse(content) {
            Ok(table) => {
                let doc = toml_table_entries(&table);
                Ok(Self::dependencies_of(&doc))
            },
            Err(_) => Err(ManifestError::InvalidToml),
        }
    }
}

/// The dependencies that the text of a manifest declares.
pub fn parse_cargo_toml(content: &str) -> (r: Result<Vec<CargoDependency>, ManifestError>)
    ensures
        match r {
            Ok(dependencies) => toml_document(content@) matches Some(doc) && records(dependencies@)
                == cargo_dependencies(doc),
            Err(e) => e is InvalidToml && toml_document(content@) is None,
        },
{
    CargoParser::parse(content)
}

/// The relationships that the first `n` entries of the dependency list of
/// the package `name` give: each entry that is a text names, before its
/// first space, a package that `name` depends on. What follows the space is
/// the version and the source of that package.
pub open spec fn package_relationships(name: Seq<char>, items: Seq<ManifestNode>, n: nat) -> Seq<
    (Seq<char>, Seq<char>),
>
    decreases n,
{
    if n == 0 || n > items.len() {
        Seq::empty()
    } else {
        match items[n - 1] {
            ManifestNode::Text(entry) => package_relationships(name, items, (n - 1) as nat).push(
                (name, head_before(entry, " "@)),
            ),
            _ => package_relationships(name, items, (n - 1) as nat),
        }
    }
}

/// The relationships that one package of a lock file gives: those of its
/// dependency list where the package is a table with a text under `name`
/// and a list under `dependencies`, and none else.
pub open spec fn relationships_of_package(package: ManifestNode) -> Seq<(Seq<char>, Seq<char>)> {
    match package {
        ManifestNode::Table(fields) => match (
            value_for(fields, "name"@),
            value_for(fields, "dependencies"@),
        ) {
            (Some(ManifestNode::Text(name)), Some(ManifestNode::List(items))) => {
                package_relationships(name, items, items.len())
            },
            _ => Seq::empty(),
        },
        _ => Seq::empty(),
    }
}

/// The relationships that the first `n` packages of a lock file give, in
/// the order of the packages and of their dependency lists.
pub open spec fn packages_relationships(packages: Seq<ManifestNode>, n: nat) -> Seq<
    (Seq<char>, Seq<char>),
>
    decreases n,
{
    if n == 0 || n > packages.len() {
        Seq::empty()
    } else {
        packages_relationships(packages, (n - 1) as nat) + relationships_of_package(packages[n - 1])
    }
}

/// The relationships that a lock file gives: for every package in the list
/// under `package` and every package that it depends on, the pair of the
/// two names, dependent first. A document without such a list gives none.
pub open spec fn lock_relationships(doc: Seq<(Seq<char>, ManifestNode)>) -> Seq<
    (Seq<char>, Seq<char>),
> {
    match value_for(doc, "package"@) {
        Some(ManifestNode::List(packages)) => packages_relationships(packages, packages.len()),
        _ => Seq::empty(),
    }
}

impl CargoParser {
    /// Appends the relationships that one package of a lock file gives.
    fn package_pairs(package: &ManifestValue, pairs: &mut Vec<(String, String)>)
        ensures
            pair_names(final(pairs)@) == pair_names(old(pairs)@) + relationships_of_package(
                package.model(),
            ),
    {
        let ghost start = pair_names(pairs@);
        proof {
            lemma_model(*package);
            assert(start + Seq::<(Seq<char>, Seq<char>)>::empty() =~= start);
        }
        let fields = match package {
            ManifestValue::Table(fields) => fields,
            _ => {
                return ;
            },
        };
        let name = match lookup(fields, "name") {
            Some(ManifestValue::Text(name)) => name,
            _ => {
                return ;
            },
        };
        let items = match lookup(fields, "dependencies") {
            Some(ManifestValue::List(items)) => items,
            _ => {
                return ;
            },
        };
        proof {
            lemma_model(ManifestValue::List(*items));
        }
        let ghost model = items_model(items@);
        let mut i: usize = 0;
        assert(start + package_relationships(name@, model, 0) =~= start);
        while i < items.len()
            invariant
                i <= items.len(),
                model == items_model(items@),
                pair_names(pairs@) == start + package_relationships(name@, model, i as nat),
            decreases items.len() - i,
        {
            match &items[i] {
                ManifestValue::Text(entry) => {
                    let ghost before = pair_names(pairs@);
                    let dependency = head_text(entry.as_str(), " ");
                    pairs.push((name.clone(), dependency));
                    assert(pair_names(pairs@) =~= before.push((name@, head_before(entry@, " "@))));
                },
                _ => {},
            }
            i += 1;
        }
    }

    /// The relationships that a lock file gives, given the entries of its
    /// top table.
    pub fn relationships_of(doc: &Vec<(String, ManifestValue)>) -> (pairs: Vec<(String, String)>)
        ensures
            pair_names(pairs@) == lock_relationships(entries_model(doc@)),
    {
        let mut pairs: Vec<(String, String)> = Vec::new();
        assert(pair_names(pairs@) =~= Seq::<(Seq<char>, Seq<char>)>::empty());
        let packages = match lookup(doc, "package") {
            Some(ManifestValue::List(packages)) => packages,
            _ => {
                return pairs;
            },
        };
        proof {
            lemma_model(ManifestValue::List(*packages));
        }
        let ghost model = items_model(packages@);
        let mut i: usize = 0;
        while i < packages.len()
            invariant
                i <= packages.len(),
                model == items_model(packages@),
                pair_names(pairs@) == packages_relationships(model, i as nat),
            decreases packages.len() - i,
        {
            Self::package_pairs(&packages[i], &mut pairs);
            i += 1;
        }
        pairs
    }
}

/// The relationships between packages that the text of a lock file gives;
/// an error where the text is no TOML document.
pub fn parse_cargo_lock(content: &str) -> (r: Result<Vec<(String, String)>, ManifestError>)
    ensures
        match r {
            Ok(pairs) => toml_document(content@) matches Some(doc) && pair_names(pairs@)
                == lock_relationships(doc),
            Err(e) => e is InvalidToml && toml_document(content@) is None,
        },
{
    match toml_parse(content) {
        Ok(table) => {
            let doc = toml_table_entries(&table);
            Ok(CargoParser::relationships_of(&doc))
        },
        Err(_) => Err(ManifestError::InvalidToml),
    }
}

} // verus!
