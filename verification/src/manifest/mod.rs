//! Project manifests and the dependency records they declare.
//!
//! A manifest reaches the logic as a tree of plain values: texts, flags,
//! lists and tables. What the logic does not read (numbers, dates, a list
//! within a list) is kept as a value of no content.

pub mod cargo;
pub mod nodejs;

use crate::manifest::cargo::{CargoDependency, DependencyRecord, records};
use crate::manifest::cargo::DependencyType;
use crate::manifest::nodejs::{NodeJsDependency, PackageRecord, packages};
use crate::text::{names_file, path_names_file, same_text};
use vstd::prelude::*;

verus! {

/// A value of a manifest.
#[derive(Debug)]
pub enum ManifestValue {
    Text(String),
    Flag(bool),
    List(Vec<ManifestValue>),
    /// The entries of a table, in the order in which the table gives them.
    Table(Vec<(String, ManifestValue)>),
    /// A value that the logic does not read.
    Other,
}

/// What a manifest value is: the model of `ManifestValue`.
pub ghost enum ManifestNode {
    Text(Seq<char>),
    Flag(bool),
    List(Seq<ManifestNode>),
    Table(Seq<(Seq<char>, ManifestNode)>),
    Other,
}

impl ManifestValue {
    /// The model of the value.
    pub open spec fn model(self) -> ManifestNode
        decreases self,
    {
        match self {
            ManifestValue::Text(s) => ManifestNode::Text(s@),
            ManifestValue::Flag(b) => ManifestNode::Flag(b),
            ManifestValue::List(items) => ManifestNode::List(
                Seq::new(
                    items@.len(),
                    |i: int|
                        if 0 <= i < items@.len() {
                            items@[i].model()
                        } else {
                            ManifestNode::Other
                        },
                ),
            ),
            ManifestValue::Table(entries) => ManifestNode::Table(
                Seq::new(
                    entries@.len(),
                    |i: int|
                        if 0 <= i < entries@.len() {
                            (entries@[i].0@, entries@[i].1.model())
                        } else {
                            (Seq::empty(), ManifestNode::Other)
                        },
                ),
            ),
            ManifestValue::Other => ManifestNode::Other,
        }
    }
}

/// The models of the entries of a table.
pub open spec fn entries_model(entries: Seq<(String, ManifestValue)>) -> Seq<
    (Seq<char>, ManifestNode),
> {
    Seq::new(entries.len(), |i: int| (entries[i].0@, entries[i].1.model()))
}

/// The models of the items of a list.
pub open spec fn items_model(items: Seq<ManifestValue>) -> Seq<ManifestNode> {
    Seq::new(items.len(), |i: int| items[i].model())
}

/// The model of a table is the table of the models of its entries, and the
/// model of a list the list of the models of its items.
pub proof fn lemma_model(value: ManifestValue)
    ensures
        value matches ManifestValue::Table(entries) ==> value.model() == ManifestNode::Table(
            entries_model(entries@),
        ),
        value matches ManifestValue::List(items) ==> value.model() == ManifestNode::List(
            items_model(items@),
        ),
{
    match value {
        ManifestValue::Table(entries) => {
            assert(value.model()->Table_0 =~= entries_model(entries@));
        },
        ManifestValue::List(items) => {
            assert(value.model()->List_0 =~= items_model(items@));
        },
        _ => {},
    }
}

/// The value of the first entry at or after `from` whose key is `key`.
pub open spec fn find_key(entries: Seq<(Seq<char>, ManifestNode)>, key: Seq<char>, from: int) -> Option<
    ManifestNode,
>
    decreases entries.len() + 1 - from,
{
    if from < 0 || from >= entries.len() {
        None
    } else if entries[from].0 == key {
        Some(entries[from].1)
    } else {
        find_key(entries, key, from + 1)
    }
}

/// The value that a table holds for `key`.
pub open spec fn value_for(entries: Seq<(Seq<char>, ManifestNode)>, key: Seq<char>) -> Option<
    ManifestNode,
> {
    find_key(entries, key, 0)
}

/// The value that a table holds for `key`.
pub fn lookup<'a>(entries: &'a Vec<(String, ManifestValue)>, key: &str) -> (r: Option<
    &'a ManifestValue,
>)
    ensures
        match r {
            Some(v) => value_for(entries_model(entries@), key@) == Some(v.model()),
            None => value_for(entries_model(entries@), key@) is None,
        },
{
    let mut i: usize = 0;
    let ghost model = entries_model(entries@);
    while i < entries.len()
        invariant
            i <= entries.len(),
            model == entries_model(entries@),
            find_key(model, key@, 0) == find_key(model, key@, i as int),
        decreases entries.len() - i,
    {
        if same_text(entries[i].0.as_str(), key) {
            return Some(&entries[i].1);
        }
        i += 1;
    }
    None
}

/// Why a manifest could not be read.
#[derive(Debug)]
pub enum ManifestError {
    /// The file is no manifest of a supported kind; the path is given.
    UnsupportedManifest(String),
    /// The text is not valid TOML.
    InvalidToml,
    /// The text is not valid JSON.
    InvalidJson,
}

/// The supported kinds of manifest.
#[derive(Clone, Copy, PartialEq, Eq, Structural, Debug)]
pub enum ManifestParserType {
    Cargo,
    NodeJs,
}

/// A parser of the text of one kind of manifest.
pub trait ManifestParser {
    /// What the manifest declares a dependency to be.
    type Dependency;

    /// The dependencies that the manifest text declares.
    fn parse(content: &str) -> Result<Vec<Self::Dependency>, ManifestError>;
}

/// The kind of manifest that a path names, by its file name.
pub open spec fn parser_type_of(path: Seq<char>) -> Option<ManifestParserType> {
    if names_file(path, "Cargo.toml"@) {
        Some(ManifestParserType::Cargo)
    } else if names_file(path, "package.json"@) {
        Some(ManifestParserType::NodeJs)
    } else {
        None
    }
}

/// The kind of parser for a manifest file, by its file name.
pub fn get_parser_type(path: &str) -> (r: Result<ManifestParserType, ManifestError>)
    ensures
        match r {
            Ok(kind) => parser_type_of(path@) == Some(kind),
            Err(ManifestError::UnsupportedManifest(p)) => parser_type_of(path@) is None && p@
                == path@,
            Err(_) => false,
        },
{
    if path_names_file(path, "Cargo.toml") {
        Ok(ManifestParserType::Cargo)
    } else if path_names_file(path, "package.json") {
        Ok(ManifestParserType::NodeJs)
    } else {
        Err(ManifestError::UnsupportedManifest(String::from_str(path)))
    }
}

/// The dependency record that stands for a declared package: no features,
/// not optional, declared in `package.json`.
pub open spec fn package_as_record(p: PackageRecord) -> DependencyRecord {
    DependencyRecord {
        name: p.name,
        version_constraint: Some(p.version),
        features: Seq::empty(),
        optional: false,
        class: match p.class {
            nodejs::DependencyType::Normal => DependencyType::Normal,
            nodejs::DependencyType::Development => DependencyType::Development,
        },
        declared_in: "package.json"@,
    }
}

/// The dependency records that stand for declared packages.
pub open spec fn packages_as_records(ps: Seq<PackageRecord>) -> Seq<DependencyRecord> {
    ps.map_values(|p: PackageRecord| package_as_record(p))
}

/// Turns declared packages into dependency records.
pub fn normalize_packages(node_deps: Vec<NodeJsDependency>) -> (deps: Vec<CargoDependency>)
    ensures
        records(deps@) == packages_as_records(packages(node_deps@)),
{
    let mut deps: Vec<CargoDependency> = Vec::new();
    let mut i: usize = 0;
    while i < node_deps.len()
        invariant
            i <= node_deps.len(),
            records(deps@) == packages_as_records(packages(node_deps@)).take(i as int),
        decreases node_deps.len() - i,
    {
        let ghost before = records(deps@);
        let dep = CargoDependency {
            name: node_deps[i].name.clone(),
            version: Some(node_deps[i].version.clone()),
            features: Vec::new(),
            optional: false,
            dependency_type: match node_deps[i].dependency_type {
                nodejs::DependencyType::Normal => DependencyType::Normal,
                nodejs::DependencyType::Development => DependencyType::Development,
            },
            source: String::from_str("package.json"),
        };
        assert(dep@.features =~= Seq::<Seq<char>>::empty());
        deps.push(dep);
        proof {
            let all = packages_as_records(packages(node_deps@));
            assert(records(deps@) =~= before.push(dep@));
            assert(all.take(i + 1) =~= all.take(i as int).push(all[i as int]));
        }
        i += 1;
    }
    assert(packages_as_records(packages(node_deps@)).take(node_deps@.len() as int)
        =~= packages_as_records(packages(node_deps@)));
    deps
}

/// The dependency records that a manifest declares, whatever its kind.
pub open spec fn manifest_dependencies(path: Seq<char>, content: Seq<char>) -> Option<
    Seq<DependencyRecord>,
> {
    match parser_type_of(path) {
        Some(ManifestParserType::Cargo) => match cargo::toml_document(content) {
            Some(doc) => Some(cargo::cargo_dependencies(doc)),
            None => None,
        },
        Some(ManifestParserType::NodeJs) => match nodejs::json_document(content) {
            Some(doc) => Some(packages_as_records(nodejs::declared_packages(doc))),
            None => None,
        },
        None => None,
    }
}

/// The dependencies that the manifest at `path` with the text `content`
/// declares. The file name selects the parser; the packages of a JSON
/// manifest become dependency records.
pub fn parse_dependencies(path: &str, content: &str) -> (r: Result<
    Vec<CargoDependency>,
    ManifestError,
>)
    ensures
        match r {
            Ok(deps) => manifest_dependencies(path@, content@) == Some(records(deps@)),
            Err(ManifestError::UnsupportedManifest(p)) => parser_type_of(path@) is None && p@
                == path@,
            Err(ManifestError::InvalidToml) => parser_type_of(path@) == Some(
                ManifestParserType::Cargo,
            ) && cargo::toml_document(content@) is None,
            Err(ManifestError::InvalidJson) => parser_type_of(path@) == Some(
                ManifestParserType::NodeJs,
            ) && nodejs::json_document(content@) is None,
        },
{
    let parser_type = match get_parser_type(path) {
        Ok(kind) => kind,
        Err(e) => {
            return Err(e);
        },
    };
    match parser_type {
        ManifestParserType::Cargo => cargo::CargoParser::parse(content),
        ManifestParserType::NodeJs => {
            match nodejs::NodeJsParser::parse(content) {
                Ok(node_deps) => Ok(normalize_packages(node_deps)),
                Err(e) => Err(e),
            }
        },
    }
}

} // verus!
