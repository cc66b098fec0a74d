//! The JSON manifest layout with `dependencies` and `devDependencies`
//! objects that map package names to version constraints.

use crate::manifest::{
    ManifestError, ManifestNode, ManifestParser, ManifestValue, entries_model, lemma_model, lookup,
    value_for,
};
use serde_json::Value;
use vstd::prelude::*;

verus! {

/// serde_json's map, the type of an object.
#[verifier::external_type_specification]
#[verifier::external_body]
#[verifier::reject_recursive_types(K)]
#[verifier::reject_recursive_types(V)]
pub struct ExJsonMap<K, V>(serde_json::Map<K, V>);

/// serde_json's value.
#[verifier::external_type_specification]
#[verifier::external_body]
pub struct ExJsonValue(serde_json::Value);

/// serde_json's error.
#[verifier::external_type_specification]
#[verifier::external_body]
pub struct ExJsonError(serde_json::Error);

/// The entries of a JSON object, in the order in which the object gives
/// them. A list holds its texts; any other item of a list is a value of no
/// content, as is a number or a null.
pub uninterp spec fn json_entries(object: serde_json::Map<String, serde_json::Value>) -> Seq<
    (Seq<char>, ManifestNode),
>;

/// The value that a text is as a JSON document; `None` where the text is no
/// JSON document.
pub uninterp spec fn json_document(text: Seq<char>) -> Option<ManifestNode>;

/// serde_json's `from_str` for a value: parses a JSON document and hands
/// out the object that the document is, or nothing where it is another
/// value. The contract names what the document holds and says that the
/// call fails exactly where the text is no document.
#[verifier::external_body]
fn json_parse(text: &str) -> (r: Result<
    Option<serde_json::Map<String, serde_json::Value>>,
    serde_json::Error,
>)
    ensures
        match r {
            Ok(Some(object)) => json_document(text@) == Some(
                ManifestNode::Table(json_entries(object)),
            ),
            Ok(None) => json_document(text@) matches Some(node) && !(node is Table),
            Err(_) => json_document(text@) is None,
        },
{
    match serde_json::from_str::<Value>(text)? {
        Value::Object(object) => Ok(Some(object)),
        Value::Null | Value::Bool(_) | Value::Number(_) | Value::String(_) | Value::Array(_) => {
            Ok(None)
        },
    }
}

/// Walks a serde_json object with `Map::iter` and hands out its entries as
/// plain values: texts, flags and objects one for one, of a list the items
/// that `Value::as_str` takes for texts, and a value of no content for
/// everything else.
#[verifier::external_body]
fn json_object_entries(object: &serde_json::Map<String, serde_json::Value>) -> (entries: Vec<
    (String, ManifestValue),
>)
    ensures
        entries_model(entries@) == json_entries(*object),
{
    object.iter().map(|(k, v)| (k.clone(), match v {
        Value::String(s) => ManifestValue::Text(s.clone()),
        Value::Bool(b) => ManifestValue::Flag(*b),
        Value::Object(o) => ManifestValue::Table(json_object_entries(o)),
        Value::Array(a) => ManifestValue::List(a.iter().map(|x| match x.as_str() {
            Some(s) => ManifestValue::Text(s.to_string()),
            None => ManifestValue::Other,
        }).collect()),
        Value::Null | Value::Number(_) => ManifestValue::Other,
    })).collect()
}

/// The class under which a package is declared.
#[derive(Clone, Copy, PartialEq, Eq, Structural, Debug)]
pub enum DependencyType {
    Normal,
    Development,
}

/// One declared package.
#[derive(Clone, Debug)]
pub struct NodeJsDependency {
    pub name: String,
    pub version: String,
    pub dependency_type: DependencyType,
}

/// What a declared package is: the model of `NodeJsDependency`.
pub ghost struct PackageRecord {
    pub name: Seq<char>,
    pub version: Seq<char>,
    pub class: DependencyType,
}

impl View for NodeJsDependency {
    type V = PackageRecord;

    open spec fn view(&self) -> PackageRecord {
        PackageRecord { name: self.name@, version: self.version@, class: self.dependency_type }
    }
}

/// The records of a sequence of packages.
pub open spec fn packages(deps: Seq<NodeJsDependency>) -> Seq<PackageRecord> {
    deps.map_values(|d: NodeJsDependency| d@)
}

/// The packages that the first `n` entries of an object declare: each entry
/// whose value is a text declares the package of its key with that text as
/// its version constraint.
pub open spec fn object_packages(
    entries: Seq<(Seq<char>, ManifestNode)>,
    class: DependencyType,
    n: nat,
) -> Seq<PackageRecord>
    decreases n,
{
    if n == 0 || n > entries.len() {
        Seq::empty()
    } else {
        match entries[n - 1].1 {
            ManifestNode::Text(version) => object_packages(entries, class, (n - 1) as nat).push(
                PackageRecord { name: entries[n - 1].0, version, class },
            ),
            _ => object_packages(entries, class, (n - 1) as nat),
        }
    }
}

/// The packages that the object under `section` declares; none where the
/// document has no object there.
pub open spec fn section_packages(
    doc: Seq<(Seq<char>, ManifestNode)>,
    section: Seq<char>,
    class: DependencyType,
) -> Seq<PackageRecord> {
    match value_for(doc, section) {
        Some(ManifestNode::Table(entries)) => object_packages(entries, class, entries.len()),
        _ => Seq::empty(),
    }
}

/// The packages that a manifest declares: those under `dependencies`, then
/// those under `devDependencies`. A document that is no object declares
/// none.
pub open spec fn declared_packages(doc: ManifestNode) -> Seq<PackageRecord> {
    match doc {
        ManifestNode::Table(entries) => section_packages(
            entries,
            "dependencies"@,
            DependencyType::Normal,
        ) + section_packages(entries, "devDependencies"@, DependencyType::Development),
        _ => Seq::empty(),
    }
}

/// The parser of JSON package manifests.
#[derive(Debug, Default)]
pub struct NodeJsParser;

impl NodeJsParser {
    /// Appends the packages that the object under `section` declares.
    fn extract_section(
        doc: &Vec<(String, ManifestValue)>,
        section: &str,
        dependencies: &mut Vec<NodeJsDependency>,
        dep_type: DependencyType,
    )
        ensures
            packages(final(dependencies)@) == packages(old(dependencies)@) + section_packages(
                entries_model(doc@),
                section@,
                dep_type,
            ),
    {
        let ghost start = packages(dependencies@);
        match lookup(doc, section) {
            Some(ManifestValue::Table(entries)) => {
                proof {
                    lemma_model(ManifestValue::Table(*entries));
                }
                let ghost model = entries_model(entries@);
                let mut i: usize = 0;
                assert(start + object_packages(model, dep_type, 0) =~= start);
                while i < entries.len()
                    invariant
                        i <= entries.len(),
                        model == entries_model(entries@),
                        packages(dependencies@) == start + object_packages(
                            model,
                            dep_type,
                            i as nat,
                        ),
                    decreases entries.len() - i,
                {
                    match &entries[i].1 {
                        ManifestValue::Text(version) => {
                            let ghost before = packages(dependencies@);
                            let dep = NodeJsDependency {
                                name: entries[i].0.clone(),
                                version: version.clone(),
                                dependency_type: dep_type,
                            };
                            dependencies.push(dep);
                            assert(packages(dependencies@) =~= before.push(dep@));
                        },
                        _ => {},
                    }
                    i += 1;
                }
            },
            _ => {
                assert(start + Seq::<PackageRecord>::empty() =~= start);
            },
        }
    }

    /// The packages that a manifest declares, given the entries of the
    /// object that the manifest is.
    pub fn packages_of(doc: &Vec<(String, ManifestValue)>) -> (dependencies: Vec<NodeJsDependency>)
        ensures
            packages(dependencies@) == declared_packages(
                ManifestNode::Table(entries_model(doc@)),
            ),
    {
        let mut dependencies: Vec<NodeJsDependency> = Vec::new();
        assert(packages(dependencies@) =~= Seq::<PackageRecord>::empty());
        Self::extract_section(doc, "dependencies", &mut dependencies, DependencyType::Normal);
        Self::extract_section(
            doc,
            "devDependencies",
            &mut dependencies,
            DependencyType::Development,
        );
        proof {
            let m = entries_model(doc@);
            assert(Seq::<PackageRecord>::empty() + section_packages(
                m,
                "dependencies"@,
                DependencyType::Normal,
            ) =~= section_packages(m, "dependencies"@, DependencyType::Normal));
        }
        dependencies
    }
}

impl ManifestParser for NodeJsParser {
    type Dependency = NodeJsDependency;

    /// The packages that the manifest text declares; an error where the
    /// text is no JSON document.
    fn parse(content: &str) -> (r: Result<Vec<NodeJsDependency>, ManifestError>)
        ensures
            match r {
                Ok(dependencies) => json_document(content@) matches Some(doc) && packages(
                    dependencies@,
                ) == declared_packages(doc),
                Err(e) => e is InvalidJson && json_document(content@) is None,
            },
    {
        match json_parse(content) {
            Ok(Some(object)) => {
                let doc = json_object_entries(&object);
                Ok(Self::packages_of(&doc))
            },
            Ok(None) => {
                let dependencies: Vec<NodeJsDependency> = Vec::new();
                assert(packages(dependencies@) =~= Seq::<PackageRecord>::empty());
                Ok(dependencies)
            },
            Err(_) => Err(ManifestError::InvalidJson),
        }
    }
}

/// The packages that the text of a JSON manifest declares.
pub fn parse_package_json(content: &str) -> (r: Result<Vec<NodeJsDependency>, ManifestError>)
    ensures
        match r {
            Ok(dependencies) => json_document(content@) matches Some(doc) && packages(dependencies@)
                == declared_packages(doc),
            Err(e) => e is InvalidJson && json_document(content@) is None,
        },
{
    NodeJsParser::parse(content)
}

} // verus!
