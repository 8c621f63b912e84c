//! Project manifests: TOML values as the build reads them, and what a
//! manifest says about a project.

use crate::compile::CompileError;
use crate::text::{distinct, lemma_distinct_push, same_text, texts};
use vstd::prelude::*;
use vstd::string::StringExecFns;

verus! {

/// `toml::Value`: what the parser of manifests hands out, before its
/// contents are copied.
#[verifier::external_type_specification]
#[verifier::external_body]
pub struct ExTomlDocument(toml::Value);

/// A TOML value, held as plain data.
#[derive(Debug)]
pub enum TomlValue {
    /// A string.
    Text(String),
    /// An integer.
    Integer(i64),
    /// A float, as decimal text.
    Float(String),
    /// A boolean.
    Boolean(bool),
    /// A date or time, as text.
    Datetime(String),
    /// An array.
    Array(Vec<TomlValue>),
    /// A table: its keys with their values, in the order of the keys.
    Table(Vec<(String, TomlValue)>),
}

/// The keys of `entries`.
pub open spec fn dependency_names(entries: Seq<(String, TomlValue)>) -> Seq<Seq<char>> {
    entries.map_values(|d: (String, TomlValue)| d.0@)
}

/// Whether no table in `value`, at any depth, has a key twice.
pub open spec fn well_keyed(value: TomlValue) -> bool
    decreases value,
{
    match value {
        TomlValue::Array(items) => forall|i: int|
            0 <= i < items@.len() ==> well_keyed(#[trigger] items@[i]),
        TomlValue::Table(entries) => distinct(dependency_names(entries@)) && forall|i: int|
            0 <= i < entries@.len() ==> well_keyed((#[trigger] entries@[i]).1),
        _ => true,
    }
}

/// The place of the first entry of `entries` at or after `from` whose key is
/// `key`; the number of entries where there is none.
pub open spec fn key_position(entries: Seq<(String, TomlValue)>, key: Seq<char>, from: int) -> int
    decreases entries.len() - from,
{
    if from < 0 || from >= entries.len() {
        entries.len() as int
    } else if entries[from].0@ == key {
        from
    } else {
        key_position(entries, key, from + 1)
    }
}

/// The value that `entries` hold under `key`.
pub open spec fn lookup(entries: Seq<(String, TomlValue)>, key: Seq<char>) -> Option<TomlValue> {
    let at = key_position(entries, key, 0);
    if at < entries.len() {
        Some(entries[at].1)
    } else {
        None
    }
}

impl TomlValue {
    /// The value under `key`, where this is a table that has the key.
    pub open spec fn entry(self, key: Seq<char>) -> Option<TomlValue> {
        match self {
            TomlValue::Table(entries) => lookup(entries@, key),
            _ => None,
        }
    }

    /// The text, where this is a string.
    pub open spec fn text(self) -> Option<Seq<char>> {
        match self {
            TomlValue::Text(s) => Some(s@),
            _ => None,
        }
    }

    /// Looks `key` up in a table; anything but a table has no keys.
    pub fn get(&self, key: &str) -> (found: Option<&TomlValue>)
        ensures
            match self.entry(key@) {
                Some(value) => found == Some(&value),
                None => found is None,
            },
    {
        match self {
            TomlValue::Table(entries) => {
                let mut i: usize = 0;
                while i < entries.len()
                    invariant
                        *self == TomlValue::Table(*entries),
                        i <= entries.len(),
                        key_position(entries@, key@, 0) == key_position(entries@, key@, i as int),
                    decreases entries.len() - i,
                {
                    if same_text(entries[i].0.as_str(), key) {
                        return Some(&entries[i].1);
                    }
                    i += 1;
                }
                None
            },
            _ => None,
        }
    }
}

/// What a manifest says about a project.
#[derive(Debug)]
pub struct ManifestInfo {
    /// Name of the package.
    pub package_name: String,
    /// The dependencies, each with its details, in the order of their names.
    pub base_deps: Vec<(String, TomlValue)>,
    /// Names of the dependencies that are contracts to deploy.
    pub deployable_deps: Vec<String>,
}

/// The package name that the manifest `doc` gives.
pub open spec fn package_name(doc: TomlValue) -> Option<Seq<char>> {
    match doc.entry("package"@) {
        Some(package) => match package.entry("name"@) {
            Some(name) => name.text(),
            None => None,
        },
        None => None,
    }
}

/// The dependency table of the manifest `doc`; empty where it has none.
pub open spec fn dependencies(doc: TomlValue) -> Seq<(String, TomlValue)> {
    match doc.entry("dependencies"@) {
        Some(TomlValue::Table(deps)) => deps@,
        _ => Seq::empty(),
    }
}

/// Whether one of `items` is the string `text`.
pub open spec fn has_text(items: Seq<TomlValue>, text: Seq<char>) -> bool {
    exists|i: int| 0 <= i < items.len() && (#[trigger] items[i]).text() == Some(text)
}

/// Whether a dependency with these details is a contract to deploy: its
/// feature list names `deployable`.
pub open spec fn is_deployable(details: TomlValue) -> bool {
    match details.entry("features"@) {
        Some(TomlValue::Array(items)) => has_text(items@, "deployable"@),
        _ => false,
    }
}

/// The names of those of `deps` that are contracts to deploy, in their order.
pub open spec fn deployable_names(deps: Seq<(String, TomlValue)>) -> Seq<Seq<char>>
    decreases deps.len(),
{
    if deps.len() == 0 {
        Seq::empty()
    } else if is_deployable(deps.last().1) {
        deployable_names(deps.drop_last()).push(deps.last().0@)
    } else {
        deployable_names(deps.drop_last())
    }
}

/// A key that is found leads to one of the entries.
pub proof fn lemma_lookup_is_entry(entries: Seq<(String, TomlValue)>, key: Seq<char>, from: int)
    requires
        0 <= from <= entries.len(),
    ensures
        from <= key_position(entries, key, from) <= entries.len(),
    decreases entries.len() - from,
{
    if from < entries.len() && entries[from].0@ != key {
        lemma_lookup_is_entry(entries, key, from + 1);
    }
}

/// The dependencies of a manifest without a key twice have distinct names.
pub proof fn lemma_dependencies_distinct(doc: TomlValue)
    requires
        well_keyed(doc),
    ensures
        distinct(dependency_names(dependencies(doc))),
{
    match doc {
        TomlValue::Table(entries) => {
            lemma_lookup_is_entry(entries@, "dependencies"@, 0);
            let at = key_position(entries@, "dependencies"@, 0);
            if at < entries@.len() {
                assert(well_keyed(entries@[at].1));
            }
        },
        _ => {},
    }
}

/// The contracts to deploy among dependencies with distinct names have
/// distinct names, and each is one of the dependencies.
pub proof fn lemma_deployable_names_distinct(deps: Seq<(String, TomlValue)>)
    requires
        distinct(dependency_names(deps)),
    ensures
        distinct(deployable_names(deps)),
        forall|n: Seq<char>|
            deployable_names(deps).contains(n) ==> dependency_names(deps).contains(n),
    decreases deps.len(),
{
    if deps.len() > 0 {
        let front = deps.drop_last();
        assert forall|i: int, j: int| 0 <= i < j < front.len() implies dependency_names(front)[i]
            != dependency_names(front)[j] by {
            assert(dependency_names(deps)[i] != dependency_names(deps)[j]);
        }
        lemma_deployable_names_distinct(front);
        let last = deps.last().0@;
        assert forall|n: Seq<char>| deployable_names(front).contains(n) implies dependency_names(
            deps,
        ).contains(n) && n != last by {
            assert(dependency_names(front).contains(n));
            let k = choose|k: int| 0 <= k < front.len() && dependency_names(front)[k] == n;
            assert(dependency_names(deps)[k] == n);
            assert(dependency_names(deps)[deps.len() - 1] == last);
        }
        assert(dependency_names(deps)[deps.len() - 1] == last);
        if is_deployable(deps.last().1) {
            if deployable_names(front).contains(last) {
                assert(false);
            }
            lemma_distinct_push(deployable_names(front), last);
            assert forall|n: Seq<char>| deployable_names(deps).contains(n) implies dependency_names(
                deps,
            ).contains(n) by {
                let k = choose|k: int|
                    0 <= k < deployable_names(deps).len() && deployable_names(deps)[k] == n;
                if k < deployable_names(front).len() {
                    assert(deployable_names(front)[k] == n);
                    assert(deployable_names(front).contains(n));
                }
            }
        }
    }
}

/// Whether `outcome` is what reading the manifest `doc` gives: the package
/// name with the dependencies, or the complaint that the name is missing.
pub open spec fn is_manifest_outcome(doc: TomlValue, outcome: Result<ManifestInfo, CompileError>) -> bool {
    match package_name(doc) {
        Some(name) => {
            &&& outcome matches Ok(info)
            &&& info.package_name@ == name
            &&& info.base_deps@ == dependencies(doc)
            &&& texts(info.deployable_deps@) == deployable_names(dependencies(doc))
        },
        None => {
            &&& outcome matches Err(CompileError::PathError(message))
            &&& message@ == "Missing package.name in Cargo.toml"@
        },
    }
}

/// Tells whether a dependency with these details is a contract to deploy.
pub fn deployable(details: &TomlValue) -> (marked: bool)
    ensures
        marked == is_deployable(*details),
{
    match details.get("features") {
        Some(TomlValue::Array(items)) => {
            let mut i: usize = 0;
            while i < items.len()
                invariant
                    details.entry("features"@) == Some(TomlValue::Array(*items)),
                    i <= items.len(),
                    forall|j: int| 0 <= j < i ==> (#[trigger] items@[j]).text() != Some("deployable"@),
                decreases items.len() - i,
            {
                match &items[i] {
                    TomlValue::Text(s) => {
                        if same_text(s.as_str(), "deployable") {
                            return true;
                        }
                    },
                    _ => {},
                }
                i += 1;
            }
            false
        },
        _ => false,
    }
}

fn read_package_name(doc: &TomlValue) -> (name: Option<String>)
    ensures
        match package_name(*doc) {
            Some(text) => name matches Some(s) && s@ == text,
            None => name is None,
        },
{
    match doc.get("package") {
        Some(package) => match package.get("name") {
            Some(TomlValue::Text(s)) => Some(s.clone()),
            _ => None,
        },
        None => None,
    }
}

fn take_dependencies(doc: TomlValue) -> (deps: Vec<(String, TomlValue)>)
    ensures
        deps@ == dependencies(doc),
{
    match doc {
        TomlValue::Table(entries) => {
            let ghost all = entries@;
            for entry in it: entries
                invariant
                    doc.entry("dependencies"@) == lookup(all, "dependencies"@),
                    it.seq() == all,
                    key_position(all, "dependencies"@, 0) == key_position(
                        all,
                        "dependencies"@,
                        it.index() as int,
                    ),
            {
                if same_text(entry.0.as_str(), "dependencies") {
                    return match entry.1 {
                        TomlValue::Table(deps) => deps,
                        _ => Vec::new(),
                    };
                }
            }
            Vec::new()
        },
        _ => Vec::new(),
    }
}

/// Reads the package name and the dependencies off the manifest `doc`.
pub fn manifest_info(doc: TomlValue) -> (outcome: Result<ManifestInfo, CompileError>)
    ensures
        is_manifest_outcome(doc, outcome),
        well_keyed(doc) ==> (outcome matches Ok(info) ==> distinct(
            dependency_names(info.base_deps@),
        ) && distinct(texts(info.deployable_deps@))),
{
    proof {
        if well_keyed(doc) {
            lemma_dependencies_distinct(doc);
            lemma_deployable_names_distinct(dependencies(doc));
        }
    }
    let package_name = match read_package_name(&doc) {
        Some(name) => name,
        None => {
            return Err(
                CompileError::PathError(String::from_str("Missing package.name in Cargo.toml")),
            );
        },
    };
    let base_deps = take_dependencies(doc);
    let mut deployable_deps: Vec<String> = Vec::new();
    let mut i: usize = 0;
    while i < base_deps.len()
        invariant
            i <= base_deps.len(),
            texts(deployable_deps@) == deployable_names(base_deps@.take(i as int)),
        decreases base_deps.len() - i,
    {
        proof {
            assert(base_deps@.take(i + 1).drop_last() == base_deps@.take(i as int));
        }
        if deployable(&base_deps[i].1) {
            let name = base_deps[i].0.clone();
            proof {
                assert(texts(deployable_deps@.push(name)) == texts(deployable_deps@).push(name@));
            }
            deployable_deps.push(name);
        }
        i += 1;
    }
    proof {
        assert(base_deps@.take(base_deps@.len() as int) == base_deps@);
    }
    Ok(ManifestInfo { package_name, base_deps, deployable_deps })
}

/// The manifest that `text` spells; `None` where it is not valid TOML.
pub uninterp spec fn toml_document(text: Seq<char>) -> Option<TomlValue>;

/// What a parsed TOML value holds.
pub uninterp spec fn value_contents(value: toml::Value) -> TomlValue;

/// `toml::from_str`, read as a `toml::Value`: succeeds exactly on valid TOML,
/// and the value then holds the document that the text spells.
#[verifier::external_body]
fn parse_toml(text: &str) -> (parsed: Result<toml::Value, toml::de::Error>)
    ensures
        match toml_document(text@) {
            Some(doc) => parsed matches Ok(value) && value_contents(value) == doc,
            None => parsed is Err,
        },
{
    toml::from_str::<toml::Value>(text)
}

/// Copies what a `toml::Value` holds, variant by variant: floats and dates as
/// the text that they display as, a table's entries in the order in which the
/// table walks them. A table holds each key once, so no key comes twice.
#[verifier::external_body]
fn contents_of(value: &toml::Value) -> (contents: TomlValue)
    ensures
        contents == value_contents(*value),
        well_keyed(contents),
{
    match value {
        toml::Value::String(s) => TomlValue::Text(s.clone()),
        toml::Value::Integer(i) => TomlValue::Integer(*i),
        toml::Value::Float(f) => TomlValue::Float(f.to_string()),
        toml::Value::Boolean(b) => TomlValue::Boolean(*b),
        toml::Value::Datetime(d) => TomlValue::Datetime(d.to_string()),
        toml::Value::Array(a) => TomlValue::Array(a.iter().map(contents_of).collect()),
        toml::Value::Table(t) => TomlValue::Table(
            t.iter().map(|(k, v)| (k.clone(), contents_of(v))).collect(),
        ),
    }
}

/// Parses the manifest `text`.
pub fn parse_manifest(text: &str) -> (outcome: Result<TomlValue, CompileError>)
    ensures
        match toml_document(text@) {
            Some(doc) => outcome == Ok::<TomlValue, CompileError>(doc),
            None => outcome matches Err(CompileError::TomlError(_)),
        },
        outcome matches Ok(doc) ==> well_keyed(doc),
{
    match parse_toml(text) {
        Ok(value) => Ok(contents_of(&value)),
        Err(error) => Err(CompileError::TomlError(error)),
    }
}

/// Parses the manifest `text` and reads the package name and the dependencies off it.
pub fn read_manifest(text: &str) -> (outcome: Result<ManifestInfo, CompileError>)
    ensures
        match toml_document(text@) {
            Some(doc) => is_manifest_outcome(doc, outcome),
            None => outcome matches Err(CompileError::TomlError(_)),
        },
        outcome matches Ok(info) ==> distinct(dependency_names(info.base_deps@)) && distinct(
            texts(info.deployable_deps@),
        ),
{
    match parse_manifest(text) {
        Ok(doc) => manifest_info(doc),
        Err(error) => Err(error),
    }
}

} // verus!
