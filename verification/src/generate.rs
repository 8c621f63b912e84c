//! The unit generated for each contract: its manifest, its compiler
//! configuration, and the files that are copied into it.

use crate::compile::{CompileError, ContractTarget, GeneratedContract};
use crate::deployable::GeneratedFile;
use crate::manifest::{dependency_names, TomlValue};
use crate::project::{failure_of, module_dir_path, module_file, ContractProject, Failure};
use crate::text::{
    debug_quoted, file_name, find_from, join, join_path, joined, parent_path, path_file_name,
    path_join, path_parent, position_from, quote, same_text, texts,
};
use vstd::prelude::*;
use vstd::string::{StrSliceExecFns, StringExecFns};

verus! {

/// The character of the digit `d`.
pub open spec fn digit(d: int) -> char {
    ((48 + d) as u8) as char
}

/// The digits of `n` in base ten, without leading zeros.
pub open spec fn digits(n: nat) -> Seq<char>
    decreases n,
{
    if n < 10 {
        seq![digit(n as int)]
    } else {
        digits(n / 10).push(digit((n % 10) as int))
    }
}

/// The integer `i` in base ten, with a minus sign where it is negative.
pub open spec fn decimal(i: int) -> Seq<char> {
    if i < 0 {
        seq!['-'] + digits((-i) as nat)
    } else {
        digits(i as nat)
    }
}

/// `i64::to_string`: the integer in base ten.
#[verifier::external_body]
fn integer_text(i: i64) -> (text: String)
    ensures
        text@ == decimal(i as int),
{
    i.to_string()
}

/// `value` as it is written in a manifest.
pub open spec fn formatted(value: TomlValue) -> Seq<char>
    decreases value, 0nat,
{
    match value {
        TomlValue::Text(s) => "\""@ + s@ + "\""@,
        TomlValue::Integer(i) => decimal(i as int),
        TomlValue::Float(text) => text@,
        TomlValue::Boolean(b) => if b {
            "true"@
        } else {
            "false"@
        },
        TomlValue::Datetime(text) => "\""@ + text@ + "\""@,
        TomlValue::Array(items) => if items@.len() == 0 {
            "[]"@
        } else {
            "["@ + formatted_items(items, items@.len()) + "]"@
        },
        TomlValue::Table(entries) => if entries@.len() == 0 {
            "{}"@
        } else {
            "{ "@ + formatted_entries(entries, entries@.len()) + " }"@
        },
    }
}

/// The first `n` of `items` as they are written in a manifest, with a comma
/// between each two.
pub open spec fn formatted_items(items: Vec<TomlValue>, n: nat) -> Seq<char>
    decreases items, n,
{
    if n == 0 || n > items@.len() {
        Seq::empty()
    } else if n == 1 {
        formatted(items@[0])
    } else {
        formatted_items(items, (n - 1) as nat) + ", "@ + formatted(items@[n - 1])
    }
}

/// The first `n` of `entries` as they are written in a manifest, each as key
/// and value, with a comma between each two.
pub open spec fn formatted_entries(entries: Vec<(String, TomlValue)>, n: nat) -> Seq<char>
    decreases entries, n,
{
    if n == 0 || n > entries@.len() {
        Seq::empty()
    } else if n == 1 {
        entries@[0].0@ + " = "@ + formatted(entries@[0].1)
    } else {
        formatted_entries(entries, (n - 1) as nat) + ", "@ + (entries@[n - 1].0@ + " = "@
            + formatted(entries@[n - 1].1))
    }
}

/// Writes `value` as it is written in a manifest.
pub fn format_toml_value(value: &TomlValue) -> (text: String)
    ensures
        text@ == formatted(*value),
    decreases value, 0nat,
{
    match value {
        TomlValue::Text(s) => {
            let mut text = String::from_str("\"");
            text.append(s.as_str());
            text.append("\"");
            text
        },
        TomlValue::Integer(i) => integer_text(*i),
        TomlValue::Float(f) => f.clone(),
        TomlValue::Boolean(b) => if *b {
            String::from_str("true")
        } else {
            String::from_str("false")
        },
        TomlValue::Datetime(dt) => {
            let mut text = String::from_str("\"");
            text.append(dt.as_str());
            text.append("\"");
            text
        },
        TomlValue::Array(arr) => {
            if arr.len() == 0 {
                return String::from_str("[]");
            }
            let mut text = String::from_str("[");
            let items = format_items(arr);
            text.append(items.as_str());
            text.append("]");
            text
        },
        TomlValue::Table(table) => {
            if table.len() == 0 {
                return String::from_str("{}");
            }
            let mut text = String::from_str("{ ");
            let entries = format_entries(table);
            text.append(entries.as_str());
            text.append(" }");
            text
        },
    }
}

fn format_items(items: &Vec<TomlValue>) -> (text: String)
    ensures
        text@ == formatted_items(*items, items@.len()),
    decreases items, 1nat,
{
    let mut text = String::new();
    let mut i: usize = 0;
    while i < items.len()
        invariant
            i <= items.len(),
            text@ == formatted_items(*items, i as nat),
        decreases items.len() - i,
    {
        let item = format_toml_value(&items[i]);
        if i > 0 {
            text.append(", ");
        }
        text.append(item.as_str());
        proof {
            if i == 0 {
                assert(text@ =~= formatted(items@[0]));
            }
        }
        i += 1;
    }
    text
}

fn format_entries(entries: &Vec<(String, TomlValue)>) -> (text: String)
    ensures
        text@ == formatted_entries(*entries, entries@.len()),
    decreases entries, 1nat,
{
    let mut text = String::new();
    let mut i: usize = 0;
    while i < entries.len()
        invariant
            i <= entries.len(),
            text@ == formatted_entries(*entries, i as nat),
        decreases entries.len() - i,
    {
        let mut entry = entries[i].0.clone();
        entry.append(" = ");
        let value = format_toml_value(&entries[i].1);
        entry.append(value.as_str());
        if i > 0 {
            text.append(", ");
        }
        text.append(entry.as_str());
        proof {
            if i == 0 {
                assert(text@ =~= entry@);
            }
        }
        i += 1;
    }
    text
}

/// The path from the directory `base` to `path`, where there is one that
/// can be had from the two texts alone.
pub uninterp spec fn relative_path(path: Seq<char>, base: Seq<char>) -> Option<Seq<char>>;

/// `pathdiff::diff_paths`, on paths written as text.
#[verifier::external_body]
fn diff_paths(path: &str, base: &str) -> (relative: Option<String>)
    ensures
        match relative_path(path@, base@) {
            Some(text) => relative matches Some(r) && r@ == text,
            None => relative is None,
        },
{
    pathdiff::diff_paths(path, base).map(|p| p.to_string_lossy().into_owned())
}

/// The path that a dependency with these details is found under, where the
/// details name one.
pub open spec fn dependency_path(details: TomlValue) -> Option<Seq<char>> {
    match details.entry("path"@) {
        Some(TomlValue::Text(relative)) => Some(relative@),
        _ => None,
    }
}

/// The paths of those of `deps` that are found under a path, each joined to
/// the project directory `dir`, in the order of the dependencies.
pub open spec fn dependency_paths(dir: Seq<char>, deps: Seq<(String, TomlValue)>) -> Seq<Seq<char>>
    decreases deps.len(),
{
    if deps.len() == 0 {
        Seq::empty()
    } else {
        match dependency_path(deps.last().1) {
            Some(relative) => dependency_paths(dir, deps.drop_last()).push(
                path_join(dir, relative),
            ),
            None => dependency_paths(dir, deps.drop_last()),
        }
    }
}

/// The number of those of `deps` that are found under a path.
pub open spec fn path_count(deps: Seq<(String, TomlValue)>) -> nat
    decreases deps.len(),
{
    if deps.len() == 0 {
        0
    } else if dependency_path(deps.last().1) is Some {
        path_count(deps.drop_last()) + 1
    } else {
        path_count(deps.drop_last())
    }
}

/// Gives the path that a dependency with these details is found under.
fn path_of(details: &TomlValue) -> (path: Option<&String>)
    ensures
        match dependency_path(*details) {
            Some(text) => path matches Some(p) && p@ == text,
            None => path is None,
        },
{
    match details.get("path") {
        Some(TomlValue::Text(relative)) => Some(relative),
        _ => None,
    }
}

/// Lists the paths of the dependencies of `project` that are found under a
/// path, each joined to the project's directory. These are the paths to make
/// canonical before the manifest of a unit is written.
pub fn path_dependencies(project: &ContractProject) -> (paths: Vec<String>)
    ensures
        texts(paths@) == dependency_paths(project.path@, project.base_deps@),
        paths@.len() == path_count(project.base_deps@),
{
    let mut paths: Vec<String> = Vec::new();
    let mut i: usize = 0;
    assert(texts(paths@) =~= Seq::<Seq<char>>::empty());
    while i < project.base_deps.len()
        invariant
            i <= project.base_deps.len(),
            texts(paths@) == dependency_paths(project.path@, project.base_deps@.take(i as int)),
            paths@.len() == path_count(project.base_deps@.take(i as int)),
        decreases project.base_deps.len() - i,
    {
        proof {
            assert(project.base_deps@.take(i + 1).drop_last() == project.base_deps@.take(i as int));
        }
        match path_of(&project.base_deps[i].1) {
            Some(relative) => {
                let path = join_path(project.path.as_str(), relative.as_str());
                proof {
                    assert(texts(paths@.push(path)) =~= texts(paths@).push(path@));
                }
                paths.push(path);
            },
            None => {},
        }
        i += 1;
    }
    proof {
        assert(project.base_deps@.take(project.base_deps@.len() as int) == project.base_deps@);
    }
    paths
}

/// The fields of a dependency's details but for the path, each as key and
/// value, in their order.
pub open spec fn other_fields(entries: Seq<(String, TomlValue)>) -> Seq<Seq<char>>
    decreases entries.len(),
{
    if entries.len() == 0 {
        Seq::empty()
    } else if entries.last().0@ == "path"@ {
        other_fields(entries.drop_last())
    } else {
        other_fields(entries.drop_last()).push(
            entries.last().0@ + " = "@ + formatted(entries.last().1),
        )
    }
}

/// The fields of a dependency's details as the unit's manifest has them: the
/// path, rewritten as `relative`, comes first.
pub open spec fn table_fields(entries: Seq<(String, TomlValue)>, relative: Option<Seq<char>>) -> Seq<
    Seq<char>,
> {
    match relative {
        Some(path) => seq!["path = \""@ + path + "\""@] + other_fields(entries),
        None => other_fields(entries),
    }
}

/// The line of a dependency whose details are a table.
pub open spec fn table_line(
    name: Seq<char>,
    entries: Seq<(String, TomlValue)>,
    relative: Option<Seq<char>>,
) -> Seq<char> {
    name + " = {"@ + joined(table_fields(entries, relative), ", "@) + "}"@ + "\n"@
}

/// The line of a dependency in the manifest of the unit in `target_dir`;
/// `canonical` is the canonical path of the dependency where it has a path.
/// It fails where the path cannot be rewritten.
pub open spec fn resolved_line(
    name: Seq<char>,
    details: TomlValue,
    canonical: Seq<char>,
    target_dir: Seq<char>,
) -> Result<Seq<char>, Failure> {
    match details {
        TomlValue::Table(entries) => match dependency_path(details) {
            Some(_) => match relative_path(canonical, target_dir) {
                Some(relative) => Ok(table_line(name, entries@, Some(relative))),
                None => Err(
                    Failure::Path(
                        "Failed to calculate relative path from "@ + debug_quoted(target_dir)
                            + " to "@ + debug_quoted(canonical),
                    ),
                ),
            },
            None => Ok(table_line(name, entries@, None)),
        },
        _ => Ok(name + " = "@ + formatted(details) + "\n"@),
    }
}

/// The line of a dependency in the manifest of the unit in `target_dir`;
/// `canonical` is what making the path of the dependency canonical gave,
/// where it has a path. It fails where that failed, and where the path cannot
/// be rewritten.
pub open spec fn dependency_line(
    name: Seq<char>,
    details: TomlValue,
    canonical: Result<String, std::io::Error>,
    target_dir: Seq<char>,
) -> Result<Seq<char>, Failure> {
    match canonical {
        Ok(path) => resolved_line(name, details, path@, target_dir),
        Err(_) => if dependency_path(details) is Some {
            Err(Failure::Io)
        } else {
            resolved_line(name, details, Seq::empty(), target_dir)
        },
    }
}

/// The lines of the first `n` of `deps`, or the first failure among them.
pub open spec fn dependency_lines(
    deps: Seq<(String, TomlValue)>,
    canonical: Seq<Result<String, std::io::Error>>,
    target_dir: Seq<char>,
    n: nat,
) -> Result<Seq<char>, Failure>
    decreases n,
{
    if n == 0 || n > deps.len() {
        Ok(Seq::empty())
    } else {
        match dependency_lines(deps, canonical, target_dir, (n - 1) as nat) {
            Err(failure) => Err(failure),
            Ok(text) => match dependency_line(
                deps[n - 1].0@,
                deps[n - 1].1,
                canonical[path_count(deps.take(n - 1)) as int],
                target_dir,
            ) {
                Err(failure) => Err(failure),
                Ok(line) => Ok(text + line),
            },
        }
    }
}

/// Writes the fields of a dependency's details but for the path.
fn push_other_fields(fields: &mut Vec<String>, entries: &Vec<(String, TomlValue)>)
    ensures
        texts(final(fields)@) == texts(old(fields)@) + other_fields(entries@),
{
    let ghost before = texts(fields@);
    let mut i: usize = 0;
    assert(before + other_fields(entries@.take(0)) =~= before);
    while i < entries.len()
        invariant
            i <= entries.len(),
            texts(fields@) == before + other_fields(entries@.take(i as int)),
        decreases entries.len() - i,
    {
        proof {
            assert(entries@.take(i + 1).drop_last() == entries@.take(i as int));
        }
        if !same_text(entries[i].0.as_str(), "path") {
            let mut field = entries[i].0.clone();
            field.append(" = ");
            let value = format_toml_value(&entries[i].1);
            field.append(value.as_str());
            proof {
                assert(texts(fields@.push(field)) =~= texts(fields@).push(field@));
                assert(before + other_fields(entries@.take(i + 1)) =~= (before + other_fields(
                    entries@.take(i as int),
                )).push(field@));
            }
            fields.push(field);
        }
        i += 1;
    }
    proof {
        assert(entries@.take(entries@.len() as int) == entries@);
    }
}

/// Writes the line of a dependency whose details are a table.
fn table_line_of(name: &str, entries: &Vec<(String, TomlValue)>, relative: Option<&String>) -> (line:
    String)
    ensures
        line@ == table_line(
            name@,
            entries@,
            match relative {
                Some(path) => Some(path@),
                None => None,
            },
        ),
{
    let mut fields: Vec<String> = Vec::new();
    match relative {
        Some(path) => {
            let mut field = String::from_str("path = \"");
            field.append(path.as_str());
            field.append("\"");
            fields.push(field);
            assert(texts(fields@) =~= seq!["path = \""@ + path@ + "\""@]);
        },
        None => {
            assert(texts(fields@) =~= Seq::<Seq<char>>::empty());
        },
    }
    push_other_fields(&mut fields, entries);
    proof {
        assert(Seq::<Seq<char>>::empty() + other_fields(entries@) =~= other_fields(entries@));
    }
    let list = join(&fields, ", ");
    let mut line = String::from_str(name);
    line.append(" = {");
    line.append(list.as_str());
    line.append("}");
    line.append("\n");
    line
}

/// Writes the line of a dependency in the manifest of the unit in `target_dir`.
fn dependency_line_of(name: &str, details: &TomlValue, canonical: &str, target_dir: &str) -> (line:
    Result<String, CompileError>)
    ensures
        match resolved_line(name@, *details, canonical@, target_dir@) {
            Ok(text) => line matches Ok(l) && l@ == text,
            Err(failure) => line matches Err(error) && failure_of(error) == failure,
        },
{
    match details {
        TomlValue::Table(entries) => {
            if path_of(details).is_some() {
                match diff_paths(canonical, target_dir) {
                    Some(relative) => Ok(table_line_of(name, entries, Some(&relative))),
                    None => {
                        let mut message = String::from_str(
                            "Failed to calculate relative path from ",
                        );
                        message.append(quote(target_dir).as_str());
                        message.append(" to ");
                        message.append(quote(canonical).as_str());
                        Err(CompileError::PathError(message))
                    },
                }
            } else {
                Ok(table_line_of(name, entries, None))
            }
        },
        _ => {
            let mut line = String::from_str(name);
            line.append(" = ");
            let value = format_toml_value(details);
            line.append(value.as_str());
            line.append("\n");
            Ok(line)
        },
    }
}

/// What the manifest of the unit for the package `package` starts with.
pub open spec fn manifest_header(package: Seq<char>) -> Seq<char> {
    "[package]\nname = \""@ + package
        + "\"\nversion = \"0.1.0\"\nedition = \"2021\"\n\n[workspace]\n\n[features]\ndefault = []\ndeploy = []\ndeployable = []\ninterface-only = []\n\n[dependencies]\n"@
}

/// What the manifest of every unit ends with.
pub open spec fn manifest_footer() -> Seq<char> {
    "\n[[bin]]\nname = \"runtime\"\npath = \"src/lib.rs\"\n\n[[bin]]\nname = \"deploy\"\npath = \"src/lib.rs\"\nrequired-features = [\"deploy\"]\n\n[profile.release]\nlto = true\nopt-level = \"z\"\n"@
}

/// The line of a contract to deploy that is a unit of the same project: it
/// is found beside this unit, under what stands behind the first hyphen of
/// its name.
pub open spec fn marker_line(other: Seq<char>) -> Seq<char> {
    other + " = { path = \"../"@ + other.skip(position_from(other, '-', 0) + 1)
        + "\", features = [\"interface-only\"] }\n"@
}

/// Whether the `k`-th of the contracts to deploy gets a line of its own: it
/// is no dependency of the manifest, did not come before, is not the unit
/// itself, and has a hyphen in its name.
pub open spec fn gets_marker_line(
    base_names: Seq<Seq<char>>,
    deployable: Seq<Seq<char>>,
    package: Seq<char>,
    k: int,
) -> bool {
    let other = deployable[k];
    &&& !base_names.contains(other)
    &&& !deployable.take(k).contains(other)
    &&& other != package
    &&& position_from(other, '-', 0) < other.len()
}

/// The lines of the first `n` contracts to deploy.
pub open spec fn marker_lines(
    base_names: Seq<Seq<char>>,
    deployable: Seq<Seq<char>>,
    package: Seq<char>,
    n: nat,
) -> Seq<char>
    decreases n,
{
    if n == 0 || n > deployable.len() {
        Seq::empty()
    } else if gets_marker_line(base_names, deployable, package, n - 1) {
        marker_lines(base_names, deployable, package, (n - 1) as nat) + marker_line(
            deployable[n - 1],
        )
    } else {
        marker_lines(base_names, deployable, package, (n - 1) as nat)
    }
}

/// The manifest of the unit generated for `target` in `target_dir`, or the
/// first failure to write it, in the order of the dependencies. `canonical`
/// holds what making the path canonical gave for each dependency that is
/// found under a path, in the order of the dependencies.
pub open spec fn cargo_manifest(
    example: ContractProject,
    target: ContractTarget,
    target_dir: Seq<char>,
    canonical: Seq<Result<String, std::io::Error>>,
) -> Result<Seq<char>, Failure> {
    match dependency_lines(example.base_deps@, canonical, target_dir, example.base_deps@.len()) {
        Err(failure) => Err(failure),
        Ok(dependencies) => Ok(
            manifest_header(target.generated_package@) + dependencies + marker_lines(
                dependency_names(example.base_deps@),
                texts(example.deployable_deps@),
                target.generated_package@,
                example.deployable_deps@.len(),
            ) + manifest_footer(),
        ),
    }
}

/// Once a dependency's line has failed, the lines have failed for good.
proof fn lemma_lines_stop(
    deps: Seq<(String, TomlValue)>,
    canonical: Seq<Result<String, std::io::Error>>,
    target_dir: Seq<char>,
    failed: nat,
    n: nat,
)
    requires
        failed <= n <= deps.len(),
        dependency_lines(deps, canonical, target_dir, failed) is Err,
    ensures
        dependency_lines(deps, canonical, target_dir, n) == dependency_lines(
            deps,
            canonical,
            target_dir,
            failed,
        ),
    decreases n,
{
    if n > failed {
        lemma_lines_stop(deps, canonical, target_dir, failed, (n - 1) as nat);
    }
}

/// Writes the lines of the dependencies of the manifest.
fn dependency_lines_of(
    deps: &Vec<(String, TomlValue)>,
    canonical: Vec<Result<String, std::io::Error>>,
    target_dir: &str,
) -> (text: Result<String, CompileError>)
    requires
        canonical@.len() == path_count(deps@),
    ensures
        match dependency_lines(deps@, canonical@, target_dir@, deps@.len()) {
            Ok(lines) => text matches Ok(t) && t@ == lines,
            Err(failure) => text matches Err(error) && failure_of(error) == failure,
        },
{
    let mut text = String::new();
    let count = canonical.len();
    let mut next: usize = 0;
    let mut i: usize = 0;
    proof {
        lemma_path_count_split(deps@, 0);
    }
    while i < deps.len()
        invariant
            count == canonical@.len(),
            canonical@.len() == path_count(deps@),
            i <= deps.len(),
            next == path_count(deps@.take(i as int)),
            next <= canonical@.len(),
            path_count(deps@.take(i as int)) + path_count(deps@.skip(i as int)) == path_count(
                deps@,
            ),
            dependency_lines(deps@, canonical@, target_dir@, i as nat) == Ok::<Seq<char>, Failure>(
                text@,
            ),
        decreases deps.len() - i,
    {
        proof {
            assert(deps@.take(i + 1).drop_last() == deps@.take(i as int));
            lemma_path_count_split(deps@, i as int);
            lemma_path_count_split(deps@, i + 1);
            assert(deps@.skip(i as int).len() > 0);
        }
        let has_path = path_of(&deps[i].1).is_some();
        proof {
            if has_path {
                lemma_path_count_first(deps@.skip(i as int));
                assert(next < canonical@.len());
            }
        }
        if has_path && canonical[next].is_err() {
            proof {
                lemma_lines_stop(deps@, canonical@, target_dir@, (i + 1) as nat, deps@.len());
            }
            let mut canonical = canonical;
            return match canonical.remove(next) {
                Err(error) => Err(CompileError::IoError(error)),
                Ok(_) => vstd::pervasive::unreached(),
            };
        }
        let resolved = if has_path {
            match &canonical[next] {
                Ok(path) => path.as_str(),
                Err(_) => "",
            }
        } else {
            ""
        };
        proof {
            reveal_strlit("");
            assert(""@ =~= Seq::<char>::empty());
            if !has_path {
                match canonical@[next as int] {
                    Ok(path) => {
                        lemma_line_without_path(
                            deps@[i as int].0@,
                            deps@[i as int].1,
                            resolved@,
                            path@,
                            target_dir@,
                        );
                    },
                    Err(_) => {},
                }
            }
        }
        let line = match dependency_line_of(deps[i].0.as_str(), &deps[i].1, resolved, target_dir) {
            Ok(line) => line,
            Err(error) => {
                proof {
                    lemma_lines_stop(deps@, canonical@, target_dir@, (i + 1) as nat, deps@.len());
                }
                return Err(error);
            },
        };
        text.append(line.as_str());
        if has_path {
            next += 1;
        }
        i += 1;
    }
    Ok(text)
}

/// The dependencies before a place and those from it on count together.
proof fn lemma_path_count_split(deps: Seq<(String, TomlValue)>, i: int)
    requires
        0 <= i <= deps.len(),
    ensures
        path_count(deps.take(i)) + path_count(deps.skip(i)) == path_count(deps),
    decreases deps.len() - i,
{
    if i == deps.len() {
        assert(deps.take(i) == deps);
        assert(deps.skip(i).len() == 0);
    } else {
        lemma_path_count_split(deps, i + 1);
        assert(deps.take(i + 1).drop_last() == deps.take(i));
        lemma_path_count_front(deps.skip(i));
        assert(deps.skip(i).skip(1) == deps.skip(i + 1));
    }
}

/// The first dependency counts one where it has a path, the others as before.
proof fn lemma_path_count_front(deps: Seq<(String, TomlValue)>)
    requires
        deps.len() > 0,
    ensures
        path_count(deps) == path_count(deps.skip(1)) + if dependency_path(deps[0].1) is Some {
            1nat
        } else {
            0nat
        },
    decreases deps.len(),
{
    if deps.len() == 1 {
        assert(deps.drop_last().len() == 0);
        assert(deps.skip(1).len() == 0);
        assert(deps.last() == deps[0]);
        assert(path_count(deps.drop_last()) == 0);
        assert(path_count(deps.skip(1)) == 0);
    } else {
        lemma_path_count_front(deps.drop_last());
        assert(deps.drop_last().skip(1) == deps.skip(1).drop_last());
        assert(deps.skip(1).last() == deps.last());
        assert(deps.drop_last()[0] == deps[0]);
    }
}

/// Where the first dependency has a path, one at least counts.
proof fn lemma_path_count_first(deps: Seq<(String, TomlValue)>)
    requires
        deps.len() > 0,
        dependency_path(deps[0].1) is Some,
    ensures
        path_count(deps) > 0,
{
    lemma_path_count_front(deps);
}

/// The line of a dependency without a path is the same whatever stands for
/// its canonical path.
proof fn lemma_line_without_path(
    name: Seq<char>,
    details: TomlValue,
    given: Seq<char>,
    other: Seq<char>,
    target_dir: Seq<char>,
)
    requires
        dependency_path(details) is Some ==> given == other,
    ensures
        resolved_line(name, details, given, target_dir) == resolved_line(
            name,
            details,
            other,
            target_dir,
        ),
{
}

/// Tells whether one of `deps` has the name `name`.
fn has_dependency(deps: &Vec<(String, TomlValue)>, name: &str) -> (found: bool)
    ensures
        found == dependency_names(deps@).contains(name@),
{
    let mut i: usize = 0;
    while i < deps.len()
        invariant
            i <= deps.len(),
            forall|j: int| 0 <= j < i ==> dependency_names(deps@)[j] != name@,
        decreases deps.len() - i,
    {
        if same_text(deps[i].0.as_str(), name) {
            assert(dependency_names(deps@)[i as int] == name@);
            return true;
        }
        i += 1;
    }
    false
}

/// Tells whether one of the first `k` of `names` is `name`.
fn named_before(names: &Vec<String>, k: usize, name: &str) -> (found: bool)
    requires
        k <= names@.len(),
    ensures
        found == texts(names@).take(k as int).contains(name@),
{
    let mut i: usize = 0;
    while i < k
        invariant
            k <= names@.len(),
            i <= k,
            forall|j: int| 0 <= j < i ==> texts(names@).take(k as int)[j] != name@,
        decreases k - i,
    {
        if same_text(names[i].as_str(), name) {
            assert(texts(names@).take(k as int)[i as int] == name@);
            return true;
        }
        i += 1;
    }
    false
}

/// Writes the line of a contract to deploy that is a unit of the same project.
fn marker_line_of(other: &str) -> (line: String)
    requires
        position_from(other@, '-', 0) < other@.len(),
    ensures
        line@ == marker_line(other@),
{
    let len = other.unicode_len();
    let dash = find_from(other, '-', 0);
    let mut line = String::from_str(other);
    line.append(" = { path = \"../");
    line.append(other.substring_char(dash + 1, len));
    proof {
        assert(other@.subrange(dash + 1, len as int) == other@.skip(dash + 1));
    }
    line.append("\", features = [\"interface-only\"] }\n");
    line
}

/// Writes the lines of the contracts to deploy that are no dependencies of
/// the manifest.
fn marker_lines_of(example: &ContractProject, package: &str) -> (text: String)
    ensures
        text@ == marker_lines(
            dependency_names(example.base_deps@),
            texts(example.deployable_deps@),
            package@,
            example.deployable_deps@.len(),
        ),
{
    let mut text = String::new();
    let mut k: usize = 0;
    while k < example.deployable_deps.len()
        invariant
            k <= example.deployable_deps.len(),
            text@ == marker_lines(
                dependency_names(example.base_deps@),
                texts(example.deployable_deps@),
                package@,
                k as nat,
            ),
        decreases example.deployable_deps.len() - k,
    {
        let other = example.deployable_deps[k].as_str();
        assert(texts(example.deployable_deps@)[k as int] == other@);
        if !has_dependency(&example.base_deps, other) && !named_before(
            &example.deployable_deps,
            k,
            other,
        ) && !same_text(other, package) && find_from(other, '-', 0) < other.unicode_len() {
            let line = marker_line_of(other);
            text.append(line.as_str());
        }
        k += 1;
    }
    text
}

/// Writes the manifest of the unit generated for `target` in `target_dir`.
///
/// The manifest names the unit after the target's package and has the
/// dependencies of the project: a path is rewritten to lead from `target_dir`
/// to the canonical path of the dependency, everything else is copied.
/// `canonical` holds what making those paths canonical gave, one outcome for
/// each dependency that is found under a path, in the order of the
/// dependencies. The first dependency that fails, in their order, ends the
/// writing: with the failure to make its path canonical, or with the failure
/// to rewrite it.
pub fn generate_cargo_toml(
    example: &ContractProject,
    target: &ContractTarget,
    target_dir: &str,
    canonical: Vec<Result<String, std::io::Error>>,
) -> (outcome: Result<GeneratedFile, CompileError>)
    requires
        canonical@.len() == path_count(example.base_deps@),
    ensures
        match cargo_manifest(*example, *target, target_dir@, canonical@) {
            Ok(text) => outcome matches Ok(file) && file.path@ == path_join(
                target_dir@,
                "Cargo.toml"@,
            ) && file.content@ == text,
            Err(failure) => outcome matches Err(error) && failure_of(error) == failure,
        },
{
    let mut cargo_toml = String::from_str("[package]\nname = \"");
    cargo_toml.append(target.generated_package.as_str());
    cargo_toml.append(
        "\"\nversion = \"0.1.0\"\nedition = \"2021\"\n\n[workspace]\n\n[features]\ndefault = []\ndeploy = []\ndeployable = []\ninterface-only = []\n\n[dependencies]\n",
    );
    let dependencies = match dependency_lines_of(&example.base_deps, canonical, target_dir) {
        Ok(lines) => lines,
        Err(error) => {
            return Err(error);
        },
    };
    cargo_toml.append(dependencies.as_str());
    let markers = marker_lines_of(example, target.generated_package.as_str());
    cargo_toml.append(markers.as_str());
    cargo_toml.append(
        "\n[[bin]]\nname = \"runtime\"\npath = \"src/lib.rs\"\n\n[[bin]]\nname = \"deploy\"\npath = \"src/lib.rs\"\nrequired-features = [\"deploy\"]\n\n[profile.release]\nlto = true\nopt-level = \"z\"\n",
    );
    Ok(GeneratedFile { path: join_path(target_dir, "Cargo.toml"), content: cargo_toml })
}

/// The compiler configuration of a unit, with `linker_script` as the path
/// of the linker script.
pub open spec fn cargo_config(linker_script: Seq<char>) -> Seq<char> {
    "[target.riscv64imac-unknown-none-elf]\nrustflags = [\n  \"-C\", \"link-arg=-T"@
        + linker_script
        + "\",\n  \"-C\", \"llvm-args=--inline-threshold=275\"\n]\n\n[build]\ntarget = \"riscv64imac-unknown-none-elf\"\n"@
}

/// The path of the linker script under the root `project_root`.
pub open spec fn linker_script(project_root: Seq<char>) -> Seq<char> {
    path_join(project_root, "r5-rust-rt.x"@)
}

/// Writes the compiler configuration of the unit in `target_dir`: it points
/// at the linker script under `project_root`, by the path that leads there
/// from the unit.
pub fn create_cargo_config(target_dir: &str, project_root: &str) -> (outcome: Result<
    GeneratedFile,
    CompileError,
>)
    ensures
        match relative_path(linker_script(project_root@), target_dir@) {
            Some(relative) => outcome matches Ok(file) && file.path@ == path_join(
                path_join(target_dir@, ".cargo"@),
                "config.toml"@,
            ) && file.content@ == cargo_config(relative),
            None => outcome matches Err(CompileError::PathError(message)) && message@
                == "Failed to calculate relative path from "@ + debug_quoted(target_dir@) + " to "@
                + debug_quoted(linker_script(project_root@)),
        },
{
    let cargo_dir = join_path(target_dir, ".cargo");
    let rust_rt_path = join_path(project_root, "r5-rust-rt.x");
    let relative = match diff_paths(rust_rt_path.as_str(), target_dir) {
        Some(relative) => relative,
        None => {
            let mut message = String::from_str("Failed to calculate relative path from ");
            message.append(quote(target_dir).as_str());
            message.append(" to ");
            message.append(quote(rust_rt_path.as_str()).as_str());
            return Err(CompileError::PathError(message));
        },
    };
    let mut content = String::from_str(
        "[target.riscv64imac-unknown-none-elf]\nrustflags = [\n  \"-C\", \"link-arg=-T",
    );
    content.append(relative.as_str());
    content.append(
        "\",\n  \"-C\", \"llvm-args=--inline-threshold=275\"\n]\n\n[build]\ntarget = \"riscv64imac-unknown-none-elf\"\n",
    );
    Ok(GeneratedFile { path: join_path(cargo_dir.as_str(), "config.toml"), content })
}

/// The contracts that the unit for the package `package` deploys: the
/// contracts to deploy of its project, but for the unit itself.
pub open spec fn dependency_list(deployable: Seq<Seq<char>>, package: Seq<char>) -> Seq<Seq<char>>
    decreases deployable.len(),
{
    if deployable.len() == 0 {
        Seq::empty()
    } else if deployable.last() == package {
        dependency_list(deployable.drop_last(), package)
    } else {
        dependency_list(deployable.drop_last(), package).push(deployable.last())
    }
}

/// Lists the contracts that the unit for `target` deploys.
pub fn build_dependency_list(project: &ContractProject, target: &ContractTarget) -> (dependencies:
    Vec<String>)
    ensures
        texts(dependencies@) == dependency_list(
            texts(project.deployable_deps@),
            target.generated_package@,
        ),
{
    let mut dependencies: Vec<String> = Vec::new();
    let ghost names = texts(project.deployable_deps@);
    let mut i: usize = 0;
    assert(texts(dependencies@) =~= dependency_list(names.take(0), target.generated_package@));
    while i < project.deployable_deps.len()
        invariant
            names == texts(project.deployable_deps@),
            i <= project.deployable_deps.len(),
            texts(dependencies@) == dependency_list(
                names.take(i as int),
                target.generated_package@,
            ),
        decreases project.deployable_deps.len() - i,
    {
        let dep_name = &project.deployable_deps[i];
        proof {
            assert(names.take(i + 1).drop_last() == names.take(i as int));
            assert(names.take(i + 1).last() == dep_name@);
        }
        if !same_text(dep_name.as_str(), target.generated_package.as_str()) {
            let copy = dep_name.clone();
            proof {
                assert(texts(dependencies@.push(copy)) =~= texts(dependencies@).push(copy@));
            }
            dependencies.push(copy);
        }
        i += 1;
    }
    proof {
        assert(names.take(names.len() as int) == names);
    }
    dependencies
}

/// A file to copy.
#[derive(Debug)]
pub struct FileCopy {
    /// Path of the file to read.
    pub from: String,
    /// Path of the file to write.
    pub to: String,
}

/// A file to copy, as plain text.
pub struct CopyView {
    pub from: Seq<char>,
    pub to: Seq<char>,
}

/// The copies `copies` as plain text.
pub open spec fn copy_views(copies: Seq<FileCopy>) -> Seq<CopyView> {
    copies.map_values(|c: FileCopy| CopyView { from: c.from@, to: c.to@ })
}

/// Whether the file `file` stands in the directory `dir` and is not the
/// module file of that directory.
pub open spec fn is_module_part(file: Seq<char>, dir: Seq<char>) -> bool {
    path_parent(file) == Some(dir) && path_file_name(file) is Some && path_file_name(file)
        != Some("mod.rs"@)
}

/// The copies of the files among the first `n` of `existing` that stand in
/// the directory `from_dir` beside its module file: each goes to `to_dir`
/// under its own name.
pub open spec fn part_copies(
    existing: Seq<Seq<char>>,
    from_dir: Seq<char>,
    to_dir: Seq<char>,
    n: nat,
) -> Seq<CopyView>
    decreases n,
{
    if n == 0 || n > existing.len() {
        Seq::empty()
    } else if is_module_part(existing[n - 1], from_dir) {
        part_copies(existing, from_dir, to_dir, (n - 1) as nat).push(
            CopyView {
                from: existing[n - 1],
                to: path_join(to_dir, path_file_name(existing[n - 1])->0),
            },
        )
    } else {
        part_copies(existing, from_dir, to_dir, (n - 1) as nat)
    }
}

/// The copies that bring the shared module `module` from the source
/// directory `from_src` to the source directory `to_src`: its file, or, where
/// the module has a directory of its own, every file of that directory; none
/// where the module has neither.
pub open spec fn module_copies(
    existing: Seq<Seq<char>>,
    from_src: Seq<char>,
    to_src: Seq<char>,
    module: Seq<char>,
) -> Seq<CopyView> {
    if existing.contains(module_file(from_src, module)) {
        seq![CopyView { from: module_file(from_src, module), to: module_file(to_src, module) }]
    } else if existing.contains(module_dir_path(from_src, module)) {
        seq![
            CopyView {
                from: module_dir_path(from_src, module),
                to: module_dir_path(to_src, module),
            },
        ] + part_copies(
            existing,
            path_join(from_src, module),
            path_join(to_src, module),
            existing.len(),
        )
    } else {
        Seq::empty()
    }
}

/// The copies that bring the first `n` of the shared modules `modules` over.
pub open spec fn shared_copies(
    existing: Seq<Seq<char>>,
    from_src: Seq<char>,
    to_src: Seq<char>,
    modules: Seq<Seq<char>>,
    n: nat,
) -> Seq<CopyView>
    decreases n,
{
    if n == 0 || n > modules.len() {
        Seq::empty()
    } else {
        shared_copies(existing, from_src, to_src, modules, (n - 1) as nat) + module_copies(
            existing,
            from_src,
            to_src,
            modules[n - 1],
        )
    }
}

/// The copies that fill the source directory of the unit in `target_dir`:
/// the file of the contract becomes the root file, and every shared module
/// of the project is brought over.
pub open spec fn source_copies(
    project: ContractProject,
    target: ContractTarget,
    target_dir: Seq<char>,
    existing: Seq<Seq<char>>,
) -> Seq<CopyView> {
    let to_src = path_join(target_dir, "src"@);
    seq![CopyView { from: target.source_file@, to: path_join(to_src, "lib.rs"@) }] + shared_copies(
        existing,
        path_join(project.path@, "src"@),
        to_src,
        texts(project.shared_modules@),
        project.shared_modules@.len(),
    )
}

/// Tells whether one of `names` is `name`.
fn is_listed(names: &Vec<String>, name: &str) -> (found: bool)
    ensures
        found == texts(names@).contains(name@),
{
    proof {
        assert(texts(names@).take(names@.len() as int) == texts(names@));
    }
    named_before(names, names.len(), name)
}

/// Adds the copies of the files that stand in the directory `from_dir`
/// beside its module file.
fn push_part_copies(copies: &mut Vec<FileCopy>, existing: &Vec<String>, from_dir: &str, to_dir: &str)
    ensures
        copy_views(final(copies)@) == copy_views(old(copies)@) + part_copies(
            texts(existing@),
            from_dir@,
            to_dir@,
            existing@.len(),
        ),
{
    let ghost before = copy_views(copies@);
    let ghost files = texts(existing@);
    let mut i: usize = 0;
    assert(before + part_copies(files, from_dir@, to_dir@, 0) =~= before);
    while i < existing.len()
        invariant
            files == texts(existing@),
            i <= existing.len(),
            copy_views(copies@) == before + part_copies(files, from_dir@, to_dir@, i as nat),
        decreases existing.len() - i,
    {
        let file = existing[i].as_str();
        assert(files[i as int] == file@);
        let in_dir = match parent_path(file) {
            Some(parent) => same_text(parent.as_str(), from_dir),
            None => false,
        };
        if in_dir {
            match file_name(file) {
                Some(name) => {
                    if !same_text(name.as_str(), "mod.rs") {
                        let copy = FileCopy {
                            from: String::from_str(file),
                            to: join_path(to_dir, name.as_str()),
                        };
                        proof {
                            assert(copy_views(copies@.push(copy)) =~= copy_views(copies@).push(
                                CopyView { from: copy.from@, to: copy.to@ },
                            ));
                            assert(before + part_copies(files, from_dir@, to_dir@, (i + 1) as nat)
                                =~= (before + part_copies(files, from_dir@, to_dir@, i as nat)).push(
                                CopyView { from: copy.from@, to: copy.to@ },
                            ));
                        }
                        copies.push(copy);
                    }
                },
                None => {},
            }
        }
        i += 1;
    }
}

/// Adds the copies that bring the shared module `module` over.
fn push_module_copies(
    copies: &mut Vec<FileCopy>,
    existing: &Vec<String>,
    from_src: &str,
    to_src: &str,
    module: &str,
)
    ensures
        copy_views(final(copies)@) == copy_views(old(copies)@) + module_copies(
            texts(existing@),
            from_src@,
            to_src@,
            module@,
        ),
{
    let ghost before = copy_views(copies@);
    let mut file_name = String::from_str(module);
    file_name.append(".rs");
    let module_file_path = join_path(from_src, file_name.as_str());
    if is_listed(existing, module_file_path.as_str()) {
        let copy = FileCopy { from: module_file_path, to: join_path(to_src, file_name.as_str()) };
        proof {
            assert(copy_views(copies@.push(copy)) =~= before + seq![
                CopyView { from: copy.from@, to: copy.to@ },
            ]);
        }
        copies.push(copy);
    } else {
        let mod_dir_path = join_path(from_src, module);
        let mod_file_path = join_path(mod_dir_path.as_str(), "mod.rs");
        if is_listed(existing, mod_file_path.as_str()) {
            let target_mod_dir = join_path(to_src, module);
            let copy = FileCopy {
                from: mod_file_path,
                to: join_path(target_mod_dir.as_str(), "mod.rs"),
            };
            let ghost first = CopyView { from: copy.from@, to: copy.to@ };
            proof {
                assert(copy_views(copies@.push(copy)) =~= before + seq![first]);
            }
            copies.push(copy);
            push_part_copies(copies, existing, mod_dir_path.as_str(), target_mod_dir.as_str());
            proof {
                let parts = part_copies(
                    texts(existing@),
                    mod_dir_path@,
                    target_mod_dir@,
                    existing@.len(),
                );
                assert(before + seq![first] + parts =~= before + (seq![first] + parts));
            }
        } else {
            proof {
                assert(before + Seq::<CopyView>::empty() =~= before);
            }
        }
    }
}

/// Plans the copies that fill the source directory of the unit in
/// `target_dir`. `existing` lists the files that the project's source
/// directory holds, each under the path that joining the project's directory,
/// `src` and the file's place below it gives.
pub fn copy_source_and_shared_modules(
    project: &ContractProject,
    target: &ContractTarget,
    target_dir: &str,
    existing: &Vec<String>,
) -> (copies: Vec<FileCopy>)
    ensures
        copy_views(copies@) == source_copies(*project, *target, target_dir@, texts(existing@)),
{
    let src_dir = join_path(target_dir, "src");
    let from_src = join_path(project.path.as_str(), "src");
    let mut copies: Vec<FileCopy> = Vec::new();
    let root = FileCopy {
        from: target.source_file.clone(),
        to: join_path(src_dir.as_str(), "lib.rs"),
    };
    let ghost first = seq![CopyView { from: root.from@, to: root.to@ }];
    copies.push(root);
    let ghost modules = texts(project.shared_modules@);
    assert(copy_views(copies@) =~= first + shared_copies(
        texts(existing@),
        from_src@,
        src_dir@,
        modules,
        0,
    ));
    let mut i: usize = 0;
    while i < project.shared_modules.len()
        invariant
            modules == texts(project.shared_modules@),
            i <= project.shared_modules.len(),
            copy_views(copies@) == first + shared_copies(
                texts(existing@),
                from_src@,
                src_dir@,
                modules,
                i as nat,
            ),
        decreases project.shared_modules.len() - i,
    {
        let module = project.shared_modules[i].as_str();
        assert(modules[i as int] == module@);
        let ghost so_far = shared_copies(texts(existing@), from_src@, src_dir@, modules, i as nat);
        push_module_copies(&mut copies, existing, from_src.as_str(), src_dir.as_str(), module);
        proof {
            let added = module_copies(texts(existing@), from_src@, src_dir@, module@);
            assert(first + so_far + added =~= first + (so_far + added));
        }
        i += 1;
    }
    copies
}

/// A generated unit, as plain text.
pub struct GeneratedView {
    pub path: Seq<char>,
    pub name: Seq<char>,
    pub deps: Seq<Seq<char>>,
    pub original_source_path: Seq<char>,
}

/// The unit `contract` as plain text.
pub open spec fn generated_view(contract: GeneratedContract) -> GeneratedView {
    GeneratedView {
        path: contract.path@,
        name: contract.name@,
        deps: texts(contract.deps@),
        original_source_path: contract.original_source_path@,
    }
}

/// The units `contracts` as plain text.
pub open spec fn generated_views(contracts: Seq<GeneratedContract>) -> Seq<GeneratedView> {
    contracts.map_values(|c: GeneratedContract| generated_view(c))
}

/// The directory of the project that the source file `source_file` belongs
/// to: two levels above the file.
pub open spec fn source_root(source_file: Seq<char>) -> Option<Seq<char>> {
    match path_parent(source_file) {
        Some(dir) => path_parent(dir),
        None => None,
    }
}

/// The directory of the unit generated for `target` below `temp_dir`.
pub open spec fn unit_dir(project: ContractProject, target: ContractTarget, temp_dir: Seq<char>) -> Seq<
    char,
> {
    path_join(path_join(temp_dir, project.name@), target.module@)
}

/// The unit generated for `target` below `temp_dir`.
pub open spec fn unit_of(project: ContractProject, target: ContractTarget, temp_dir: Seq<char>) -> GeneratedView {
    GeneratedView {
        path: unit_dir(project, target, temp_dir),
        name: target.generated_package@,
        deps: dependency_list(texts(project.deployable_deps@), target.generated_package@),
        original_source_path: source_root(target.source_file@)->0,
    }
}

/// The units generated for the first `n` contracts of `project`.
pub open spec fn project_units(project: ContractProject, temp_dir: Seq<char>, n: nat) -> Seq<
    GeneratedView,
>
    decreases n,
{
    if n == 0 || n > project.targets@.len() {
        Seq::empty()
    } else {
        project_units(project, temp_dir, (n - 1) as nat).push(
            unit_of(project, project.targets@[n - 1], temp_dir),
        )
    }
}

/// The units generated for the contracts of the first `n` of `projects`, in
/// the order of the projects and, within a project, of its contracts.
pub open spec fn units(projects: Seq<ContractProject>, temp_dir: Seq<char>, n: nat) -> Seq<
    GeneratedView,
>
    decreases n,
{
    if n == 0 || n > projects.len() {
        Seq::empty()
    } else {
        units(projects, temp_dir, (n - 1) as nat) + project_units(
            projects[n - 1],
            temp_dir,
            projects[n - 1].targets@.len(),
        )
    }
}

/// Whether the source file of every contract of `projects` has a project
/// directory two levels above it.
pub open spec fn all_rooted(projects: Seq<ContractProject>) -> bool {
    forall|p: int, t: int|
        0 <= p < projects.len() && 0 <= t < projects[p].targets@.len() ==> source_root(
            (#[trigger] projects[p].targets@[t]).source_file@,
        ) is Some
}

/// Gives the directory two levels above the source file `source_file`.
fn source_root_of(source_file: &str) -> (root: Option<String>)
    ensures
        match source_root(source_file@) {
            Some(text) => root matches Some(r) && r@ == text,
            None => root is None,
        },
{
    match parent_path(source_file) {
        Some(dir) => parent_path(dir.as_str()),
        None => None,
    }
}

/// Describes the unit generated for `target` below `temp_dir`.
pub fn generated_contract(project: &ContractProject, target: &ContractTarget, temp_dir: &str) -> (contract:
    GeneratedContract)
    requires
        source_root(target.source_file@) is Some,
    ensures
        generated_view(contract) == unit_of(*project, *target, temp_dir@),
{
    let project_dir = join_path(temp_dir, project.name.as_str());
    let target_temp_dir = join_path(project_dir.as_str(), target.module.as_str());
    let dependencies = build_dependency_list(project, target);
    let original_source_path = match source_root_of(target.source_file.as_str()) {
        Some(root) => root,
        None => String::new(),
    };
    GeneratedContract {
        path: target_temp_dir,
        name: target.generated_package.clone(),
        deps: dependencies,
        original_source_path,
    }
}

/// Describes the units generated below `temp_dir` for all the contracts of `projects`.
pub fn generate_temporary_crates(projects: &Vec<ContractProject>, temp_dir: &str) -> (generated_contracts:
    Vec<GeneratedContract>)
    requires
        all_rooted(projects@),
    ensures
        generated_views(generated_contracts@) == units(projects@, temp_dir@, projects@.len()),
{
    let mut generated_contracts: Vec<GeneratedContract> = Vec::new();
    let mut p: usize = 0;
    assert(generated_views(generated_contracts@) =~= units(projects@, temp_dir@, 0));
    while p < projects.len()
        invariant
            all_rooted(projects@),
            p <= projects.len(),
            generated_views(generated_contracts@) == units(projects@, temp_dir@, p as nat),
        decreases projects.len() - p,
    {
        let project = &projects[p];
        let ghost before = generated_views(generated_contracts@);
        let mut t: usize = 0;
        assert(before + project_units(*project, temp_dir@, 0) =~= before);
        while t < project.targets.len()
            invariant
                all_rooted(projects@),
                p < projects.len(),
                *project == projects@[p as int],
                t <= project.targets.len(),
                generated_views(generated_contracts@) == before + project_units(
                    *project,
                    temp_dir@,
                    t as nat,
                ),
            decreases project.targets.len() - t,
        {
            let target = &project.targets[t];
            assert(*target == projects@[p as int].targets@[t as int]);
            let contract = generated_contract(project, target, temp_dir);
            proof {
                assert(generated_views(generated_contracts@.push(contract)) =~= generated_views(
                    generated_contracts@,
                ).push(generated_view(contract)));
                assert(before + project_units(*project, temp_dir@, (t + 1) as nat) =~= (before
                    + project_units(*project, temp_dir@, t as nat)).push(generated_view(contract)));
            }
            generated_contracts.push(contract);
            t += 1;
        }
        p += 1;
    }
    generated_contracts
}

/// Describes the units generated below `temp_dir` for all the contracts of
/// `projects`, where the source file of each contract has a project
/// directory two levels above it; says `None` where one has not.
pub fn try_generate_temporary_crates(projects: &Vec<ContractProject>, temp_dir: &str) -> (outcome:
    Option<Vec<GeneratedContract>>)
    ensures
        match outcome {
            Some(generated_contracts) => all_rooted(projects@) && generated_views(
                generated_contracts@,
            ) == units(projects@, temp_dir@, projects@.len()),
            None => !all_rooted(projects@),
        },
{
    let mut p: usize = 0;
    while p < projects.len()
        invariant
            p <= projects.len(),
            forall|i: int, t: int|
                0 <= i < p && 0 <= t < projects@[i].targets@.len() ==> source_root(
                    (#[trigger] projects@[i].targets@[t]).source_file@,
                ) is Some,
        decreases projects.len() - p,
    {
        let project = &projects[p];
        let mut t: usize = 0;
        while t < project.targets.len()
            invariant
                p < projects.len(),
                *project == projects@[p as int],
                t <= project.targets.len(),
                forall|j: int|
                    0 <= j < t ==> source_root((#[trigger] project.targets@[j]).source_file@)
                        is Some,
            decreases project.targets.len() - t,
        {
            if source_root_of(project.targets[t].source_file.as_str()).is_none() {
                assert(source_root(projects@[p as int].targets@[t as int].source_file@) is None);
                return None;
            }
            t += 1;
        }
        p += 1;
    }
    Some(generate_temporary_crates(projects, temp_dir))
}

} // verus!
