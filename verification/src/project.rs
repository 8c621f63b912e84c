//! Contract projects: what a project directory holds, and how it is read
//! into the contracts to build.

use crate::compile::{CompileError, ContractTarget};
use crate::manifest::{
    dependencies, dependency_names, deployable_names, package_name, read_manifest, toml_document,
    TomlValue,
};
use crate::source::{
    contract_idents, declared_modules, find_contracts, find_modules, parse_source, source_items,
};
use crate::text::{
    debug_quoted, distinct, file_name, join_path, lemma_distinct_push, parent_path,
    path_file_name, path_join, path_parent, quote, same_text, texts,
};
use vstd::prelude::*;
use vstd::string::StringExecFns;

verus! {

/// A file of a project as it was found: its path, and its text or the reason
/// why the text could not be read.
#[derive(Debug)]
pub struct SourceFile {
    /// Path of the file.
    pub path: String,
    /// Text of the file.
    pub content: Result<String, std::io::Error>,
}

/// What a project directory holds: the manifest and the files of the source
/// directory, each under the path that joining the directory, `src` and the
/// file's name gives.
#[derive(Debug)]
pub struct ProjectFiles {
    /// Path of the manifest.
    pub cargo_toml_path: String,
    /// Text of the manifest.
    pub manifest: Result<String, std::io::Error>,
    /// The source files that exist.
    pub sources: Vec<SourceFile>,
}

/// A project with the contracts that it defines.
#[derive(Debug)]
pub struct ContractProject {
    /// Directory of the project.
    pub path: String,
    /// Name of that directory.
    pub name: String,
    /// The contracts of the project.
    pub targets: Vec<ContractTarget>,
    /// The modules that define no contract, and that every contract may use.
    pub shared_modules: Vec<String>,
    /// The dependencies of the manifest, each with its details.
    pub base_deps: Vec<(String, TomlValue)>,
    /// Names of the dependencies that are contracts to deploy.
    pub deployable_deps: Vec<String>,
}

impl ContractProject {
    /// Whether the project names nothing twice: no shared module, no
    /// dependency, and no contract to deploy.
    pub open spec fn wf(self) -> bool {
        &&& distinct(texts(self.shared_modules@))
        &&& distinct(dependency_names(self.base_deps@))
        &&& distinct(texts(self.deployable_deps@))
    }
}

/// A contract within a project, as plain text.
pub struct TargetView {
    pub ident: Seq<char>,
    pub module: Seq<char>,
    pub source_file: Seq<char>,
    pub generated_package: Seq<char>,
}

/// A project, as plain text and values.
pub struct ProjectView {
    pub path: Seq<char>,
    pub name: Seq<char>,
    pub targets: Seq<TargetView>,
    pub shared_modules: Seq<Seq<char>>,
    pub base_deps: Seq<(String, TomlValue)>,
    pub deployable_deps: Seq<Seq<char>>,
}

/// The kinds of failure of a build, with the message where there is one.
pub enum Failure {
    Io,
    Syn,
    Toml,
    Path(Seq<char>),
    NoContractFound(Seq<char>),
    CyclicDependency,
    MissingDeployableDependency(Seq<char>),
}

/// The kind of failure that `error` is.
pub open spec fn failure_of(error: CompileError) -> Failure {
    match error {
        CompileError::IoError(_) => Failure::Io,
        CompileError::SynError(_) => Failure::Syn,
        CompileError::TomlError(_) => Failure::Toml,
        CompileError::PathError(message) => Failure::Path(message@),
        CompileError::NoContractFound(place) => Failure::NoContractFound(place@),
        CompileError::CyclicDependency => Failure::CyclicDependency,
        CompileError::MissingDeployableDependency(name) => Failure::MissingDeployableDependency(
            name@,
        ),
    }
}

/// The contract `target` as plain text.
pub open spec fn target_view(target: ContractTarget) -> TargetView {
    TargetView {
        ident: target.ident@,
        module: target.module@,
        source_file: target.source_file@,
        generated_package: target.generated_package@,
    }
}

/// The contracts `targets` as plain text.
pub open spec fn target_views(targets: Seq<ContractTarget>) -> Seq<TargetView> {
    targets.map_values(|t: ContractTarget| target_view(t))
}

/// The project `project` as plain text and values.
pub open spec fn project_view(project: ContractProject) -> ProjectView {
    ProjectView {
        path: project.path@,
        name: project.name@,
        targets: target_views(project.targets@),
        shared_modules: texts(project.shared_modules@),
        base_deps: project.base_deps@,
        deployable_deps: texts(project.deployable_deps@),
    }
}

/// The place of the first of `sources` at or after `from` whose path is
/// `path`; the number of sources where there is none.
pub open spec fn source_position(sources: Seq<SourceFile>, path: Seq<char>, from: int) -> int
    decreases sources.len() - from,
{
    if from < 0 || from >= sources.len() {
        sources.len() as int
    } else if sources[from].path@ == path {
        from
    } else {
        source_position(sources, path, from + 1)
    }
}

/// Whether a file with the path `path` is among `sources`.
pub open spec fn exists_in(sources: Seq<SourceFile>, path: Seq<char>) -> bool {
    source_position(sources, path, 0) < sources.len()
}

/// The file with the path `path` among `sources`.
pub open spec fn source_at(sources: Seq<SourceFile>, path: Seq<char>) -> SourceFile {
    sources[source_position(sources, path, 0)]
}

/// The contracts that a file defines, each with the module, the path of the
/// file and the package name given.
pub open spec fn targets_of(
    idents: Seq<Seq<char>>,
    module: Seq<char>,
    source_file: Seq<char>,
    generated_package: Seq<char>,
) -> Seq<TargetView> {
    Seq::new(
        idents.len(),
        |i: int| TargetView { ident: idents[i], module, source_file, generated_package },
    )
}

/// The path of the file of the module `module` under `src_dir`.
pub open spec fn module_file(src_dir: Seq<char>, module: Seq<char>) -> Seq<char> {
    path_join(src_dir, module + ".rs"@)
}

/// The path of the file of the module `module` under `src_dir`, where the
/// module has a directory of its own.
pub open spec fn module_dir_path(src_dir: Seq<char>, module: Seq<char>) -> Seq<char> {
    path_join(path_join(src_dir, module), "mod.rs"@)
}

/// The path of the file that holds the module `module`: its own file under
/// `src_dir`, or, where there is none, the module file of its directory;
/// `None` where there is neither.
pub open spec fn module_source(src_dir: Seq<char>, sources: Seq<SourceFile>, module: Seq<char>) -> Option<
    Seq<char>,
> {
    if exists_in(sources, module_file(src_dir, module)) {
        Some(module_file(src_dir, module))
    } else if exists_in(sources, module_dir_path(src_dir, module)) {
        Some(module_dir_path(src_dir, module))
    } else {
        None
    }
}

/// What reading the first `count` of `modules` gives: the contracts found in
/// them and the modules without a contract, or the first failure.
///
/// A module with no file of either form is passed over. A file that cannot
/// be read fails as such, and so does one that is not valid Rust.
pub open spec fn scanned_modules(
    name: Seq<char>,
    src_dir: Seq<char>,
    sources: Seq<SourceFile>,
    modules: Seq<Seq<char>>,
    count: nat,
) -> Result<(Seq<TargetView>, Seq<Seq<char>>), Failure>
    decreases count,
{
    if count == 0 || count > modules.len() {
        Ok((Seq::empty(), Seq::empty()))
    } else {
        match scanned_modules(name, src_dir, sources, modules, (count - 1) as nat) {
            Err(failure) => Err(failure),
            Ok((targets, shared)) => {
                let module = modules[count - 1];
                match module_source(src_dir, sources, module) {
                    None => Ok((targets, shared)),
                    Some(path) => match source_at(sources, path).content {
                        Err(_) => Err(Failure::Io),
                        Ok(text) => match source_items(text@) {
                            None => Err(Failure::Syn),
                            Some(items) => {
                                let idents = contract_idents(items);
                                if idents.len() == 0 {
                                    Ok((targets, shared.push(module)))
                                } else {
                                    Ok(
                                        (
                                            targets + targets_of(
                                                idents,
                                                module,
                                                path,
                                                name + "-"@ + module,
                                            ),
                                            shared,
                                        ),
                                    )
                                }
                            },
                        },
                    },
                }
            },
        }
    }
}

/// What reading a project gives, once its directory `dir` and the name
/// `name` of that directory are known.
pub open spec fn read_project(
    dir: Seq<char>,
    name: Seq<char>,
    manifest: Result<String, std::io::Error>,
    sources: Seq<SourceFile>,
) -> Result<ProjectView, Failure> {
    match manifest {
        Err(_) => Err(Failure::Io),
        Ok(manifest_text) => match toml_document(manifest_text@) {
            None => Err(Failure::Toml),
            Some(doc) => match package_name(doc) {
                None => Err(Failure::Path("Missing package.name in Cargo.toml"@)),
                Some(package) => {
                    let src_dir = path_join(dir, "src"@);
                    let lib_path = path_join(src_dir, "lib.rs"@);
                    if !exists_in(sources, lib_path) {
                        Err(Failure::Path("Missing src/lib.rs in "@ + debug_quoted(dir)))
                    } else {
                        match source_at(sources, lib_path).content {
                            Err(_) => Err(Failure::Io),
                            Ok(lib_text) => match source_items(lib_text@) {
                                None => Err(Failure::Syn),
                                Some(lib_items) => {
                                    let modules = declared_modules(lib_items);
                                    match scanned_modules(
                                        name,
                                        src_dir,
                                        sources,
                                        modules,
                                        modules.len(),
                                    ) {
                                        Err(failure) => Err(failure),
                                        Ok((found, shared)) => {
                                            let targets = if found.len() == 0 {
                                                targets_of(
                                                    contract_idents(lib_items),
                                                    Seq::empty(),
                                                    lib_path,
                                                    package,
                                                )
                                            } else {
                                                found
                                            };
                                            if targets.len() == 0 {
                                                Err(Failure::NoContractFound(dir))
                                            } else {
                                                Ok(
                                                    ProjectView {
                                                        path: dir,
                                                        name,
                                                        targets,
                                                        shared_modules: shared,
                                                        base_deps: dependencies(doc),
                                                        deployable_deps: deployable_names(
                                                            dependencies(doc),
                                                        ),
                                                    },
                                                )
                                            }
                                        },
                                    }
                                },
                            },
                        }
                    }
                },
            },
        },
    }
}

/// What reading the project with the manifest at `cargo_toml_path` gives:
/// the project, or the first failure on the way.
pub open spec fn parsed_project(files: ProjectFiles) -> Result<ProjectView, Failure> {
    match path_parent(files.cargo_toml_path@) {
        None => Err(
            Failure::Path(
                "Failed to get parent directory of "@ + debug_quoted(files.cargo_toml_path@),
            ),
        ),
        Some(dir) => match path_file_name(dir) {
            None => Err(Failure::Path("Failed to get directory name from "@ + debug_quoted(dir))),
            Some(name) => read_project(dir, name, files.manifest, files.sources@),
        },
    }
}

/// Finds the first of `sources` whose path is `path`.
fn find_source(sources: &Vec<SourceFile>, path: &str) -> (at: usize)
    ensures
        at == source_position(sources@, path@, 0),
        at <= sources@.len(),
        at < sources@.len() ==> sources@[at as int].path@ == path@,
{
    let mut at: usize = 0;
    while at < sources.len()
        invariant
            at <= sources.len(),
            source_position(sources@, path@, 0) == source_position(sources@, path@, at as int),
        decreases sources.len() - at,
    {
        if same_text(sources[at].path.as_str(), path) {
            return at;
        }
        at += 1;
    }
    at
}

/// Why reading the modules stopped.
enum Stop {
    /// The file at this place among the sources could not be read.
    Unreadable(usize),
    /// Anything else.
    Failed(CompileError),
}

/// The kind of failure that `stop` is.
spec fn stop_failure(stop: Stop) -> Failure {
    match stop {
        Stop::Unreadable(_) => Failure::Io,
        Stop::Failed(error) => failure_of(error),
    }
}

/// Whether `stop` points at a file that could not be read, where it points at one.
spec fn stop_in(stop: Stop, sources: Seq<SourceFile>) -> bool {
    match stop {
        Stop::Unreadable(at) => at < sources.len() && sources[at as int].content is Err,
        _ => true,
    }
}

/// Turns `stop` into the error to report.
fn stop_error(stop: Stop, sources: Vec<SourceFile>) -> (error: CompileError)
    requires
        stop_in(stop, sources@),
    ensures
        failure_of(error) == stop_failure(stop),
{
    match stop {
        Stop::Unreadable(at) => {
            let mut sources = sources;
            let file = sources.remove(at);
            match file.content {
                Err(error) => CompileError::IoError(error),
                Ok(_) => vstd::pervasive::unreached(),
            }
        },
        Stop::Failed(error) => error,
    }
}

/// Adds a contract for each of `idents` to `targets`.
fn push_targets(
    targets: &mut Vec<ContractTarget>,
    idents: Vec<String>,
    module: &str,
    source_file: &str,
    generated_package: &str,
)
    ensures
        target_views(final(targets)@) == target_views(old(targets)@) + targets_of(
            texts(idents@),
            module@,
            source_file@,
            generated_package@,
        ),
{
    let ghost before = target_views(targets@);
    let ghost all = idents@;
    for ident in it: idents
        invariant
            it.seq() == all,
            target_views(targets@) == before + targets_of(
                texts(all),
                module@,
                source_file@,
                generated_package@,
            ).take(it.index() as int),
    {
        let ghost old_targets = targets@;
        let target = ContractTarget {
            ident,
            module: String::from_str(module),
            source_file: String::from_str(source_file),
            generated_package: String::from_str(generated_package),
        };
        targets.push(target);
        proof {
            let added = targets_of(texts(all), module@, source_file@, generated_package@);
            let i = it.index() as int;
            assert(target_views(targets@) =~= target_views(old_targets).push(target_view(target)));
            assert(added.take(i + 1) =~= added.take(i).push(added[i]));
            assert(added[i] == target_view(target));
            assert(before + added.take(i + 1) =~= (before + added.take(i)).push(added[i]));
        }
    }
    proof {
        let added = targets_of(texts(all), module@, source_file@, generated_package@);
        assert(added.take(all.len() as int) =~= added);
    }
}

/// Once reading the modules has failed, it has failed for good.
proof fn lemma_scan_stops(
    name: Seq<char>,
    src_dir: Seq<char>,
    sources: Seq<SourceFile>,
    modules: Seq<Seq<char>>,
    failed: nat,
    count: nat,
)
    requires
        failed <= count <= modules.len(),
        scanned_modules(name, src_dir, sources, modules, failed) is Err,
    ensures
        scanned_modules(name, src_dir, sources, modules, count) == scanned_modules(
            name,
            src_dir,
            sources,
            modules,
            failed,
        ),
    decreases count,
{
    if count > failed {
        lemma_scan_stops(name, src_dir, sources, modules, failed, (count - 1) as nat);
    }
}

/// Reads the modules of a project: finds the contracts in them, and the
/// modules without one.
fn scan_modules(name: &str, src_dir: &str, sources: &Vec<SourceFile>, modules: &Vec<String>) -> (found:
    Result<(Vec<ContractTarget>, Vec<String>), Stop>)
    requires
        distinct(texts(modules@)),
    ensures
        found matches Ok(pair) ==> distinct(texts(pair.1@)),
        match scanned_modules(name@, src_dir@, sources@, texts(modules@), modules@.len()) {
            Ok((targets, shared)) => found matches Ok(pair) && target_views(pair.0@) == targets
                && texts(pair.1@) == shared,
            Err(failure) => found matches Err(stop) && stop_failure(stop) == failure && stop_in(
                stop,
                sources@,
            ),
        },
{
    let mut targets: Vec<ContractTarget> = Vec::new();
    let mut shared: Vec<String> = Vec::new();
    let mut i: usize = 0;
    assert(target_views(targets@) =~= Seq::<TargetView>::empty());
    assert(texts(shared@) =~= Seq::<Seq<char>>::empty());
    while i < modules.len()
        invariant
            distinct(texts(modules@)),
            distinct(texts(shared@)),
            forall|n: Seq<char>|
                texts(shared@).contains(n) ==> texts(modules@).take(i as int).contains(n),
            i <= modules.len(),
            scanned_modules(name@, src_dir@, sources@, texts(modules@), i as nat) == Ok::<
                (Seq<TargetView>, Seq<Seq<char>>),
                Failure,
            >((target_views(targets@), texts(shared@))),
        decreases modules.len() - i,
    {
        let module = &modules[i];
        assert(texts(modules@)[i as int] == module@);
        proof {
            let names = texts(modules@);
            assert forall|n: Seq<char>| names.take(i as int).contains(n) implies names.take(
                i + 1,
            ).contains(n) && n != module@ by {
                let k = choose|k: int| 0 <= k < i && names.take(i as int)[k] == n;
                assert(names.take(i + 1)[k] == n);
                assert(names[k] != names[i as int]);
            }
            assert(names.take(i + 1)[i as int] == module@);
        }
        let mut file_name = module.clone();
        file_name.append(".rs");
        let mut path = join_path(src_dir, file_name.as_str());
        let mut at = find_source(sources, path.as_str());
        if at >= sources.len() {
            let module_dir = join_path(src_dir, module.as_str());
            path = join_path(module_dir.as_str(), "mod.rs");
            at = find_source(sources, path.as_str());
        }
        if at < sources.len() {
            assert(module_source(src_dir@, sources@, module@) == Some(path@));
            match &sources[at].content {
                Err(_) => {
                    proof {
                        lemma_scan_stops(
                            name@,
                            src_dir@,
                            sources@,
                            texts(modules@),
                            (i + 1) as nat,
                            modules@.len(),
                        );
                    }
                    return Err(Stop::Unreadable(at));
                },
                Ok(text) => {
                    let items = match parse_source(text.as_str()) {
                        Ok(items) => items,
                        Err(error) => {
                            proof {
                                lemma_scan_stops(
                                    name@,
                                    src_dir@,
                                    sources@,
                                    texts(modules@),
                                    (i + 1) as nat,
                                    modules@.len(),
                                );
                            }
                            return Err(Stop::Failed(error));
                        },
                    };
                    let idents = find_contracts(&items);
                    if idents.len() == 0 {
                        let copy = module.clone();
                        proof {
                            assert(texts(shared@.push(copy)) =~= texts(shared@).push(copy@));
                            lemma_distinct_push(texts(shared@), copy@);
                            assert forall|n: Seq<char>|
                                texts(shared@).push(copy@).contains(n) implies texts(
                                modules@,
                            ).take(i + 1).contains(n) by {
                                let k = choose|k: int|
                                    0 <= k < texts(shared@).push(copy@).len() && texts(
                                        shared@,
                                    ).push(copy@)[k] == n;
                                if k < texts(shared@).len() {
                                    assert(texts(shared@)[k] == n);
                                    assert(texts(shared@).contains(n));
                                }
                            }
                        }
                        shared.push(copy);
                    } else {
                        let mut package = String::from_str(name);
                        package.append("-");
                        package.append(module.as_str());
                        push_targets(
                            &mut targets,
                            idents,
                            module.as_str(),
                            path.as_str(),
                            package.as_str(),
                        );
                    }
                },
            }
        }
        i += 1;
    }
    Ok((targets, shared))
}

/// Reads a project directory into the contracts to build.
///
/// The project's directory is the one that holds the manifest, and its name
/// the name of the project. The manifest gives the package name and the
/// dependencies. Each module that the root file declares is a contract, one
/// for every marked implementation block in its file, or a shared module. A
/// project whose modules hold no contract may hold contracts in its root file;
/// these bear the package name.
pub fn parse_contract_project(files: ProjectFiles) -> (outcome: Result<ContractProject, CompileError>)
    ensures
        match parsed_project(files) {
            Ok(view) => outcome matches Ok(project) && project_view(project) == view,
            Err(failure) => outcome matches Err(error) && failure_of(error) == failure,
        },
        outcome matches Ok(project) ==> project.wf(),
{
    let ProjectFiles { cargo_toml_path, manifest, sources } = files;
    let dir = match parent_path(cargo_toml_path.as_str()) {
        Some(dir) => dir,
        None => {
            let mut message = String::from_str("Failed to get parent directory of ");
            message.append(quote(cargo_toml_path.as_str()).as_str());
            return Err(CompileError::PathError(message));
        },
    };
    let name = match file_name(dir.as_str()) {
        Some(name) => name,
        None => {
            let mut message = String::from_str("Failed to get directory name from ");
            message.append(quote(dir.as_str()).as_str());
            return Err(CompileError::PathError(message));
        },
    };
    let manifest_text = match manifest {
        Ok(text) => text,
        Err(error) => {
            return Err(CompileError::IoError(error));
        },
    };
    let info = match read_manifest(manifest_text.as_str()) {
        Ok(info) => info,
        Err(error) => {
            return Err(error);
        },
    };
    let src_dir = join_path(dir.as_str(), "src");
    let lib_path = join_path(src_dir.as_str(), "lib.rs");
    let at = find_source(&sources, lib_path.as_str());
    if at >= sources.len() {
        let mut message = String::from_str("Missing src/lib.rs in ");
        message.append(quote(dir.as_str()).as_str());
        return Err(CompileError::PathError(message));
    }
    let lib_items = match &sources[at].content {
        Err(_) => {
            return Err(stop_error(Stop::Unreadable(at), sources));
        },
        Ok(text) => match parse_source(text.as_str()) {
            Ok(items) => items,
            Err(error) => {
                return Err(error);
            },
        },
    };
    let modules = find_modules(&lib_items);
    let (mut targets, shared_modules) = match scan_modules(
        name.as_str(),
        src_dir.as_str(),
        &sources,
        &modules,
    ) {
        Ok(pair) => pair,
        Err(stop) => {
            return Err(stop_error(stop, sources));
        },
    };
    if targets.len() == 0 {
        let idents = find_contracts(&lib_items);
        assert(target_views(targets@) =~= Seq::<TargetView>::empty());
        push_targets(&mut targets, idents, "", lib_path.as_str(), info.package_name.as_str());
        proof {
            reveal_strlit("");
            assert(""@ =~= Seq::<char>::empty());
            let added = targets_of(
                contract_idents(lib_items@),
                Seq::empty(),
                lib_path@,
                info.package_name@,
            );
            assert(target_views(targets@) =~= added);
        }
    }
    if targets.len() == 0 {
        return Err(CompileError::NoContractFound(dir));
    }
    Ok(
        ContractProject {
            path: dir,
            name,
            targets,
            shared_modules,
            base_deps: info.base_deps,
            deployable_deps: info.deployable_deps,
        },
    )
}

/// The projects `projects` as plain text and values.
pub open spec fn project_views(projects: Seq<ContractProject>) -> Seq<ProjectView> {
    projects.map_values(|p: ContractProject| project_view(p))
}

/// Whether a candidate that fails so is passed over: it can be read, and
/// holds no contract.
pub open spec fn is_passed_over(failure: Failure) -> bool {
    failure is NoContractFound
}

/// The projects among the first `count` of `candidates`, in their order. A
/// candidate that holds no contract is passed over; any other failure to read
/// a candidate is the outcome, the first one in the order of the candidates.
pub open spec fn found_projects(candidates: Seq<ProjectFiles>, count: nat) -> Result<
    Seq<ProjectView>,
    Failure,
>
    decreases count,
{
    if count == 0 || count > candidates.len() {
        Ok(Seq::empty())
    } else {
        match found_projects(candidates, (count - 1) as nat) {
            Err(failure) => Err(failure),
            Ok(found) => match parsed_project(candidates[count - 1]) {
                Ok(view) => Ok(found.push(view)),
                Err(failure) => if is_passed_over(failure) {
                    Ok(found)
                } else {
                    Err(failure)
                },
            },
        }
    }
}

/// Once the search has failed, it has failed for good.
proof fn lemma_search_stops(candidates: Seq<ProjectFiles>, failed: nat, count: nat)
    requires
        failed <= count <= candidates.len(),
        found_projects(candidates, failed) is Err,
    ensures
        found_projects(candidates, count) == found_projects(candidates, failed),
    decreases count,
{
    if count > failed {
        lemma_search_stops(candidates, failed, (count - 1) as nat);
    }
}

/// Finds the contract projects among the directories that hold a manifest.
/// A directory that holds no contract is passed over. A directory that
/// cannot be read as a project ends the search with the reason.
pub fn find_r55_contract_projects(candidates: Vec<ProjectFiles>) -> (outcome: Result<
    Vec<ContractProject>,
    CompileError,
>)
    ensures
        match found_projects(candidates@, candidates@.len()) {
            Ok(views) => outcome matches Ok(projects) && project_views(projects@) == views,
            Err(failure) => outcome matches Err(error) && failure_of(error) == failure,
        },
        outcome matches Ok(projects) ==> forall|i: int|
            0 <= i < projects@.len() ==> (#[trigger] projects@[i]).wf(),
{
    let mut examples: Vec<ContractProject> = Vec::new();
    let ghost all = candidates@;
    assert(project_views(examples@) =~= Seq::<ProjectView>::empty());
    for files in it: candidates
        invariant
            it.seq() == all,
            forall|i: int| 0 <= i < examples@.len() ==> (#[trigger] examples@[i]).wf(),
            found_projects(all, it.index() as nat) == Ok::<Seq<ProjectView>, Failure>(
                project_views(examples@),
            ),
    {
        match parse_contract_project(files) {
            Ok(project) => {
                proof {
                    assert(project_views(examples@.push(project)) =~= project_views(examples@).push(
                        project_view(project),
                    ));
                }
                examples.push(project);
            },
            Err(error) => {
                match error {
                    CompileError::NoContractFound(_) => {},
                    _ => {
                        proof {
                            lemma_search_stops(all, (it.index() + 1) as nat, all.len());
                        }
                        return Err(error);
                    },
                }
            },
        }
    }
    Ok(examples)
}

} // verus!
