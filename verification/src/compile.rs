//! Contract projects, the units generated from them, and the order in which
//! those units are built.

use crate::create::{tag, tagged};
use crate::cycle::{
    deps_known, has_cycle, lemma_no_order_has_cycle, lemma_no_order_iff_cycle,
    lemma_unknown_blocks, missing_dependency, names_distinct, unknown_position,
    unresolved_position,
};
use crate::text::{join, join_path, joined, path_join, texts};
use vstd::prelude::*;
use vstd::string::StringExecFns;

verus! {

/// `std::io::Error`: carried from where a file was read to who reports it.
#[verifier::external_type_specification]
#[verifier::external_body]
pub struct ExIoError(std::io::Error);

/// `syn::Error`: carried from the parser of source files to who reports it.
#[verifier::external_type_specification]
#[verifier::external_body]
pub struct ExSynError(syn::Error);

/// `toml::de::Error`: carried from the parser of manifests to who reports it.
#[verifier::external_type_specification]
#[verifier::external_body]
pub struct ExTomlError(toml::de::Error);

/// Why a build stopped.
#[derive(Debug)]
pub enum CompileError {
    /// The file system refused an operation.
    IoError(std::io::Error),
    /// A source file is not valid Rust.
    SynError(syn::Error),
    /// A manifest is not valid TOML.
    TomlError(toml::de::Error),
    /// A path or a manifest field that the build needs is missing.
    PathError(String),
    /// A project holds no contract.
    NoContractFound(String),
    /// The contracts cannot be ordered so that each one follows what it deploys.
    CyclicDependency,
    /// A contract deploys another one that the build does not know.
    MissingDeployableDependency(String),
}

/// A contract within a project.
#[derive(Debug, Clone)]
pub struct ContractTarget {
    /// Name of the contract type.
    pub ident: String,
    /// Module that defines the contract; empty for the project root.
    pub module: String,
    /// Path of the source file.
    pub source_file: String,
    /// Package name of the generated unit.
    pub generated_package: String,
}

/// A unit generated for one contract, ready to be built.
#[derive(Debug, Clone)]
pub struct GeneratedContract {
    /// Directory of the generated unit.
    pub path: String,
    /// Package name of the generated unit.
    pub name: String,
    /// Package names of the contracts that this one deploys.
    pub deps: Vec<String>,
    /// Directory of the project that the contract comes from.
    pub original_source_path: String,
}

/// One of the two binaries that are built of a contract.
#[derive(Clone, Copy, Debug, PartialEq, Eq, Structural)]
pub enum Binary {
    /// The code that runs when the contract is called.
    Runtime,
    /// The code that runs once, when the contract is deployed.
    Deploy,
}

/// A run of the compiler, and where it leaves the binary.
#[derive(Debug)]
pub struct BuildCommand {
    /// The program to run.
    pub program: String,
    /// Its arguments.
    pub args: Vec<String>,
    /// The directory to run it in.
    pub current_dir: String,
    /// The path of the binary that the run leaves.
    pub binary_path: String,
}

/// The target that contracts are compiled for.
pub open spec fn target_triple() -> Seq<char> {
    "riscv64imac-unknown-none-elf"@
}

/// The file name of a binary.
pub open spec fn binary_name(binary: Binary) -> Seq<char> {
    match binary {
        Binary::Runtime => "runtime"@,
        Binary::Deploy => "deploy"@,
    }
}

/// The arguments of the compiler run that builds a binary.
pub open spec fn build_args(binary: Binary) -> Seq<Seq<char>> {
    let common = seq![
        "+nightly-2025-01-07"@,
        "build"@,
        "-r"@,
        "--lib"@,
        "-Z"@,
        "build-std=core,alloc"@,
        "--target"@,
        target_triple(),
        "--bin"@,
        binary_name(binary),
    ];
    match binary {
        Binary::Runtime => common,
        Binary::Deploy => common + seq!["--features"@, "deploy"@],
    }
}

/// Where the compiler leaves a binary of the unit in the directory `path`.
pub open spec fn binary_path(path: Seq<char>, binary: Binary) -> Seq<char> {
    path_join(
        path_join(path_join(path_join(path, "target"@), target_triple()), "release"@),
        binary_name(binary),
    )
}

impl GeneratedContract {
    /// The contract in words: its name, and the names of what it deploys.
    pub open spec fn description(self) -> Seq<char> {
        if self.deps@.len() == 0 {
            self.name@
        } else {
            self.name@ + " with deps: ["@ + joined(texts(self.deps@), ", "@) + "]"@
        }
    }

    /// Says the contract in words.
    pub fn describe(&self) -> (text: String)
        ensures
            text@ == self.description(),
    {
        let mut text = self.name.clone();
        if self.deps.len() > 0 {
            text.append(" with deps: [");
            let list = join(&self.deps, ", ");
            text.append(list.as_str());
            text.append("]");
        }
        text
    }

    /// The compiler run that builds `binary`.
    pub fn build_command(&self, binary: Binary) -> (command: BuildCommand)
        ensures
            command.program@ == "cargo"@,
            texts(command.args@) == build_args(binary),
            command.current_dir@ == self.path@,
            command.binary_path@ == binary_path(self.path@, binary),
    {
        let name = match binary {
            Binary::Runtime => "runtime",
            Binary::Deploy => "deploy",
        };
        let mut args: Vec<String> = Vec::new();
        args.push(String::from_str("+nightly-2025-01-07"));
        args.push(String::from_str("build"));
        args.push(String::from_str("-r"));
        args.push(String::from_str("--lib"));
        args.push(String::from_str("-Z"));
        args.push(String::from_str("build-std=core,alloc"));
        args.push(String::from_str("--target"));
        args.push(String::from_str("riscv64imac-unknown-none-elf"));
        args.push(String::from_str("--bin"));
        args.push(String::from_str(name));
        match binary {
            Binary::Runtime => {},
            Binary::Deploy => {
                args.push(String::from_str("--features"));
                args.push(String::from_str("deploy"));
            },
        }
        assert(texts(args@) =~= build_args(binary));
        let target = join_path(self.path.as_str(), "target");
        let triple = join_path(target.as_str(), "riscv64imac-unknown-none-elf");
        let release = join_path(triple.as_str(), "release");
        let binary_path = join_path(release.as_str(), name);
        BuildCommand {
            program: String::from_str("cargo"),
            args,
            current_dir: self.path.clone(),
            binary_path,
        }
    }

    /// The compiler run that builds the runtime code.
    pub fn compile_runtime(&self) -> (command: BuildCommand)
        ensures
            command.program@ == "cargo"@,
            texts(command.args@) == build_args(Binary::Runtime),
            command.current_dir@ == self.path@,
            command.binary_path@ == binary_path(self.path@, Binary::Runtime),
    {
        self.build_command(Binary::Runtime)
    }

    /// The compiler run that builds the deploy code. The runtime code has to
    /// be built before.
    pub fn compile_deploy(&self) -> (command: BuildCommand)
        ensures
            command.program@ == "cargo"@,
            texts(command.args@) == build_args(Binary::Deploy),
            command.current_dir@ == self.path@,
            command.binary_path@ == binary_path(self.path@, Binary::Deploy),
    {
        self.build_command(Binary::Deploy)
    }

    /// The initcode of the contract: the deploy code that was built, with the
    /// tag in front.
    pub fn compile(&self, deploy_bytecode: &[u8]) -> (prefixed_bytecode: Vec<u8>)
        ensures
            prefixed_bytecode@ == tagged(deploy_bytecode@),
            prefixed_bytecode@[0] == 0xff,
    {
        tag(deploy_bytecode)
    }
}

/// Whether one of `placed` bears the package name `name`.
pub open spec fn has_name(placed: Seq<GeneratedContract>, name: Seq<char>) -> bool {
    exists|k: int| 0 <= k < placed.len() && (#[trigger] placed[k]).name@ == name
}

/// Whether every contract that `contract` deploys is among `placed`.
pub open spec fn deps_met(placed: Seq<GeneratedContract>, contract: GeneratedContract) -> bool {
    forall|i: int|
        0 <= i < contract.deps@.len() ==> has_name(placed, (#[trigger] contract.deps@[i])@)
}

/// Whether each contract of `order` comes after all the contracts that it deploys.
pub open spec fn deps_precede(order: Seq<GeneratedContract>) -> bool {
    forall|p: int| 0 <= p < order.len() ==> deps_met(order.take(p), #[trigger] order[p])
}

/// Whether `order` holds exactly the contracts of `contracts`, each after what it deploys.
pub open spec fn is_build_order(
    order: Seq<GeneratedContract>,
    contracts: Seq<GeneratedContract>,
) -> bool {
    order.to_multiset() == contracts.to_multiset() && deps_precede(order)
}

/// One walk over `pending`, first to last: a contract whose dependencies are all
/// placed by then is placed next, the others are deferred in their order.
/// Gives the placed contracts and the deferred ones.
pub open spec fn sweep(placed: Seq<GeneratedContract>, pending: Seq<GeneratedContract>) -> (
    Seq<GeneratedContract>,
    Seq<GeneratedContract>,
)
    decreases pending.len(),
{
    if pending.len() == 0 {
        (placed, Seq::empty())
    } else {
        let (p, d) = sweep(placed, pending.drop_last());
        if deps_met(p, pending.last()) {
            (p.push(pending.last()), d)
        } else {
            (p, d.push(pending.last()))
        }
    }
}

/// The order that repeated walks over `pending` give, starting from `placed`;
/// `None` where a walk places nothing while contracts are still pending.
pub open spec fn build_order_from(
    placed: Seq<GeneratedContract>,
    pending: Seq<GeneratedContract>,
) -> Option<Seq<GeneratedContract>>
    decreases pending.len(),
{
    if pending.len() == 0 {
        Some(placed)
    } else {
        let (p, d) = sweep(placed, pending);
        if d.len() >= pending.len() {
            None
        } else {
            build_order_from(p, d)
        }
    }
}

/// The build order of `contracts`, if there is one.
pub open spec fn build_order(contracts: Seq<GeneratedContract>) -> Option<Seq<GeneratedContract>> {
    build_order_from(Seq::empty(), contracts)
}

fn is_placed(placed: &Vec<GeneratedContract>, name: &String) -> (found: bool)
    ensures
        found == has_name(placed@, name@),
{
    let mut k: usize = 0;
    while k < placed.len()
        invariant
            k <= placed.len(),
            forall|j: int| 0 <= j < k ==> placed@[j].name@ != name@,
        decreases placed.len() - k,
    {
        if placed[k].name == *name {
            return true;
        }
        k += 1;
    }
    false
}

fn all_deps_placed(placed: &Vec<GeneratedContract>, contract: &GeneratedContract) -> (met: bool)
    ensures
        met == deps_met(placed@, *contract),
{
    let mut i: usize = 0;
    while i < contract.deps.len()
        invariant
            i <= contract.deps.len(),
            forall|j: int| 0 <= j < i ==> has_name(placed@, (#[trigger] contract.deps@[j])@),
        decreases contract.deps.len() - i,
    {
        if !is_placed(placed, &contract.deps[i]) {
            return false;
        }
        i += 1;
    }
    true
}

/// Looks for the first dependency that is the name of none of `contracts`.
fn find_missing_dependency(contracts: &Vec<GeneratedContract>) -> (missing: Option<String>)
    ensures
        match missing_dependency(contracts@) {
            Some(name) => missing matches Some(found) && found@ == name && !exists|
                order: Seq<GeneratedContract>,
            | is_build_order(order, contracts@),
            None => missing is None && deps_known(contracts@),
        },
{
    let mut at: usize = 0;
    while at < contracts.len()
        invariant
            at <= contracts.len(),
            unresolved_position(contracts@, 0) == unresolved_position(contracts@, at as int),
            forall|i: int, d: int|
                0 <= i < at && 0 <= d < contracts@[i].deps@.len() ==> has_name(
                    contracts@,
                    (#[trigger] contracts@[i].deps@[d])@,
                ),
        decreases contracts.len() - at,
    {
        let contract = &contracts[at];
        let mut dep: usize = 0;
        while dep < contract.deps.len()
            invariant
                at < contracts.len(),
                *contract == contracts@[at as int],
                dep <= contract.deps.len(),
                unknown_position(contracts@, *contract, 0) == unknown_position(
                    contracts@,
                    *contract,
                    dep as int,
                ),
                unresolved_position(contracts@, 0) == unresolved_position(contracts@, at as int),
                forall|d: int|
                    0 <= d < dep ==> has_name(contracts@, (#[trigger] contract.deps@[d])@),
            decreases contract.deps.len() - dep,
        {
            if !is_placed(contracts, &contract.deps[dep]) {
                proof {
                    lemma_unknown_blocks(contracts@, at as int, dep as int);
                }
                return Some(contract.deps[dep].clone());
            }
            dep += 1;
        }
        at += 1;
    }
    None
}

/// Orders the contracts so that each one follows the contracts that it deploys.
///
/// A dependency that is the name of no contract ends the search with
/// `MissingDeployableDependency`: the first such name is reported, in the
/// order of the contracts and of their dependencies. Else the contracts are
/// walked again and again in their given order; a contract is placed as soon
/// as everything that it deploys is placed. A walk that places nothing ends
/// the search with `CyclicDependency`: some contracts then deploy each other
/// in a circle.
pub fn sort_generated_contracts(contracts: Vec<GeneratedContract>) -> (result: Result<
    Vec<GeneratedContract>,
    CompileError,
>)
    ensures
        match missing_dependency(contracts@) {
            Some(name) => result matches Err(CompileError::MissingDeployableDependency(missing))
                && missing@ == name,
            None => {
                &&& deps_known(contracts@)
                &&& match build_order(contracts@) {
                    Some(order) => result matches Ok(sorted) && sorted@ == order,
                    None => result matches Err(CompileError::CyclicDependency),
                }
                &&& result is Err ==> has_cycle(contracts@)
                &&& names_distinct(contracts@) ==> (result is Err <==> has_cycle(contracts@))
            },
        },
        result matches Ok(sorted) ==> is_build_order(sorted@, contracts@),
        result is Err <==> !exists|order: Seq<GeneratedContract>|
            is_build_order(order, contracts@),
{
    match find_missing_dependency(&contracts) {
        Some(missing) => {
            return Err(CompileError::MissingDeployableDependency(missing));
        },
        None => {},
    }
    let mut sorted: Vec<GeneratedContract> = Vec::new();
    let mut remaining: Vec<GeneratedContract> = contracts;
    while remaining.len() > 0
        invariant
            deps_known(contracts@),
            missing_dependency(contracts@) is None,
            build_order_from(sorted@, remaining@) == build_order(contracts@),
        decreases remaining.len(),
    {
        let initial_len = remaining.len();
        let ghost placed = sorted@;
        let ghost pending = remaining@;
        let mut next_remaining: Vec<GeneratedContract> = Vec::new();
        for contract in it: remaining
            invariant
                it.seq() == pending,
                (sorted@, next_remaining@) == sweep(placed, pending.take(it.index() as int)),
        {
            proof {
                let i = it.index() as int;
                assert(pending.take(i + 1).drop_last() == pending.take(i));
            }
            if all_deps_placed(&sorted, &contract) {
                sorted.push(contract);
            } else {
                next_remaining.push(contract);
            }
        }
        proof {
            assert(pending.take(pending.len() as int) == pending);
            lemma_sweep_len(placed, pending);
        }
        remaining = next_remaining;
        if remaining.len() == initial_len {
            proof {
                lemma_build_order(contracts@);
                lemma_no_order_has_cycle(contracts@);
            }
            return Err(CompileError::CyclicDependency);
        }
    }
    proof {
        lemma_build_order(contracts@);
        if names_distinct(contracts@) {
            lemma_no_order_iff_cycle(contracts@);
        }
    }
    Ok(sorted)
}

/// A walk neither loses nor adds a contract.
pub proof fn lemma_sweep_len(placed: Seq<GeneratedContract>, pending: Seq<GeneratedContract>)
    ensures
        sweep(placed, pending).0.len() + sweep(placed, pending).1.len() == placed.len()
            + pending.len(),
        sweep(placed, pending).0.len() >= placed.len(),
    decreases pending.len(),
{
    if pending.len() > 0 {
        lemma_sweep_len(placed, pending.drop_last());
    }
}

/// What a walk keeps: the contracts, the order already reached, and, where it
/// places nothing, the reason for it.
pub proof fn lemma_sweep_keeps(placed: Seq<GeneratedContract>, pending: Seq<GeneratedContract>)
    ensures
        sweep(placed, pending).0.to_multiset().add(sweep(placed, pending).1.to_multiset())
            == placed.to_multiset().add(pending.to_multiset()),
        deps_precede(placed) ==> deps_precede(sweep(placed, pending).0),
        sweep(placed, pending).1.len() == pending.len() ==> {
            &&& sweep(placed, pending).0 == placed
            &&& sweep(placed, pending).1 == pending
            &&& forall|i: int| 0 <= i < pending.len() ==> !deps_met(placed, #[trigger] pending[i])
        },
    decreases pending.len(),
{
    broadcast use {vstd::seq_lib::to_multiset_build, vstd::multiset::group_multiset_axioms};

    if pending.len() == 0 {
        assert(sweep(placed, pending).1 == pending);
    } else {
        let front = pending.drop_last();
        let last = pending.last();
        let (p, d) = sweep(placed, front);
        lemma_sweep_keeps(placed, front);
        lemma_sweep_len(placed, front);
        assert(pending == front.push(last));
        assert(pending.to_multiset() == front.to_multiset().insert(last));
        if deps_met(p, last) {
            let q = p.push(last);
            assert(q.to_multiset() == p.to_multiset().insert(last));
            assert forall|c: GeneratedContract|
                q.to_multiset().add(d.to_multiset()).count(c) == placed.to_multiset().add(
                    pending.to_multiset(),
                ).count(c) by {
                assert(p.to_multiset().add(d.to_multiset()).count(c) == placed.to_multiset().add(
                    front.to_multiset(),
                ).count(c));
            }
            assert(q.to_multiset().add(d.to_multiset()) =~= placed.to_multiset().add(
                pending.to_multiset(),
            ));
            if deps_precede(placed) {
                assert forall|k: int| 0 <= k < q.len() implies deps_met(
                    q.take(k),
                    #[trigger] q[k],
                ) by {
                    if k < p.len() {
                        assert(q.take(k) == p.take(k));
                        assert(deps_met(p.take(k), p[k]));
                    } else {
                        assert(q.take(k) == p);
                    }
                }
            }
        } else {
            let e = d.push(last);
            assert(e.to_multiset() == d.to_multiset().insert(last));
            assert forall|c: GeneratedContract|
                p.to_multiset().add(e.to_multiset()).count(c) == placed.to_multiset().add(
                    pending.to_multiset(),
                ).count(c) by {
                assert(p.to_multiset().add(d.to_multiset()).count(c) == placed.to_multiset().add(
                    front.to_multiset(),
                ).count(c));
            }
            assert(p.to_multiset().add(e.to_multiset()) =~= placed.to_multiset().add(
                pending.to_multiset(),
            ));
            if e.len() == pending.len() {
                assert(e == pending);
                assert forall|i: int| 0 <= i < pending.len() implies !deps_met(
                    placed,
                    #[trigger] pending[i],
                ) by {
                    if i < front.len() {
                        assert(pending[i] == front[i]);
                    }
                }
            }
        }
    }
}

/// Where nothing pending can be placed, every contract of an order of the
/// whole that respects the dependencies is already placed.
proof fn lemma_stuck_prefix(
    placed: Seq<GeneratedContract>,
    pending: Seq<GeneratedContract>,
    order: Seq<GeneratedContract>,
    k: int,
)
    requires
        forall|i: int| 0 <= i < pending.len() ==> !deps_met(placed, #[trigger] pending[i]),
        order.to_multiset() == placed.to_multiset().add(pending.to_multiset()),
        deps_precede(order),
        0 <= k <= order.len(),
    ensures
        forall|j: int|
            0 <= j < k ==> deps_met(placed, #[trigger] order[j]) && has_name(
                placed,
                order[j].name@,
            ),
    decreases k,
{
    broadcast use vstd::seq_lib::to_multiset_contains;

    if k > 0 {
        lemma_stuck_prefix(placed, pending, order, k - 1);
        let c = order[k - 1];
        assert(deps_met(order.take(k - 1), c));
        assert forall|i: int| 0 <= i < c.deps@.len() implies has_name(
            placed,
            (#[trigger] c.deps@[i])@,
        ) by {
            assert(has_name(order.take(k - 1), c.deps@[i]@));
            let m = choose|m: int|
                0 <= m < order.take(k - 1).len() && (#[trigger] order.take(k - 1)[m]).name@
                    == c.deps@[i]@;
            assert(order.take(k - 1)[m] == order[m]);
            assert(has_name(placed, order[m].name@));
        }
        assert(order.contains(c));
        assert(order.to_multiset().count(c) > 0);
        assert(placed.to_multiset().count(c) > 0 || pending.to_multiset().count(c) > 0);
        if pending.contains(c) {
            let i = choose|i: int| 0 <= i < pending.len() && pending[i] == c;
            assert(!deps_met(placed, pending[i]));
        }
        assert(placed.contains(c));
        let m = choose|m: int| 0 <= m < placed.len() && placed[m] == c;
        assert(placed[m].name@ == c.name@);
    }
}

/// Repeated walks find an order that respects the dependencies whenever there is one.
pub proof fn lemma_build_order_from(
    placed: Seq<GeneratedContract>,
    pending: Seq<GeneratedContract>,
)
    requires
        deps_precede(placed),
    ensures
        match build_order_from(placed, pending) {
            Some(order) => order.to_multiset() == placed.to_multiset().add(pending.to_multiset())
                && deps_precede(order),
            None => forall|order: Seq<GeneratedContract>|
                !(order.to_multiset() == placed.to_multiset().add(pending.to_multiset())
                    && deps_precede(order)),
        },
    decreases pending.len(),
{
    broadcast use {vstd::seq_lib::to_multiset_contains, vstd::multiset::group_multiset_axioms};

    if pending.len() == 0 {
        pending.to_multiset_ensures();
        assert(placed.to_multiset().add(pending.to_multiset()) =~= placed.to_multiset());
    } else {
        let (p, d) = sweep(placed, pending);
        lemma_sweep_keeps(placed, pending);
        lemma_sweep_len(placed, pending);
        if d.len() >= pending.len() {
            assert forall|order: Seq<GeneratedContract>|
                !(order.to_multiset() == placed.to_multiset().add(pending.to_multiset())
                    && deps_precede(order)) by {
                if order.to_multiset() == placed.to_multiset().add(pending.to_multiset())
                    && deps_precede(order) {
                    lemma_stuck_prefix(placed, pending, order, order.len() as int);
                    let c = pending[0];
                    assert(pending.contains(c));
                    assert(order.to_multiset().count(c) > 0);
                    assert(order.contains(c));
                    let j = choose|j: int| 0 <= j < order.len() && order[j] == c;
                    assert(deps_met(placed, order[j]));
                }
            }
        } else {
            lemma_build_order_from(p, d);
        }
    }
}

/// The build order holds each contract once and after what it deploys, and it
/// is there whenever the contracts can be ordered so at all.
pub proof fn lemma_build_order(contracts: Seq<GeneratedContract>)
    ensures
        build_order(contracts) matches Some(order) ==> is_build_order(order, contracts),
        build_order(contracts) is None <==> !exists|order: Seq<GeneratedContract>|
            is_build_order(order, contracts),
{
    broadcast use vstd::multiset::group_multiset_axioms;

    let none = Seq::<GeneratedContract>::empty();
    none.to_multiset_ensures();
    assert(none.to_multiset().add(contracts.to_multiset()) =~= contracts.to_multiset());
    lemma_build_order_from(none, contracts);
    if let Some(order) = build_order(contracts) {
        assert(is_build_order(order, contracts));
    }
}

} // verus!
