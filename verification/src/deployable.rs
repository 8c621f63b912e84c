//! The module generated for a contract that deploys others: it embeds the
//! code of each of them and makes each deployable.

use crate::compile::GeneratedContract;
use crate::text::{
    char_to_uppercase, char_uppercase, find_from, join_path, lemma_lines_step, lines, lowercase,
    path_join, position_from, replace_char, replaced, texts, to_lowercase, to_uppercase, uppercase,
};
use vstd::prelude::*;
use vstd::string::{StrSliceExecFns, StringExecFns};

verus! {

/// A file to write: its path and its text.
#[derive(Debug)]
pub struct GeneratedFile {
    /// Path of the file.
    pub path: String,
    /// Text of the file.
    pub content: String,
}

/// The part of a package name between its first and its second hyphen, or
/// from its first hyphen to its end where it has no second one.
pub open spec fn second_part(package: Seq<char>) -> Seq<char> {
    let dash = position_from(package, '-', 0);
    package.subrange(dash + 1, position_from(package, '-', dash + 1))
}

/// Whether `text` starts with `erc`.
pub open spec fn starts_with_erc(text: Seq<char>) -> bool {
    text.len() >= 3 && text[0] == 'e' && text[1] == 'r' && text[2] == 'c'
}

/// Whether `part` starts with `erc`, in whatever case.
pub open spec fn names_standard(part: Seq<char>) -> bool {
    starts_with_erc(lowercase(part))
}

/// Whether a package name gives a contract name: it has no hyphen, or the
/// part behind its first hyphen names a standard or starts with a character
/// of one byte.
pub open spec fn has_contract_name(package: Seq<char>) -> bool {
    position_from(package, '-', 0) < package.len() ==> {
        let part = second_part(package);
        names_standard(part) || (part.len() > 0 && (part[0] as u32) < 128)
    }
}

/// The contract name that a package name gives. A name without a hyphen
/// gives itself in upper case. Else the part behind the first hyphen counts:
/// in upper case where it names a standard, with its first character in upper
/// case where it does not.
pub open spec fn contract_name(package: Seq<char>) -> Seq<char> {
    if position_from(package, '-', 0) >= package.len() {
        uppercase(package)
    } else {
        let part = second_part(package);
        if names_standard(part) {
            uppercase(part)
        } else {
            char_uppercase(part[0]) + part.skip(1)
        }
    }
}

/// Tells whether `text` starts with `erc`.
pub fn has_erc_prefix(text: &str) -> (standard: bool)
    ensures
        standard == starts_with_erc(text@),
{
    text.unicode_len() >= 3 && text.get_char(0) == 'e' && text.get_char(1) == 'r' && text.get_char(
        2,
    ) == 'c'
}

/// Tells whether `part` starts with `erc`, in whatever case.
fn is_standard(part: &str) -> (standard: bool)
    ensures
        standard == names_standard(part@),
{
    let lower = to_lowercase(part);
    has_erc_prefix(lower.as_str())
}

/// Gives the contract name of the package `package_name`.
pub fn extract_contract_name(package_name: &str) -> (name: String)
    requires
        has_contract_name(package_name@),
    ensures
        name@ == contract_name(package_name@),
{
    let len = package_name.unicode_len();
    let dash = find_from(package_name, '-', 0);
    if dash >= len {
        return to_uppercase(package_name);
    }
    let end = find_from(package_name, '-', dash + 1);
    let contract_part = package_name.substring_char(dash + 1, end);
    if is_standard(contract_part) {
        return to_uppercase(contract_part);
    }
    let part_len = contract_part.unicode_len();
    let mut capitalized = char_to_uppercase(contract_part.get_char(0));
    capitalized.append(contract_part.substring_char(1, part_len));
    proof {
        assert(contract_part@.subrange(1, part_len as int) == contract_part@.skip(1));
    }
    capitalized
}

/// Gives the contract name of the package `package_name`, where it has one.
pub fn contract_name_of(package_name: &str) -> (name: Option<String>)
    ensures
        match name {
            Some(text) => has_contract_name(package_name@) && text@ == contract_name(
                package_name@,
            ),
            None => !has_contract_name(package_name@),
        },
{
    let len = package_name.unicode_len();
    let dash = find_from(package_name, '-', 0);
    if dash < len {
        let end = find_from(package_name, '-', dash + 1);
        let contract_part = package_name.substring_char(dash + 1, end);
        if !is_standard(contract_part) {
            if contract_part.unicode_len() == 0 {
                return None;
            }
            if contract_part.get_char(0) as u32 >= 128 {
                return None;
            }
        }
    }
    Some(extract_contract_name(package_name))
}

/// What every generated module starts with.
pub open spec fn module_header() -> Seq<char> {
    "//! Auto-generated based on Cargo.toml dependencies\n"@
        + "//! This file provides `Deployable` implementations for contract dependencies\n"@
        + "//! TODO (phase-2): rather than using `fn deploy(args: Args)`, figure out the constructor selector from the contract dependency\n\n"@
        + "use alloy_core::primitives::{Address, Bytes};\n"@
        + "use eth_riscv_runtime::{create::Deployable, InitInterface, ReadOnly};\n"@
        + "use core::include_bytes;\n\n"@
}

/// The name of the constant that holds the code of the dependency `dep`.
pub open spec fn constant_name(dep: Seq<char>) -> Seq<char> {
    replaced(uppercase(dep), '-', '_') + "_BYTECODE"@
}

/// The line that imports the interface of the dependency `dep`.
pub open spec fn import_line(dep: Seq<char>) -> Seq<char> {
    "use "@ + lowercase(dep) + "::I"@ + contract_name(dep) + ";\n"@
}

/// The line that embeds the code of the dependency `dep`.
pub open spec fn constant_line(dep: Seq<char>) -> Seq<char> {
    "const "@ + constant_name(dep) + ": &'static [u8] = include_bytes!(\""@ + path_join(
        "../../../../r55-output-bytecode"@,
        dep + ".bin"@,
    ) + "\");\n"@
}

/// The lines that make the dependency `dep` deployable.
pub open spec fn deployable_block(dep: Seq<char>) -> Seq<char> {
    "pub struct "@ + contract_name(dep) + ";\n\n"@ + "impl Deployable for "@ + contract_name(dep)
        + " {\n"@ + "    type Interface = I"@ + contract_name(dep) + "<ReadOnly>;\n\n"@
        + "    fn __runtime() -> &'static [u8] {\n"@ + "        "@ + constant_name(dep) + "\n"@
        + "    }\n"@ + "}\n\n"@
}

/// The text of the module generated for a contract with the dependencies `deps`.
pub open spec fn deployable_module(deps: Seq<Seq<char>>) -> Seq<char> {
    module_header() + lines(deps, |dep: Seq<char>| import_line(dep)) + "\n"@ + lines(
        deps,
        |dep: Seq<char>| constant_line(dep),
    ) + "\n"@ + lines(deps, |dep: Seq<char>| deployable_block(dep))
}

/// Whether each of `deps` gives a contract name.
pub open spec fn all_named(deps: Seq<String>) -> bool {
    forall|i: int| 0 <= i < deps.len() ==> has_contract_name((#[trigger] deps[i])@)
}

/// Gives the name of the constant that holds the code of the dependency `dep`.
fn constant_name_of(dep: &str) -> (name: String)
    ensures
        name@ == constant_name(dep@),
{
    let upper = to_uppercase(dep);
    let mut name = replace_char(upper.as_str(), '-', '_');
    name.append("_BYTECODE");
    name
}

/// Writes the line that imports the interface of the dependency `dep`.
fn import_line_of(dep: &str) -> (line: String)
    requires
        has_contract_name(dep@),
    ensures
        line@ == import_line(dep@),
{
    let module = to_lowercase(dep);
    let contract = extract_contract_name(dep);
    let mut line = String::from_str("use ");
    line.append(module.as_str());
    line.append("::I");
    line.append(contract.as_str());
    line.append(";\n");
    line
}

/// Writes the line that embeds the code of the dependency `dep`.
fn constant_line_of(dep: &str) -> (line: String)
    ensures
        line@ == constant_line(dep@),
{
    let constant_name = constant_name_of(dep);
    let mut file = String::from_str(dep);
    file.append(".bin");
    let path = join_path("../../../../r55-output-bytecode", file.as_str());
    let mut line = String::from_str("const ");
    line.append(constant_name.as_str());
    line.append(": &'static [u8] = include_bytes!(\"");
    line.append(path.as_str());
    line.append("\");\n");
    line
}

/// Writes the lines that make the dependency `dep` deployable.
fn deployable_block_of(dep: &str) -> (block: String)
    requires
        has_contract_name(dep@),
    ensures
        block@ == deployable_block(dep@),
{
    let contract = extract_contract_name(dep);
    let constant_name = constant_name_of(dep);
    let mut block = String::from_str("pub struct ");
    block.append(contract.as_str());
    block.append(";\n\n");
    block.append("impl Deployable for ");
    block.append(contract.as_str());
    block.append(" {\n");
    block.append("    type Interface = I");
    block.append(contract.as_str());
    block.append("<ReadOnly>;\n\n");
    block.append("    fn __runtime() -> &'static [u8] {\n");
    block.append("        ");
    block.append(constant_name.as_str());
    block.append("\n");
    block.append("    }\n");
    block.append("}\n\n");
    block
}

/// Writes the text of the module generated for a contract with the
/// dependencies `deps`.
pub fn deployable_content(deps: &Vec<String>) -> (content: String)
    requires
        all_named(deps@),
    ensures
        content@ == deployable_module(texts(deps@)),
{
    let mut content = String::from_str("//! Auto-generated based on Cargo.toml dependencies\n");
    content.append(
        "//! This file provides `Deployable` implementations for contract dependencies\n",
    );
    content.append(
        "//! TODO (phase-2): rather than using `fn deploy(args: Args)`, figure out the constructor selector from the contract dependency\n\n",
    );
    content.append("use alloy_core::primitives::{Address, Bytes};\n");
    content.append("use eth_riscv_runtime::{create::Deployable, InitInterface, ReadOnly};\n");
    content.append("use core::include_bytes;\n\n");
    let ghost names = texts(deps@);
    let ghost import = |dep: Seq<char>| import_line(dep);
    let ghost constant = |dep: Seq<char>| constant_line(dep);
    let ghost block = |dep: Seq<char>| deployable_block(dep);
    let ghost start = content@;
    assert(start + lines(names.take(0), import) =~= start);
    let mut i: usize = 0;
    while i < deps.len()
        invariant
            all_named(deps@),
            names == texts(deps@),
            import == |dep: Seq<char>| import_line(dep),
            i <= deps.len(),
            content@ == start + lines(names.take(i as int), import),
        decreases deps.len() - i,
    {
        let line = import_line_of(deps[i].as_str());
        proof {
            lemma_lines_step(names, import, i as int);
            assert(start + lines(names.take(i as int), import) + line@ =~= start + lines(
                names.take(i + 1),
                import,
            ));
        }
        content.append(line.as_str());
        i += 1;
    }
    assert(names.take(deps@.len() as int) == names);
    content.append("\n");
    let ghost imports = content@;
    assert(imports + lines(names.take(0), constant) =~= imports);
    let mut i: usize = 0;
    while i < deps.len()
        invariant
            names == texts(deps@),
            constant == |dep: Seq<char>| constant_line(dep),
            i <= deps.len(),
            content@ == imports + lines(names.take(i as int), constant),
        decreases deps.len() - i,
    {
        let line = constant_line_of(deps[i].as_str());
        proof {
            lemma_lines_step(names, constant, i as int);
            assert(imports + lines(names.take(i as int), constant) + line@ =~= imports + lines(
                names.take(i + 1),
                constant,
            ));
        }
        content.append(line.as_str());
        i += 1;
    }
    assert(names.take(deps@.len() as int) == names);
    content.append("\n");
    let ghost constants = content@;
    assert(constants + lines(names.take(0), block) =~= constants);
    let mut i: usize = 0;
    while i < deps.len()
        invariant
            all_named(deps@),
            names == texts(deps@),
            block == |dep: Seq<char>| deployable_block(dep),
            i <= deps.len(),
            content@ == constants + lines(names.take(i as int), block),
        decreases deps.len() - i,
    {
        let text = deployable_block_of(deps[i].as_str());
        proof {
            lemma_lines_step(names, block, i as int);
            assert(constants + lines(names.take(i as int), block) + text@ =~= constants + lines(
                names.take(i + 1),
                block,
            ));
        }
        content.append(text.as_str());
        i += 1;
    }
    assert(names.take(deps@.len() as int) == names);
    content
}

/// Where the module generated for `contract` goes: into the generated unit
/// where `target_source` holds, into the project that the contract comes from
/// where it does not.
pub open spec fn deployable_path(contract: GeneratedContract, target_source: bool) -> Seq<char> {
    let base = if target_source {
        contract.path@
    } else {
        contract.original_source_path@
    };
    path_join(path_join(base, "src"@), "deployable.rs"@)
}

/// Generates the module that makes the dependencies of `contract`
/// deployable. A contract that deploys nothing gets no module.
pub fn generate_deployable(contract: &GeneratedContract, target_source: bool) -> (file: Option<
    GeneratedFile,
>)
    requires
        all_named(contract.deps@),
    ensures
        match file {
            Some(file) => contract.deps@.len() > 0 && file.path@ == deployable_path(
                *contract,
                target_source,
            ) && file.content@ == deployable_module(texts(contract.deps@)),
            None => contract.deps@.len() == 0,
        },
{
    if contract.deps.len() == 0 {
        return None;
    }
    let content = deployable_content(&contract.deps);
    let base = if target_source {
        contract.path.as_str()
    } else {
        contract.original_source_path.as_str()
    };
    let src = join_path(base, "src");
    let path = join_path(src.as_str(), "deployable.rs");
    Some(GeneratedFile { path, content })
}

/// Generates the module that makes the dependencies of `contract`
/// deployable, where each of them gives a contract name; else says which is
/// the first that gives none.
pub fn try_generate_deployable(contract: &GeneratedContract, target_source: bool) -> (outcome:
    Result<Option<GeneratedFile>, usize>)
    ensures
        match outcome {
            Ok(file) => all_named(contract.deps@) && match file {
                Some(file) => contract.deps@.len() > 0 && file.path@ == deployable_path(
                    *contract,
                    target_source,
                ) && file.content@ == deployable_module(texts(contract.deps@)),
                None => contract.deps@.len() == 0,
            },
            Err(at) => at < contract.deps@.len() && !has_contract_name(contract.deps@[at as int]@)
                && forall|j: int| 0 <= j < at ==> has_contract_name((#[trigger] contract.deps@[j])@),
        },
{
    let mut i: usize = 0;
    while i < contract.deps.len()
        invariant
            i <= contract.deps.len(),
            forall|j: int| 0 <= j < i ==> has_contract_name((#[trigger] contract.deps@[j])@),
        decreases contract.deps.len() - i,
    {
        if contract_name_of(contract.deps[i].as_str()).is_none() {
            return Err(i);
        }
        i += 1;
    }
    Ok(generate_deployable(contract, target_source))
}

} // verus!
