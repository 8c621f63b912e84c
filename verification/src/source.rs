//! Source files as the build reads them: module declarations and the
//! implementation blocks that are marked as contracts.

use crate::compile::CompileError;
use crate::text::{distinct, lemma_distinct_push, same_text, texts};
use vstd::prelude::*;

verus! {

/// An item at the top level of a source file.
#[derive(Debug)]
pub enum SourceItem {
    /// A module: its name, and whether its body stands in the file itself.
    Module { name: String, inline: bool },
    /// An implementation block: the path of each attribute on it, and the
    /// path of the type that it is for, where that type is written as a path.
    Impl { attrs: Vec<Vec<String>>, self_type: Option<Vec<String>> },
    /// Anything else.
    Other,
}

/// Whether `path` is the attribute that marks a contract.
pub open spec fn is_contract_path(path: Seq<String>) -> bool {
    path.len() == 1 && path[0]@ == "contract"@
}

/// Whether one of the attributes `attrs` marks a contract.
pub open spec fn marks_contract(attrs: Seq<Vec<String>>) -> bool {
    exists|i: int| 0 <= i < attrs.len() && is_contract_path((#[trigger] attrs[i])@)
}

/// The name of the type that an implementation block is for: the last
/// segment of its path.
pub open spec fn struct_name(self_type: Option<Vec<String>>) -> Option<Seq<char>> {
    match self_type {
        Some(path) => if path@.len() > 0 {
            Some(path@.last()@)
        } else {
            None
        },
        None => None,
    }
}

/// The contract that `item` defines, if it defines one.
pub open spec fn contract_ident(item: SourceItem) -> Option<Seq<char>> {
    match item {
        SourceItem::Impl { attrs, self_type } => if marks_contract(attrs@) {
            struct_name(self_type)
        } else {
            None
        },
        _ => None,
    }
}

/// The contracts that `items` define, in their order.
pub open spec fn contract_idents(items: Seq<SourceItem>) -> Seq<Seq<char>>
    decreases items.len(),
{
    if items.len() == 0 {
        Seq::empty()
    } else {
        match contract_ident(items.last()) {
            Some(ident) => contract_idents(items.drop_last()).push(ident),
            None => contract_idents(items.drop_last()),
        }
    }
}

/// The module that `item` declares without a body, if it declares one.
pub open spec fn declared_module(item: SourceItem) -> Option<Seq<char>> {
    match item {
        SourceItem::Module { name, inline } => if inline {
            None
        } else {
            Some(name@)
        },
        _ => None,
    }
}

/// The modules that `items` declare without a body, each once, in the order
/// in which they are first declared.
pub open spec fn declared_modules(items: Seq<SourceItem>) -> Seq<Seq<char>>
    decreases items.len(),
{
    if items.len() == 0 {
        Seq::empty()
    } else {
        let before = declared_modules(items.drop_last());
        match declared_module(items.last()) {
            Some(name) => if before.contains(name) {
                before
            } else {
                before.push(name)
            },
            None => before,
        }
    }
}

/// No module is listed twice.
pub proof fn lemma_declared_modules_distinct(items: Seq<SourceItem>)
    ensures
        distinct(declared_modules(items)),
    decreases items.len(),
{
    if items.len() > 0 {
        lemma_declared_modules_distinct(items.drop_last());
        let before = declared_modules(items.drop_last());
        match declared_module(items.last()) {
            Some(name) => {
                if !before.contains(name) {
                    lemma_distinct_push(before, name);
                }
            },
            None => {},
        }
    }
}

/// Tells whether one of the attributes marks a contract.
pub fn has_contract_attribute(attrs: &Vec<Vec<String>>) -> (marked: bool)
    ensures
        marked == marks_contract(attrs@),
{
    let mut i: usize = 0;
    while i < attrs.len()
        invariant
            i <= attrs.len(),
            forall|j: int| 0 <= j < i ==> !is_contract_path((#[trigger] attrs@[j])@),
        decreases attrs.len() - i,
    {
        if attrs[i].len() == 1 && same_text(attrs[i][0].as_str(), "contract") {
            return true;
        }
        i += 1;
    }
    false
}

/// Gives the name of the type that an implementation block is for.
pub fn extract_struct_name(self_type: &Option<Vec<String>>) -> (name: Option<String>)
    ensures
        match struct_name(*self_type) {
            Some(text) => name matches Some(s) && s@ == text,
            None => name is None,
        },
{
    match self_type {
        Some(path) => {
            if path.len() > 0 {
                Some(path[path.len() - 1].clone())
            } else {
                None
            }
        },
        None => None,
    }
}

/// Lists the contracts that `items` define, in their order.
pub fn find_contracts(items: &Vec<SourceItem>) -> (idents: Vec<String>)
    ensures
        texts(idents@) == contract_idents(items@),
{
    let mut idents: Vec<String> = Vec::new();
    let mut i: usize = 0;
    while i < items.len()
        invariant
            i <= items.len(),
            texts(idents@) == contract_idents(items@.take(i as int)),
        decreases items.len() - i,
    {
        proof {
            assert(items@.take(i + 1).drop_last() == items@.take(i as int));
        }
        match &items[i] {
            SourceItem::Impl { attrs, self_type } => {
                if has_contract_attribute(attrs) {
                    match extract_struct_name(self_type) {
                        Some(ident) => {
                            proof {
                                assert(texts(idents@.push(ident)) == texts(idents@).push(ident@));
                            }
                            idents.push(ident);
                        },
                        None => {},
                    }
                }
            },
            _ => {},
        }
        i += 1;
    }
    proof {
        assert(items@.take(items@.len() as int) == items@);
    }
    idents
}

/// Tells whether one of `names` is `name`.
pub fn contains_text(names: &Vec<String>, name: &str) -> (found: bool)
    ensures
        found == texts(names@).contains(name@),
{
    let mut i: usize = 0;
    while i < names.len()
        invariant
            i <= names.len(),
            forall|j: int| 0 <= j < i ==> texts(names@)[j] != name@,
        decreases names.len() - i,
    {
        if same_text(names[i].as_str(), name) {
            assert(texts(names@)[i as int] == name@);
            return true;
        }
        i += 1;
    }
    false
}

/// Lists the modules that `items` declare without a body, each once, in the
/// order in which they are first declared.
pub fn find_modules(items: &Vec<SourceItem>) -> (names: Vec<String>)
    ensures
        texts(names@) == declared_modules(items@),
        distinct(texts(names@)),
{
    proof {
        lemma_declared_modules_distinct(items@);
    }
    let mut names: Vec<String> = Vec::new();
    let mut i: usize = 0;
    while i < items.len()
        invariant
            i <= items.len(),
            texts(names@) == declared_modules(items@.take(i as int)),
        decreases items.len() - i,
    {
        proof {
            assert(items@.take(i + 1).drop_last() == items@.take(i as int));
        }
        match &items[i] {
            SourceItem::Module { name, inline } => {
                if !*inline && !contains_text(&names, name.as_str()) {
                    let copy = name.clone();
                    proof {
                        assert(texts(names@.push(copy)) == texts(names@).push(copy@));
                    }
                    names.push(copy);
                }
            },
            _ => {},
        }
        i += 1;
    }
    proof {
        assert(items@.take(items@.len() as int) == items@);
    }
    names
}

/// The top-level items of the source file that `text` spells; `None` where it
/// is not valid Rust.
pub uninterp spec fn source_items(text: Seq<char>) -> Option<Seq<SourceItem>>;

/// `syn::parse_file`: succeeds exactly on valid Rust, and hands out the
/// top-level items in the file's order. Of a module it keeps the name and
/// whether it has a body; of an implementation block the identifiers of each
/// attribute's path and of the path of the type that the block is for.
#[verifier::external_body]
fn parse_file(text: &str) -> (parsed: Result<Vec<SourceItem>, syn::Error>)
    ensures
        match source_items(text@) {
            Some(items) => parsed matches Ok(found) && found@ == items,
            None => parsed is Err,
        },
{
    let file = syn::parse_file(text)?;
    Ok(file.items.iter().map(|item| match item {
        syn::Item::Mod(m) => SourceItem::Module { name: m.ident.to_string(), inline: m.content.is_some() },
        syn::Item::Impl(i) => SourceItem::Impl {
            attrs: i.attrs.iter().map(|a| a.path.segments.iter().map(|s| s.ident.to_string()).collect()).collect(),
            self_type: match &*i.self_ty {
                syn::Type::Path(p) => Some(p.path.segments.iter().map(|s| s.ident.to_string()).collect()),
                _ => None,
            },
        },
        _ => SourceItem::Other,
    }).collect())
}

/// Parses the source file `text` into its top-level items.
pub fn parse_source(text: &str) -> (outcome: Result<Vec<SourceItem>, CompileError>)
    ensures
        match source_items(text@) {
            Some(items) => outcome matches Ok(found) && found@ == items,
            None => outcome matches Err(CompileError::SynError(_)),
        },
{
    match parse_file(text) {
        Ok(items) => Ok(items),
        Err(error) => Err(CompileError::SynError(error)),
    }
}

} // verus!
