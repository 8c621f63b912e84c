use r55::compile::GeneratedContract;
use r55::deployable::{
    contract_name_of, deployable_content, extract_contract_name, generate_deployable,
    has_erc_prefix, try_generate_deployable,
};

fn contract(deps: &[&str]) -> GeneratedContract {
    GeneratedContract {
        path: "/tmp/r55-generated/erc20x".to_string(),
        name: "erc20x".to_string(),
        deps: deps.iter().map(|d| d.to_string()).collect(),
        original_source_path: "/work/examples/erc20x".to_string(),
    }
}

#[test]
fn a_name_without_a_hyphen_is_put_in_upper_case() {
    assert_eq!(extract_contract_name("erc20"), "ERC20");
    assert_eq!(extract_contract_name("vault"), "VAULT");
    assert_eq!(extract_contract_name(""), "");
}

#[test]
fn the_part_behind_the_first_hyphen_counts() {
    assert_eq!(extract_contract_name("uniswap-v2-pair"), "V2");
    assert_eq!(extract_contract_name("my-token"), "Token");
    assert_eq!(extract_contract_name("tokens-vault"), "Vault");
    assert_eq!(extract_contract_name("a-b"), "B");
}

#[test]
fn a_standard_is_put_in_upper_case() {
    assert_eq!(extract_contract_name("tokens-erc20"), "ERC20");
    assert_eq!(extract_contract_name("my-Erc721-nft"), "ERC721");
    assert_eq!(extract_contract_name("x-erc"), "ERC");
    assert_eq!(extract_contract_name("x-er"), "Er");
}

#[test]
fn a_name_that_gives_no_contract_name() {
    assert_eq!(contract_name_of("tokens-"), None);
    assert_eq!(contract_name_of("a--b"), None);
    assert_eq!(contract_name_of("tokens-émile"), None);
    assert_eq!(contract_name_of("-"), None);
}

#[test]
fn a_name_that_gives_a_contract_name() {
    assert_eq!(contract_name_of("erc20"), Some("ERC20".to_string()));
    assert_eq!(contract_name_of("tokens-vault"), Some("Vault".to_string()));
    assert_eq!(contract_name_of("tokens-vaulté"), Some("Vaulté".to_string()));
    assert_eq!(contract_name_of("émile"), Some("ÉMILE".to_string()));
}

#[test]
fn a_contract_without_dependencies_gets_no_module() {
    assert!(generate_deployable(&contract(&[]), true).is_none());
    assert!(matches!(try_generate_deployable(&contract(&[]), false), Ok(None)));
}

#[test]
fn the_module_goes_to_the_unit_or_to_the_project() {
    let c = contract(&["erc20"]);
    assert_eq!(
        generate_deployable(&c, true).unwrap().path,
        "/tmp/r55-generated/erc20x/src/deployable.rs"
    );
    assert_eq!(
        generate_deployable(&c, false).unwrap().path,
        "/work/examples/erc20x/src/deployable.rs"
    );
}

#[test]
fn the_module_for_one_dependency() {
    let file = generate_deployable(&contract(&["erc20"]), true).unwrap();
    let expected = "//! Auto-generated based on Cargo.toml dependencies
//! This file provides `Deployable` implementations for contract dependencies
//! TODO (phase-2): rather than using `fn deploy(args: Args)`, figure out the constructor selector from the contract dependency

use alloy_core::primitives::{Address, Bytes};
use eth_riscv_runtime::{create::Deployable, InitInterface, ReadOnly};
use core::include_bytes;

use erc20::IERC20;

const ERC20_BYTECODE: &'static [u8] = include_bytes!(\"../../../../r55-output-bytecode/erc20.bin\");

pub struct ERC20;

impl Deployable for ERC20 {
    type Interface = IERC20<ReadOnly>;

    fn __runtime() -> &'static [u8] {
        ERC20_BYTECODE
    }
}

";
    assert_eq!(file.content, expected);
}

#[test]
fn the_module_for_two_dependencies() {
    let content = deployable_content(&vec!["erc20".to_string(), "Tokens-Vault".to_string()]);
    let expected = "//! Auto-generated based on Cargo.toml dependencies
//! This file provides `Deployable` implementations for contract dependencies
//! TODO (phase-2): rather than using `fn deploy(args: Args)`, figure out the constructor selector from the contract dependency

use alloy_core::primitives::{Address, Bytes};
use eth_riscv_runtime::{create::Deployable, InitInterface, ReadOnly};
use core::include_bytes;

use erc20::IERC20;
use tokens-vault::IVault;

const ERC20_BYTECODE: &'static [u8] = include_bytes!(\"../../../../r55-output-bytecode/erc20.bin\");
const TOKENS_VAULT_BYTECODE: &'static [u8] = include_bytes!(\"../../../../r55-output-bytecode/Tokens-Vault.bin\");

pub struct ERC20;

impl Deployable for ERC20 {
    type Interface = IERC20<ReadOnly>;

    fn __runtime() -> &'static [u8] {
        ERC20_BYTECODE
    }
}

pub struct Vault;

impl Deployable for Vault {
    type Interface = IVault<ReadOnly>;

    fn __runtime() -> &'static [u8] {
        TOKENS_VAULT_BYTECODE
    }
}

";
    assert_eq!(content, expected);
}

#[test]
fn a_dependency_without_a_contract_name_is_pointed_at() {
    let outcome = try_generate_deployable(&contract(&["erc20", "tokens-", "a--b"]), true);
    assert!(matches!(outcome, Err(1)));
    let outcome = try_generate_deployable(&contract(&["erc20", "tokens-vault"]), true);
    let file = outcome.unwrap().unwrap();
    assert_eq!(file.content, deployable_content(&vec!["erc20".to_string(), "tokens-vault".to_string()]));
}

#[test]
fn the_prefix_of_a_standard() {
    assert!(has_erc_prefix("erc"));
    assert!(has_erc_prefix("erc20"));
    assert!(!has_erc_prefix("er"));
    assert!(!has_erc_prefix("ERC20"));
    assert!(!has_erc_prefix("xerc"));
    assert!(!has_erc_prefix(""));
}
