use r55::compile::{CompileError, ContractTarget};
use r55::generate::{
    build_dependency_list, copy_source_and_shared_modules, create_cargo_config,
    format_toml_value, generate_cargo_toml, generate_temporary_crates, generated_contract,
    path_dependencies, try_generate_temporary_crates,
};
use r55::manifest::TomlValue;
use r55::project::ContractProject;

fn text(s: &str) -> TomlValue {
    TomlValue::Text(s.to_string())
}

fn table(entries: Vec<(&str, TomlValue)>) -> TomlValue {
    TomlValue::Table(entries.into_iter().map(|(k, v)| (k.to_string(), v)).collect())
}

fn strings(parts: &[&str]) -> Vec<String> {
    parts.iter().map(|p| p.to_string()).collect()
}

fn canonical(paths: &[&str]) -> Vec<Result<String, std::io::Error>> {
    paths.iter().map(|p| Ok(p.to_string())).collect()
}

fn not_found() -> Result<String, std::io::Error> {
    Err(std::io::Error::from(std::io::ErrorKind::NotFound))
}

fn target(module: &str, package: &str, source_file: &str) -> ContractTarget {
    ContractTarget {
        ident: "C".to_string(),
        module: module.to_string(),
        source_file: source_file.to_string(),
        generated_package: package.to_string(),
    }
}

fn project(deps: Vec<(&str, TomlValue)>, deployable: &[&str]) -> ContractProject {
    ContractProject {
        path: "/work/examples/erc20x".to_string(),
        name: "erc20x".to_string(),
        targets: vec![target("", "erc20x", "/work/examples/erc20x/src/lib.rs")],
        shared_modules: Vec::new(),
        base_deps: deps.into_iter().map(|(k, v)| (k.to_string(), v)).collect(),
        deployable_deps: strings(deployable),
    }
}

const HEADER: &str = "[package]
name = \"erc20x\"
version = \"0.1.0\"
edition = \"2021\"

[workspace]

[features]
default = []
deploy = []
deployable = []
interface-only = []

[dependencies]
";

const FOOTER: &str = "
[[bin]]
name = \"runtime\"
path = \"src/lib.rs\"

[[bin]]
name = \"deploy\"
path = \"src/lib.rs\"
required-features = [\"deploy\"]

[profile.release]
lto = true
opt-level = \"z\"
";

#[test]
fn format_of_plain_values() {
    assert_eq!(format_toml_value(&text("0.7.4")), "\"0.7.4\"");
    assert_eq!(format_toml_value(&TomlValue::Integer(0)), "0");
    assert_eq!(format_toml_value(&TomlValue::Integer(275)), "275");
    assert_eq!(format_toml_value(&TomlValue::Integer(-42)), "-42");
    assert_eq!(format_toml_value(&TomlValue::Integer(i64::MAX)), "9223372036854775807");
    assert_eq!(format_toml_value(&TomlValue::Integer(i64::MIN)), "-9223372036854775808");
    assert_eq!(format_toml_value(&TomlValue::Float("1.5".to_string())), "1.5");
    assert_eq!(format_toml_value(&TomlValue::Boolean(true)), "true");
    assert_eq!(format_toml_value(&TomlValue::Boolean(false)), "false");
    assert_eq!(format_toml_value(&TomlValue::Datetime("1979-05-27".to_string())), "\"1979-05-27\"");
}

#[test]
fn format_of_arrays_and_tables() {
    assert_eq!(format_toml_value(&TomlValue::Array(vec![])), "[]");
    assert_eq!(format_toml_value(&TomlValue::Array(vec![text("deployable")])), "[\"deployable\"]");
    assert_eq!(
        format_toml_value(&TomlValue::Array(vec![text("a"), TomlValue::Integer(2), text("c")])),
        "[\"a\", 2, \"c\"]"
    );
    assert_eq!(format_toml_value(&table(vec![])), "{}");
    assert_eq!(format_toml_value(&table(vec![("k", text("v"))])), "{ k = \"v\" }");
    assert_eq!(
        format_toml_value(&table(vec![
            ("a", TomlValue::Array(vec![TomlValue::Array(vec![]), table(vec![])])),
            ("b", table(vec![("c", TomlValue::Boolean(true)), ("d", TomlValue::Integer(1))])),
        ])),
        "{ a = [[], {}], b = { c = true, d = 1 } }"
    );
}

#[test]
fn path_dependencies_are_joined_to_the_project() {
    let p = project(
        vec![
            ("alloy-core", table(vec![("version", text("0.7.4"))])),
            ("erc20", table(vec![("features", TomlValue::Array(vec![])), ("path", text("../erc20"))])),
            ("odd", table(vec![("path", TomlValue::Integer(1))])),
            ("runtime", table(vec![("path", text("/abs/runtime"))])),
            ("serde", text("1.0")),
        ],
        &[],
    );
    assert_eq!(path_dependencies(&p), vec!["/work/examples/erc20x/../erc20", "/abs/runtime"]);
}

#[test]
fn manifest_of_a_unit() {
    let p = project(
        vec![
            ("alloy-core", table(vec![("default-features", TomlValue::Boolean(false)), ("version", text("0.7.4"))])),
            ("erc20", table(vec![("features", TomlValue::Array(vec![text("deployable")])), ("path", text("../erc20"))])),
            ("serde", text("1.0")),
        ],
        &["erc20"],
    );
    let file = generate_cargo_toml(
        &p,
        &p.targets[0],
        "/work/target/r55-generated/erc20x",
        canonical(&["/work/examples/erc20"]),
    )
    .unwrap();
    assert_eq!(file.path, "/work/target/r55-generated/erc20x/Cargo.toml");
    let expected = format!(
        "{}{}{}{}{}",
        HEADER,
        "alloy-core = {default-features = false, version = \"0.7.4\"}\n",
        "erc20 = {path = \"../../../examples/erc20\", features = [\"deployable\"]}\n",
        "serde = \"1.0\"\n",
        FOOTER
    );
    assert_eq!(file.content, expected);
}

#[test]
fn unit_manifest_without_dependencies() {
    let p = project(vec![], &[]);
    let file = generate_cargo_toml(&p, &p.targets[0], "/t", Vec::new()).unwrap();
    assert_eq!(file.content, format!("{}{}", HEADER, FOOTER));
    assert_eq!(file.path, "/t/Cargo.toml");
}

#[test]
fn manifest_takes_the_canonical_paths_in_order() {
    let p = project(
        vec![
            ("a", table(vec![("path", text("../a"))])),
            ("b", table(vec![("version", text("1"))])),
            ("c", table(vec![("path", text("../c"))])),
        ],
        &[],
    );
    let file =
        generate_cargo_toml(&p, &p.targets[0], "/w/t/u", canonical(&["/w/x/a", "/w/t/c"])).unwrap();
    let expected = format!(
        "{}{}{}{}{}",
        HEADER,
        "a = {path = \"../../x/a\"}\n",
        "b = {version = \"1\"}\n",
        "c = {path = \"../c\"}\n",
        FOOTER
    );
    assert_eq!(file.content, expected);
}

#[test]
fn manifest_skips_a_path_that_is_no_text() {
    let p = project(vec![("odd", table(vec![("path", TomlValue::Integer(1)), ("version", text("1"))]))], &[]);
    let file = generate_cargo_toml(&p, &p.targets[0], "/t", Vec::new()).unwrap();
    assert_eq!(file.content, format!("{}{}{}", HEADER, "odd = {version = \"1\"}\n", FOOTER));
}

#[test]
fn manifest_fails_where_no_path_leads_to_a_dependency() {
    let p = project(vec![("a", table(vec![("path", text("../a"))]))], &[]);
    let outcome = generate_cargo_toml(&p, &p.targets[0], "/w/t/u", canonical(&["relative/a"]));
    match outcome {
        Err(CompileError::PathError(message)) => assert_eq!(
            message,
            "Failed to calculate relative path from \"/w/t/u\" to \"relative/a\""
        ),
        other => panic!("unexpected: {:?}", other),
    }
}

#[test]
fn manifest_fails_where_a_path_cannot_be_made_canonical() {
    let p = project(
        vec![("a", table(vec![("path", text("../a"))])), ("b", table(vec![("path", text("../b"))]))],
        &[],
    );
    let outcome =
        generate_cargo_toml(&p, &p.targets[0], "/w/t/u", vec![Ok("/w/a".to_string()), not_found()]);
    match outcome {
        Err(CompileError::IoError(error)) => assert_eq!(error.kind(), std::io::ErrorKind::NotFound),
        other => panic!("unexpected: {:?}", other),
    }
}

#[test]
fn manifest_fails_on_the_first_faulty_dependency() {
    let p = project(
        vec![("a", table(vec![("path", text("../a"))])), ("b", table(vec![("path", text("../b"))]))],
        &[],
    );
    let outcome = generate_cargo_toml(
        &p,
        &p.targets[0],
        "/w/t/u",
        vec![Ok("relative/a".to_string()), not_found()],
    );
    assert!(matches!(outcome, Err(CompileError::PathError(_))));
    let outcome = generate_cargo_toml(
        &p,
        &p.targets[0],
        "/w/t/u",
        vec![not_found(), Ok("relative/b".to_string())],
    );
    assert!(matches!(outcome, Err(CompileError::IoError(_))));
}

#[test]
fn manifest_adds_contracts_to_deploy_that_are_no_dependencies() {
    let p = project(
        vec![("erc20", table(vec![("path", text("../erc20"))]))],
        &["erc20", "tokens-vault", "erc20x", "plain", "tokens-vault", "tokens-a-b"],
    );
    let file =
        generate_cargo_toml(&p, &p.targets[0], "/w/t/erc20x", canonical(&["/w/e/erc20"])).unwrap();
    let expected = format!(
        "{}{}{}{}{}",
        HEADER,
        "erc20 = {path = \"../../e/erc20\"}\n",
        "tokens-vault = { path = \"../vault\", features = [\"interface-only\"] }\n",
        "tokens-a-b = { path = \"../a-b\", features = [\"interface-only\"] }\n",
        FOOTER
    );
    assert_eq!(file.content, expected);
}

#[test]
fn compiler_configuration_points_at_the_linker_script() {
    let file = create_cargo_config("/work/target/r55-generated/erc20", "/work").unwrap();
    assert_eq!(file.path, "/work/target/r55-generated/erc20/.cargo/config.toml");
    let expected = "[target.riscv64imac-unknown-none-elf]
rustflags = [
  \"-C\", \"link-arg=-T../../../r5-rust-rt.x\",
  \"-C\", \"llvm-args=--inline-threshold=275\"
]

[build]
target = \"riscv64imac-unknown-none-elf\"
";
    assert_eq!(file.content, expected);
}

#[test]
fn compiler_configuration_fails_where_no_path_leads_to_the_script() {
    match create_cargo_config("/work/unit", "relative/root") {
        Err(CompileError::PathError(message)) => assert_eq!(
            message,
            "Failed to calculate relative path from \"/work/unit\" to \"relative/root/r5-rust-rt.x\""
        ),
        other => panic!("unexpected: {:?}", other.map(|f| f.path)),
    }
}

#[test]
fn dependency_list_leaves_the_unit_itself_out() {
    let p = project(vec![], &["erc20", "erc20x", "vault"]);
    assert_eq!(build_dependency_list(&p, &p.targets[0]), vec!["erc20", "vault"]);
    let p = project(vec![], &[]);
    assert!(build_dependency_list(&p, &p.targets[0]).is_empty());
}

#[test]
fn copies_of_a_unit_without_shared_modules() {
    let p = project(vec![], &[]);
    let copies = copy_source_and_shared_modules(&p, &p.targets[0], "/t/erc20x", &Vec::new());
    assert_eq!(copies.len(), 1);
    assert_eq!(copies[0].from, "/work/examples/erc20x/src/lib.rs");
    assert_eq!(copies[0].to, "/t/erc20x/src/lib.rs");
}

#[test]
fn copies_bring_the_shared_modules_over() {
    let mut p = project(vec![], &[]);
    p.path = "/p".to_string();
    p.shared_modules = strings(&["utils", "types", "gone"]);
    let t = target("erc20", "p-erc20", "/p/src/erc20.rs");
    let existing = strings(&[
        "/p/src/lib.rs",
        "/p/src/erc20.rs",
        "/p/src/utils.rs",
        "/p/src/types/mod.rs",
        "/p/src/types/word.rs",
        "/p/src/types/deep/inner.rs",
        "/p/src/types/address.rs",
        "/p/src/utils/mod.rs",
    ]);
    let copies = copy_source_and_shared_modules(&p, &t, "/t/p/erc20", &existing);
    let pairs: Vec<(&str, &str)> =
        copies.iter().map(|c| (c.from.as_str(), c.to.as_str())).collect();
    assert_eq!(
        pairs,
        vec![
            ("/p/src/erc20.rs", "/t/p/erc20/src/lib.rs"),
            ("/p/src/utils.rs", "/t/p/erc20/src/utils.rs"),
            ("/p/src/types/mod.rs", "/t/p/erc20/src/types/mod.rs"),
            ("/p/src/types/word.rs", "/t/p/erc20/src/types/word.rs"),
            ("/p/src/types/address.rs", "/t/p/erc20/src/types/address.rs"),
        ]
    );
}

#[test]
fn unit_of_a_contract_in_the_root_file() {
    let p = project(vec![], &["erc20"]);
    let unit = generated_contract(&p, &p.targets[0], "/work/target/r55-generated");
    assert_eq!(unit.path, "/work/target/r55-generated/erc20x/");
    assert_eq!(unit.name, "erc20x");
    assert_eq!(unit.deps, vec!["erc20"]);
    assert_eq!(unit.original_source_path, "/work/examples/erc20x");
}

#[test]
fn units_of_all_contracts() {
    let mut tokens = project(vec![], &["tokens-erc20"]);
    tokens.path = "/w/tokens".to_string();
    tokens.name = "tokens".to_string();
    tokens.targets = vec![
        target("erc20", "tokens-erc20", "/w/tokens/src/erc20.rs"),
        target("vault", "tokens-vault", "/w/tokens/src/vault.rs"),
    ];
    let solo = project(vec![], &[]);
    let units = generate_temporary_crates(&vec![tokens, solo], "/w/target/gen");
    let summary: Vec<(&str, &str, Vec<String>, &str)> = units
        .iter()
        .map(|u| (u.path.as_str(), u.name.as_str(), u.deps.clone(), u.original_source_path.as_str()))
        .collect();
    assert_eq!(
        summary,
        vec![
            ("/w/target/gen/tokens/erc20", "tokens-erc20", vec![], "/w/tokens"),
            ("/w/target/gen/tokens/vault", "tokens-vault", strings(&["tokens-erc20"]), "/w/tokens"),
            ("/w/target/gen/erc20x/", "erc20x", vec![], "/work/examples/erc20x"),
        ]
    );
}

#[test]
fn units_need_a_project_directory_above_each_source_file() {
    let mut p = project(vec![], &[]);
    p.targets = vec![target("", "x", "lib.rs")];
    assert!(try_generate_temporary_crates(&vec![p], "/t").is_none());
    let p = project(vec![], &[]);
    let units = try_generate_temporary_crates(&vec![p], "/t").unwrap();
    assert_eq!(units.len(), 1);
    assert_eq!(units[0].original_source_path, "/work/examples/erc20x");
    assert!(try_generate_temporary_crates(&Vec::new(), "/t").unwrap().is_empty());
}
