use r55::compile::CompileError;
use r55::manifest::{
    deployable, manifest_info, parse_manifest, read_manifest, ManifestInfo, TomlValue,
};

const ERC20X: &str = r#"
[package]
name = "erc20x"
version = "0.1.0"
edition = "2021"

[features]
default = []
deploy = []

[dependencies]
contract-derive = { path = "../../contract-derive" }
eth-riscv-runtime = { path = "../../eth-riscv-runtime" }
erc20 = { path = "../erc20", features = ["deployable"] }
alloy-core = { version = "0.7.4", default-features = false }
serde = "1.0"
"#;

fn text(s: &str) -> TomlValue {
    TomlValue::Text(s.to_string())
}

fn table(entries: Vec<(&str, TomlValue)>) -> TomlValue {
    TomlValue::Table(entries.into_iter().map(|(k, v)| (k.to_string(), v)).collect())
}

fn info(manifest: &str) -> ManifestInfo {
    read_manifest(manifest).unwrap()
}

#[test]
fn manifest_gives_the_package_name() {
    assert_eq!(info(ERC20X).package_name, "erc20x");
}

#[test]
fn manifest_gives_the_dependencies_in_the_order_of_their_names() {
    let names: Vec<String> = info(ERC20X).base_deps.into_iter().map(|d| d.0).collect();
    assert_eq!(
        names,
        vec!["alloy-core", "contract-derive", "erc20", "eth-riscv-runtime", "serde"]
    );
}

#[test]
fn manifest_marks_the_contracts_to_deploy() {
    assert_eq!(info(ERC20X).deployable_deps, vec!["erc20"]);
}

#[test]
fn manifest_keeps_the_details_of_a_dependency() {
    let deps = info(ERC20X).base_deps;
    match &deps[0].1 {
        TomlValue::Table(entries) => {
            assert_eq!(entries.len(), 2);
            assert_eq!(entries[0].0, "default-features");
            assert!(matches!(entries[0].1, TomlValue::Boolean(false)));
            assert_eq!(entries[1].0, "version");
            assert!(matches!(&entries[1].1, TomlValue::Text(v) if v == "0.7.4"));
        }
        other => panic!("not a table: {:?}", other),
    }
    assert!(matches!(&deps[4].1, TomlValue::Text(v) if v == "1.0"));
}

#[test]
fn manifest_without_dependencies() {
    let info = info("[package]\nname = \"solo\"\n");
    assert_eq!(info.package_name, "solo");
    assert!(info.base_deps.is_empty());
    assert!(info.deployable_deps.is_empty());
}

#[test]
fn manifest_without_a_package_name_is_refused() {
    for manifest in ["", "[package]\nversion = \"1\"\n", "[package]\nname = 3\n", "package = 1\n"] {
        match read_manifest(manifest) {
            Err(CompileError::PathError(message)) => {
                assert_eq!(message, "Missing package.name in Cargo.toml")
            }
            other => panic!("unexpected: {:?}", other),
        }
    }
}

#[test]
fn manifest_that_is_no_toml_is_refused() {
    assert!(matches!(read_manifest("[package\nname = "), Err(CompileError::TomlError(_))));
    assert!(matches!(parse_manifest("a = = 1"), Err(CompileError::TomlError(_))));
}

#[test]
fn parse_manifest_copies_every_kind_of_value() {
    let doc = parse_manifest(
        "s = \"x\"\ni = -42\nf = 1.5\nb = true\nd = 1979-05-27\na = [1, \"two\"]\n[t]\nk = \"v\"\n",
    )
    .unwrap();
    let entries = match doc {
        TomlValue::Table(entries) => entries,
        other => panic!("not a table: {:?}", other),
    };
    let keys: Vec<&str> = entries.iter().map(|e| e.0.as_str()).collect();
    assert_eq!(keys, vec!["a", "b", "d", "f", "i", "s", "t"]);
    assert!(matches!(&entries[0].1, TomlValue::Array(items) if items.len() == 2
        && matches!(items[0], TomlValue::Integer(1))
        && matches!(&items[1], TomlValue::Text(t) if t == "two")));
    assert!(matches!(entries[1].1, TomlValue::Boolean(true)));
    assert!(matches!(&entries[2].1, TomlValue::Datetime(d) if d == "1979-05-27"));
    assert!(matches!(&entries[3].1, TomlValue::Float(f) if f == "1.5"));
    assert!(matches!(entries[4].1, TomlValue::Integer(-42)));
    assert!(matches!(&entries[5].1, TomlValue::Text(s) if s == "x"));
    assert!(matches!(&entries[6].1, TomlValue::Table(t) if t.len() == 1 && t[0].0 == "k"));
}

#[test]
fn get_looks_a_key_up() {
    let doc = table(vec![("a", text("1")), ("b", text("2"))]);
    assert!(matches!(doc.get("b"), Some(TomlValue::Text(v)) if v == "2"));
    assert!(doc.get("c").is_none());
    assert!(text("a").get("a").is_none());
}

#[test]
fn deployable_needs_the_feature() {
    let marked = table(vec![
        ("path", text("../erc20")),
        ("features", TomlValue::Array(vec![text("other"), text("deployable")])),
    ]);
    assert!(deployable(&marked));
    let plain = table(vec![("features", TomlValue::Array(vec![text("interface-only")]))]);
    assert!(!deployable(&plain));
    assert!(!deployable(&table(vec![("features", text("deployable"))])));
    assert!(!deployable(&table(vec![("path", text("deployable"))])));
    assert!(!deployable(&text("deployable")));
    assert!(!deployable(&table(vec![("features", TomlValue::Array(vec![]))])));
}

#[test]
fn manifest_info_moves_the_dependencies() {
    let doc = table(vec![
        ("dependencies", table(vec![
            ("a", text("1")),
            ("b", table(vec![("features", TomlValue::Array(vec![text("deployable")]))])),
        ])),
        ("package", table(vec![("name", text("p"))])),
    ]);
    let info = manifest_info(doc).unwrap();
    assert_eq!(info.package_name, "p");
    assert_eq!(info.base_deps.len(), 2);
    assert_eq!(info.deployable_deps, vec!["b"]);
}

#[test]
fn dependencies_that_are_no_table_count_for_nothing() {
    let doc = table(vec![
        ("dependencies", text("none")),
        ("package", table(vec![("name", text("p"))])),
    ]);
    let info = manifest_info(doc).unwrap();
    assert!(info.base_deps.is_empty());
}
