use r55::text::{find_from, join, join_path, replace_char, same_text};

fn strings(parts: &[&str]) -> Vec<String> {
    parts.iter().map(|p| p.to_string()).collect()
}

#[test]
fn same_text_compares_texts() {
    assert!(same_text("contract", "contract"));
    assert!(!same_text("contract", "contracts"));
    assert!(same_text("", ""));
}

#[test]
fn join_puts_the_separator_between() {
    assert_eq!(join(&strings(&[]), ", "), "");
    assert_eq!(join(&strings(&["a"]), ", "), "a");
    assert_eq!(join(&strings(&["a", "b", "c"]), ", "), "a, b, c");
    assert_eq!(join(&strings(&["", ""]), "-"), "-");
}

#[test]
fn find_from_finds_the_first_at_or_after() {
    assert_eq!(find_from("uniswap-v2-pair", '-', 0), 7);
    assert_eq!(find_from("uniswap-v2-pair", '-', 7), 7);
    assert_eq!(find_from("uniswap-v2-pair", '-', 8), 10);
    assert_eq!(find_from("uniswap-v2-pair", '-', 11), 15);
    assert_eq!(find_from("erc20", '-', 0), 5);
    assert_eq!(find_from("", '-', 0), 0);
}

#[test]
fn find_from_counts_characters() {
    assert_eq!(find_from("é-x", '-', 0), 1);
}

#[test]
fn join_path_as_the_standard_library_does() {
    for (base, segment) in [
        ("/work/examples/erc20", "src"),
        ("/work/examples/erc20/", "src"),
        ("", "src"),
        ("/tmp/generated/erc20", ""),
        ("relative/dir", "lib.rs"),
        ("/a", "/b/c"),
        ("../../../../r55-output-bytecode", "erc20.bin"),
        ("/", "x"),
    ] {
        let expected = std::path::Path::new(base).join(segment).display().to_string();
        assert_eq!(join_path(base, segment), expected);
    }
    assert_eq!(join_path("/work/examples/erc20", "src"), "/work/examples/erc20/src");
    assert_eq!(join_path("/tmp/generated/erc20", ""), "/tmp/generated/erc20/");
    assert_eq!(join_path("/a", "/b/c"), "/b/c");
}

#[test]
fn replace_char_replaces_every_one() {
    assert_eq!(replace_char("UNISWAP-V2-PAIR", '-', '_'), "UNISWAP_V2_PAIR");
    assert_eq!(replace_char("ERC20", '-', '_'), "ERC20");
    assert_eq!(replace_char("--", '-', '_'), "__");
    assert_eq!(replace_char("", '-', '_'), "");
}
