use captain::config::{configure_by_file, load_captain_config, CaptainConfig};
use captain::init::CONFIG_TEXT;

fn json(text: &str) -> serde_json::Value {
    serde_json::from_str(text).unwrap()
}

fn read(text: &str) -> CaptainConfig {
    configure_by_file(CaptainConfig::default(), text)
}

fn off(config: &CaptainConfig) -> Vec<&'static str> {
    [
        ("generate-readmes", config.generate_readmes),
        ("rustfmt", config.rustfmt),
        ("cargo-lock", config.cargo_lock),
        ("arborium", config.arborium),
        ("rust-version", config.rust_version),
        ("edition-2024", config.edition_2024),
        ("clippy", config.clippy),
        ("nextest", config.nextest),
        ("doc-tests", config.doc_tests),
        ("docs", config.docs),
        ("cargo-shear", config.cargo_shear),
    ]
    .iter()
    .filter(|(_, on)| !on)
    .map(|(name, _)| *name)
    .collect()
}

fn features(names: &[&str]) -> Option<Vec<String>> {
    Some(names.iter().map(|name| name.to_string()).collect())
}

const EXAMPLE: &str = r#"// Captain configuration
// All options default to true. Set properties to #false to disable.

pre-commit generate-readmes=#false rustfmt=#false cargo-lock=#false
pre-push clippy=#false nextest=#false {
    // Feature configuration (for specific cargo commands)
    clippy-features "feature1" "feature2"
    doc-test-features "feature1"
    docs-features "feature1"
}
"#;

#[test]
fn file_with_everything() {
    for text in [EXAMPLE.to_string(), EXAMPLE.replace('\n', "\r\n")] {
        let config = read(&text);
        assert_eq!(
            off(&config),
            ["generate-readmes", "rustfmt", "cargo-lock", "clippy", "nextest"]
        );
        assert_eq!(config.clippy_features, features(&["feature1", "feature2"]));
        assert_eq!(config.doc_test_features, features(&["feature1"]));
        assert_eq!(config.docs_features, features(&["feature1"]));
        assert!(config.same_rust_version);
    }
}

#[test]
fn file_counts_beside_the_metadata() {
    let none = json("null");
    let config = load_captain_config(None, &none, Some("pre-commit rustfmt=#false"));
    assert_eq!(off(&config), ["rustfmt"]);
    let workspace = json("{\"captain\":{\"clippy\":false,\"docs\":false,\"docs-features\":[\"x\"]}}");
    let file = "pre-push docs=#true nextest=#false { clippy-features \"a\" }";
    let config = load_captain_config(None, &workspace, Some(file));
    assert_eq!(off(&config), ["clippy", "nextest"]);
    assert_eq!(config.clippy_features, features(&["a"]));
    assert_eq!(config.docs_features, features(&["x"]));
    let config = load_captain_config(None, &workspace, Some(""));
    assert_eq!(off(&config), ["clippy", "docs"]);
}

#[test]
fn options_belong_to_their_node() {
    let commit =
        ["generate-readmes", "rustfmt", "cargo-lock", "arborium", "rust-version", "edition-2024"];
    let push = ["clippy", "nextest", "doc-tests", "docs", "cargo-shear"];
    for (node, own, other) in
        [("pre-commit", &commit[..], &push[..]), ("pre-push", &push[..], &commit[..])]
    {
        for key in own {
            let config = read(&format!("{node} {key}=#false"));
            assert_eq!(off(&config), [*key]);
            assert_eq!(config.same_rust_version, *key != "rust-version");
            assert!(off(&read(&format!("{node} {key}=#true"))).is_empty());
            assert!(off(&read(&format!("{node} {key}=#false {key}=#true"))).is_empty());
        }
        for key in other {
            assert!(off(&read(&format!("{node} {key}=#false"))).is_empty());
        }
    }
}

#[test]
fn created_file_sets_nothing() {
    let config = read(CONFIG_TEXT);
    assert!(off(&config).is_empty());
    assert_eq!(config.clippy_features, None);
}

#[test]
fn what_sets_nothing() {
    for text in [
        "",
        "\u{feff}",
        "// pre-commit rustfmt=#false",
        "/* pre-commit rustfmt=#false */",
        "/* /* */ pre-commit rustfmt=#false\n */",
        "/* pre-commit rustfmt=#false",
        "/-pre-commit rustfmt=#false",
        "/-\npre-commit rustfmt=#false",
        "pre-commit /-rustfmt=#false",
        "pre-commit rustfmt=#null",
        "pre-commit rustfmt=\"#false\"",
        "pre-commit rustfmt=false",
        "pre-commit rustfmt=",
        "pre-commit rustfmt",
        "pre-commit\nrustfmt=#false",
        "pre-commit; rustfmt=#false",
        "pre-commit { rustfmt=#false }",
        "other { pre-commit rustfmt=#false }",
        "other rustfmt=#false",
        "Pre-commit rustfmt=#false",
        "\"pre-commit rustfmt=#false",
        "}}}} = = { = }",
        "rustfmt=#false",
        "pre-commit rustfmt.x=#false",
    ] {
        assert!(off(&read(text)).is_empty(), "{text}");
    }
}

#[test]
fn ways_to_write_a_property() {
    for text in [
        "pre-commit rustfmt=#false",
        "\t pre-commit\u{a0}rustfmt=#false;",
        "pre-commit rustfmt = #false // why\n",
        "pre-commit /* why */ rustfmt=/* */#false",
        "pre-commit \\\n    rustfmt=#false",
        "pre-commit \\ // next\r\n    rustfmt=#false",
        "\"pre-commit\" \"rustfmt\"=#false",
        "pre-push\npre-commit rustfmt=#false",
        "pre-push {\n}\npre-commit rustfmt=#false",
        "pre-push { a { b } }; pre-commit rustfmt=#false",
        "pre-commit 1 \"x\" rustfmt=#true rustfmt=#false {\n}",
        "}\npre-commit rustfmt=#false",
        "pre-commit rustfmt=#false\u{2028}pre-commit",
        "a//\npre-commit rustfmt=#false",
    ] {
        assert_eq!(off(&read(text)), ["rustfmt"], "{text}");
    }
}

#[test]
fn features_in_the_file() {
    let config = read("pre-push {clippy-features \"a b\" c #true 1 -2 +x k=\"v\" /-\"d\" \"e\";docs-features}");
    assert_eq!(config.clippy_features, features(&["a b", "c", "+x", "e"]));
    assert_eq!(config.docs_features, Some(vec![]));
    assert_eq!(config.doc_test_features, None);
    let config = read("pre-push {\n docs-features \"a\\\"\\\\\\n\\r\\t\\s\\b\\f\\/\"\n}");
    assert_eq!(config.docs_features, features(&["a\"\\\n\r\t \u{8}\u{c}/"]));
    for text in [
        "clippy-features \"a\"",
        "pre-commit { clippy-features \"a\" }",
        "pre-push /-{ clippy-features \"a\" }",
        "/-pre-push { clippy-features \"a\" }",
        "pre-push { /-clippy-features \"a\" }",
        "pre-push { x { clippy-features \"a\" } }",
        "pre-push\n{ clippy-features \"a\" }",
        "pre-push clippy-features=\"a\"",
    ] {
        assert_eq!(read(text).clippy_features, None, "{text}");
    }
    let config = read("pre-push { clippy-features \"a\" \n clippy-features \"b\" }");
    assert_eq!(config.clippy_features, features(&["b"]));
    assert_eq!(read("pre-push { docs-features \"a").docs_features, features(&["a"]));
}
