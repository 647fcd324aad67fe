use kern::meta::{init_name, init_version, search, Meta};

#[test]
fn meta_test_version() {
    // parse version and check
    let v = init_version("version = \"1.0.0\"");
    assert_eq!(v, "1.0.0");

    // parse version and check
    let v = init_version("version = \"1.0.0-beta.1\"");
    assert_eq!(v, "1.0.0-beta.1");

    // parse version and check
    let v = init_version("kern = \"1.1.2\"\nversion = \"1.0.0-alpha.1\"");
    assert_eq!(v, "1.0.0-alpha.1");
}

#[test]
fn test_name() {
    // parse name and check
    let n = init_name("name = \"kern\"");
    assert_eq!(n, "kern");

    // parse name and check
    let n = init_name("version = \"1.1.4\"\nname = \"kern\"");
    assert_eq!(n, "kern");
}

#[test]
fn meta_defaults() {
    assert_eq!(init_version("nothing here"), "0.0.0");
    assert_eq!(init_name(""), "kern");
    assert_eq!(search("a = \"b\"", "c="), None);
    assert_eq!(search("a = \"b\"", "a="), Some("b".to_string()));
    // the key must be the whole last line before the quote
    assert_eq!(search("x a = \"b\"", "a="), None);
    assert_eq!(search("k=\"\"", "k="), Some(String::new()));
}

#[test]
fn meta_handle() {
    let unknown = Meta::new();
    assert_eq!(kern::meta::version(&unknown), "");
    assert_eq!(kern::meta::name(&unknown), "");
    let toml = "name = \"demo\"\nversion = \"2.3.4\"";
    assert_eq!(kern::http::version(&unknown, toml), "2.3.4");
    assert_eq!(kern::http::name(&unknown, toml), "demo");
    let known = Meta::init(toml);
    assert_eq!(kern::meta::version(&known), "2.3.4");
    assert_eq!(kern::meta::name(&known), "demo");
    assert_eq!(kern::http::version(&known, "version = \"9\""), "2.3.4");
    assert_eq!(kern::http::name(&known, "name = \"other\""), "demo");
}
