use pg_typescript::guc::{
    import_url_allowed, normalize_http_url, parse_bool, parse_permission_list, url_allowed_given,
    validate_http_url, validate_js_identifier, BoolGucParser, GucParser, ImportMapParser,
    ImportUrlCap, MaxImportsParser, PermissionParser, PermissionSetting,
};
use pg_typescript::import_map::{make_import_map, ImportMap};
use pg_typescript::specifier::ModuleSpecifier;

fn parse_import_map_for_test(json: &str) -> Result<ImportMap, String> {
    ImportMapParser::new().parse_raw(Some(json.to_string()), "test import_map")
}

fn parse_max_imports_for_test(raw: Option<String>) -> Result<ImportUrlCap, String> {
    MaxImportsParser::new().parse_raw(raw, "test")
}

#[test]
fn parse_import_map_cases() {
    let cases: &[(&str, &str, Result<Option<(&str, &str)>, ()>)] = &[
        (
            "single entry",
            r#"{"imports":{"lodash":"https://esm.sh/lodash@4"}}"#,
            Ok(Some(("lodash", "https://esm.sh/lodash@4"))),
        ),
        (
            "multiple entries - a",
            r#"{"imports":{"a":"https://esm.sh/a","b":"https://esm.sh/b"}}"#,
            Ok(Some(("a", "https://esm.sh/a"))),
        ),
        (
            "multiple entries - b",
            r#"{"imports":{"a":"https://esm.sh/a","b":"https://esm.sh/b"}}"#,
            Ok(Some(("b", "https://esm.sh/b"))),
        ),
        ("missing imports key", r#"{}"#, Ok(None)),
        ("empty imports", r#"{"imports":{}}"#, Ok(None)),
        ("invalid json", "not json", Err(())),
        ("value not string", r#"{"imports":{"a":42}}"#, Err(())),
        (
            "key starts with digit",
            r#"{"imports":{"1bad":"https://esm.sh/x"}}"#,
            Err(()),
        ),
        (
            "key with hyphen",
            r#"{"imports":{"my-pkg":"https://esm.sh/x"}}"#,
            Err(()),
        ),
        (
            "empty key",
            r#"{"imports":{"":"https://esm.sh/x"}}"#,
            Err(()),
        ),
        (
            "file url",
            r#"{"imports":{"pkg":"file:///local/pkg"}}"#,
            Err(()),
        ),
        (
            "ftp url",
            r#"{"imports":{"pkg":"ftp://example.com/pkg"}}"#,
            Err(()),
        ),
        ("invalid url", r#"{"imports":{"pkg":"://broken"}}"#, Err(())),
    ];

    for (name, input, expected) in cases {
        let result = parse_import_map_for_test(input);
        match expected {
            Ok(Some((key, url))) => {
                let map = result.unwrap_or_else(|e| panic!("[{name}] expected Ok, got Err: {e}"));
                assert_eq!(map.get(*key), Some(&url.to_string()), "[{name}]");
            }
            Ok(None) => {
                let map = result.unwrap_or_else(|e| panic!("[{name}] expected Ok, got Err: {e}"));
                assert!(map.is_empty(), "[{name}] expected empty map");
            }
            Err(()) => {
                assert!(result.is_err(), "[{name}] expected Err, got Ok");
            }
        }
    }
}

#[test]
fn parse_max_imports_default_is_allow_all() {
    assert_eq!(parse_max_imports_for_test(None).unwrap(), ImportUrlCap::AllowAll);
}

#[test]
fn parse_max_imports_keywords() {
    assert_eq!(
        parse_max_imports_for_test(Some("*".to_string())).unwrap(),
        ImportUrlCap::AllowAll
    );
    assert_eq!(
        parse_max_imports_for_test(Some("none".to_string())).unwrap(),
        ImportUrlCap::Deny
    );
}

#[test]
fn parse_max_imports_url_list_normalizes_and_deduplicates() {
    assert_eq!(
        parse_max_imports_for_test(Some(
            " https://esm.sh , https://esm.sh/ , https://deno.land/x/ ".to_string(),
        ))
        .unwrap(),
        ImportUrlCap::AllowList(vec![
            "https://esm.sh/".to_string(),
            "https://deno.land/x/".to_string(),
        ])
    );
}

#[test]
fn parse_max_imports_rejects_non_http_scheme() {
    let err = parse_max_imports_for_test(Some("file:///tmp".to_string())).unwrap_err();
    assert!(err.contains("unsupported scheme"), "err={err}");
}

#[test]
fn import_map_errors_name_the_key() {
    let err = parse_import_map_for_test(r#"{"imports":{"1bad":"https://esm.sh/x"}}"#).unwrap_err();
    assert_eq!(
        err,
        "import_map key '1bad' is not a valid JS identifier (must start with a letter, '_', or '$')"
    );
    let err = parse_import_map_for_test(r#"{"imports":{"my-pkg":"https://esm.sh/x"}}"#).unwrap_err();
    assert_eq!(
        err,
        "import_map key 'my-pkg' is not a valid JS identifier (invalid character '-')"
    );
    let err = parse_import_map_for_test(r#"{"imports":{"":"https://esm.sh/x"}}"#).unwrap_err();
    assert_eq!(err, "import_map key is empty");
    let err = parse_import_map_for_test(r#"{"imports":{"pkg":"ftp://example.com/pkg"}}"#).unwrap_err();
    assert_eq!(
        err,
        "import_map URL 'ftp://example.com/pkg' has unsupported scheme 'ftp' (only http/https allowed)"
    );
    let err = parse_import_map_for_test(r#"{"imports":{"pkg":"://broken"}}"#).unwrap_err();
    assert!(err.contains("import_map URL '://broken' is invalid: "), "err={err}");
    let err = parse_import_map_for_test(r#"{"imports":{"a":42}}"#).unwrap_err();
    assert_eq!(err, "import_map: value for 'a' is not a string");
    let err = parse_import_map_for_test("{").unwrap_err();
    assert!(err.contains("invalid import_map JSON: "), "err={err}");
    assert!(parse_import_map_for_test(r#"{"imports":[]}"#).unwrap().is_empty());
    assert!(parse_import_map_for_test("[]").unwrap().is_empty());
}

#[test]
fn accepted_import_maps_keep_their_entries() {
    let map = parse_import_map_for_test(
        r#"{"imports":{"b":"https://esm.sh/b","a":"http://esm.sh/a?x=1"}}"#,
    )
    .unwrap();
    assert_eq!(map.len(), 2);
    assert_eq!(map.get("a").map(|u| u.as_str()), Some("http://esm.sh/a?x=1"));
    assert!(map.contains_url("https://esm.sh/b"));
    assert!(!map.contains_url("a"));
    assert!(map.get("c").is_none());
}

#[test]
fn import_maps_hold_one_url_per_key() {
    let map = make_import_map(&[("a", "u1"), ("b", "u2"), ("a", "u3")]);
    assert_eq!(map.len(), 2);
    assert_eq!(map.get("a").map(|u| u.as_str()), Some("u3"));
    assert_eq!(map.entries()[0].0, "a");
    let other = make_import_map(&[("b", "u2"), ("a", "u1"), ("a", "u3")]);
    assert_eq!(other, map);
    assert_ne!(make_import_map(&[("a", "u3")]), map);
    let mut grown = make_import_map(&[("c", "u"), ("a", "u")]);
    grown.insert("b".to_string(), "v".to_string());
    grown.insert("c".to_string(), "w".to_string());
    let keys: Vec<&str> = grown.entries().iter().map(|e| e.0.as_str()).collect();
    assert_eq!(keys, vec!["a", "b", "c"]);
    assert_eq!(grown.get("c").map(|u| u.as_str()), Some("w"));
    assert_eq!(map.clone(), map);
}

#[test]
fn identifiers() {
    assert!(validate_js_identifier("lodash").is_ok());
    assert!(validate_js_identifier("_internal").is_ok());
    assert!(validate_js_identifier("$x1").is_ok());
    assert!(validate_js_identifier("").is_err());
    assert!(validate_js_identifier("a.b").is_err());
}

#[test]
fn http_urls() {
    assert!(validate_http_url("https://esm.sh/x").is_ok());
    assert!(validate_http_url("file:///x").is_err());
    assert!(validate_http_url("nothing").is_err());
    assert_eq!(
        normalize_http_url("HTTPS://ESM.sh", "test").unwrap(),
        "https://esm.sh/"
    );
    assert!(normalize_http_url("ftp://x", "test").is_err());
    assert!(normalize_http_url("::", "test").is_err());
}

#[test]
fn import_urls_are_held_to_their_prefixes() {
    let cap = ImportUrlCap::AllowList(vec!["https://esm.sh/".to_string()]);
    assert_eq!(import_url_allowed("https://esm.sh/x", &cap), Ok(true));
    assert_eq!(import_url_allowed("https://ESM.sh/x", &cap), Ok(true));
    assert_eq!(import_url_allowed("https://evil.sh/x", &cap), Ok(false));
    assert!(import_url_allowed("file:///x", &cap).is_err());
    assert_eq!(import_url_allowed("whatever", &ImportUrlCap::AllowAll), Ok(true));
    assert_eq!(import_url_allowed("https://esm.sh/x", &ImportUrlCap::Deny), Ok(false));
    let parsed = ModuleSpecifier {
        href: "https://esm.sh/y".to_string(),
        scheme: "https".to_string(),
        path: "/y".to_string(),
    };
    assert_eq!(url_allowed_given("y", &cap, Ok(parsed)), Ok(true));
    assert!(url_allowed_given("y", &cap, Err("bad".to_string())).is_err());
}

#[test]
fn switches() {
    assert_eq!(parse_bool("ON", "test"), Ok(true));
    assert_eq!(parse_bool("deny", "test"), Ok(false));
    assert!(parse_bool("maybe", "test").is_err());
    assert_eq!(BoolGucParser::new().parse_raw(None, "test"), Ok(false));
    assert_eq!(BoolGucParser::uncapped().parse_raw(None, "test"), Ok(true));
    assert_eq!(BoolGucParser::new().parse_raw(Some("  ".to_string()), "test"), Ok(false));
}

#[test]
fn bytes_that_are_no_text_count_as_unset() {
    assert_eq!(
        PermissionParser::new().parse_cstring(Some(vec![0xff, 0xfe]), "test"),
        Ok(PermissionSetting::Deny)
    );
    assert_eq!(
        PermissionParser::uncapped().parse_cstring(None, "test"),
        Ok(PermissionSetting::AllowAll)
    );
    assert_eq!(
        PermissionParser::new().parse_cstring(Some("h\u{e9}".as_bytes().to_vec()), "test"),
        Ok(PermissionSetting::AllowList(vec!["h\u{e9}".to_string()]))
    );
}

#[test]
fn lists_need_an_item() {
    assert_eq!(
        parse_permission_list("a,,b, a", "test"),
        Ok(vec!["a".to_string(), "b".to_string()])
    );
    assert!(parse_permission_list(" , ", "test").is_err());
}

#[test]
fn settings_can_be_cloned() {
    let setting = PermissionSetting::AllowList(vec!["a".to_string(), "b".to_string()]);
    assert_eq!(setting.clone(), setting);
    let cap = ImportUrlCap::AllowList(vec!["https://esm.sh/".to_string()]);
    assert_eq!(cap.clone(), cap);
}
