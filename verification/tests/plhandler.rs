use std::collections::hash_map::DefaultHasher;
use std::hash::{Hash, Hasher};

use pg_typescript::artifact::{
    assemble_module, build_param_names, format_module_load_error, hash_str,
    normalize_syntax_error_line, FnCache, ModuleArtifact, ModuleInputs, DO_BLOCK_OID,
};
use pg_typescript::guc::ImportUrlCap;
use pg_typescript::import_map::{make_import_map, ImportMap};
use pg_typescript::loader::{
    set_loader_context_with_inline, InlineModules, LoaderContext, PgModuleLoader,
};
use pg_typescript::module_store::HashMapModuleStore;
use pg_typescript::permissions::PermissionRaw;
use pg_typescript::plhandler::{
    check_verdicts, enforce_import_map_cap, format_import_urls, prepare_function, prepare_inline,
    read_import_map, read_inline_import_map, read_max_imports_cap, requested_url_list, ProcInfo,
    SessionSettings,
};

fn no_permissions() -> PermissionRaw {
    PermissionRaw {
        read: None,
        write: None,
        net: None,
        env: None,
        run: None,
        ffi: None,
        sys: None,
        import: None,
    }
}

fn session() -> SessionSettings {
    SessionSettings {
        import_map: None,
        max_imports: None,
        allow: no_permissions(),
        max_allow: no_permissions(),
        allow_pg_execute: None,
        max_allow_pg_execute: None,
    }
}

fn bytes(text: &str) -> Option<Vec<u8>> {
    Some(text.as_bytes().to_vec())
}

fn config(entries: &[&str]) -> Option<Vec<String>> {
    Some(entries.iter().map(|e| e.to_string()).collect())
}

fn function(source: &str, settings: &[&str]) -> ProcInfo {
    ProcInfo {
        oid: 42,
        source: source.to_string(),
        arg_names: vec![Some("a".to_string()), None],
        nargs: 2,
        config: config(settings),
    }
}

fn artifact(source: &str, import_map: &ImportMap) -> ModuleArtifact {
    ModuleInputs {
        cache_oid: 1,
        source,
        param_names: &vec!["a".to_string(), "b".to_string()],
        import_map,
        specifier_prefix: "fn",
    }
    .prepare()
}

#[test]
fn normalize_syntax_error_line_is_stable() {
    let first_line = normalize_syntax_error_line(
        "Uncaught SyntaxError: Expression expected at file:///pg_typescript/fn_123_abcdeffedcba1234.ts:4:13",
    );
    assert_eq!(
        first_line,
        "Expression expected at file:///pg_typescript/input.ts:4:13"
    );
}

#[test]
fn format_module_load_error_recognizes_syntax_without_uncaught_prefix() {
    let msg = "Expression expected at file:///pg_typescript/fn_1573d7cbfe76600e.ts:4:13\n\n  const x = ;\n            ~";
    assert_eq!(
        format_module_load_error(msg),
        "pg_typescript: syntax error: Expression expected at file:///pg_typescript/input.ts:4:13"
    );
}

#[test]
fn assemble_no_imports_no_params() {
    let out = assemble_module("return 42;", &ImportMap::new(), "");
    assert_eq!(out, "\nexport default async function() {\nreturn 42;\n}\n");
}

#[test]
fn assemble_with_params() {
    let out = assemble_module("return a + b;", &ImportMap::new(), "a, b");
    assert_eq!(
        out,
        "\nexport default async function(a, b) {\nreturn a + b;\n}\n"
    );
}

#[test]
fn assemble_with_import() {
    let map = make_import_map(&[("math", "https://esm.sh/math@1")]);
    let out = assemble_module("return math.add(1, 2);", &map, "");
    assert!(out.contains("import * as math from \"math\";"));
    assert!(out.contains("export default async function()"));
    assert!(out.contains("return math.add(1, 2);"));
}

#[test]
fn assembled_modules_import_every_key() {
    let map = make_import_map(&[("a", "https://esm.sh/a"), ("b", "https://esm.sh/b")]);
    assert_eq!(
        assemble_module("x", &map, "p"),
        "import * as a from \"a\";\nimport * as b from \"b\";\n\nexport default async function(p) {\nx\n}\n"
    );
}

#[test]
fn other_load_errors_are_reported_in_full() {
    assert_eq!(
        format_module_load_error("module not cached: x\nmore"),
        "pg_typescript: module load error: module not cached: x\nmore"
    );
    assert_eq!(
        format_module_load_error("Uncaught SyntaxError: bad\r\nmore"),
        "pg_typescript: syntax error: bad"
    );
    assert_eq!(format_module_load_error(""), "pg_typescript: module load error: ");
    assert_eq!(normalize_syntax_error_line("plain"), "plain");
    assert_eq!(
        normalize_syntax_error_line("at file:///pg_typescript/fn_1"),
        "at file:///pg_typescript/fn_1"
    );
}

#[test]
fn syntax_errors_hide_generated_names() {
    let one = artifact("const x = ;", &ImportMap::new());
    let two = artifact("const y = ;", &ImportMap::new());
    assert_ne!(one.specifier, two.specifier);
    let line = |a: &ModuleArtifact| {
        normalize_syntax_error_line(&format!("Unexpected token at {}:3:11", a.specifier))
    };
    assert_eq!(line(&one), "Unexpected token at file:///pg_typescript/input.ts:3:11");
    assert_eq!(line(&one), line(&two));
}

#[test]
fn parameters_without_a_name_are_numbered() {
    let names = [Some("a".to_string()), None, Some(String::new())];
    assert_eq!(build_param_names(&names, 5), vec!["a", "_1", "_2", "_3", "_4"]);
    assert_eq!(build_param_names(&names, 1), vec!["a"]);
    assert!(build_param_names(&names, 0).is_empty());
}

#[test]
fn texts_hash_as_the_standard_hasher_has_it() {
    for text in ["", "a", "return 42;", "h\u{e9}llo \u{1f600}", "0123456789abcdef0123456789"] {
        let mut hasher = DefaultHasher::new();
        text.hash(&mut hasher);
        assert_eq!(hash_str(text), hasher.finish());
    }
}

#[test]
fn artifacts_are_named_by_their_hash() {
    let map = make_import_map(&[("math", "https://esm.sh/math@1")]);
    let a = artifact("return 1;", &map);
    assert_eq!(a.source_hash, hash_str(&a.module_source));
    assert_eq!(
        a.specifier,
        format!("file:///pg_typescript/fn_{:016x}.ts", a.source_hash)
    );
    assert!(a.module_source.contains("async function(a, b)"));
    assert_eq!(a.import_map, map);
    assert_eq!(a.cache_oid, 1);
    assert_eq!(artifact("return 1;", &map).specifier, a.specifier);
}

#[test]
fn generated_modules_depend_on_contents() {
    let one = make_import_map(&[("a", "https://esm.sh/a"), ("b", "https://esm.sh/b")]);
    let two = make_import_map(&[("b", "https://esm.sh/b"), ("a", "https://esm.sh/a")]);
    let x = artifact("return 1;", &one);
    let y = artifact("return 1;", &two);
    assert_eq!(x.module_source, y.module_source);
    assert_eq!(x.source_hash, y.source_hash);
    assert_eq!(x.specifier, y.specifier);
}

#[test]
fn compiled_functions_are_found_again() {
    let one = artifact("return 1;", &ImportMap::new());
    let two = artifact("return 2;", &ImportMap::new());
    let mut cache: FnCache<&str> = FnCache::new();
    assert!(cache.get(&one).is_none());
    cache.insert(&one, "compiled");
    assert_eq!(cache.get(&one), Some(&"compiled"));
    assert!(cache.get(&two).is_none());
    let elsewhere = ModuleArtifact {
        cache_oid: 2,
        ..artifact("return 1;", &ImportMap::new())
    };
    assert!(cache.get(&elsewhere).is_none());
}

#[test]
fn generated_modules_are_loadable() {
    let a = artifact("return 1;", &ImportMap::new());
    let mut inline = InlineModules::new();
    inline.insert(a.specifier.clone(), a.module_source.clone());
    let mut slot: Option<LoaderContext<HashMapModuleStore>> = None;
    let guard = set_loader_context_with_inline(
        &mut slot,
        a.cache_oid,
        ImportMap::new(),
        HashMapModuleStore::new(),
        inline,
    );
    let specifier = PgModuleLoader.resolve(slot.as_ref(), &a.specifier, ".").unwrap();
    assert_eq!(specifier.as_str(), a.specifier);
    let loaded = PgModuleLoader.load(slot.as_ref(), specifier.as_str()).ok().unwrap();
    assert_eq!(loaded.source, a.module_source);
    assert!(loaded.transpile);
    guard.release(&mut slot);
    assert!(slot.is_none());
}

#[test]
fn import_caps() {
    let map = make_import_map(&[
        ("a", "https://esm.sh/z"),
        ("b", "https://deno.land/x"),
        ("c", "https://esm.sh/z"),
        ("d", "https://esm.sh/b"),
    ]);
    assert_eq!(
        requested_url_list(&map),
        vec!["https://deno.land/x", "https://esm.sh/b", "https://esm.sh/z"]
    );
    assert_eq!(enforce_import_map_cap(&map, &ImportUrlCap::AllowAll, "s"), Ok(()));
    let cap = ImportUrlCap::AllowList(vec!["https://esm.sh/".to_string()]);
    assert_eq!(
        enforce_import_map_cap(&map, &cap, "function setting typescript.import_map"),
        Err("function setting typescript.import_map cannot be fulfilled by \
             GUC typescript.max_imports: requested \
             [https://deno.land/x,https://esm.sh/b,https://esm.sh/z] \
             includes disallowed values [https://deno.land/x]"
            .to_string())
    );
    let broken = make_import_map(&[("a", "::")]);
    assert!(enforce_import_map_cap(&broken, &cap, "s").is_err());
    assert_eq!(enforce_import_map_cap(&ImportMap::new(), &ImportUrlCap::Deny, "s"), Ok(()));
}

#[test]
fn verdicts() {
    let urls = vec!["u".to_string(), "v".to_string()];
    assert_eq!(check_verdicts(&urls, &vec![Ok(true), Ok(true)], "s"), Ok(()));
    assert_eq!(
        check_verdicts(&urls, &vec![Ok(false), Err("bad".to_string())], "s"),
        Err("bad".to_string())
    );
    assert_eq!(
        check_verdicts(&urls, &vec![Ok(true), Ok(false)], "s"),
        Err("s cannot be fulfilled by GUC typescript.max_imports: requested [u,v] includes disallowed values [v]".to_string())
    );
    assert_eq!(format_import_urls(&urls), "[u,v]");
}

#[test]
fn import_maps_are_read_from_settings() {
    let json = r#"{"imports":{"lodash":"https://esm.sh/lodash@4"}}"#;
    let setting = format!("typescript.import_map={json}");
    let (map, cap) = read_import_map(&config(&[&setting]), bytes("https://esm.sh")).unwrap();
    assert_eq!(map.get("lodash").map(|u| u.as_str()), Some("https://esm.sh/lodash@4"));
    assert_eq!(cap, ImportUrlCap::AllowList(vec!["https://esm.sh/".to_string()]));
    let (map, cap) = read_inline_import_map(bytes(json), None).unwrap();
    assert_eq!(map.len(), 1);
    assert_eq!(cap, ImportUrlCap::AllowAll);
    let err = read_inline_import_map(bytes(json), bytes("off")).unwrap_err();
    assert!(err.contains("GUC typescript.import_map cannot be fulfilled"), "err={err}");
    assert!(read_import_map(&None, None).unwrap().0.is_empty());
    assert!(read_max_imports_cap(bytes("ftp://x")).is_err());
}

#[test]
fn validation_and_execution_agree() {
    let json = r#"{"imports":{"b":"https://esm.sh/b","a":"https://esm.sh/a"}}"#;
    let setting = format!("typescript.import_map={json}");
    let proc = function("return a;", &[&setting, "typescript.allow_pg_execute=on"]);
    let validated = prepare_function(&proc, session()).ok().unwrap();
    let other = SessionSettings {
        max_imports: bytes("https://esm.sh/"),
        max_allow_pg_execute: bytes("off"),
        ..session()
    };
    let called = prepare_function(&proc, other).ok().unwrap();
    assert_eq!(validated.artifact.specifier, called.artifact.specifier);
    assert_eq!(validated.artifact.module_source, called.artifact.module_source);
    assert_eq!(validated.artifact.cache_oid, 42);
    assert!(validated.pg_execute);
    assert!(!called.pg_execute);
    assert!(validated.needs_fetch());
    assert!(validated.artifact.module_source.contains("async function(a, _1)"));
}

#[test]
fn errors_of_a_run_are_reported_in_order() {
    let report = |settings: &[&str], s: SessionSettings| {
        prepare_function(&function("", settings), s).err().unwrap()
    };
    assert!(report(
        &["typescript.import_map={", "typescript.allow_net=,"],
        session()
    )
    .contains("pg_typescript: invalid import_map JSON"));
    assert_eq!(
        report(
            &["typescript.allow_net=,", "typescript.allow_pg_execute=maybe"],
            session()
        ),
        "pg_typescript: invalid empty permission list in function setting typescript.allow_net"
    );
    assert!(report(&["typescript.allow_pg_execute=maybe"], session())
        .contains("function setting typescript.allow_pg_execute"));
    let broken_cap = SessionSettings { max_imports: bytes("ftp://x"), ..session() };
    assert!(report(&["typescript.import_map={"], broken_cap).contains("unsupported scheme"));
}

#[test]
fn inline_blocks_use_the_session() {
    let settings = SessionSettings {
        import_map: bytes(r#"{"imports":{"m":"https://esm.sh/m"}}"#),
        allow: PermissionRaw { net: bytes("example.com"), ..no_permissions() },
        allow_pg_execute: bytes("on"),
        ..session()
    };
    let run = prepare_inline("const x = 1;", settings).ok().unwrap();
    assert_eq!(run.artifact.cache_oid, DO_BLOCK_OID);
    assert!(run.artifact.specifier.starts_with("file:///pg_typescript/do_"));
    assert_eq!(run.permissions.allow_net, Some(vec!["example.com".to_string()]));
    assert!(run.pg_execute);
    assert!(run.needs_fetch());
    let bare = prepare_inline("", session()).ok().unwrap();
    assert!(!bare.needs_fetch());
    assert!(!bare.pg_execute);
    assert_eq!(bare.max_imports, ImportUrlCap::AllowAll);
}
