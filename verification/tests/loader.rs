use pg_typescript::error::ErrorClass;
use pg_typescript::import_map::make_import_map;
use pg_typescript::loader::{
    load_module_source, loaded_source, resolve_from_dep, resolve_from_main, set_loader_context,
    set_loader_context_with_inline, should_transpile, transpiled_given, DependencyTarget,
    ImportMapResolver, InlineModules, LoaderContext, PgModuleLoader,
};
use pg_typescript::module_store::{HashMapModuleStore, ModuleStore};
use pg_typescript::resolve::EsmModuleLoader;
use pg_typescript::specifier::ModuleSpecifier;

type Slot = Option<LoaderContext<HashMapModuleStore>>;

/// The context of a call with the given import map entries and store.
fn make_ctx(map_entries: &[(&str, &str)], store: HashMapModuleStore) -> Slot {
    let mut slot: Slot = None;
    set_loader_context(&mut slot, 0, make_import_map(map_entries), store);
    slot
}

#[test]
fn load_hit() {
    let mut store = HashMapModuleStore::new();
    store.write(0, "https://esm.sh/lodash@4", "export default 42;");
    let ctx = make_ctx(&[("lodash", "https://esm.sh/lodash@4")], store);

    assert_eq!(
        load_module_source(ctx.as_ref(), "https://esm.sh/lodash@4"),
        Ok(Some("export default 42;".to_string()))
    );
}

#[test]
fn load_miss() {
    let ctx = make_ctx(&[], HashMapModuleStore::new());

    assert_eq!(load_module_source(ctx.as_ref(), "https://esm.sh/missing"), Ok(None));
}

#[test]
fn load_no_context() {
    let slot: Slot = None;
    let result = load_module_source(slot.as_ref(), "https://esm.sh/x");
    assert!(result.is_err());
}

#[test]
fn resolve_main_bare_in_map() {
    let ctx = make_ctx(
        &[("lodash", "https://esm.sh/lodash@4")],
        HashMapModuleStore::new(),
    );

    let url = resolve_from_main(ctx.as_ref(), "lodash").unwrap();
    assert_eq!(url.as_str(), "https://esm.sh/lodash@4");
}

#[test]
fn resolve_main_bare_not_in_map() {
    let ctx = make_ctx(&[], HashMapModuleStore::new());

    assert!(resolve_from_main(ctx.as_ref(), "lodash").is_err());
}

#[test]
fn resolve_main_relative_rejected() {
    let ctx = make_ctx(&[], HashMapModuleStore::new());

    assert!(resolve_from_main(ctx.as_ref(), "./foo").is_err());
    assert!(resolve_from_main(ctx.as_ref(), "../bar").is_err());
    assert!(resolve_from_main(ctx.as_ref(), "/abs").is_err());
}

#[test]
fn resolve_main_absolute_declared() {
    let ctx = make_ctx(
        &[("lodash", "https://esm.sh/lodash@4")],
        HashMapModuleStore::new(),
    );

    let url = resolve_from_main(ctx.as_ref(), "https://esm.sh/lodash@4").unwrap();
    assert_eq!(url.as_str(), "https://esm.sh/lodash@4");
}

#[test]
fn resolve_main_absolute_undeclared() {
    let ctx = make_ctx(&[], HashMapModuleStore::new());

    assert!(resolve_from_main(ctx.as_ref(), "https://esm.sh/undeclared").is_err());
}

#[test]
fn resolve_dep_absolute_passthrough() {
    let ctx = make_ctx(&[], HashMapModuleStore::new());

    let url = resolve_from_dep(
        ctx.as_ref(),
        "https://esm.sh/other@1",
        "https://esm.sh/pkg/index.js",
    )
    .unwrap();
    assert_eq!(url.as_str(), "https://esm.sh/other@1");
}

#[test]
fn resolve_dep_relative() {
    let ctx = make_ctx(&[], HashMapModuleStore::new());

    let url =
        resolve_from_dep(ctx.as_ref(), "./utils.js", "https://esm.sh/pkg/index.js").unwrap();
    assert_eq!(url.as_str(), "https://esm.sh/pkg/utils.js");
}

#[test]
fn resolve_dep_relative_parent() {
    let ctx = make_ctx(&[], HashMapModuleStore::new());

    let url =
        resolve_from_dep(ctx.as_ref(), "../shared.js", "https://esm.sh/pkg/sub/index.js").unwrap();
    assert_eq!(url.as_str(), "https://esm.sh/pkg/shared.js");
}

#[test]
fn resolve_dep_bare_in_map() {
    let ctx = make_ctx(
        &[("zod", "https://esm.sh/zod@3")],
        HashMapModuleStore::new(),
    );

    let url = resolve_from_dep(ctx.as_ref(), "zod", "https://esm.sh/some-dep/index.js").unwrap();
    assert_eq!(url.as_str(), "https://esm.sh/zod@3");
}

#[test]
fn resolve_dep_bare_not_in_map() {
    let ctx = make_ctx(&[], HashMapModuleStore::new());

    assert!(resolve_from_dep(ctx.as_ref(), "unknown", "https://esm.sh/pkg/index.js").is_err());
}

#[test]
fn resolve_file_root_allowed() {
    let loader = PgModuleLoader;
    let slot: Slot = None;
    let url = loader
        .resolve(
            slot.as_ref(),
            "file:///pg_typescript/fn_1_deadbeefdeadbeef.ts",
            ".",
        )
        .unwrap();
    assert_eq!(
        url.as_str(),
        "file:///pg_typescript/fn_1_deadbeefdeadbeef.ts"
    );
}

#[test]
fn resolve_file_from_function_rejected() {
    let loader = PgModuleLoader;
    let slot: Slot = None;
    let err = loader
        .resolve(
            slot.as_ref(),
            "file:///pg_typescript/fn_2_deadbeefdeadbeef.ts",
            "file:///pg_typescript/fn_1_deadbeefdeadbeef.ts",
        )
        .unwrap_err();
    assert!(
        err.to_string().contains("file:// imports are not allowed"),
        "unexpected error: {}",
        err.to_string()
    );
}

#[test]
fn resolution_depends_on_the_referrer() {
    let loader = PgModuleLoader;
    let ctx = make_ctx(&[("a", "https://esm.sh/a")], HashMapModuleStore::new());
    let main = "file:///pg_typescript/fn_0000000000000000.ts";
    assert_eq!(
        loader.resolve(ctx.as_ref(), "a", main).unwrap().as_str(),
        "https://esm.sh/a"
    );
    assert!(loader.resolve(ctx.as_ref(), "https://esm.sh/b", main).is_err());
    assert_eq!(
        loader
            .resolve(ctx.as_ref(), "https://esm.sh/b", "https://esm.sh/a")
            .unwrap()
            .as_str(),
        "https://esm.sh/b"
    );
    // A referrer that is no URL stands for the file root.
    assert_eq!(
        loader.resolve(ctx.as_ref(), "./x.js", ".").unwrap().as_str(),
        "file:///x.js"
    );
    let slot: Slot = None;
    assert_eq!(
        loader.resolve(slot.as_ref(), "a", main).unwrap_err().to_string(),
        "pg_typescript: no loader context set"
    );
}

#[test]
fn resolution_errors_are_exact() {
    let map = make_import_map(&[("bad", "http://[")]);
    let resolver = ImportMapResolver::new(&map);
    assert_eq!(
        resolver.main_target("./x").unwrap_err().to_string(),
        "pg_typescript: relative imports are not allowed in function body: './x'"
    );
    assert_eq!(
        resolver.main_target("x").unwrap_err().to_string(),
        "pg_typescript: 'x' not found in import map"
    );
    assert_eq!(
        resolver.main_target("http://x").unwrap_err().to_string(),
        "pg_typescript: 'http://x' is not declared in the import map"
    );
    assert_eq!(resolver.resolve_from_main("bad").unwrap_err().class, ErrorClass::Uri);
    assert!(matches!(
        resolver.dependency_target("../x"),
        Ok(DependencyTarget::Reference(r)) if r == "../x"
    ));
    assert!(matches!(
        resolver.dependency_target("bad"),
        Ok(DependencyTarget::Url(u)) if u == "http://["
    ));
}

#[test]
fn specifiers_are_taken_apart() {
    let s = ModuleSpecifier::parse("HTTPS://Example.com/a/b.TS?q#f").unwrap();
    assert_eq!(s.as_str(), "https://example.com/a/b.TS?q#f");
    assert_eq!(s.scheme, "https");
    assert_eq!(s.path, "/a/b.TS");
    assert_eq!(
        s.join("../c").unwrap().as_str(),
        "https://example.com/c"
    );
    assert!(ModuleSpecifier::parse("no url").is_err());
    assert_eq!(ModuleSpecifier::file_root().as_str(), "file:///");
}

#[test]
fn code_stays_on_http_modules() {
    let loader = PgModuleLoader;
    let ctx = make_ctx(&[("a", "https://esm.sh/a")], HashMapModuleStore::new());
    let main = "file:///pg_typescript/fn_0000000000000000.ts";
    let dependency = "https://esm.sh/a";
    for specifier in ["a", "http://x/y", "https://x/y", "/b", "./b", "../b", "//x/b", "/\\x"] {
        let s = loader.resolve(ctx.as_ref(), specifier, dependency).unwrap();
        assert!(s.scheme == "http" || s.scheme == "https", "{specifier}");
    }
    for specifier in [
        "file:///pg_typescript/fn_1.ts",
        "FILE:///pg_typescript/fn_1.ts",
        " file:///pg_typescript/fn_1.ts",
        "data:text/javascript,1",
        "node:fs",
    ] {
        assert!(loader.resolve(ctx.as_ref(), specifier, dependency).is_err(), "{specifier}");
        assert!(loader.resolve(ctx.as_ref(), specifier, main).is_err(), "{specifier}");
    }
    assert_eq!(loader.resolve(ctx.as_ref(), "a", main).unwrap().scheme, "https");
}

#[test]
fn modules_in_memory_go_first() {
    let mut store = HashMapModuleStore::new();
    store.write(7, "https://esm.sh/a", "stored");
    store.write(7, "https://esm.sh/b", "stored b");
    let mut inline = InlineModules::new();
    inline.insert("https://esm.sh/a".to_string(), "replaced".to_string());
    inline.insert("https://esm.sh/a".to_string(), "in memory".to_string());
    assert!(inline.get("https://esm.sh/b").is_none());
    let mut slot: Slot = None;
    let guard =
        set_loader_context_with_inline(&mut slot, 7, make_import_map(&[]), store, inline);
    assert_eq!(
        load_module_source(slot.as_ref(), "https://esm.sh/a"),
        Ok(Some("in memory".to_string()))
    );
    assert_eq!(
        load_module_source(slot.as_ref(), "https://esm.sh/b"),
        Ok(Some("stored b".to_string()))
    );
    guard.release(&mut slot);
    assert_eq!(
        load_module_source(slot.as_ref(), "https://esm.sh/a"),
        Err("no loader context set".to_string())
    );
}

/// A store whose every lookup fails.
struct BrokenStore;

impl ModuleStore for BrokenStore {
    fn load(&self, _fn_oid: u32, _url: &str) -> Result<Option<String>, String> {
        Err("broken".to_string())
    }

    fn write(&mut self, _fn_oid: u32, _url: &str, _source: &str) {}

    fn clear_for_fn(&mut self, _fn_oid: u32) {}
}

#[test]
fn failing_stores_are_reported() {
    let mut inline = InlineModules::new();
    inline.insert("https://esm.sh/a".to_string(), "in memory".to_string());
    let mut slot: Option<LoaderContext<BrokenStore>> = None;
    set_loader_context_with_inline(&mut slot, 7, make_import_map(&[]), BrokenStore, inline);
    assert_eq!(
        load_module_source(slot.as_ref(), "https://esm.sh/a"),
        Ok(Some("in memory".to_string()))
    );
    assert_eq!(
        load_module_source(slot.as_ref(), "https://esm.sh/b"),
        Err("broken".to_string())
    );
    assert_eq!(
        PgModuleLoader.load(slot.as_ref(), "https://esm.sh/b").err().unwrap().to_string(),
        "pg_typescript: error loading https://esm.sh/b: broken"
    );
}

#[test]
fn loading_reports_what_is_missing() {
    let loader = PgModuleLoader;
    let ctx = make_ctx(&[], HashMapModuleStore::new());
    assert_eq!(
        loader.load(ctx.as_ref(), "https://esm.sh/x").err().unwrap().to_string(),
        "pg_typescript: module not cached: https://esm.sh/x"
    );
    let slot: Slot = None;
    assert_eq!(
        loader.load(slot.as_ref(), "https://esm.sh/x").err().unwrap().to_string(),
        "pg_typescript: error loading https://esm.sh/x: no loader context set"
    );
    let loaded = loaded_source("https://esm.sh/x.ts", Ok(Some("s".to_string()))).ok().unwrap();
    assert_eq!(loaded.source, "s");
    assert!(loaded.transpile);
}

#[test]
fn typescript_is_transpiled() {
    assert!(should_transpile("node:fs"));
    assert!(should_transpile("https://esm.sh/a.ts"));
    assert!(should_transpile("https://esm.sh/a.MTS?x"));
    assert!(should_transpile("file:///pg_typescript/fn_1.tsx"));
    assert!(should_transpile("https://esm.sh/a.cts#x"));
    assert!(!should_transpile("https://esm.sh/a.js"));
    assert!(!should_transpile("a.ts"));
    assert!(!transpiled_given("a.ts", &Err("no url".to_string())));
}

#[test]
fn stores_keep_functions_apart() {
    let mut store = HashMapModuleStore::new();
    store.write(1, "u", "one");
    store.write(2, "u", "two");
    store.write(1, "u", "three");
    assert_eq!(store.load(1, "u"), Ok(Some("three".to_string())));
    store.clear_for_fn(1);
    assert_eq!(store.load(1, "u"), Ok(None));
    assert_eq!(store.load(2, "u"), Ok(Some("two".to_string())));
}

#[test]
fn esm_urls() {
    let mut loader = EsmModuleLoader::new();
    assert_eq!(loader.resolve_to_url("zod"), "https://esm.sh/zod");
    assert_eq!(loader.resolve_to_url("http://x/y"), "http://x/y");
    loader.pins.insert("lodash".to_string(), "4.17.21".to_string());
    assert_eq!(loader.resolve_to_url("lodash"), "https://esm.sh/lodash@4.17.21");
    assert_eq!(
        loader.resolve_to_url("lodash/chunk"),
        "https://esm.sh/lodash/chunk@4.17.21"
    );
    assert_eq!(loader.resolve_to_url("lodash-es"), "https://esm.sh/lodash-es");
}

#[test]
fn esm_resolution() {
    let loader = EsmModuleLoader::new();
    assert_eq!(loader.resolve("zod", "x").unwrap().as_str(), "https://esm.sh/zod");
    assert_eq!(
        loader.resolve("./b.js", "https://esm.sh/a/c.js").unwrap().as_str(),
        "https://esm.sh/a/b.js"
    );
    assert_eq!(loader.resolve("../b.js", "nothing").unwrap().as_str(), "file:///b.js");
    assert_eq!(loader.resolve("http://[", "x").unwrap_err().class, ErrorClass::Uri);
}

#[test]
fn resolvers_can_be_copied() {
    let map = make_import_map(&[("a", "https://esm.sh/a")]);
    let resolver = ImportMapResolver::new(&map);
    let copy = resolver;
    assert_eq!(
        copy.main_target("a").ok(),
        resolver.main_target("a").ok()
    );
    assert_eq!(copy.main_target("a").ok().as_deref(), Some("https://esm.sh/a"));
}
