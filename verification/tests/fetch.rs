use std::cell::RefCell;
use std::sync::Arc;

use deno_error::JsErrorBox;
use deno_graph::source::{
    LoadError, LoadFuture, LoadOptions, LoadResponse, Loader, ResolutionKind, ResolveError,
    Resolver,
};
use deno_graph::{BuildOptions, GraphKind, ModuleGraph};

use pg_typescript::error::ErrorClass;
use pg_typescript::fetch::{
    begin_prefetch, load_step, module_response, Fetcher, HashMapFetcher, LoadStep, PrefetchLoader,
};
use pg_typescript::guc::ImportUrlCap;
use pg_typescript::import_map::{make_import_map, ImportMap};
use pg_typescript::loader::ImportMapResolver;
use pg_typescript::module_store::{HashMapModuleStore, ModuleStore};
use pg_typescript::specifier::ModuleSpecifier;

struct GraphLoader<'a> {
    prefetch: PrefetchLoader<'a, HashMapFetcher>,
    store: RefCell<&'a mut HashMapModuleStore>,
}

impl Loader for GraphLoader<'_> {
    fn load(&self, specifier: &deno_graph::ModuleSpecifier, _options: LoadOptions) -> LoadFuture {
        let mut store = self.store.borrow_mut();
        let result = match self.prefetch.load_module(&mut **store, specifier.as_str()) {
            Ok(response) => Ok(Some(LoadResponse::Module {
                content: Arc::from(response.content),
                mtime: None,
                specifier: deno_graph::ModuleSpecifier::parse(&response.specifier).unwrap(),
                maybe_headers: None,
            })),
            Err(e) => Err(LoadError::Other(Arc::new(JsErrorBox::generic(e.message)))),
        };
        Box::pin(std::future::ready(result))
    }
}

#[derive(Debug)]
struct GraphResolver<'a> {
    import_map: &'a ImportMap,
}

impl Resolver for GraphResolver<'_> {
    fn resolve(
        &self,
        specifier_text: &str,
        referrer_range: &deno_graph::Range,
        _kind: ResolutionKind,
    ) -> Result<deno_graph::ModuleSpecifier, ResolveError> {
        let referrer = ModuleSpecifier::parse(referrer_range.specifier.as_str()).unwrap();
        ImportMapResolver::new(self.import_map)
            .resolve_from_dependency(specifier_text, &referrer)
            .map(|s| deno_graph::ModuleSpecifier::parse(s.as_str()).unwrap())
            .map_err(|e| ResolveError::from_err(JsErrorBox::generic(e.message)))
    }
}

fn fetch_and_cache(
    fn_oid: u32,
    import_map: &ImportMap,
    store: &mut HashMapModuleStore,
    fetcher: &HashMapFetcher,
    max_imports: &ImportUrlCap,
) -> Result<(), String> {
    let roots = begin_prefetch(fn_oid, import_map, store)?
        .iter()
        .map(|root| deno_graph::ModuleSpecifier::parse(root.as_str()).unwrap())
        .collect();
    let resolver = GraphResolver { import_map };
    let loader = GraphLoader {
        prefetch: PrefetchLoader::new(fn_oid, fetcher, max_imports),
        store: RefCell::new(store),
    };
    let mut graph = ModuleGraph::new(GraphKind::CodeOnly);
    tokio::runtime::Builder::new_current_thread()
        .build()
        .unwrap()
        .block_on(graph.build(
            roots,
            Vec::new(),
            &loader,
            BuildOptions {
                resolver: Some(&resolver),
                skip_dynamic_deps: true,
                ..Default::default()
            },
        ));
    graph.valid().map_err(|e| e.to_string())
}

fn make_fetcher(entries: &[(&str, &str)]) -> HashMapFetcher {
    let mut fetcher = HashMapFetcher::new();
    for (url, source) in entries {
        fetcher.insert(url, source);
    }
    fetcher
}

#[test]
fn fetch_single_module() {
    let fetcher = make_fetcher(&[(
        "https://esm.sh/lodash@4",
        "export const add = (a, b) => a + b;",
    )]);
    let mut store = HashMapModuleStore::new();

    fetch_and_cache(
        42,
        &make_import_map(&[("lodash", "https://esm.sh/lodash@4")]),
        &mut store,
        &fetcher,
        &ImportUrlCap::AllowAll,
    )
    .unwrap();

    assert_eq!(
        store.load(42, "https://esm.sh/lodash@4"),
        Ok(Some("export const add = (a, b) => a + b;".to_string()))
    );
}

#[test]
fn fetch_clears_stale_entries() {
    let fetcher = make_fetcher(&[("https://esm.sh/lodash@4", "new source")]);
    let mut store = HashMapModuleStore::new();
    store.write(42, "https://esm.sh/stale", "old");

    let result = fetch_and_cache(
        42,
        &make_import_map(&[("lodash", "https://esm.sh/lodash@4")]),
        &mut store,
        &fetcher,
        &ImportUrlCap::AllowAll,
    );
    result.unwrap();

    assert_eq!(store.load(42, "https://esm.sh/stale"), Ok(None));
    assert!(store.load(42, "https://esm.sh/lodash@4").unwrap().is_some());
}

#[test]
fn fetch_does_not_clear_other_oid() {
    let fetcher = make_fetcher(&[("https://esm.sh/lodash@4", "source")]);
    let mut store = HashMapModuleStore::new();
    store.write(99, "https://esm.sh/other", "keep me");

    fetch_and_cache(
        42,
        &make_import_map(&[("lodash", "https://esm.sh/lodash@4")]),
        &mut store,
        &fetcher,
        &ImportUrlCap::AllowAll,
    )
    .unwrap();

    assert_eq!(
        store.load(99, "https://esm.sh/other"),
        Ok(Some("keep me".to_string()))
    );
}

#[test]
fn fetch_transitive_dep() {
    let fetcher = make_fetcher(&[
        ("https://esm.sh/pkg@1", "export { x } from './utils.js';"),
        ("https://esm.sh/utils.js", "export const x = 1;"),
    ]);
    let mut store = HashMapModuleStore::new();

    fetch_and_cache(
        0,
        &make_import_map(&[("pkg", "https://esm.sh/pkg@1")]),
        &mut store,
        &fetcher,
        &ImportUrlCap::AllowAll,
    )
    .unwrap();

    assert!(store.load(0, "https://esm.sh/pkg@1").unwrap().is_some());
    assert!(store.load(0, "https://esm.sh/utils.js").unwrap().is_some());
}

#[test]
fn fetch_side_effect_import() {
    let fetcher = make_fetcher(&[
        (
            "https://esm.sh/pkg@1",
            "import './side_effect.js'; export const x = 1;",
        ),
        ("https://esm.sh/side_effect.js", "globalThis.side = true;"),
    ]);
    let mut store = HashMapModuleStore::new();

    fetch_and_cache(
        0,
        &make_import_map(&[("pkg", "https://esm.sh/pkg@1")]),
        &mut store,
        &fetcher,
        &ImportUrlCap::AllowAll,
    )
    .unwrap();

    assert!(store
        .load(0, "https://esm.sh/side_effect.js")
        .unwrap()
        .is_some());
}

#[test]
fn fetch_export_all_dep() {
    let fetcher = make_fetcher(&[
        ("https://esm.sh/pkg@1", "export * from './utils.js';"),
        ("https://esm.sh/utils.js", "export const x = 1;"),
    ]);
    let mut store = HashMapModuleStore::new();

    fetch_and_cache(
        0,
        &make_import_map(&[("pkg", "https://esm.sh/pkg@1")]),
        &mut store,
        &fetcher,
        &ImportUrlCap::AllowAll,
    )
    .unwrap();

    assert!(store.load(0, "https://esm.sh/utils.js").unwrap().is_some());
}

#[test]
fn fetch_multiline_import() {
    let fetcher = make_fetcher(&[
        (
            "https://esm.sh/pkg@1",
            "import {\n  x,\n} from './utils.js';\nexport { x };",
        ),
        ("https://esm.sh/utils.js", "export const x = 1;"),
    ]);
    let mut store = HashMapModuleStore::new();

    fetch_and_cache(
        0,
        &make_import_map(&[("pkg", "https://esm.sh/pkg@1")]),
        &mut store,
        &fetcher,
        &ImportUrlCap::AllowAll,
    )
    .unwrap();

    assert!(store.load(0, "https://esm.sh/utils.js").unwrap().is_some());
}

#[test]
fn fetch_root_relative_dep() {
    let fetcher = make_fetcher(&[
        ("https://esm.sh/pkg/index.js", "export { x } from '/shared.js';"),
        ("https://esm.sh/shared.js", "export const x = 1;"),
    ]);
    let mut store = HashMapModuleStore::new();

    fetch_and_cache(
        0,
        &make_import_map(&[("pkg", "https://esm.sh/pkg/index.js")]),
        &mut store,
        &fetcher,
        &ImportUrlCap::AllowAll,
    )
    .unwrap();

    assert!(store.load(0, "https://esm.sh/shared.js").unwrap().is_some());
}

#[test]
fn fetch_transitive_bare_specifier_from_import_map() {
    let fetcher = make_fetcher(&[
        ("https://esm.sh/pkg@1", "export { z } from 'zod';"),
        ("https://esm.sh/zod@3", "export const z = 3;"),
    ]);
    let mut store = HashMapModuleStore::new();

    fetch_and_cache(
        0,
        &make_import_map(&[
            ("pkg", "https://esm.sh/pkg@1"),
            ("zod", "https://esm.sh/zod@3"),
        ]),
        &mut store,
        &fetcher,
        &ImportUrlCap::AllowAll,
    )
    .unwrap();

    assert!(store.load(0, "https://esm.sh/zod@3").unwrap().is_some());
}

#[test]
fn fetch_rejects_disallowed_transitive_url() {
    let fetcher = make_fetcher(&[
        (
            "https://esm.sh/pkg@1",
            "export { x } from 'https://deno.land/x/mod.ts';",
        ),
        ("https://deno.land/x/mod.ts", "export const x = 1;"),
    ]);
    let mut store = HashMapModuleStore::new();
    let cap = ImportUrlCap::AllowList(vec!["https://esm.sh/".to_string()]);

    let err = fetch_and_cache(
        0,
        &make_import_map(&[("pkg", "https://esm.sh/pkg@1")]),
        &mut store,
        &fetcher,
        &cap,
    )
    .unwrap_err();

    assert!(
        err.contains("not allowed by GUC typescript.max_imports"),
        "err={err}"
    );
}

#[test]
fn prefetch_starts_over() {
    let mut store = HashMapModuleStore::new();
    store.write(1, "https://esm.sh/old", "old");
    store.write(2, "https://esm.sh/old", "other");
    let roots = begin_prefetch(
        1,
        &make_import_map(&[("a", "https://ESM.sh/a"), ("b", "http://esm.sh/b")]),
        &mut store,
    )
    .unwrap();
    assert_eq!(roots.len(), 2);
    assert_eq!(roots[0].as_str(), "https://esm.sh/a");
    assert_eq!(roots[1].as_str(), "http://esm.sh/b");
    assert_eq!(store.load(1, "https://esm.sh/old"), Ok(None));
    assert_eq!(store.load(2, "https://esm.sh/old"), Ok(Some("other".to_string())));
    let err = begin_prefetch(1, &make_import_map(&[("a", "::")]), &mut store).unwrap_err();
    assert!(err.contains("invalid import URL '::' in import_map: "), "err={err}");
}

#[test]
fn modules_are_fetched_once() {
    let mut store = HashMapModuleStore::new();
    let first = make_fetcher(&[("https://esm.sh/a", "one")]);
    let second = make_fetcher(&[("https://esm.sh/a", "two")]);
    let cap = ImportUrlCap::AllowAll;
    let response = PrefetchLoader::new(5, &first, &cap)
        .load_module(&mut store, "https://esm.sh/a")
        .ok()
        .unwrap();
    assert_eq!(response.specifier, "https://esm.sh/a");
    assert_eq!(response.content, b"one".to_vec());
    let response = PrefetchLoader::new(5, &second, &cap)
        .load_module(&mut store, "https://esm.sh/a")
        .ok()
        .unwrap();
    assert_eq!(response.content, b"one".to_vec());
    assert_eq!(store.load(5, "https://esm.sh/a"), Ok(Some("one".to_string())));
    let kept = PrefetchLoader::new(6, &second, &cap).keep_fetched(&mut store, "u", "s");
    assert_eq!(kept.content, b"s".to_vec());
    assert_eq!(store.load(6, "u"), Ok(Some("s".to_string())));
}

#[test]
fn refused_modules_are_not_stored() {
    let mut store = HashMapModuleStore::new();
    let fetcher = make_fetcher(&[("https://esm.sh/a", "one")]);
    let cap = ImportUrlCap::Deny;
    let err = PrefetchLoader::new(5, &fetcher, &cap)
        .load_module(&mut store, "https://esm.sh/a")
        .err()
        .unwrap();
    assert_eq!(
        err.message,
        "import URL 'https://esm.sh/a' is not allowed by GUC typescript.max_imports"
    );
    assert_eq!(err.class, ErrorClass::Generic);
    assert_eq!(store.load(5, "https://esm.sh/a"), Ok(None));
}

#[test]
fn refused_modules_are_not_fetched() {
    let mut store = HashMapModuleStore::new();
    let fetcher = HashMapFetcher::new();
    let cap = ImportUrlCap::AllowList(vec!["https://esm.sh/".to_string()]);
    let loader = PrefetchLoader::new(5, &fetcher, &cap);
    // Nothing is served, and a refused URL is the error of the cap all the same.
    let err = loader.load_module(&mut store, "https://deno.land/x").err().unwrap();
    assert_eq!(
        err.message,
        "import URL 'https://deno.land/x' is not allowed by GUC typescript.max_imports"
    );
    assert!(loader.load_module(&mut store, "file:///x").is_err());
}

#[test]
fn modules_without_a_response_have_no_answer() {
    let mut store = HashMapModuleStore::new();
    store.write(5, "https://esm.sh/stored", "old");
    let fetcher = make_fetcher(&[("https://esm.sh/a", "one")]);
    let cap = ImportUrlCap::AllowList(vec!["https://esm.sh/".to_string()]);
    let loader = PrefetchLoader::new(5, &fetcher, &cap);
    assert!(fetcher.has_response("https://esm.sh/a"));
    assert!(!fetcher.has_response("https://esm.sh/b"));
    assert!(loader.try_load_module(&mut store, "https://esm.sh/b").is_none());
    assert_eq!(store.load(5, "https://esm.sh/b"), Ok(None));
    let fetched = loader.try_load_module(&mut store, "https://esm.sh/a").unwrap().ok().unwrap();
    assert_eq!(fetched.content, b"one".to_vec());
    assert_eq!(store.load(5, "https://esm.sh/a"), Ok(Some("one".to_string())));
    let found = loader.try_load_module(&mut store, "https://esm.sh/stored").unwrap().ok().unwrap();
    assert_eq!(found.content, b"old".to_vec());
    assert!(loader.try_load_module(&mut store, "https://evil.sh/a").unwrap().is_err());
}

#[test]
fn load_steps() {
    assert!(matches!(load_step("u", Ok(true), Ok(None)), Ok(LoadStep::Fetch)));
    assert!(matches!(
        load_step("u", Ok(true), Ok(Some("s".to_string()))),
        Ok(LoadStep::Serve(s)) if s == "s"
    ));
    assert_eq!(
        load_step("u", Err("bad".to_string()), Ok(None)).err().unwrap().message,
        "pg_typescript: bad"
    );
    assert_eq!(
        load_step("u", Ok(true), Err("broken".to_string())).err().unwrap().message,
        "pg_typescript: error loading u: broken"
    );
    assert_eq!(module_response("u", "\u{e9}").content, vec![0xc3, 0xa9]);
    assert_eq!(make_fetcher(&[("u", "s")]).fetch("u"), "s");
}
