//! Resolving the imports of a function's modules and loading their source.
use vstd::hash_map::StringHashMap;
use vstd::prelude::*;

use crate::error::{
    generic_error, js_result_view, uri_error, ErrorClass, JsError, JsErrorView,
};
use crate::guc::{import_url_error, valid_import_map};
use crate::import_map::{has_url, law_lookup, lemma_key_index, lookup, sorted_keys, ImportMap};
use crate::module_store::{stored, ModuleStore};
use crate::specifier::{
    begins_with_http, begins_with_path, has_http_scheme, url_join, url_parse, ModuleSpecifier,
    SpecifierView,
};
use crate::text::{
    chars_of, lower_spec, opt_view, result_view, starts_with, str_eq, string_of,
    to_ascii_lowercase,
};

verus! {

// ---------------------------------------------------------------------------
// Models
// ---------------------------------------------------------------------------

/// Is the specifier a path, absolute or relative?
pub open spec fn is_path(specifier: Seq<char>) -> bool {
    "/"@.is_prefix_of(specifier) || "./"@.is_prefix_of(specifier) || "../"@.is_prefix_of(specifier)
}

/// Is the specifier an `http` or `https` URL?
pub open spec fn is_http(specifier: Seq<char>) -> bool {
    begins_with_http(specifier)
}

/// Is the specifier a `file` URL?
pub open spec fn is_file(specifier: Seq<char>) -> bool {
    "file://"@.is_prefix_of(specifier)
}

/// The outcome of parsing a URL, its error one that JavaScript sees.
pub open spec fn js_parsed(parsed: Result<SpecifierView, Seq<char>>) -> Result<
    SpecifierView,
    JsErrorView,
> {
    match parsed {
        Ok(s) => Ok(s),
        Err(e) => Err(uri_error(e)),
    }
}

/// The URL that an import in the function body stands for. Everything must be
/// declared: a name is looked up in the import map, and an `http` or `https`
/// URL must be one of its URLs.
pub open spec fn main_target(entries: Seq<(Seq<char>, Seq<char>)>, specifier: Seq<char>) -> Result<
    Seq<char>,
    JsErrorView,
> {
    if is_path(specifier) {
        Err(
            generic_error(
                "pg_typescript: relative imports are not allowed in function body: '"@ + specifier
                    + "'"@,
            ),
        )
    } else {
        match lookup(entries, specifier) {
            Some(url) => Ok(url),
            None => if is_http(specifier) {
                if has_url(entries, specifier) {
                    Ok(specifier)
                } else {
                    Err(
                        generic_error(
                            "pg_typescript: '"@ + specifier
                                + "' is not declared in the import map"@,
                        ),
                    )
                }
            } else {
                Err(
                    generic_error("pg_typescript: '"@ + specifier + "' not found in import map"@),
                )
            },
        }
    }
}

/// What an import in a dependency stands for: a URL of its own, or a reference
/// against the URL of the module that imports it.
pub enum DependencyTargetView {
    Url(Seq<char>),
    Reference(Seq<char>),
}

/// What an import in a dependency stands for.
pub open spec fn dependency_target(
    entries: Seq<(Seq<char>, Seq<char>)>,
    specifier: Seq<char>,
) -> Result<DependencyTargetView, JsErrorView> {
    if is_http(specifier) {
        Ok(DependencyTargetView::Url(specifier))
    } else if is_path(specifier) {
        Ok(DependencyTargetView::Reference(specifier))
    } else {
        match lookup(entries, specifier) {
            Some(url) => Ok(DependencyTargetView::Url(url)),
            None => Err(
                generic_error("pg_typescript: '"@ + specifier + "' not found in import map"@),
            ),
        }
    }
}

/// The module that an import in the function body resolves to.
pub open spec fn main_resolution(
    entries: Seq<(Seq<char>, Seq<char>)>,
    specifier: Seq<char>,
) -> Result<SpecifierView, JsErrorView> {
    match main_target(entries, specifier) {
        Ok(url) => js_parsed(url_parse(url)),
        Err(e) => Err(e),
    }
}

/// The module that an import in a dependency resolves to.
pub open spec fn dependency_resolution(
    entries: Seq<(Seq<char>, Seq<char>)>,
    specifier: Seq<char>,
    referrer: Seq<char>,
) -> Result<SpecifierView, JsErrorView> {
    match dependency_target(entries, specifier) {
        Ok(DependencyTargetView::Url(url)) => js_parsed(url_parse(url)),
        Ok(DependencyTargetView::Reference(reference)) => js_parsed(url_join(referrer, reference)),
        Err(e) => Err(e),
    }
}

/// The base URL of a referrer; one that is no URL counts as the file root.
pub open spec fn base_of(referrer: Result<SpecifierView, Seq<char>>) -> Seq<char> {
    match referrer {
        Ok(s) => s.href,
        Err(_) => "file:///"@,
    }
}

/// Is the URL, in its serialized form, that of a module over `http` or `https`?
pub open spec fn is_http_module(url: Seq<char>) -> bool {
    url_parse(url) matches Ok(s) && s.href == url && has_http_scheme(s)
}

/// Is the referrer a module of a function, the generated one or a dependency,
/// and not the runtime itself?
pub open spec fn is_code(referrer: Seq<char>) -> bool {
    referrer != "."@ && (is_file(referrer) || is_http_module(referrer))
}

/// The error of a loader that is used outside a call.
pub open spec fn no_context() -> JsErrorView {
    generic_error("pg_typescript: no loader context set"@)
}

/// The module that an import resolves to, given the import map of the call, if
/// there is a call.
pub open spec fn resolution(
    entries: Option<Seq<(Seq<char>, Seq<char>)>>,
    specifier: Seq<char>,
    referrer: Seq<char>,
) -> Result<SpecifierView, JsErrorView> {
    if is_file(specifier) {
        if referrer != "."@ {
            Err(
                generic_error(
                    "pg_typescript: file:// imports are not allowed from function code: '"@
                        + specifier + "'"@,
                ),
            )
        } else {
            js_parsed(url_parse(specifier))
        }
    } else {
        match entries {
            None => Err(no_context()),
            Some(entries) => if is_file(referrer) {
                main_resolution(entries, specifier)
            } else {
                dependency_resolution(entries, specifier, base_of(url_parse(referrer)))
            },
        }
    }
}

/// The source of a module: one in memory goes before one in the store.
pub open spec fn module_source(
    inline_modules: Map<Seq<char>, Seq<char>>,
    modules: Map<(u32, Seq<char>), Seq<char>>,
    fn_oid: u32,
    url: Seq<char>,
) -> Option<Seq<char>> {
    if inline_modules.contains_key(url) {
        Some(inline_modules[url])
    } else {
        stored(modules, fn_oid, url)
    }
}

/// Does a path end in the extension, whatever the case of its letters?
pub open spec fn has_extension(path: Seq<char>, extension: Seq<char>) -> bool {
    path.len() >= extension.len() && lower_spec(path.skip(path.len() - extension.len()))
        == extension
}

/// Is a module to be transpiled, given what parsing made of its name? Those
/// built into Node are, and those whose path has an extension of TypeScript.
pub open spec fn transpiled(name: Seq<char>, parsed: Result<SpecifierView, Seq<char>>) -> bool {
    "node:"@.is_prefix_of(name) || (parsed matches Ok(s) && (has_extension(s.path, ".ts"@)
        || has_extension(s.path, ".tsx"@) || has_extension(s.path, ".mts"@) || has_extension(
        s.path,
        ".cts"@,
    )))
}

// ---------------------------------------------------------------------------
// The context of a call
// ---------------------------------------------------------------------------

/// Modules at hand in memory: one source for each specifier.
pub struct InlineModules {
    modules: StringHashMap<String>,
}

impl View for InlineModules {
    type V = Map<Seq<char>, Seq<char>>;

    closed spec fn view(&self) -> Map<Seq<char>, Seq<char>> {
        Map::new(
            |url: Seq<char>| self.modules@.contains_key(url),
            |url: Seq<char>| self.modules@[url]@,
        )
    }
}

impl InlineModules {
    /// No modules.
    pub fn new() -> (r: InlineModules)
        ensures
            r@ == Map::<Seq<char>, Seq<char>>::empty(),
    {
        let r = InlineModules { modules: StringHashMap::new() };
        assert(r@ =~= Map::<Seq<char>, Seq<char>>::empty());
        r
    }

    /// Sets the source of a module.
    pub fn insert(&mut self, specifier: String, source: String)
        ensures
            final(self)@ == old(self)@.insert(specifier@, source@),
    {
        self.modules.insert(specifier, source);
        assert(self@ =~= old(self)@.insert(specifier@, source@));
    }

    /// The source of a module.
    pub fn get(&self, specifier: &str) -> (r: Option<&String>)
        ensures
            match r {
                Some(source) => self@.contains_key(specifier@) && source@ == self@[specifier@],
                None => !self@.contains_key(specifier@),
            },
    {
        self.modules.get(specifier)
    }
}

/// What the loader works with during one call.
pub struct LoaderContext<S: ModuleStore> {
    pub fn_oid: u32,
    pub import_map: ImportMap,
    pub store: S,
    /// The modules at hand in memory.
    pub inline_modules: InlineModules,
}

/// The import map of the call, if there is a call.
pub open spec fn context_entries<S: ModuleStore>(ctx: Option<&LoaderContext<S>>) -> Option<
    Seq<(Seq<char>, Seq<char>)>,
> {
    match ctx {
        Some(ctx) => Some(ctx.import_map@),
        None => None,
    }
}

/// Stands for a context that is set; [`LoaderContextGuard::release`] clears it.
pub struct LoaderContextGuard;

impl LoaderContextGuard {
    /// Clears the context.
    pub fn release<S: ModuleStore>(self, slot: &mut Option<LoaderContext<S>>)
        ensures
            *final(slot) is None,
    {
        *slot = None;
    }
}

/// Sets the context of a call without modules in memory.
pub fn set_loader_context<S: ModuleStore>(
    slot: &mut Option<LoaderContext<S>>,
    fn_oid: u32,
    import_map: ImportMap,
    store: S,
) -> (r: LoaderContextGuard)
    ensures
        *final(slot) matches Some(ctx) && ctx.fn_oid == fn_oid && ctx.import_map == import_map
            && ctx.store == store && ctx.inline_modules@ == Map::<Seq<char>, Seq<char>>::empty(),
{
    set_loader_context_with_inline(slot, fn_oid, import_map, store, InlineModules::new())
}

/// Sets the context of a call, with modules in memory, each under its absolute
/// specifier.
pub fn set_loader_context_with_inline<S: ModuleStore>(
    slot: &mut Option<LoaderContext<S>>,
    fn_oid: u32,
    import_map: ImportMap,
    store: S,
    inline_modules: InlineModules,
) -> (r: LoaderContextGuard)
    ensures
        *final(slot) == Some(LoaderContext { fn_oid, import_map, store, inline_modules }),
{
    *slot = Some(LoaderContext { fn_oid, import_map, store, inline_modules });
    LoaderContextGuard
}

// ---------------------------------------------------------------------------
// Resolution
// ---------------------------------------------------------------------------

/// What an import in a dependency stands for.
pub enum DependencyTarget {
    Url(String),
    Reference(String),
}

impl View for DependencyTarget {
    type V = DependencyTargetView;

    open spec fn view(&self) -> DependencyTargetView {
        match self {
            DependencyTarget::Url(url) => DependencyTargetView::Url(url@),
            DependencyTarget::Reference(reference) => DependencyTargetView::Reference(reference@),
        }
    }
}

fn specifier_is_path(specifier: &str) -> (r: bool)
    ensures
        r == is_path(specifier@),
{
    starts_with(specifier, "/") || starts_with(specifier, "./") || starts_with(specifier, "../")
}

fn specifier_is_http(specifier: &str) -> (r: bool)
    ensures
        r == is_http(specifier@),
{
    starts_with(specifier, "http://") || starts_with(specifier, "https://")
}

/// The outcome of parsing a URL, its error one that JavaScript sees.
pub fn js_parse_result(parsed: Result<ModuleSpecifier, String>) -> (r: Result<
    ModuleSpecifier,
    JsError,
>)
    ensures
        js_result_view(r) == js_parsed(result_view(parsed)),
{
    match parsed {
        Ok(s) => Ok(s),
        Err(e) => Err(JsError::uri_error(e)),
    }
}

fn not_found(specifier: &str) -> (r: JsError)
    ensures
        r@ == generic_error("pg_typescript: '"@ + specifier@ + "' not found in import map"@),
{
    JsError::generic(
        String::from_str("pg_typescript: '").concat(specifier).concat("' not found in import map"),
    )
}

/// The rules by which an import map resolves imports, for the runtime and for
/// the fetching of modules ahead of it.
#[derive(Debug, Clone, Copy)]
pub struct ImportMapResolver<'a> {
    pub import_map: &'a ImportMap,
}

impl<'a> ImportMapResolver<'a> {
    pub fn new(import_map: &'a ImportMap) -> (r: ImportMapResolver<'a>)
        ensures
            r.import_map == import_map,
    {
        ImportMapResolver { import_map }
    }

    /// The URL that an import in the function body stands for.
    pub fn main_target(&self, specifier: &str) -> (r: Result<String, JsError>)
        ensures
            js_result_view(r) == main_target(self.import_map@, specifier@),
    {
        if specifier_is_path(specifier) {
            return Err(
                JsError::generic(
                    String::from_str(
                        "pg_typescript: relative imports are not allowed in function body: '",
                    ).concat(specifier).concat("'"),
                ),
            );
        }
        match self.import_map.get(specifier) {
            Some(url) => Ok(url.clone()),
            None => if specifier_is_http(specifier) {
                if self.import_map.contains_url(specifier) {
                    Ok(String::from_str(specifier))
                } else {
                    Err(
                        JsError::generic(
                            String::from_str("pg_typescript: '").concat(specifier).concat(
                                "' is not declared in the import map",
                            ),
                        ),
                    )
                }
            } else {
                Err(not_found(specifier))
            },
        }
    }

    /// Resolves an import in the function body.
    pub fn resolve_from_main(&self, specifier: &str) -> (r: Result<ModuleSpecifier, JsError>)
        ensures
            js_result_view(r) == main_resolution(self.import_map@, specifier@),
    {
        match self.main_target(specifier) {
            Ok(url) => js_parse_result(ModuleSpecifier::parse(url.as_str())),
            Err(e) => Err(e),
        }
    }

    /// What an import in a dependency stands for.
    pub fn dependency_target(&self, specifier: &str) -> (r: Result<DependencyTarget, JsError>)
        ensures
            js_result_view(r) == dependency_target(self.import_map@, specifier@),
    {
        if specifier_is_http(specifier) {
            Ok(DependencyTarget::Url(String::from_str(specifier)))
        } else if specifier_is_path(specifier) {
            Ok(DependencyTarget::Reference(String::from_str(specifier)))
        } else {
            match self.import_map.get(specifier) {
                Some(url) => Ok(DependencyTarget::Url(url.clone())),
                None => Err(not_found(specifier)),
            }
        }
    }

    /// Resolves an import in a dependency. An `http` or `https` URL passes
    /// through, a path is a reference against the referrer, and a bare name is
    /// looked up in the import map. Under a valid import map, a dependency over
    /// `http` or `https` imports others of its kind only.
    pub fn resolve_from_dependency(&self, specifier: &str, referrer: &ModuleSpecifier) -> (r: Result<
        ModuleSpecifier,
        JsError,
    >)
        ensures
            js_result_view(r) == dependency_resolution(
                self.import_map@,
                specifier@,
                referrer@.href,
            ),
            valid_import_map(self.import_map@) && is_http_module(referrer@.href) ==> (
            r matches Ok(s) ==> has_http_scheme(s@)),
    {
        proof {
            lemma_key_index(self.import_map@, specifier@);
            lemma_path_start(specifier@);
        }
        match self.dependency_target(specifier) {
            Ok(DependencyTarget::Url(url)) => js_parse_result(ModuleSpecifier::parse(url.as_str())),
            Ok(DependencyTarget::Reference(reference)) => js_parse_result(
                referrer.join(reference.as_str()),
            ),
            Err(e) => Err(e),
        }
    }
}

/// A path begins with a slash or a dot.
proof fn lemma_path_start(specifier: Seq<char>)
    ensures
        is_path(specifier) ==> begins_with_path(specifier),
{
    reveal_strlit("/");
    reveal_strlit("./");
    reveal_strlit("../");
    if is_path(specifier) {
        assert(specifier.subrange(0, 1)[0] == specifier[0]);
        assert("./"@.is_prefix_of(specifier) ==> specifier.subrange(0, 2)[0] == specifier[0]);
        assert("../"@.is_prefix_of(specifier) ==> specifier.subrange(0, 3)[0] == specifier[0]);
    }
}

fn no_context_error() -> (r: JsError)
    ensures
        r@ == no_context(),
{
    JsError::generic(String::from_str("pg_typescript: no loader context set"))
}

/// Resolves an import in the function body, in the context of a call.
pub fn resolve_from_main<S: ModuleStore>(ctx: Option<&LoaderContext<S>>, specifier: &str) -> (r:
    Result<ModuleSpecifier, JsError>)
    ensures
        js_result_view(r) == (match context_entries(ctx) {
            Some(entries) => main_resolution(entries, specifier@),
            None => Err(no_context()),
        }),
{
    match ctx {
        Some(ctx) => ImportMapResolver::new(&ctx.import_map).resolve_from_main(specifier),
        None => Err(no_context_error()),
    }
}

/// Resolves an import in a dependency, in the context of a call.
pub fn resolve_from_dep<S: ModuleStore>(
    ctx: Option<&LoaderContext<S>>,
    specifier: &str,
    referrer: &str,
) -> (r: Result<ModuleSpecifier, JsError>)
    ensures
        js_result_view(r) == (match context_entries(ctx) {
            Some(entries) => dependency_resolution(
                entries,
                specifier@,
                base_of(url_parse(referrer@)),
            ),
            None => Err(no_context()),
        }),
        context_entries(ctx) matches Some(entries) && valid_import_map(entries) && is_http_module(
            referrer@,
        ) ==> (r matches Ok(s) ==> has_http_scheme(s@)),
{
    let base = match ModuleSpecifier::parse(referrer) {
        Ok(base) => base,
        Err(_) => ModuleSpecifier::file_root(),
    };
    match ctx {
        Some(ctx) => ImportMapResolver::new(&ctx.import_map).resolve_from_dependency(
            specifier,
            &base,
        ),
        None => Err(no_context_error()),
    }
}

/// A module's source, and whether it is to be transpiled before it runs.
pub struct LoadedSource {
    pub source: String,
    pub transpile: bool,
}

/// The loader of a function's modules. It resolves imports by the import map
/// of the call and loads source from the store of the call.
pub struct PgModuleLoader;

impl PgModuleLoader {
    /// Resolves an import. A `file` URL is let through only where the runtime
    /// itself asks for it, with `.` as the referrer. Under a valid import map,
    /// code reaches modules over `http` and `https` only, and so no generated
    /// module of a function.
    pub fn resolve<S: ModuleStore>(
        &self,
        ctx: Option<&LoaderContext<S>>,
        specifier: &str,
        referrer: &str,
    ) -> (r: Result<ModuleSpecifier, JsError>)
        ensures
            js_result_view(r) == resolution(context_entries(ctx), specifier@, referrer@),
            context_entries(ctx) matches Some(entries) && valid_import_map(entries) && is_code(
                referrer@,
            ) ==> (r matches Ok(s) ==> has_http_scheme(s@)),
    {
        proof {
            if let Some(entries) = context_entries(ctx) {
                if valid_import_map(entries) {
                    law_body_imports_http_modules(entries, specifier@);
                }
            }
        }
        if starts_with(specifier, "file://") {
            if !str_eq(referrer, ".") {
                return Err(
                    JsError::generic(
                        String::from_str(
                            "pg_typescript: file:// imports are not allowed from function code: '",
                        ).concat(specifier).concat("'"),
                    ),
                );
            }
            return js_parse_result(ModuleSpecifier::parse(specifier));
        }
        if starts_with(referrer, "file://") {
            resolve_from_main(ctx, specifier)
        } else {
            resolve_from_dep(ctx, specifier, referrer)
        }
    }

    /// Loads the source of a module.
    pub fn load<S: ModuleStore>(&self, ctx: Option<&LoaderContext<S>>, url: &str) -> (r: Result<
        LoadedSource,
        JsError,
    >)
        ensures
            match ctx {
                None => r matches Err(e) && e@ == generic_error(
                    "pg_typescript: error loading "@ + url@ + ": "@ + "no loader context set"@,
                ),
                Some(ctx) => {
                    let found = module_source(
                        ctx.inline_modules@,
                        ctx.store.modules(),
                        ctx.fn_oid,
                        url@,
                    );
                    match r {
                        Ok(loaded) => found == Some(loaded.source@) && loaded.transpile
                            == transpiled(url@, url_parse(url@)),
                        Err(e) => !ctx.inline_modules@.contains_key(url@) && {
                            ||| found is None && e@ == generic_error(
                                "pg_typescript: module not cached: "@ + url@,
                            )
                            ||| ctx.store.fails(ctx.fn_oid, url@) && e@.class == ErrorClass::Generic
                                && ("pg_typescript: error loading "@ + url@ + ": "@).is_prefix_of(
                                e@.message,
                            )
                        },
                    }
                },
            },
    {
        loaded_source(url, load_module_source(ctx, url))
    }
}

// ---------------------------------------------------------------------------
// Source
// ---------------------------------------------------------------------------

/// The source of a module in the context of a call: one in memory goes before
/// one in the store.
pub fn load_module_source<S: ModuleStore>(ctx: Option<&LoaderContext<S>>, url: &str) -> (r: Result<
    Option<String>,
    String,
>)
    ensures
        match ctx {
            None => r matches Err(e) && e@ == "no loader context set"@,
            Some(ctx) => {
                &&& r is Err ==> !ctx.inline_modules@.contains_key(url@) && ctx.store.fails(
                    ctx.fn_oid,
                    url@,
                )
                &&& r matches Ok(found) ==> opt_view(found) == module_source(
                    ctx.inline_modules@,
                    ctx.store.modules(),
                    ctx.fn_oid,
                    url@,
                )
            },
        },
{
    match ctx {
        Some(ctx) => match ctx.inline_modules.get(url) {
            Some(source) => Ok(Some(source.clone())),
            None => ctx.store.load(ctx.fn_oid, url),
        },
        None => Err(String::from_str("no loader context set")),
    }
}

/// What the loader answers, from what was found for the module: its source, and
/// whether it is to be transpiled.
pub open spec fn load_answer(url: Seq<char>, found: Result<Option<Seq<char>>, Seq<char>>) -> Result<
    (Seq<char>, bool),
    JsErrorView,
> {
    match found {
        Ok(Some(source)) => Ok((source, transpiled(url, url_parse(url)))),
        Ok(None) => Err(generic_error("pg_typescript: module not cached: "@ + url)),
        Err(e) => Err(generic_error("pg_typescript: error loading "@ + url + ": "@ + e)),
    }
}

/// What the loader answers, from what was found for the module.
pub fn loaded_source(url: &str, found: Result<Option<String>, String>) -> (r: Result<
    LoadedSource,
    JsError,
>)
    ensures
        (match r {
            Ok(loaded) => Ok((loaded.source@, loaded.transpile)),
            Err(e) => Err(e@),
        }) == load_answer(
            url@,
            match found {
                Ok(source) => Ok(opt_view(source)),
                Err(e) => Err(e@),
            },
        ),
        match found {
            Ok(Some(source)) => r matches Ok(loaded) && loaded.source == source && loaded.transpile
                == transpiled(url@, url_parse(url@)),
            Ok(None) => r matches Err(e) && e@ == generic_error(
                "pg_typescript: module not cached: "@ + url@,
            ),
            Err(message) => r matches Err(e) && e@ == generic_error(
                "pg_typescript: error loading "@ + url@ + ": "@ + message@,
            ),
        },
{
    match found {
        Ok(Some(source)) => Ok(LoadedSource { source, transpile: should_transpile(url) }),
        Ok(None) => Err(
            JsError::generic(String::from_str("pg_typescript: module not cached: ").concat(url)),
        ),
        Err(message) => Err(
            JsError::generic(
                String::from_str("pg_typescript: error loading ").concat(url).concat(": ").concat(
                    message.as_str(),
                ),
            ),
        ),
    }
}

fn path_has_extension(path: &str, extension: &str) -> (r: bool)
    ensures
        r == has_extension(path@, extension@),
{
    let cs = chars_of(path);
    let width: usize = chars_of(extension).len();
    if cs.len() < width {
        return false;
    }
    let tail = string_of(&cs, cs.len() - width, cs.len());
    assert(tail@ =~= path@.skip(path@.len() - extension@.len()));
    str_eq(to_ascii_lowercase(tail.as_str()).as_str(), extension)
}

/// Is a module to be transpiled, given what parsing made of its name?
pub fn transpiled_given(name: &str, parsed: &Result<ModuleSpecifier, String>) -> (r: bool)
    ensures
        r == transpiled(name@, result_view(*parsed)),
{
    if starts_with(name, "node:") {
        return true;
    }
    match parsed {
        Ok(s) => {
            let path = s.path.as_str();
            path_has_extension(path, ".ts") || path_has_extension(path, ".tsx")
                || path_has_extension(path, ".mts") || path_has_extension(path, ".cts")
        },
        Err(_) => false,
    }
}

/// Is a module to be transpiled?
pub fn should_transpile(name: &str) -> (r: bool)
    ensures
        r == transpiled(name@, url_parse(name@)),
{
    transpiled_given(name, &ModuleSpecifier::parse(name))
}

// ---------------------------------------------------------------------------
// Laws
// ---------------------------------------------------------------------------

/// Whatever the function body imports is declared in its import map.
pub proof fn law_body_imports_are_declared(
    entries: Seq<(Seq<char>, Seq<char>)>,
    specifier: Seq<char>,
)
    ensures
        main_target(entries, specifier) matches Ok(url) ==> has_url(entries, url),
{
    lemma_key_index(entries, specifier);
}

/// Where every URL of the import map is an `http` or `https` URL, so is every
/// module that the function body imports.
pub proof fn law_body_imports_http_modules(
    entries: Seq<(Seq<char>, Seq<char>)>,
    specifier: Seq<char>,
)
    requires
        forall|i: int|
            0 <= i < entries.len() ==> import_url_error(
                (#[trigger] entries[i]).1,
                url_parse(entries[i].1),
            ) is None,
    ensures
        main_resolution(entries, specifier) matches Ok(s) ==> has_http_scheme(s),
{
    law_body_imports_are_declared(entries, specifier);
}

/// No module of a function, whatever its import map, imports a `file` URL.
pub proof fn law_code_never_imports_files(
    entries: Option<Seq<(Seq<char>, Seq<char>)>>,
    specifier: Seq<char>,
    referrer: Seq<char>,
)
    requires
        is_file(specifier),
        referrer != "."@,
    ensures
        resolution(entries, specifier, referrer) is Err,
{
}

/// A name of the import map means the same module in the function body and in
/// its dependencies, unless the name is itself a URL or a path.
pub proof fn law_names_mean_the_same_everywhere(
    entries: Seq<(Seq<char>, Seq<char>)>,
    name: Seq<char>,
    referrer: Seq<char>,
)
    requires
        !is_http(name),
        !is_path(name),
    ensures
        main_resolution(entries, name) == dependency_resolution(entries, name, referrer),
{
}

/// A module that was stored for a function is what the loader finds for that
/// function, unless one in memory has its URL, and is not what it finds for any
/// other function.
pub proof fn law_stored_module_is_loaded(
    inline_modules: Map<Seq<char>, Seq<char>>,
    modules: Map<(u32, Seq<char>), Seq<char>>,
    fn_oid: u32,
    url: Seq<char>,
    source: Seq<char>,
    other_oid: u32,
)
    requires
        !inline_modules.contains_key(url),
    ensures
        module_source(inline_modules, modules.insert((fn_oid, url), source), fn_oid, url) == Some(
            source,
        ),
        other_oid != fn_oid ==> module_source(
            inline_modules,
            modules.insert((fn_oid, url), source),
            other_oid,
            url,
        ) == module_source(inline_modules, modules, other_oid, url),
{
}

/// The model of what an import stands for has the text of it.
pub proof fn law_models_of_targets(url: String)
    ensures
        DependencyTarget::Url(url)@ == DependencyTargetView::Url(url@),
        DependencyTarget::Reference(url)@ == DependencyTargetView::Reference(url@),
{
}

/// A name of the import map stands for the URL that the map gives that very
/// name, in the function body and in dependencies, and an import of the name
/// resolves to what the URL is parsed to.
pub proof fn law_names_resolve_to_their_own_urls(
    entries: Seq<(Seq<char>, Seq<char>)>,
    i: int,
    referrer: Seq<char>,
)
    requires
        sorted_keys(entries),
        0 <= i < entries.len(),
        !"/"@.is_prefix_of(entries[i].0),
        !"./"@.is_prefix_of(entries[i].0),
        !"../"@.is_prefix_of(entries[i].0),
    ensures
        main_target(entries, entries[i].0) == Ok::<_, JsErrorView>(entries[i].1),
        match url_parse(entries[i].1) {
            Ok(s) => main_resolution(entries, entries[i].0) == Ok::<_, JsErrorView>(s),
            Err(e) => main_resolution(entries, entries[i].0) == Err::<SpecifierView, _>(
                JsErrorView { class: ErrorClass::Uri, message: e },
            ),
        },
        !"http://"@.is_prefix_of(entries[i].0) && !"https://"@.is_prefix_of(entries[i].0) ==> {
            &&& dependency_target(entries, entries[i].0) == Ok::<_, JsErrorView>(
                DependencyTargetView::Url(entries[i].1),
            )
            &&& match url_parse(entries[i].1) {
                Ok(s) => dependency_resolution(entries, entries[i].0, referrer) == Ok::<
                    _,
                    JsErrorView,
                >(s),
                Err(e) => dependency_resolution(entries, entries[i].0, referrer) == Err::<
                    SpecifierView,
                    _,
                >(JsErrorView { class: ErrorClass::Uri, message: e }),
            }
        },
{
    law_lookup(entries, i, entries[i].0);
}

/// What the import map does not declare is refused: in the function body
/// everything but the URLs of the map, in dependencies every bare name.
pub proof fn law_undeclared_imports_are_refused(
    entries: Seq<(Seq<char>, Seq<char>)>,
    specifier: Seq<char>,
)
    requires
        forall|i: int| 0 <= i < entries.len() ==> (#[trigger] entries[i]).0 != specifier,
        !"/"@.is_prefix_of(specifier),
        !"./"@.is_prefix_of(specifier),
        !"../"@.is_prefix_of(specifier),
    ensures
        ("http://"@.is_prefix_of(specifier) || "https://"@.is_prefix_of(specifier)) && (exists|
            i: int,
        |
            0 <= i < entries.len() && (#[trigger] entries[i]).1 == specifier) ==> main_target(
            entries,
            specifier,
        ) == Ok::<_, JsErrorView>(specifier),
        ("http://"@.is_prefix_of(specifier) || "https://"@.is_prefix_of(specifier)) && !(exists|
            i: int,
        |
            0 <= i < entries.len() && (#[trigger] entries[i]).1 == specifier) ==> main_target(
            entries,
            specifier,
        ) == Err::<Seq<char>, _>(
            JsErrorView {
                class: ErrorClass::Generic,
                message: "pg_typescript: '"@ + specifier + "' is not declared in the import map"@,
            },
        ),
        !"http://"@.is_prefix_of(specifier) && !"https://"@.is_prefix_of(specifier) ==> {
            let refused = JsErrorView {
                class: ErrorClass::Generic,
                message: "pg_typescript: '"@ + specifier + "' not found in import map"@,
            };
            &&& main_target(entries, specifier) == Err::<Seq<char>, _>(refused)
            &&& dependency_target(entries, specifier) == Err::<DependencyTargetView, _>(refused)
        },
{
    lemma_key_index(entries, specifier);
}

/// A path is refused in the function body, and is a reference against the
/// importing module in a dependency, whatever the import map says; an `http` or
/// `https` URL in a dependency stands for itself.
pub proof fn law_paths_and_urls(
    entries: Seq<(Seq<char>, Seq<char>)>,
    specifier: Seq<char>,
    referrer: Seq<char>,
)
    ensures
        "/"@.is_prefix_of(specifier) || "./"@.is_prefix_of(specifier) || "../"@.is_prefix_of(
            specifier,
        ) ==> {
            &&& main_target(entries, specifier) == Err::<Seq<char>, _>(
                JsErrorView {
                    class: ErrorClass::Generic,
                    message: "pg_typescript: relative imports are not allowed in function body: '"@
                        + specifier + "'"@,
                },
            )
            &&& dependency_target(entries, specifier) == Ok::<_, JsErrorView>(
                DependencyTargetView::Reference(specifier),
            )
            &&& match url_join(referrer, specifier) {
                Ok(s) => dependency_resolution(entries, specifier, referrer) == Ok::<_, JsErrorView>(
                    s,
                ),
                Err(e) => dependency_resolution(entries, specifier, referrer) == Err::<
                    SpecifierView,
                    _,
                >(JsErrorView { class: ErrorClass::Uri, message: e }),
            }
        },
        "http://"@.is_prefix_of(specifier) || "https://"@.is_prefix_of(specifier) ==> {
            &&& dependency_target(entries, specifier) == Ok::<_, JsErrorView>(
                DependencyTargetView::Url(specifier),
            )
            &&& match url_parse(specifier) {
                Ok(s) => dependency_resolution(entries, specifier, referrer) == Ok::<_, JsErrorView>(
                    s,
                ),
                Err(e) => dependency_resolution(entries, specifier, referrer) == Err::<
                    SpecifierView,
                    _,
                >(JsErrorView { class: ErrorClass::Uri, message: e }),
            }
        },
{
    reveal_strlit("/");
    reveal_strlit("./");
    reveal_strlit("../");
    reveal_strlit("http://");
    reveal_strlit("https://");
    if "http://"@.is_prefix_of(specifier) {
        assert(specifier.subrange(0, 7)[0] == specifier[0]);
    }
    if "https://"@.is_prefix_of(specifier) {
        assert(specifier.subrange(0, 8)[0] == specifier[0]);
    }
    lemma_path_start(specifier);
}

/// An import that did not resolve keeps the error of what it stands for.
pub proof fn law_refusals_are_kept(
    entries: Seq<(Seq<char>, Seq<char>)>,
    specifier: Seq<char>,
    referrer: Seq<char>,
)
    ensures
        main_target(entries, specifier) matches Err(e) ==> main_resolution(entries, specifier)
            == Err::<SpecifierView, _>(e),
        dependency_target(entries, specifier) matches Err(e) ==> dependency_resolution(
            entries,
            specifier,
            referrer,
        ) == Err::<SpecifierView, _>(e),
{
}

/// The importing module decides how an import is resolved. From a generated
/// module, which is a `file` module, it is one of the function body, from any
/// other module one of a dependency. Only the runtime itself imports a `file`
/// URL, and without a call nothing else is resolved.
pub proof fn law_resolution_by_referrer(
    entries: Seq<(Seq<char>, Seq<char>)>,
    specifier: Seq<char>,
    referrer: Seq<char>,
    call: Option<Seq<(Seq<char>, Seq<char>)>>,
)
    ensures
        "file://"@.is_prefix_of(specifier) && referrer == "."@ ==> match url_parse(specifier) {
            Ok(s) => resolution(call, specifier, referrer) == Ok::<_, JsErrorView>(s),
            Err(e) => resolution(call, specifier, referrer) == Err::<SpecifierView, _>(
                JsErrorView { class: ErrorClass::Uri, message: e },
            ),
        },
        "file://"@.is_prefix_of(specifier) && referrer != "."@ ==> resolution(
            call,
            specifier,
            referrer,
        ) == Err::<SpecifierView, _>(
            JsErrorView {
                class: ErrorClass::Generic,
                message: "pg_typescript: file:// imports are not allowed from function code: '"@
                    + specifier + "'"@,
            },
        ),
        !"file://"@.is_prefix_of(specifier) ==> {
            &&& resolution(None, specifier, referrer) == Err::<SpecifierView, _>(
                JsErrorView {
                    class: ErrorClass::Generic,
                    message: "pg_typescript: no loader context set"@,
                },
            )
            &&& "file://"@.is_prefix_of(referrer) ==> resolution(Some(entries), specifier, referrer)
                == main_resolution(entries, specifier)
            &&& !"file://"@.is_prefix_of(referrer) ==> match url_parse(referrer) {
                Ok(base) => resolution(Some(entries), specifier, referrer) == dependency_resolution(
                    entries,
                    specifier,
                    base.href,
                ),
                Err(_) => resolution(Some(entries), specifier, referrer) == dependency_resolution(
                    entries,
                    specifier,
                    "file:///"@,
                ),
            }
        },
{
}

/// The generated modules and the modules over `http` and `https` are the code
/// that is held to those protocols.
pub proof fn law_code_of_functions(referrer: Seq<char>)
    ensures
        "file://"@.is_prefix_of(referrer) ==> is_code(referrer),
        url_parse(referrer) matches Ok(s) && s.href == referrer && (s.scheme == "http"@ || s.scheme
            == "https"@) && referrer != "."@ ==> is_code(referrer),
        is_http_module(referrer) <==> (url_parse(referrer) matches Ok(s) && s.href == referrer && (
        s.scheme == "http"@ || s.scheme == "https"@)),
{
    reveal_strlit("file://");
    reveal_strlit(".");
    if "file://"@.is_prefix_of(referrer) {
        assert(referrer.subrange(0, 7)[0] == referrer[0]);
    }
}

/// The import map of a call is that of its context.
pub proof fn law_import_map_of_a_call<S: ModuleStore>(ctx: LoaderContext<S>)
    ensures
        context_entries(Some(&ctx)) == Some(ctx.import_map@),
        context_entries::<S>(None) is None,
{
}

/// A module in memory is what the loader finds under its URL, whatever the store
/// holds; a module that neither holds is not found.
pub proof fn law_modules_in_memory_go_first(
    inline_modules: Map<Seq<char>, Seq<char>>,
    modules: Map<(u32, Seq<char>), Seq<char>>,
    fn_oid: u32,
    url: Seq<char>,
    source: Seq<char>,
)
    ensures
        module_source(inline_modules.insert(url, source), modules, fn_oid, url) == Some(source),
        !inline_modules.contains_key(url) && !modules.contains_key((fn_oid, url)) ==> module_source(
            inline_modules,
            modules,
            fn_oid,
            url,
        ) is None,
{
}

/// The loader answers with the source that was found, as it is; a module that was
/// not found, and a store that failed, are errors that name the module.
pub proof fn law_answers_of_the_loader(url: Seq<char>, source: Seq<char>, e: Seq<char>)
    ensures
        load_answer(url, Ok(Some(source))) matches Ok(answer) && answer.0 == source && answer.1
            == transpiled(url, url_parse(url)),
        load_answer(url, Ok(None)) == Err::<(Seq<char>, bool), _>(
            JsErrorView {
                class: ErrorClass::Generic,
                message: "pg_typescript: module not cached: "@ + url,
            },
        ),
        load_answer(url, Err(e)) == Err::<(Seq<char>, bool), _>(
            JsErrorView {
                class: ErrorClass::Generic,
                message: "pg_typescript: error loading "@ + url + ": "@ + e,
            },
        ),
{
}

/// A module is transpiled where it is built into Node, or where its path ends in
/// an extension of TypeScript, in letters of either case.
pub proof fn law_transpiled_modules(
    name: Seq<char>,
    s: SpecifierView,
    stem: Seq<char>,
    ending: Seq<char>,
    e: Seq<char>,
)
    requires
        s.path == stem + ending,
    ensures
        "node:"@.is_prefix_of(name) ==> transpiled(name, Ok(s)) && transpiled(name, Err(e)),
        lower_spec(ending) == ".ts"@ || lower_spec(ending) == ".tsx"@ || lower_spec(ending)
            == ".mts"@ || lower_spec(ending) == ".cts"@ ==> transpiled(name, Ok(s)),
        !"node:"@.is_prefix_of(name) ==> !transpiled(name, Err(e)),
        !"node:"@.is_prefix_of(name) && transpiled(name, Ok(s)) ==> exists|k: int|
            0 <= k <= s.path.len() && {
                let tail = lower_spec(#[trigger] s.path.skip(k));
                tail == ".ts"@ || tail == ".tsx"@ || tail == ".mts"@ || tail == ".cts"@
            },
{
    assert(s.path.skip(s.path.len() - ending.len()) =~= ending);
    reveal_strlit(".ts");
    reveal_strlit(".tsx");
    reveal_strlit(".mts");
    reveal_strlit(".cts");
    if !"node:"@.is_prefix_of(name) && transpiled(name, Ok(s)) {
        if has_extension(s.path, ".ts"@) {
            assert(lower_spec(s.path.skip(s.path.len() - 3)) == ".ts"@);
        } else {
            assert(lower_spec(s.path.skip(s.path.len() - 4)).len() == 4);
        }
    }
}

} // verus!
