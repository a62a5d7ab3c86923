//! Fetching the modules of a function ahead of its runs.
use vstd::hash_map::StringHashMap;
use vstd::prelude::*;
use vstd::string::StrSliceExecFns;

use crate::error::{generic_error, ErrorClass, JsError, JsErrorView};
use crate::guc::{import_url_allowed, url_allowed, ImportCapView, ImportUrlCap};
use crate::import_map::ImportMap;
use crate::module_store::{stored, without_fn, ModuleStore};
use crate::specifier::{url_parse, ModuleSpecifier, SpecifierView};
use crate::text::result_view;

verus! {

// ---------------------------------------------------------------------------
// Fetchers
// ---------------------------------------------------------------------------

/// A source of modules.
pub trait Fetcher {
    /// Can the module at the URL be retrieved? It can unless the fetcher says
    /// otherwise: one that raises an error of its own has nothing to say.
    open spec fn serves(&self, url: Seq<char>) -> bool {
        true
    }

    /// May the source be the one that is retrieved from the URL? Any may unless
    /// the fetcher says otherwise.
    open spec fn answers(&self, url: Seq<char>, source: Seq<char>) -> bool {
        true
    }

    /// Fetch the module source for `url`.
    fn fetch(&self, url: &str) -> (r: String)
        requires
            self.serves(url@),
        ensures
            self.answers(url@, r@),
    ;
}

/// A fetcher with a fixed response for each of some URLs.
pub struct HashMapFetcher(StringHashMap<String>);

impl HashMapFetcher {
    /// The source of each URL that has one.
    pub closed spec fn responses(&self) -> Map<Seq<char>, Seq<char>> {
        Map::new(|url: Seq<char>| self.0@.contains_key(url), |url: Seq<char>| self.0@[url]@)
    }

    /// A fetcher without responses.
    pub fn new() -> (r: HashMapFetcher)
        ensures
            r.responses() == Map::<Seq<char>, Seq<char>>::empty(),
    {
        let r = HashMapFetcher(StringHashMap::new());
        assert(r.responses() =~= Map::<Seq<char>, Seq<char>>::empty());
        r
    }

    /// Sets the response for a URL.
    pub fn insert(&mut self, url: &str, source: &str)
        ensures
            final(self).responses() == old(self).responses().insert(url@, source@),
    {
        self.0.insert(String::from_str(url), String::from_str(source));
        assert(self.responses() =~= old(self).responses().insert(url@, source@));
    }

    /// Is there a response for the URL?
    pub fn has_response(&self, url: &str) -> (r: bool)
        ensures
            r == self.responses().contains_key(url@),
    {
        self.0.contains_key(url)
    }
}

impl Default for HashMapFetcher {
    fn default() -> (r: HashMapFetcher)
        ensures
            r.responses() == Map::<Seq<char>, Seq<char>>::empty(),
    {
        HashMapFetcher::new()
    }
}

impl Fetcher for HashMapFetcher {
    open spec fn serves(&self, url: Seq<char>) -> bool {
        self.responses().contains_key(url)
    }

    open spec fn answers(&self, url: Seq<char>, source: Seq<char>) -> bool {
        self.responses()[url] == source
    }

    fn fetch(&self, url: &str) -> String {
        match self.0.get(url) {
            Some(source) => source.clone(),
            None => String::new(),
        }
    }
}

// ---------------------------------------------------------------------------
// Models
// ---------------------------------------------------------------------------

/// The URLs to start from: those of the import map, parsed, or the error of
/// the first that is none.
pub open spec fn roots_of(entries: Seq<(Seq<char>, Seq<char>)>) -> Result<
    Seq<SpecifierView>,
    Seq<char>,
>
    decreases entries.len(),
{
    if entries.len() == 0 {
        Ok(Seq::empty())
    } else {
        match roots_of(entries.drop_last()) {
            Err(e) => Err(e),
            Ok(roots) => match url_parse(entries.last().1) {
                Err(e) => Err(
                    "invalid import URL '"@ + entries.last().1 + "' in import_map: "@ + e,
                ),
                Ok(root) => Ok(roots.push(root)),
            },
        }
    }
}

/// The error of a URL that the cap refuses, given what the cap said.
pub open spec fn refusal(url: Seq<char>, allowed: Result<bool, Seq<char>>) -> Option<JsErrorView> {
    match allowed {
        Err(e) => Some(generic_error("pg_typescript: "@ + e)),
        Ok(false) => Some(
            generic_error(
                "import URL '"@ + url + "' is not allowed by GUC typescript.max_imports"@,
            ),
        ),
        Ok(true) => None,
    }
}

/// Every module of the function was let in by the cap, and the modules of the
/// other functions are those of the start.
pub open spec fn prefetch_inv(
    start: Map<(u32, Seq<char>), Seq<char>>,
    now: Map<(u32, Seq<char>), Seq<char>>,
    fn_oid: u32,
    cap: ImportCapView,
) -> bool {
    &&& forall|other: u32, url: Seq<char>|
        other != fn_oid ==> #[trigger] stored(now, other, url) == stored(start, other, url)
    &&& forall|url: Seq<char>|
        (#[trigger] stored(now, fn_oid, url)) is Some ==> url_allowed(url, cap, url_parse(url))
            == Ok::<_, Seq<char>>(true)
}

// ---------------------------------------------------------------------------
// Prefetching
// ---------------------------------------------------------------------------

/// The model of a list of specifiers.
pub open spec fn specifier_views(list: Seq<ModuleSpecifier>) -> Seq<SpecifierView> {
    Seq::new(list.len(), |i: int| list[i]@)
}

/// Starts over for a function: takes its modules out of the store and returns
/// the URLs from which its module graph is to be built.
pub fn begin_prefetch<S: ModuleStore>(fn_oid: u32, import_map: &ImportMap, store: &mut S) -> (r:
    Result<Vec<ModuleSpecifier>, String>)
    ensures
        final(store).modules() == without_fn(old(store).modules(), fn_oid),
        match r {
            Ok(roots) => roots_of(import_map@) == Ok::<_, Seq<char>>(specifier_views(roots@)),
            Err(e) => roots_of(import_map@) == Err::<Seq<SpecifierView>, _>(e@),
        },
        forall|cap: ImportCapView|
            #[trigger] prefetch_inv(old(store).modules(), final(store).modules(), fn_oid, cap),
{
    store.clear_for_fn(fn_oid);
    prefetch_roots(import_map)
}

fn prefetch_roots(import_map: &ImportMap) -> (r: Result<Vec<ModuleSpecifier>, String>)
    ensures
        match r {
            Ok(roots) => roots_of(import_map@) == Ok::<_, Seq<char>>(specifier_views(roots@)),
            Err(e) => roots_of(import_map@) == Err::<Seq<SpecifierView>, _>(e@),
        },
{
    let entries = import_map.entries();
    let ghost all = import_map@;
    let mut roots: Vec<ModuleSpecifier> = Vec::new();
    let mut i: usize = 0;
    assert(all.take(0) =~= Seq::empty());
    assert(specifier_views(roots@) =~= Seq::empty());
    while i < entries.len()
        invariant
            i <= entries@.len(),
            all == import_map@,
            all == crate::json::pair_views(entries@),
            roots_of(all.take(i as int)) == Ok::<_, Seq<char>>(specifier_views(roots@)),
        decreases entries@.len() - i,
    {
        assert(all.take(i + 1).drop_last() =~= all.take(i as int));
        let url = entries[i].1.as_str();
        match ModuleSpecifier::parse(url) {
            Ok(root) => {
                let ghost before = specifier_views(roots@);
                roots.push(root);
                assert(specifier_views(roots@) =~= before.push(root@));
            },
            Err(e) => {
                proof {
                    lemma_root_error_stays(all, i + 1);
                }
                return Err(
                    String::from_str("invalid import URL '").concat(url).concat(
                        "' in import_map: ",
                    ).concat(e.as_str()),
                );
            },
        }
        i += 1;
    }
    assert(all.take(i as int) =~= all);
    Ok(roots)
}

/// Once one of the first URLs is at fault, its error is that of them all.
proof fn lemma_root_error_stays(entries: Seq<(Seq<char>, Seq<char>)>, n: int)
    requires
        0 <= n <= entries.len(),
        roots_of(entries.take(n)) is Err,
    ensures
        roots_of(entries) == roots_of(entries.take(n)),
    decreases entries.len() - n,
{
    if n == entries.len() {
        assert(entries.take(n) =~= entries);
    } else {
        assert(entries.take(n + 1).drop_last() =~= entries.take(n));
        lemma_root_error_stays(entries, n + 1);
    }
}

/// A module as it is handed to the graph: its URL and the bytes of its source.
pub struct ModuleResponse {
    pub specifier: String,
    pub content: Vec<u8>,
}

/// The response that carries a source.
pub fn module_response(specifier: &str, source: &str) -> (r: ModuleResponse)
    ensures
        r.specifier@ == specifier@,
        r.content@ == vstd::utf8::encode_utf8(source@),
{
    ModuleResponse { specifier: String::from_str(specifier), content: source.as_bytes_vec() }
}

/// What to do about a module: hand out the source at hand, or fetch it.
pub enum LoadStep {
    Serve(String),
    Fetch,
}

/// Decides about a module from what the cap and the store said of it: a refused
/// URL is an error, a stored module is handed out, any other is fetched.
pub fn load_step(
    url: &str,
    allowed: Result<bool, String>,
    found: Result<Option<String>, String>,
) -> (r: Result<LoadStep, JsError>)
    ensures
        match refusal(url@, result_view(allowed)) {
            Some(e) => r matches Err(got) && got@ == e,
            None => match found {
                Err(e) => r matches Err(got) && got@ == generic_error(
                    "pg_typescript: error loading "@ + url@ + ": "@ + e@,
                ),
                Ok(Some(source)) => r matches Ok(LoadStep::Serve(s)) && s@ == source@,
                Ok(None) => r matches Ok(LoadStep::Fetch),
            },
        },
{
    match allowed {
        Err(e) => Err(JsError::generic(String::from_str("pg_typescript: ").concat(e.as_str()))),
        Ok(false) => Err(
            JsError::generic(
                String::from_str("import URL '").concat(url).concat(
                    "' is not allowed by GUC typescript.max_imports",
                ),
            ),
        ),
        Ok(true) => match found {
            Err(e) => Err(
                JsError::generic(
                    String::from_str("pg_typescript: error loading ").concat(url).concat(
                        ": ",
                    ).concat(e.as_str()),
                ),
            ),
            Ok(Some(source)) => Ok(LoadStep::Serve(source)),
            Ok(None) => Ok(LoadStep::Fetch),
        },
    }
}

/// Loads the modules of one function into a store while its graph is built.
pub struct PrefetchLoader<'a, F: Fetcher> {
    pub fn_oid: u32,
    pub fetcher: &'a F,
    pub max_imports: &'a ImportUrlCap,
}

impl<'a, F: Fetcher> PrefetchLoader<'a, F> {
    pub fn new(fn_oid: u32, fetcher: &'a F, max_imports: &'a ImportUrlCap) -> (r: PrefetchLoader<
        'a,
        F,
    >)
        ensures
            r.fn_oid == fn_oid,
            r.fetcher == fetcher,
            r.max_imports == max_imports,
    {
        PrefetchLoader { fn_oid, fetcher, max_imports }
    }

    /// What loading a module comes to, from the modules before and after it. A
    /// refused URL is the error of the cap. A stored module is handed out, any
    /// other is stored as the fetcher answered it and handed out. An allowed URL
    /// is an error only where looking it up `fails`.
    pub open spec fn loaded(
        &self,
        before: Map<(u32, Seq<char>), Seq<char>>,
        after: Map<(u32, Seq<char>), Seq<char>>,
        fails: bool,
        url: Seq<char>,
        r: Result<ModuleResponse, JsError>,
    ) -> bool {
        match refusal(url, url_allowed(url, self.max_imports@, url_parse(url))) {
            Some(e) => (r matches Err(got) && got@ == e) && after == before,
            None => match r {
                Ok(response) => {
                    &&& response.specifier@ == url
                    &&& after.contains_key((self.fn_oid, url))
                    &&& response.content@ == vstd::utf8::encode_utf8(after[(self.fn_oid, url)])
                    &&& match stored(before, self.fn_oid, url) {
                        Some(_) => after == before,
                        None => self.fetcher.answers(url, after[(self.fn_oid, url)]) && after
                            == before.insert((self.fn_oid, url), after[(self.fn_oid, url)]),
                    }
                },
                Err(got) => {
                    &&& fails
                    &&& after == before
                    &&& got@.class == ErrorClass::Generic
                    &&& ("pg_typescript: error loading "@ + url + ": "@).is_prefix_of(got@.message)
                },
            },
        }
    }

    /// Loads one module: from the store where it is there already, and
    /// otherwise from the fetcher, in which case it is stored. A URL that the
    /// cap refuses is neither looked up nor fetched.
    pub fn load_module<S: ModuleStore>(&self, store: &mut S, url: &str) -> (r: Result<
        ModuleResponse,
        JsError,
    >)
        requires
            refusal(url@, url_allowed(url@, self.max_imports@, url_parse(url@))) is None && stored(
                old(store).modules(),
                self.fn_oid,
                url@,
            ) is None ==> self.fetcher.serves(url@),
        ensures
            self.loaded(
                old(store).modules(),
                final(store).modules(),
                old(store).fails(self.fn_oid, url@),
                url@,
                r,
            ),
            forall|start: Map<(u32, Seq<char>), Seq<char>>|
                prefetch_inv(start, old(store).modules(), self.fn_oid, self.max_imports@)
                    ==> #[trigger] prefetch_inv(
                    start,
                    final(store).modules(),
                    self.fn_oid,
                    self.max_imports@,
                ),
    {
        let allowed = import_url_allowed(url, self.max_imports);
        let found = match &allowed {
            Ok(true) => store.load(self.fn_oid, url),
            _ => Ok(None),
        };
        match load_step(url, allowed, found) {
            Ok(LoadStep::Serve(source)) => Ok(module_response(url, source.as_str())),
            Ok(LoadStep::Fetch) => {
                let source = self.fetcher.fetch(url);
                let ghost before = store.modules();
                proof {
                    assert forall|start: Map<(u32, Seq<char>), Seq<char>>|
                        prefetch_inv(
                            start,
                            before,
                            self.fn_oid,
                            self.max_imports@,
                        ) implies #[trigger] prefetch_inv(
                        start,
                        before.insert((self.fn_oid, url@), source@),
                        self.fn_oid,
                        self.max_imports@,
                    ) by {
                        law_prefetch_keeps_to_the_cap(
                            start,
                            before,
                            self.fn_oid,
                            self.max_imports@,
                            url@,
                            source@,
                        );
                    }
                }
                Ok(self.keep_fetched(store, url, source.as_str()))
            },
            Err(e) => Err(e),
        }
    }

    /// Stores the source that was fetched for a module, and hands it out.
    pub fn keep_fetched<S: ModuleStore>(&self, store: &mut S, url: &str, source: &str) -> (r:
        ModuleResponse)
        ensures
            final(store).modules() == old(store).modules().insert((self.fn_oid, url@), source@),
            r.specifier@ == url@,
            r.content@ == vstd::utf8::encode_utf8(source@),
    {
        store.write(self.fn_oid, url, source);
        module_response(url, source)
    }
}

impl<'a> PrefetchLoader<'a, HashMapFetcher> {
    /// Loads one module, where it can be loaded: there is no answer for one that
    /// would have to be fetched and has no response.
    pub fn try_load_module<S: ModuleStore>(&self, store: &mut S, url: &str) -> (r: Option<
        Result<ModuleResponse, JsError>,
    >)
        ensures
            match r {
                Some(outcome) => {
                    &&& self.loaded(
                        old(store).modules(),
                        final(store).modules(),
                        old(store).fails(self.fn_oid, url@),
                        url@,
                        outcome,
                    )
                    &&& refusal(url@, url_allowed(url@, self.max_imports@, url_parse(url@))) is None
                        && stored(old(store).modules(), self.fn_oid, url@) is None
                        && !self.fetcher.responses().contains_key(url@) ==> old(store).fails(
                        self.fn_oid,
                        url@,
                    )
                },
                None => {
                    &&& refusal(url@, url_allowed(url@, self.max_imports@, url_parse(url@))) is None
                    &&& stored(old(store).modules(), self.fn_oid, url@) is None
                    &&& !self.fetcher.responses().contains_key(url@)
                    &&& final(store).modules() == old(store).modules()
                },
            },
    {
        let allowed = import_url_allowed(url, self.max_imports);
        if matches!(allowed, Ok(true)) && !self.fetcher.has_response(url) {
            let found = store.load(self.fn_oid, url);
            return match load_step(url, allowed, found) {
                Ok(LoadStep::Serve(source)) => Some(Ok(module_response(url, source.as_str()))),
                Ok(LoadStep::Fetch) => None,
                Err(e) => Some(Err(e)),
            };
        }
        Some(self.load_module(store, url))
    }
}

/// Storing a module that the cap lets in keeps the function's modules within
/// the cap and those of the other functions as they were.
pub proof fn law_prefetch_keeps_to_the_cap(
    start: Map<(u32, Seq<char>), Seq<char>>,
    now: Map<(u32, Seq<char>), Seq<char>>,
    fn_oid: u32,
    cap: ImportCapView,
    url: Seq<char>,
    source: Seq<char>,
)
    requires
        prefetch_inv(start, now, fn_oid, cap),
        url_allowed(url, cap, url_parse(url)) == Ok::<_, Seq<char>>(true),
    ensures
        prefetch_inv(start, now.insert((fn_oid, url), source), fn_oid, cap),
{
    let after = now.insert((fn_oid, url), source);
    assert forall|other: u32, u: Seq<char>| other != fn_oid implies #[trigger] stored(
        after,
        other,
        u,
    ) == stored(start, other, u) by {
        assert(stored(now, other, u) == stored(start, other, u));
    }
    assert forall|u: Seq<char>| (#[trigger] stored(after, fn_oid, u)) is Some implies url_allowed(
        u,
        cap,
        url_parse(u),
    ) == Ok::<_, Seq<char>>(true) by {
        if u != url {
            assert(stored(now, fn_oid, u) is Some);
        }
    }
}

/// The models of specifiers are those of each.
pub proof fn law_models_of_roots(list: Seq<ModuleSpecifier>, i: int)
    requires
        0 <= i < list.len(),
    ensures
        specifier_views(list).len() == list.len(),
        specifier_views(list)[i] == list[i]@,
{
}

/// Fetching starts from every URL of the import map, and does not start where one
/// of them is no URL; the first such makes the error.
pub proof fn law_roots(entries: Seq<(Seq<char>, Seq<char>)>)
    ensures
        match roots_of(entries) {
            Ok(roots) => roots.len() == entries.len() && forall|i: int|
                0 <= i < entries.len() ==> url_parse(entries[i].1) == Ok::<_, Seq<char>>(
                    #[trigger] roots[i],
                ),
            Err(message) => exists|i: int|
                0 <= i < entries.len() && (url_parse((#[trigger] entries[i]).1) matches Err(e)
                    && message == "invalid import URL '"@ + entries[i].1 + "' in import_map: "@ + e)
                    && forall|j: int| 0 <= j < i ==> url_parse((#[trigger] entries[j]).1) is Ok,
        },
    decreases entries.len(),
{
    if entries.len() > 0 {
        let front = entries.drop_last();
        let last = entries.len() - 1;
        law_roots(front);
        match roots_of(front) {
            Ok(done) => {
                assert forall|j: int| 0 <= j < last implies url_parse(
                    (#[trigger] entries[j]).1,
                ) is Ok by {
                    assert(url_parse(front[j].1) == Ok::<_, Seq<char>>(done[j]));
                }
                if let Ok(roots) = roots_of(entries) {
                    assert forall|i: int| 0 <= i < entries.len() implies url_parse(entries[i].1)
                        == Ok::<_, Seq<char>>(#[trigger] roots[i]) by {
                        if i < last {
                            assert(url_parse(front[i].1) == Ok::<_, Seq<char>>(done[i]));
                        }
                    }
                } else {
                    assert(url_parse(entries[last].1) is Err);
                }
            },
            Err(message) => {
                let i = choose|i: int|
                    0 <= i < front.len() && (url_parse((#[trigger] front[i]).1) matches Err(e)
                        && message == "invalid import URL '"@ + front[i].1 + "' in import_map: "@
                        + e) && forall|j: int|
                        0 <= j < i ==> url_parse((#[trigger] front[j]).1) is Ok;
                assert(entries[i] == front[i]);
                assert forall|j: int| 0 <= j < i implies url_parse(
                    (#[trigger] entries[j]).1,
                ) is Ok by {
                    assert(url_parse(front[j].1) is Ok);
                }
            },
        }
    }
}

/// A URL is refused unless the cap allows it, with the reason.
pub proof fn law_refusals(url: Seq<char>, e: Seq<char>)
    ensures
        refusal(url, Ok(true)) is None,
        refusal(url, Ok(false)) == Some(
            JsErrorView {
                class: ErrorClass::Generic,
                message: "import URL '"@ + url
                    + "' is not allowed by GUC typescript.max_imports"@,
            },
        ),
        refusal(url, Err(e)) == Some(
            JsErrorView { class: ErrorClass::Generic, message: "pg_typescript: "@ + e },
        ),
{
}

/// Loading a module that the cap does not allow fails and stores nothing. One that
/// it allows is handed out as it is stored, or else as the fetcher answers and is
/// then stored so; only a store that may fail makes it fail.
pub proof fn law_loading_a_module<'a, F: Fetcher>(
    loader: PrefetchLoader<'a, F>,
    before: Map<(u32, Seq<char>), Seq<char>>,
    after: Map<(u32, Seq<char>), Seq<char>>,
    fails: bool,
    url: Seq<char>,
    r: Result<ModuleResponse, JsError>,
)
    requires
        loader.loaded(before, after, fails, url, r),
    ensures
        ({
            let allowed = url_allowed(url, loader.max_imports@, url_parse(url)) == Ok::<
                _,
                Seq<char>,
            >(true);
            let key = (loader.fn_oid, url);
            &&& !allowed ==> r is Err && after == before
            &&& allowed && !fails ==> r is Ok
            &&& r is Err ==> after == before
            &&& r matches Ok(response) ==> {
                &&& response.specifier@ == url
                &&& before.contains_key(key) ==> after == before && response.content@
                    == vstd::utf8::encode_utf8(before[key])
                &&& !before.contains_key(key) ==> after == before.insert(key, after[key])
                    && loader.fetcher.answers(url, after[key]) && response.content@
                    == vstd::utf8::encode_utf8(after[key])
            }
        }),
{
}

/// While modules are fetched for a function, those of the others stay, and its own
/// are ones that the cap allows.
pub proof fn law_modules_while_fetching(
    start: Map<(u32, Seq<char>), Seq<char>>,
    now: Map<(u32, Seq<char>), Seq<char>>,
    fn_oid: u32,
    cap: ImportCapView,
    other: u32,
    url: Seq<char>,
)
    requires
        prefetch_inv(start, now, fn_oid, cap),
    ensures
        other != fn_oid ==> (now.contains_key((other, url)) <==> start.contains_key((other, url)))
            && (now.contains_key((other, url)) ==> now[(other, url)] == start[(other, url)]),
        now.contains_key((fn_oid, url)) ==> url_allowed(url, cap, url_parse(url)) == Ok::<
            _,
            Seq<char>,
        >(true),
{
    if other != fn_oid {
        assert(stored(now, other, url) == stored(start, other, url));
    }
    if now.contains_key((fn_oid, url)) {
        assert(stored(now, fn_oid, url) is Some);
    }
}

} // verus!
