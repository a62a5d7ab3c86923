//! What the handlers of the language decide before anything runs: the import
//! map of a function or `DO` block, its permissions and its generated module.
use vstd::prelude::*;

use crate::artifact::{
    artifact, build_param_names, name_views, param_names, ArtifactView, ModuleArtifact,
    ModuleInputs, DO_BLOCK_OID,
};
use crate::guc::{
    import_map_parse, import_url_allowed, law_accepted_import_map_is_valid, max_imports_parse,
    normalized, url_allowed, valid_import_map, GucParser, ImportCapView, ImportMapParser,
    ImportUrlCap, MaxImportsParser,
};
use crate::import_map::ImportMap;
use crate::loader::{law_body_imports_http_modules, main_resolution};
use crate::permissions::{
    bracketed, config_value, config_view, function_permissions, inline_permissions,
    pg_execute_granted, raw_text, read_function_config, read_function_permissions_result,
    read_function_pg_execute, read_inline_permissions_result, read_inline_pg_execute,
    switch_setting, PermissionRaw, PermissionRawView,
};
use crate::runtime::{RuntimePermissions, RuntimePermissionsView};
use crate::specifier::{has_http_scheme, url_parse};
use crate::text::{
    join, join_spec, lemma_lt_irreflexive, lemma_lt_total, lemma_lt_transitive, lex_lt,
    result_view, str_eq, str_lt, strictly_sorted, views,
};

verus! {

// ---------------------------------------------------------------------------
// The cap on imports
// ---------------------------------------------------------------------------

/// The sorted list with one more item, unless it holds the item.
pub open spec fn with_sorted(list: Seq<Seq<char>>, item: Seq<char>) -> Seq<Seq<char>>
    decreases list.len(),
{
    if list.len() == 0 {
        seq![item]
    } else if list.last() == item {
        list
    } else if lex_lt(list.last(), item) {
        list.push(item)
    } else {
        with_sorted(list.drop_last(), item).push(list.last())
    }
}

/// The URLs of an import map, sorted and each once.
pub open spec fn requested_urls(entries: Seq<(Seq<char>, Seq<char>)>) -> Seq<Seq<char>>
    decreases entries.len(),
{
    if entries.len() == 0 {
        Seq::empty()
    } else {
        with_sorted(requested_urls(entries.drop_last()), entries.last().1)
    }
}

/// What the cap says of each URL.
pub open spec fn cap_verdicts(urls: Seq<Seq<char>>, cap: ImportCapView) -> Seq<
    Result<bool, Seq<char>>,
> {
    Seq::new(urls.len(), |i: int| url_allowed(urls[i], cap, url_parse(urls[i])))
}

/// The first error among the verdicts.
pub open spec fn first_failure(verdicts: Seq<Result<bool, Seq<char>>>) -> Option<Seq<char>>
    decreases verdicts.len(),
{
    if verdicts.len() == 0 {
        None
    } else {
        match first_failure(verdicts.drop_last()) {
            Some(e) => Some(e),
            None => match verdicts.last() {
                Err(e) => Some(e),
                Ok(_) => None,
            },
        }
    }
}

/// The URLs whose verdict is no.
pub open spec fn refused_urls(
    urls: Seq<Seq<char>>,
    verdicts: Seq<Result<bool, Seq<char>>>,
) -> Seq<Seq<char>>
    decreases verdicts.len(),
{
    if verdicts.len() == 0 || urls.len() != verdicts.len() {
        Seq::empty()
    } else {
        let rest = refused_urls(urls.drop_last(), verdicts.drop_last());
        if verdicts.last() == Ok::<bool, Seq<char>>(false) {
            rest.push(urls.last())
        } else {
            rest
        }
    }
}

/// The error of an import map, from the verdicts on its URLs.
pub open spec fn verdicts_error(
    urls: Seq<Seq<char>>,
    verdicts: Seq<Result<bool, Seq<char>>>,
    source: Seq<char>,
) -> Option<Seq<char>> {
    match first_failure(verdicts) {
        Some(e) => Some(e),
        None => {
            let refused = refused_urls(urls, verdicts);
            if refused.len() == 0 {
                None
            } else {
                Some(
                    source + " cannot be fulfilled by GUC typescript.max_imports: requested "@
                        + bracketed(urls) + " includes disallowed values "@ + bracketed(refused),
                )
            }
        },
    }
}

/// The error of an import map under a cap.
pub open spec fn import_cap_error(
    entries: Seq<(Seq<char>, Seq<char>)>,
    cap: ImportCapView,
    source: Seq<char>,
) -> Option<Seq<char>> {
    let urls = requested_urls(entries);
    verdicts_error(urls, cap_verdicts(urls, cap), source)
}

/// The models of verdicts.
pub open spec fn verdict_views(verdicts: Seq<Result<bool, String>>) -> Seq<
    Result<bool, Seq<char>>,
> {
    Seq::new(verdicts.len(), |i: int| result_view(verdicts[i]))
}

/// Adds an item to a sorted list, unless it holds the item.
fn insert_sorted(list: &mut Vec<String>, item: &str)
    ensures
        views(final(list)@) == with_sorted(views(old(list)@), item@),
{
    let ghost all = views(list@);
    let mut i: usize = list.len();
    assert(all.take(i as int) =~= all);
    assert(all.skip(i as int) =~= Seq::<Seq<char>>::empty());
    assert(with_sorted(all, item@) =~= with_sorted(all.take(i as int), item@) + all.skip(i as int));
    while i > 0 && !str_lt(list[i - 1].as_str(), item)
        invariant
            list@ == old(list)@,
            all == views(list@),
            i <= list@.len(),
            with_sorted(all, item@) == with_sorted(all.take(i as int), item@) + all.skip(i as int),
        decreases i,
    {
        let ghost head = all.take(i as int);
        assert(head.last() == list@[i - 1]@);
        if str_eq(list[i - 1].as_str(), item) {
            assert(head + all.skip(i as int) =~= all);
            return;
        }
        assert(head.drop_last() =~= all.take(i - 1));
        assert(with_sorted(all.take(i - 1), item@).push(head.last()) + all.skip(i as int)
            =~= with_sorted(all.take(i - 1), item@) + all.skip(i - 1));
        i -= 1;
    }
    let ghost before = list@;
    let added = String::from_str(item);
    list.insert(i, added);
    proof {
        let head = all.take(i as int);
        if i > 0 {
            lemma_lt_irreflexive(item@);
            assert(head.last() == before[i - 1]@);
        }
        assert(with_sorted(head, item@) =~= head.push(item@));
        assert(views(list@) =~= head.push(item@) + all.skip(i as int));
    }
}

/// The URLs of an import map, sorted and each once.
pub fn requested_url_list(import_map: &ImportMap) -> (r: Vec<String>)
    ensures
        views(r@) == requested_urls(import_map@),
{
    let entries = import_map.entries();
    let ghost all = import_map@;
    let mut urls: Vec<String> = Vec::new();
    let mut i: usize = 0;
    assert(views(urls@) =~= requested_urls(all.take(0)));
    while i < entries.len()
        invariant
            i <= entries@.len(),
            all == crate::json::pair_views(entries@),
            views(urls@) == requested_urls(all.take(i as int)),
        decreases entries@.len() - i,
    {
        assert(all.take(i + 1).drop_last() =~= all.take(i as int));
        assert(all.take(i + 1).last().1 == entries@[i as int].1@);
        insert_sorted(&mut urls, entries[i].1.as_str());
        i += 1;
    }
    assert(all.take(i as int) =~= all);
    urls
}

/// The URLs in brackets, with a comma between each two.
pub fn format_import_urls(values: &Vec<String>) -> (r: String)
    ensures
        r@ == bracketed(views(values@)),
{
    String::from_str("[").concat(join(values, ",").as_str()).concat("]")
}

/// Judges an import map by the verdicts on its URLs.
pub fn check_verdicts(
    requested: &Vec<String>,
    verdicts: &Vec<Result<bool, String>>,
    requested_source: &str,
) -> (r: Result<(), String>)
    requires
        requested@.len() == verdicts@.len(),
    ensures
        match verdicts_error(views(requested@), verdict_views(verdicts@), requested_source@) {
            Some(message) => r matches Err(e) && e@ == message,
            None => r is Ok,
        },
{
    let ghost urls = views(requested@);
    let ghost all = verdict_views(verdicts@);
    let mut disallowed: Vec<String> = Vec::new();
    let mut i: usize = 0;
    assert(views(disallowed@) =~= refused_urls(urls.take(0), all.take(0)));
    while i < verdicts.len()
        invariant
            i <= verdicts@.len(),
            requested@.len() == verdicts@.len(),
            urls == views(requested@),
            all == verdict_views(verdicts@),
            first_failure(all.take(i as int)) is None,
            views(disallowed@) == refused_urls(urls.take(i as int), all.take(i as int)),
        decreases verdicts@.len() - i,
    {
        assert(all.take(i + 1).drop_last() =~= all.take(i as int));
        assert(urls.take(i + 1).drop_last() =~= urls.take(i as int));
        assert(all.take(i + 1).last() == result_view(verdicts@[i as int]));
        match &verdicts[i] {
            Ok(true) => {},
            Ok(false) => {
                let ghost before = disallowed@;
                disallowed.push(requested[i].clone());
                assert(views(disallowed@) =~= views(before).push(requested@[i as int]@));
            },
            Err(e) => {
                proof {
                    lemma_first_failure_stays(all, i + 1);
                }
                return Err(e.clone());
            },
        }
        i += 1;
    }
    assert(all.take(i as int) =~= all);
    assert(urls.take(i as int) =~= urls);
    if disallowed.len() > 0 {
        return Err(
            String::from_str(requested_source).concat(
                " cannot be fulfilled by GUC typescript.max_imports: requested ",
            ).concat(format_import_urls(requested).as_str()).concat(
                " includes disallowed values ",
            ).concat(format_import_urls(&disallowed).as_str()),
        );
    }
    Ok(())
}

/// Holds an import map to the cap on imports.
pub fn enforce_import_map_cap(
    import_map: &ImportMap,
    max_imports: &ImportUrlCap,
    requested_source: &str,
) -> (r: Result<(), String>)
    ensures
        match import_cap_error(import_map@, max_imports@, requested_source@) {
            Some(message) => r matches Err(e) && e@ == message,
            None => r is Ok,
        },
{
    let requested = requested_url_list(import_map);
    let ghost urls = views(requested@);
    let mut verdicts: Vec<Result<bool, String>> = Vec::new();
    let mut i: usize = 0;
    while i < requested.len()
        invariant
            i <= requested@.len(),
            urls == views(requested@),
            verdict_views(verdicts@) =~= cap_verdicts(urls, max_imports@).take(i as int),
        decreases requested@.len() - i,
    {
        let verdict = import_url_allowed(requested[i].as_str(), max_imports);
        let ghost before = verdict_views(verdicts@);
        verdicts.push(verdict);
        assert(verdict_views(verdicts@) =~= before.push(result_view(verdict)));
        assert(urls[i as int] == requested@[i as int]@);
        i += 1;
    }
    assert(verdict_views(verdicts@) =~= cap_verdicts(urls, max_imports@));
    check_verdicts(&requested, &verdicts, requested_source)
}

// ---------------------------------------------------------------------------
// Import maps
// ---------------------------------------------------------------------------

/// The cap on imports that a setting stands for.
pub open spec fn max_imports_setting(raw: Option<Seq<char>>) -> Result<ImportCapView, Seq<char>> {
    match normalized(raw) {
        Some(value) => max_imports_parse(value, "GUC typescript.max_imports"@),
        None => Ok(ImportCapView::AllowAll),
    }
}

/// The import map that a setting stands for.
pub open spec fn import_map_setting(raw: Option<Seq<char>>) -> Result<
    Seq<(Seq<char>, Seq<char>)>,
    Seq<char>,
> {
    match normalized(raw) {
        Some(value) => import_map_parse(value),
        None => Ok(Seq::empty()),
    }
}

/// The import map of a run and the cap that it was held to.
pub open spec fn capped_import_map(
    import_map: Option<Seq<char>>,
    max_imports: Option<Seq<char>>,
    source: Seq<char>,
) -> Result<(Seq<(Seq<char>, Seq<char>)>, ImportCapView), Seq<char>> {
    match max_imports_setting(max_imports) {
        Err(e) => Err(e),
        Ok(cap) => match import_map_setting(import_map) {
            Err(e) => Err(e),
            Ok(entries) => match import_cap_error(entries, cap, source) {
                Some(e) => Err(e),
                None => Ok((entries, cap)),
            },
        },
    }
}

/// The model of an import map with its cap.
pub open spec fn capped_view(r: Result<(ImportMap, ImportUrlCap), String>) -> Result<
    (Seq<(Seq<char>, Seq<char>)>, ImportCapView),
    Seq<char>,
> {
    match r {
        Ok((import_map, cap)) => Ok((import_map@, cap@)),
        Err(e) => Err(e@),
    }
}

/// Reads the cap on imports.
pub fn read_max_imports_cap(raw: Option<Vec<u8>>) -> (r: Result<ImportUrlCap, String>)
    ensures
        result_view(r) == max_imports_setting(raw_text(raw)),
{
    let r = MaxImportsParser::new().parse_cstring(raw, "GUC typescript.max_imports");
    r
}

fn hold_to_cap(
    import_map: Result<ImportMap, String>,
    max_imports: ImportUrlCap,
    source: &str,
) -> (r: Result<(ImportMap, ImportUrlCap), String>)
    ensures
        capped_view(r) == (match result_view(import_map) {
            Err(e) => Err(e),
            Ok(entries) => match import_cap_error(entries, max_imports@, source@) {
                Some(e) => Err(e),
                None => Ok((entries, max_imports@)),
            },
        }),
{
    match import_map {
        Err(e) => Err(e),
        Ok(import_map) => match enforce_import_map_cap(&import_map, &max_imports, source) {
            Err(e) => Err(e),
            Ok(_) => Ok((import_map, max_imports)),
        },
    }
}

/// Reads the import map among the settings of a function and holds it to the
/// cap of the session.
pub fn read_import_map(config: &Option<Vec<String>>, max_imports: Option<Vec<u8>>) -> (r: Result<
    (ImportMap, ImportUrlCap),
    String,
>)
    ensures
        capped_view(r) == capped_import_map(
            config_value(config_view(*config), "typescript.import_map"@),
            raw_text(max_imports),
            "function setting typescript.import_map"@,
        ),
{
    let cap = match read_max_imports_cap(max_imports) {
        Ok(cap) => cap,
        Err(e) => return Err(e),
    };
    let import_map = ImportMapParser::new().parse_raw(
        read_function_config(config, "typescript.import_map"),
        "function setting typescript.import_map",
    );
    hold_to_cap(import_map, cap, "function setting typescript.import_map")
}

/// Reads the import map of the session, for a `DO` block, and holds it to the
/// cap of the session.
pub fn read_inline_import_map(import_map: Option<Vec<u8>>, max_imports: Option<Vec<u8>>) -> (r:
    Result<(ImportMap, ImportUrlCap), String>)
    ensures
        capped_view(r) == capped_import_map(
            raw_text(import_map),
            raw_text(max_imports),
            "GUC typescript.import_map"@,
        ),
{
    let cap = match read_max_imports_cap(max_imports) {
        Ok(cap) => cap,
        Err(e) => return Err(e),
    };
    let import_map = ImportMapParser::new().parse_cstring(import_map, "GUC typescript.import_map");
    hold_to_cap(import_map, cap, "GUC typescript.import_map")
}

// ---------------------------------------------------------------------------
// Runs
// ---------------------------------------------------------------------------

/// What the catalog says of a function.
pub struct ProcInfo {
    pub oid: u32,
    pub source: String,
    pub arg_names: Vec<Option<String>>,
    pub nargs: usize,
    /// The settings attached to the function, each as `name=value`.
    pub config: Option<Vec<String>>,
}

/// The settings of the session, as the bytes they hold.
pub struct SessionSettings {
    pub import_map: Option<Vec<u8>>,
    pub max_imports: Option<Vec<u8>>,
    pub allow: PermissionRaw,
    pub max_allow: PermissionRaw,
    pub allow_pg_execute: Option<Vec<u8>>,
    pub max_allow_pg_execute: Option<Vec<u8>>,
}

/// The model of [`SessionSettings`].
pub struct SessionView {
    pub import_map: Option<Seq<char>>,
    pub max_imports: Option<Seq<char>>,
    pub allow: PermissionRawView,
    pub max_allow: PermissionRawView,
    pub allow_pg_execute: Option<Seq<char>>,
    pub max_allow_pg_execute: Option<Seq<char>>,
}

impl View for SessionSettings {
    type V = SessionView;

    open spec fn view(&self) -> SessionView {
        SessionView {
            import_map: raw_text(self.import_map),
            max_imports: raw_text(self.max_imports),
            allow: self.allow@,
            max_allow: self.max_allow@,
            allow_pg_execute: raw_text(self.allow_pg_execute),
            max_allow_pg_execute: raw_text(self.max_allow_pg_execute),
        }
    }
}

/// Everything that is settled before a function or `DO` block is fetched for,
/// loaded or run.
pub struct PreparedRun {
    pub artifact: ModuleArtifact,
    pub permissions: RuntimePermissions,
    /// May the body call `_pg.execute()`?
    pub pg_execute: bool,
    pub max_imports: ImportUrlCap,
}

/// The model of a [`PreparedRun`].
pub struct PreparedView {
    pub artifact: ArtifactView,
    pub permissions: RuntimePermissionsView,
    pub pg_execute: bool,
    pub max_imports: ImportCapView,
}

impl View for PreparedRun {
    type V = PreparedView;

    open spec fn view(&self) -> PreparedView {
        PreparedView {
            artifact: self.artifact@,
            permissions: self.permissions@,
            pg_execute: self.pg_execute,
            max_imports: self.max_imports@,
        }
    }
}

/// The run that settings, permissions and the switch for `_pg.execute()`
/// amount to; the first error of the three stops it.
pub open spec fn prepared(
    oid: u32,
    source: Seq<char>,
    params: Seq<Seq<char>>,
    prefix: Seq<char>,
    imports: Result<(Seq<(Seq<char>, Seq<char>)>, ImportCapView), Seq<char>>,
    permissions: Result<RuntimePermissionsView, Seq<char>>,
    pg_execute: Result<bool, Seq<char>>,
) -> Result<PreparedView, Seq<char>> {
    match imports {
        Err(e) => Err("pg_typescript: "@ + e),
        Ok((entries, max_imports)) => match permissions {
            Err(e) => Err("pg_typescript: "@ + e),
            Ok(permissions) => match pg_execute {
                Err(e) => Err("pg_typescript: "@ + e),
                Ok(pg_execute) => Ok(
                    PreparedView {
                        artifact: artifact(oid, source, params, entries, prefix),
                        permissions,
                        pg_execute,
                        max_imports,
                    },
                ),
            },
        },
    }
}

/// The run of a function.
pub open spec fn function_run(
    oid: u32,
    source: Seq<char>,
    params: Seq<Seq<char>>,
    config: Option<Seq<Seq<char>>>,
    session: SessionView,
) -> Result<PreparedView, Seq<char>> {
    prepared(
        oid,
        source,
        params,
        "fn"@,
        capped_import_map(
            config_value(config, "typescript.import_map"@),
            session.max_imports,
            "function setting typescript.import_map"@,
        ),
        function_permissions(config, session.max_allow),
        pg_execute_granted(
            switch_setting(
                config_value(config, "typescript.allow_pg_execute"@),
                false,
                "function setting typescript.allow_pg_execute"@,
            ),
            session.max_allow_pg_execute,
        ),
    )
}

/// The run of a `DO` block.
pub open spec fn inline_run(source: Seq<char>, session: SessionView) -> Result<
    PreparedView,
    Seq<char>,
> {
    prepared(
        DO_BLOCK_OID,
        source,
        Seq::empty(),
        "do"@,
        capped_import_map(
            session.import_map,
            session.max_imports,
            "GUC typescript.import_map"@,
        ),
        inline_permissions(session.allow, session.max_allow),
        pg_execute_granted(
            switch_setting(session.allow_pg_execute, false, "GUC typescript.allow_pg_execute"@),
            session.max_allow_pg_execute,
        ),
    )
}

fn reported(message: String) -> (r: String)
    ensures
        r@ == "pg_typescript: "@ + message@,
{
    String::from_str("pg_typescript: ").concat(message.as_str())
}

fn prepare(
    oid: u32,
    source: &str,
    params: &Vec<String>,
    prefix: &'static str,
    imports: (ImportMap, ImportUrlCap),
    permissions: RuntimePermissions,
    pg_execute: bool,
) -> (r: PreparedRun)
    ensures
        r@ == (PreparedView {
            artifact: artifact(oid, source@, views(params@), imports.0@, prefix@),
            permissions: permissions@,
            pg_execute,
            max_imports: imports.1@,
        }),
{
    let (import_map, max_imports) = imports;
    let artifact = ModuleInputs {
        cache_oid: oid,
        source,
        param_names: params,
        import_map: &import_map,
        specifier_prefix: prefix,
    }.prepare();
    PreparedRun { artifact, permissions, pg_execute, max_imports }
}

/// Settles the run of a function, for its validation as for each call of it.
pub fn prepare_function(proc: &ProcInfo, session: SessionSettings) -> (r: Result<
    PreparedRun,
    String,
>)
    ensures
        result_view(r) == function_run(
            proc.oid,
            proc.source@,
            param_names(name_views(proc.arg_names@), proc.nargs as nat),
            config_view(proc.config),
            session@,
        ),
{
    let params = build_param_names(proc.arg_names.as_slice(), proc.nargs);
    let imports = match read_import_map(&proc.config, session.max_imports) {
        Ok(imports) => imports,
        Err(e) => return Err(reported(e)),
    };
    let permissions = match read_function_permissions_result(&proc.config, session.max_allow) {
        Ok(permissions) => permissions,
        Err(e) => return Err(reported(e)),
    };
    match read_function_pg_execute(&proc.config, session.max_allow_pg_execute) {
        Ok(pg_execute) => Ok(
            prepare(
                proc.oid,
                proc.source.as_str(),
                &params,
                "fn",
                imports,
                permissions,
                pg_execute,
            ),
        ),
        Err(e) => Err(reported(e)),
    }
}

/// Settles the run of a `DO` block.
pub fn prepare_inline(source: &str, session: SessionSettings) -> (r: Result<PreparedRun, String>)
    ensures
        result_view(r) == inline_run(source@, session@),
{
    let imports = match read_inline_import_map(session.import_map, session.max_imports) {
        Ok(imports) => imports,
        Err(e) => return Err(reported(e)),
    };
    let permissions = match read_inline_permissions_result(session.allow, session.max_allow) {
        Ok(permissions) => permissions,
        Err(e) => return Err(reported(e)),
    };
    match read_inline_pg_execute(session.allow_pg_execute, session.max_allow_pg_execute) {
        Ok(pg_execute) => {
            let params: Vec<String> = Vec::new();
            assert(views(params@) =~= Seq::<Seq<char>>::empty());
            Ok(
                prepare(DO_BLOCK_OID, source, &params, "do", imports, permissions, pg_execute),
            )
        },
        Err(e) => Err(reported(e)),
    }
}

impl PreparedRun {
    /// Are there modules to fetch before the run?
    pub fn needs_fetch(&self) -> (r: bool)
        ensures
            r == (self@.artifact.import_map.len() > 0),
    {
        !self.artifact.import_map.is_empty()
    }
}

// ---------------------------------------------------------------------------
// Lemmas
// ---------------------------------------------------------------------------

proof fn lemma_with_sorted(list: Seq<Seq<char>>, item: Seq<char>)
    requires
        strictly_sorted(list),
    ensures
        strictly_sorted(with_sorted(list, item)),
        forall|x: Seq<char>| #[trigger]
            with_sorted(list, item).contains(x) <==> list.contains(x) || x == item,
    decreases list.len(),
{
    let r = with_sorted(list, item);
    if list.len() == 0 {
        assert(r[0] == item);
    } else if list.last() == item {
        assert(list[list.len() - 1] == item);
    } else if lex_lt(list.last(), item) {
        assert forall|i: int, j: int| 0 <= i < j < r.len() implies lex_lt(
            #[trigger] r[i],
            #[trigger] r[j],
        ) by {
            if j == list.len() && i < list.len() - 1 {
                lemma_lt_transitive(list[i], list.last(), item);
            }
        }
        assert(r[list.len() as int] == item);
        assert forall|x: Seq<char>| #[trigger] r.contains(x) <==> list.contains(x) || x == item by {
            if list.contains(x) {
                let i = choose|i: int| 0 <= i < list.len() && list[i] == x;
                assert(r[i] == x);
            }
        }
    } else {
        let front = list.drop_last();
        lemma_with_sorted(front, item);
        lemma_lt_total(list.last(), item);
        let inner = with_sorted(front, item);
        assert forall|i: int, j: int| 0 <= i < j < r.len() implies lex_lt(
            #[trigger] r[i],
            #[trigger] r[j],
        ) by {
            if j == inner.len() {
                assert(inner.contains(r[i]));
                if front.contains(r[i]) {
                    let k = choose|k: int| 0 <= k < front.len() && front[k] == r[i];
                    assert(lex_lt(list[k], list[list.len() - 1]));
                }
            }
        }
        assert forall|x: Seq<char>| #[trigger] r.contains(x) <==> list.contains(x) || x == item by {
            if r.contains(x) {
                let i = choose|i: int| 0 <= i < r.len() && r[i] == x;
                if i < inner.len() {
                    assert(inner.contains(x));
                    if front.contains(x) {
                        let k = choose|k: int| 0 <= k < front.len() && front[k] == x;
                        assert(list[k] == x);
                    }
                } else {
                    assert(list[list.len() - 1] == x);
                }
            }
            if list.contains(x) || x == item {
                if list.contains(x) {
                    let k = choose|k: int| 0 <= k < list.len() && list[k] == x;
                    if k < front.len() {
                        assert(front[k] == x);
                        assert(inner.contains(x));
                    } else {
                        assert(r[r.len() - 1] == x);
                    }
                }
                if inner.contains(x) {
                    let i = choose|i: int| 0 <= i < inner.len() && inner[i] == x;
                    assert(r[i] == x);
                }
            }
        }
    }
}

proof fn lemma_first_failure_stays(verdicts: Seq<Result<bool, Seq<char>>>, n: int)
    requires
        0 <= n <= verdicts.len(),
        first_failure(verdicts.take(n)) is Some,
    ensures
        first_failure(verdicts) == first_failure(verdicts.take(n)),
    decreases verdicts.len() - n,
{
    if n < verdicts.len() {
        assert(verdicts.take(n + 1).drop_last() =~= verdicts.take(n));
        lemma_first_failure_stays(verdicts, n + 1);
    } else {
        assert(verdicts.take(n) =~= verdicts);
    }
}

proof fn lemma_first_failure(verdicts: Seq<Result<bool, Seq<char>>>)
    ensures
        first_failure(verdicts) is None <==> forall|i: int|
            0 <= i < verdicts.len() ==> (#[trigger] verdicts[i]) is Ok,
    decreases verdicts.len(),
{
    if verdicts.len() > 0 {
        let front = verdicts.drop_last();
        lemma_first_failure(front);
        if first_failure(verdicts) is None {
            assert forall|i: int| 0 <= i < verdicts.len() implies (#[trigger] verdicts[i]) is Ok by {
                if i < front.len() {
                    assert(front[i] == verdicts[i]);
                }
            }
        } else if first_failure(front) is Some {
            let i = choose|i: int| 0 <= i < front.len() && (#[trigger] front[i]) is Err;
            assert(verdicts[i] is Err);
        } else {
            assert(verdicts[verdicts.len() - 1] is Err);
        }
    }
}

proof fn lemma_refused(urls: Seq<Seq<char>>, verdicts: Seq<Result<bool, Seq<char>>>)
    requires
        urls.len() == verdicts.len(),
    ensures
        refused_urls(urls, verdicts).len() == 0 <==> forall|i: int|
            0 <= i < verdicts.len() ==> #[trigger] verdicts[i] != Ok::<bool, Seq<char>>(false),
    decreases verdicts.len(),
{
    if verdicts.len() > 0 {
        let front = verdicts.drop_last();
        lemma_refused(urls.drop_last(), front);
        if refused_urls(urls, verdicts).len() == 0 {
            assert forall|i: int| 0 <= i < verdicts.len() implies #[trigger] verdicts[i] != Ok::<
                bool,
                Seq<char>,
            >(false) by {
                if i < front.len() {
                    assert(front[i] == verdicts[i]);
                }
            }
        } else if refused_urls(urls.drop_last(), front).len() > 0 {
            let i = choose|i: int|
                0 <= i < front.len() && #[trigger] front[i] == Ok::<bool, Seq<char>>(false);
            assert(verdicts[i] == Ok::<bool, Seq<char>>(false));
        } else {
            assert(verdicts[verdicts.len() - 1] == Ok::<bool, Seq<char>>(false));
        }
    }
}

// ---------------------------------------------------------------------------
// Laws
// ---------------------------------------------------------------------------

/// The URLs that are held to the cap are those of the import map, sorted, and
/// none of them twice.
pub proof fn law_requested_urls(entries: Seq<(Seq<char>, Seq<char>)>)
    ensures
        strictly_sorted(requested_urls(entries)),
        forall|url: Seq<char>| #[trigger]
            requested_urls(entries).contains(url) <==> crate::import_map::has_url(entries, url),
    decreases entries.len(),
{
    if entries.len() > 0 {
        let front = entries.drop_last();
        law_requested_urls(front);
        lemma_with_sorted(requested_urls(front), entries.last().1);
        assert forall|url: Seq<char>| #[trigger]
            requested_urls(entries).contains(url) <==> crate::import_map::has_url(
                entries,
                url,
            ) by {
            if crate::import_map::has_url(front, url) {
                let i = choose|i: int| 0 <= i < front.len() && (#[trigger] front[i]).1 == url;
                assert(entries[i].1 == url);
            }
            if entries.last().1 == url {
                assert(entries[entries.len() - 1].1 == url);
            }
            if crate::import_map::has_url(entries, url) {
                let i = choose|i: int| 0 <= i < entries.len() && (#[trigger] entries[i]).1 == url;
                if i < front.len() {
                    assert(front[i].1 == url);
                }
            }
            assert(requested_urls(entries).contains(url) <==> requested_urls(front).contains(url)
                || url == entries.last().1);
        }
    }
}

/// An import map passes just where the cap allows every URL in it.
pub proof fn law_import_map_passes_iff_every_url_is_allowed(
    entries: Seq<(Seq<char>, Seq<char>)>,
    cap: ImportCapView,
    source: Seq<char>,
)
    ensures
        import_cap_error(entries, cap, source) is None <==> forall|i: int|
            0 <= i < entries.len() ==> url_allowed(
                (#[trigger] entries[i]).1,
                cap,
                url_parse(entries[i].1),
            ) == Ok::<bool, Seq<char>>(true),
{
    let urls = requested_urls(entries);
    let verdicts = cap_verdicts(urls, cap);
    law_requested_urls(entries);
    lemma_first_failure(verdicts);
    lemma_refused(urls, verdicts);
    if import_cap_error(entries, cap, source) is None {
        assert forall|i: int| 0 <= i < entries.len() implies url_allowed(
            (#[trigger] entries[i]).1,
            cap,
            url_parse(entries[i].1),
        ) == Ok::<bool, Seq<char>>(true) by {
            assert(crate::import_map::has_url(entries, entries[i].1));
            assert(urls.contains(entries[i].1));
            let k = choose|k: int| 0 <= k < urls.len() && urls[k] == entries[i].1;
            assert(verdicts[k] is Ok);
            assert(verdicts[k] != Ok::<bool, Seq<char>>(false));
        }
    } else {
        let k = choose|k: int|
            0 <= k < verdicts.len() && #[trigger] verdicts[k] != Ok::<bool, Seq<char>>(true);
        assert(urls.contains(urls[k]));
        let i = choose|i: int| 0 <= i < entries.len() && (#[trigger] entries[i]).1 == urls[k];
        assert(url_allowed(entries[i].1, cap, url_parse(entries[i].1)) != Ok::<bool, Seq<char>>(
            true,
        ));
    }
}

/// Validation and execution work on the same generated module: it depends on
/// the function alone, not on the session.
pub proof fn law_validation_and_execution_agree(
    oid: u32,
    source: Seq<char>,
    params: Seq<Seq<char>>,
    config: Option<Seq<Seq<char>>>,
    validated: SessionView,
    called: SessionView,
)
    requires
        function_run(oid, source, params, config, validated) is Ok,
        function_run(oid, source, params, config, called) is Ok,
    ensures
        function_run(oid, source, params, config, validated)->Ok_0.artifact == function_run(
            oid,
            source,
            params,
            config,
            called,
        )->Ok_0.artifact,
{
}

/// No run starts with an import that the cap of its session does not allow.
pub proof fn law_no_run_imports_beyond_the_cap(
    oid: u32,
    source: Seq<char>,
    params: Seq<Seq<char>>,
    config: Option<Seq<Seq<char>>>,
    session: SessionView,
)
    ensures
        function_run(oid, source, params, config, session) matches Ok(run) ==> max_imports_setting(
            session.max_imports,
        ) == Ok::<ImportCapView, Seq<char>>(run.max_imports) && forall|i: int|
            0 <= i < run.artifact.import_map.len() ==> url_allowed(
                (#[trigger] run.artifact.import_map[i]).1,
                run.max_imports,
                url_parse(run.artifact.import_map[i].1),
            ) == Ok::<bool, Seq<char>>(true),
        inline_run(source, session) matches Ok(run) ==> max_imports_setting(session.max_imports)
            == Ok::<ImportCapView, Seq<char>>(run.max_imports) && forall|i: int|
            0 <= i < run.artifact.import_map.len() ==> url_allowed(
                (#[trigger] run.artifact.import_map[i]).1,
                run.max_imports,
                url_parse(run.artifact.import_map[i].1),
            ) == Ok::<bool, Seq<char>>(true),
{
    if let Ok(run) = function_run(oid, source, params, config, session) {
        law_import_map_passes_iff_every_url_is_allowed(
            run.artifact.import_map,
            run.max_imports,
            "function setting typescript.import_map"@,
        );
    }
    if let Ok(run) = inline_run(source, session) {
        law_import_map_passes_iff_every_url_is_allowed(
            run.artifact.import_map,
            run.max_imports,
            "GUC typescript.import_map"@,
        );
    }
}

/// The body of a run imports nothing but modules that its import map declares,
/// each from an `http` or `https` URL.
pub proof fn law_run_imports_declared_http_modules(
    oid: u32,
    source: Seq<char>,
    params: Seq<Seq<char>>,
    config: Option<Seq<Seq<char>>>,
    session: SessionView,
    specifier: Seq<char>,
)
    ensures
        function_run(oid, source, params, config, session) matches Ok(run) ==> valid_import_map(
            run.artifact.import_map,
        ) && (main_resolution(run.artifact.import_map, specifier) matches Ok(s)
            ==> has_http_scheme(s)),
        inline_run(source, session) matches Ok(run) ==> valid_import_map(run.artifact.import_map)
            && (main_resolution(run.artifact.import_map, specifier) matches Ok(s)
            ==> has_http_scheme(s)),
{
    if let Some(json) = normalized(config_value(config, "typescript.import_map"@)) {
        law_accepted_import_map_is_valid(json);
    }
    if let Some(json) = normalized(session.import_map) {
        law_accepted_import_map_is_valid(json);
    }
    if let Ok(run) = function_run(oid, source, params, config, session) {
        law_body_imports_http_modules(run.artifact.import_map, specifier);
    }
    if let Ok(run) = inline_run(source, session) {
        law_body_imports_http_modules(run.artifact.import_map, specifier);
    }
}

/// The models of settings, runs and verdicts have what these hold, each in its
/// place.
pub proof fn law_models_of_runs(
    s: SessionSettings,
    run: PreparedRun,
    verdicts: Seq<Result<bool, String>>,
    i: int,
)
    requires
        0 <= i < verdicts.len(),
    ensures
        s@.import_map == raw_text(s.import_map),
        s@.max_imports == raw_text(s.max_imports),
        s@.allow == s.allow@,
        s@.max_allow == s.max_allow@,
        s@.allow_pg_execute == raw_text(s.allow_pg_execute),
        s@.max_allow_pg_execute == raw_text(s.max_allow_pg_execute),
        run@.artifact == run.artifact@,
        run@.permissions == run.permissions@,
        run@.pg_execute == run.pg_execute,
        run@.max_imports == run.max_imports@,
        verdict_views(verdicts).len() == verdicts.len(),
        verdicts[i] matches Ok(b) ==> verdict_views(verdicts)[i] == Ok::<_, Seq<char>>(b),
        verdicts[i] matches Err(e) ==> verdict_views(verdicts)[i] == Err::<bool, _>(e@),
{
}

/// The model of an import map with its cap has the two.
pub proof fn law_models_of_capped_import_maps(import_map: ImportMap, cap: ImportUrlCap, e: String)
    ensures
        capped_view(Ok((import_map, cap))) == Ok::<_, Seq<char>>((import_map@, cap@)),
        capped_view(Err(e)) == Err::<(Seq<(Seq<char>, Seq<char>)>, ImportCapView), _>(e@),
{
}

/// Imports are not capped unless their cap is set, and nothing is imported unless
/// an import map is; otherwise the two are what their texts mean.
pub proof fn law_settings_of_imports(raw: Option<Seq<char>>, value: Seq<char>)
    ensures
        normalized(raw) is None ==> max_imports_setting(raw) == Ok::<_, Seq<char>>(
            ImportCapView::AllowAll,
        ) && import_map_setting(raw) == Ok::<_, Seq<char>>(
            Seq::<(Seq<char>, Seq<char>)>::empty(),
        ),
        normalized(raw) == Some(value) ==> max_imports_setting(raw) == max_imports_parse(
            value,
            "GUC typescript.max_imports"@,
        ) && import_map_setting(raw) == import_map_parse(value),
{
}

/// The import map of a run is the one that is set for it, under the cap that is
/// set for the session, and is refused where the cap does not allow all of it.
pub proof fn law_import_maps_are_held_to_the_cap(
    import_map: Option<Seq<char>>,
    max_imports: Option<Seq<char>>,
    source: Seq<char>,
)
    ensures
        match max_imports_setting(max_imports) {
            Err(e) => capped_import_map(import_map, max_imports, source) == Err::<
                (Seq<(Seq<char>, Seq<char>)>, ImportCapView),
                _,
            >(e),
            Ok(cap) => match import_map_setting(import_map) {
                Err(e) => capped_import_map(import_map, max_imports, source) == Err::<
                    (Seq<(Seq<char>, Seq<char>)>, ImportCapView),
                    _,
                >(e),
                Ok(entries) => {
                    &&& (forall|i: int|
                        0 <= i < entries.len() ==> url_allowed(
                            (#[trigger] entries[i]).1,
                            cap,
                            url_parse(entries[i].1),
                        ) == Ok::<bool, Seq<char>>(true)) ==> capped_import_map(
                        import_map,
                        max_imports,
                        source,
                    ) == Ok::<_, Seq<char>>((entries, cap))
                    &&& !(forall|i: int|
                        0 <= i < entries.len() ==> url_allowed(
                            (#[trigger] entries[i]).1,
                            cap,
                            url_parse(entries[i].1),
                        ) == Ok::<bool, Seq<char>>(true)) ==> capped_import_map(
                        import_map,
                        max_imports,
                        source,
                    ) is Err && import_cap_error(entries, cap, source) == Some(
                        capped_import_map(import_map, max_imports, source)->Err_0,
                    )
                },
            },
        },
{
    if let Ok(cap) = max_imports_setting(max_imports) {
        if let Ok(entries) = import_map_setting(import_map) {
            law_import_map_passes_iff_every_url_is_allowed(entries, cap, source);
        }
    }
}

proof fn lemma_refused_contains(
    urls: Seq<Seq<char>>,
    verdicts: Seq<Result<bool, Seq<char>>>,
    url: Seq<char>,
)
    requires
        urls.len() == verdicts.len(),
    ensures
        refused_urls(urls, verdicts).contains(url) <==> exists|i: int|
            0 <= i < urls.len() && #[trigger] urls[i] == url
                && verdicts[i] == Ok::<bool, Seq<char>>(
                false,
            ),
    decreases verdicts.len(),
{
    if verdicts.len() > 0 {
        let front = urls.drop_last();
        let earlier = verdicts.drop_last();
        lemma_refused_contains(front, earlier, url);
        let rest = refused_urls(front, earlier);
        let r = refused_urls(urls, verdicts);
        let last = urls.len() - 1;
        if rest.contains(url) {
            let k = choose|k: int| 0 <= k < rest.len() && rest[k] == url;
            assert(r[k] == url);
            let i = choose|i: int|
                0 <= i < front.len() && #[trigger] front[i] == url && earlier[i] == Ok::<
                    bool,
                    Seq<char>,
                >(false);
            assert(urls[i] == url && verdicts[i] == Ok::<bool, Seq<char>>(false));
        }
        if verdicts.last() == Ok::<bool, Seq<char>>(false) {
            assert(r[r.len() - 1] == urls[last]);
            if r.contains(url) {
                let k = choose|k: int| 0 <= k < r.len() && r[k] == url;
                if k < rest.len() {
                    assert(rest[k] == url);
                    assert(rest.contains(url));
                } else {
                    assert(urls[last] == url);
                }
            }
        }
        if exists|i: int|
            0 <= i < urls.len() && #[trigger] urls[i] == url
                && verdicts[i] == Ok::<bool, Seq<char>>(
                false,
            ) {
            let i = choose|i: int|
                0 <= i < urls.len() && #[trigger] urls[i] == url && verdicts[i] == Ok::<
                    bool,
                    Seq<char>,
                >(false);
            if i < last {
                assert(front[i] == url && earlier[i] == Ok::<bool, Seq<char>>(false));
            }
        }
    } else {
        assert(refused_urls(urls, verdicts) =~= Seq::empty());
    }
}

/// The URLs that are refused are those of the import map that the cap does not
/// allow, in their order.
pub proof fn law_refused_urls(
    urls: Seq<Seq<char>>,
    verdicts: Seq<Result<bool, Seq<char>>>,
    url: Seq<char>,
    verdict: Result<bool, Seq<char>>,
)
    requires
        urls.len() == verdicts.len(),
    ensures
        refused_urls(urls, verdicts).contains(url) <==> exists|i: int|
            0 <= i < urls.len() && #[trigger] urls[i] == url
                && verdicts[i] == Ok::<bool, Seq<char>>(
                false,
            ),
        refused_urls(urls.push(url), verdicts.push(verdict)) == (if verdict == Ok::<
            bool,
            Seq<char>,
        >(false) {
            refused_urls(urls, verdicts).push(url)
        } else {
            refused_urls(urls, verdicts)
        }),
{
    lemma_refused_contains(urls, verdicts, url);
    assert(urls.push(url).drop_last() =~= urls);
    assert(verdicts.push(verdict).drop_last() =~= verdicts);
}

proof fn lemma_which_failure(verdicts: Seq<Result<bool, Seq<char>>>, i: int)
    requires
        0 <= i < verdicts.len(),
        verdicts[i] is Err,
        forall|j: int| 0 <= j < i ==> (#[trigger] verdicts[j]) is Ok,
    ensures
        first_failure(verdicts) == Some(verdicts[i]->Err_0),
    decreases verdicts.len(),
{
    let front = verdicts.drop_last();
    if i < front.len() {
        assert forall|j: int| 0 <= j < i implies (#[trigger] front[j]) is Ok by {
            assert(verdicts[j] is Ok);
        }
        lemma_which_failure(front, i);
    } else {
        assert forall|j: int| 0 <= j < front.len() implies (#[trigger] front[j]) is Ok by {
            assert(verdicts[j] is Ok);
        }
        lemma_first_failure(front);
    }
}

/// An import map that the cap does not allow is refused with the first URL that
/// cannot be judged, and otherwise by its setting, with all of its URLs and with
/// those that are not allowed.
pub proof fn law_errors_of_import_maps(
    entries: Seq<(Seq<char>, Seq<char>)>,
    cap: ImportCapView,
    source: Seq<char>,
    i: int,
)
    ensures
        ({
            let urls = requested_urls(entries);
            let verdicts = Seq::new(
                urls.len(),
                |k: int| url_allowed(urls[k], cap, url_parse(urls[k])),
            );
            &&& 0 <= i < urls.len() && verdicts[i] is Err && (forall|j: int|
                0 <= j < i ==> (#[trigger] verdicts[j]) is Ok) ==> import_cap_error(
                entries,
                cap,
                source,
            ) == Some(verdicts[i]->Err_0)
            &&& 0 <= i < urls.len() && verdicts[i] == Ok::<bool, Seq<char>>(false)
                && (forall|j: int|
                0 <= j < urls.len() ==> (#[trigger] verdicts[j]) is Ok) ==> import_cap_error(
                entries,
                cap,
                source,
            ) == Some(
                source + " cannot be fulfilled by GUC typescript.max_imports: requested "@ + ("["@
                    + join_spec(urls, ","@) + "]"@) + " includes disallowed values "@ + ("["@
                    + join_spec(refused_urls(urls, verdicts), ","@) + "]"@),
            )
        }),
{
    let urls = requested_urls(entries);
    let verdicts = Seq::new(urls.len(), |k: int| url_allowed(urls[k], cap, url_parse(urls[k])));
    assert(verdicts =~= cap_verdicts(urls, cap));
    lemma_first_failure(verdicts);
    lemma_refused(urls, verdicts);
    if 0 <= i < urls.len() && verdicts[i] is Err {
        if forall|j: int| 0 <= j < i ==> (#[trigger] verdicts[j]) is Ok {
            lemma_which_failure(verdicts, i);
        }
    }
}

/// A run is made of the body, the parameters, the import map and the permissions
/// of its function, under the OID of the function; what it may do and import is
/// settled from its own settings and the caps of the session. The first of import
/// map, permissions and `_pg.execute()` that is at fault stops it.
pub proof fn law_runs_of_functions(
    oid: u32,
    source: Seq<char>,
    params: Seq<Seq<char>>,
    config: Option<Seq<Seq<char>>>,
    session: SessionView,
)
    ensures
        ({
            let imports = capped_import_map(
                config_value(config, "typescript.import_map"@),
                session.max_imports,
                "function setting typescript.import_map"@,
            );
            let permissions = function_permissions(config, session.max_allow);
            let pg_execute = pg_execute_granted(
                switch_setting(
                    config_value(config, "typescript.allow_pg_execute"@),
                    false,
                    "function setting typescript.allow_pg_execute"@,
                ),
                session.max_allow_pg_execute,
            );
            let r = function_run(oid, source, params, config, session);
            &&& imports matches Err(e) ==> r == Err::<PreparedView, _>("pg_typescript: "@ + e)
            &&& imports is Ok ==> (permissions matches Err(e) ==> r == Err::<PreparedView, _>(
                "pg_typescript: "@ + e,
            ))
            &&& imports is Ok && permissions is Ok ==> (pg_execute matches Err(e) ==> r == Err::<
                PreparedView,
                _,
            >("pg_typescript: "@ + e))
            &&& imports is Ok && permissions is Ok && pg_execute is Ok ==> (r matches Ok(run) && {
                &&& run.artifact == artifact(oid, source, params, imports->Ok_0.0, "fn"@)
                &&& run.max_imports == imports->Ok_0.1
                &&& permissions == Ok::<_, Seq<char>>(run.permissions)
                &&& pg_execute == Ok::<_, Seq<char>>(run.pg_execute)
            })
        }),
{
}

/// A `DO` block runs in the same way, without parameters and without an OID of its
/// own, and by the settings of the session alone.
pub proof fn law_runs_of_blocks(source: Seq<char>, session: SessionView)
    ensures
        ({
            let imports = capped_import_map(
                session.import_map,
                session.max_imports,
                "GUC typescript.import_map"@,
            );
            let permissions = inline_permissions(session.allow, session.max_allow);
            let pg_execute = pg_execute_granted(
                switch_setting(session.allow_pg_execute, false, "GUC typescript.allow_pg_execute"@),
                session.max_allow_pg_execute,
            );
            let r = inline_run(source, session);
            &&& imports matches Err(e) ==> r == Err::<PreparedView, _>("pg_typescript: "@ + e)
            &&& imports is Ok ==> (permissions matches Err(e) ==> r == Err::<PreparedView, _>(
                "pg_typescript: "@ + e,
            ))
            &&& imports is Ok && permissions is Ok ==> (pg_execute matches Err(e) ==> r == Err::<
                PreparedView,
                _,
            >("pg_typescript: "@ + e))
            &&& imports is Ok && permissions is Ok && pg_execute is Ok ==> (r matches Ok(run) && {
                &&& run.artifact == artifact(
                    0,
                    source,
                    Seq::<Seq<char>>::empty(),
                    imports->Ok_0.0,
                    "do"@,
                )
                &&& run.max_imports == imports->Ok_0.1
                &&& permissions == Ok::<_, Seq<char>>(run.permissions)
                &&& pg_execute == Ok::<_, Seq<char>>(run.pg_execute)
            })
        }),
{
}

} // verus!
