//! The generated module of a function: its source, its name, and the cache of
//! what was compiled from it.
use std::collections::hash_map::DefaultHasher;
use std::collections::HashMap;
use std::hash::Hasher;
use vstd::prelude::*;
use vstd::std_specs::hash::DefaultHasherAdditionalSpecFns;
use vstd::string::StrSliceExecFns;

use crate::import_map::{law_contents_determine_the_map, lookup, sorted_keys, ImportMap};
use crate::loader::{is_file, module_source};
use crate::text::{
    chars_of, contains, decimal_nat, decimal_u64, find, find_spec, first_line, first_line_spec,
    hex16, hex_spec, join, join_spec, law_find, law_hexadecimal_tells_numbers_apart, occurs_at,
    starts_with, string_of, strip_prefix, views,
};

verus! {

/// The pseudo OID of a `DO` block, which has none of its own.
pub const DO_BLOCK_OID: u32 = 0;

// ---------------------------------------------------------------------------
// Models
// ---------------------------------------------------------------------------

/// The name of parameter `i` in the generated module; one without a name is
/// called by its position.
pub open spec fn param_name(arg_names: Seq<Option<Seq<char>>>, i: int) -> Seq<char> {
    if i < arg_names.len() && arg_names[i] is Some && arg_names[i]->0.len() > 0 {
        arg_names[i]->0
    } else {
        "_"@ + decimal_nat(i as nat)
    }
}

/// The names of all parameters in the generated module.
pub open spec fn param_names(arg_names: Seq<Option<Seq<char>>>, nargs: nat) -> Seq<Seq<char>> {
    Seq::new(nargs, |i: int| param_name(arg_names, i))
}

/// The statement that imports one key of the import map under its own name.
pub open spec fn import_statement(key: Seq<char>) -> Seq<char> {
    "import * as "@ + key + " from \""@ + key + "\";\n"@
}

/// The import statements of a whole import map.
pub open spec fn import_statements(entries: Seq<(Seq<char>, Seq<char>)>) -> Seq<char>
    decreases entries.len(),
{
    if entries.len() == 0 {
        Seq::empty()
    } else {
        import_statements(entries.drop_last()) + import_statement(entries.last().0)
    }
}

/// The generated module of a function body.
pub open spec fn module_text(
    body: Seq<char>,
    entries: Seq<(Seq<char>, Seq<char>)>,
    params: Seq<char>,
) -> Seq<char> {
    import_statements(entries) + "\nexport default async function("@ + params + ") {\n"@ + body
        + "\n}\n"@
}

/// The hash of a text: that of its UTF-8 bytes and the byte that ends a text.
pub open spec fn text_hash(s: Seq<char>) -> u64 {
    DefaultHasher::spec_finish(seq![vstd::utf8::encode_utf8(s), seq![0xffu8]])
}

/// The name of a generated module.
pub open spec fn synthetic_specifier(prefix: Seq<char>, hash: u64) -> Seq<char> {
    "file:///pg_typescript/"@ + prefix + "_"@ + hex_spec(hash as nat, 16) + ".ts"@
}

/// The model of a [`ModuleArtifact`].
pub struct ArtifactView {
    pub cache_oid: u32,
    pub source_hash: u64,
    pub specifier: Seq<char>,
    pub module_source: Seq<char>,
    pub import_map: Seq<(Seq<char>, Seq<char>)>,
}

/// The generated module of a function.
pub open spec fn artifact(
    cache_oid: u32,
    body: Seq<char>,
    params: Seq<Seq<char>>,
    entries: Seq<(Seq<char>, Seq<char>)>,
    prefix: Seq<char>,
) -> ArtifactView {
    let source = module_text(body, entries, join_spec(params, ", "@));
    ArtifactView {
        cache_oid,
        source_hash: text_hash(source),
        specifier: synthetic_specifier(prefix, text_hash(source)),
        module_source: source,
        import_map: entries,
    }
}

/// An error line without the words that mark an uncaught syntax error.
pub open spec fn unmarked(line: Seq<char>) -> Seq<char> {
    if "Uncaught SyntaxError: "@.is_prefix_of(line) {
        line.skip("Uncaught SyntaxError: "@.len() as int)
    } else {
        line
    }
}

/// The line with the first name of a generated module replaced by one that
/// does not depend on the function.
pub open spec fn with_placeholder(line: Seq<char>) -> Seq<char> {
    match find_spec(line, "file:///pg_typescript/"@, 0) {
        None => line,
        Some(start) => match find_spec(line, ".ts:"@, start) {
            None => line,
            Some(end) => line.take(start) + "file:///pg_typescript/input.ts"@ + line.skip(end + 3),
        },
    }
}

/// A syntax error line as the user sees it.
pub open spec fn normalized_line(line: Seq<char>) -> Seq<char> {
    with_placeholder(unmarked(line))
}

/// Does the first line of a message report a syntax error?
pub open spec fn is_syntax_error(line: Seq<char>) -> bool {
    "Uncaught SyntaxError: "@.is_prefix_of(line) || (find_spec(
        line,
        " at file:///pg_typescript/"@,
        0,
    ) is Some && find_spec(line, ".ts:"@, 0) is Some)
}

/// The report of a module that did not load.
pub open spec fn load_error(message: Seq<char>) -> Seq<char> {
    let line = first_line_spec(message);
    if is_syntax_error(line) {
        "pg_typescript: syntax error: "@ + normalized_line(line)
    } else {
        "pg_typescript: module load error: "@ + message
    }
}

/// The models of optional names.
pub open spec fn name_views(names: Seq<Option<String>>) -> Seq<Option<Seq<char>>> {
    Seq::new(names.len(), |i: int| crate::text::opt_view(names[i]))
}

// ---------------------------------------------------------------------------
// Assembling the module
// ---------------------------------------------------------------------------

/// The names of a function's parameters, `_i` for one without a name.
pub fn build_param_names(arg_names: &[Option<String>], nargs: usize) -> (r: Vec<String>)
    ensures
        views(r@) == param_names(name_views(arg_names@), nargs as nat),
{
    let mut out: Vec<String> = Vec::new();
    let ghost names = name_views(arg_names@);
    let mut i: usize = 0;
    while i < nargs
        invariant
            i <= nargs,
            names == name_views(arg_names@),
            views(out@) =~= param_names(names, i as nat),
        decreases nargs - i,
    {
        let name = param_name_of(arg_names, i);
        let ghost before = out@;
        out.push(name);
        assert(views(out@) =~= views(before).push(out@.last()@));
        i += 1;
    }
    out
}

fn param_name_of(arg_names: &[Option<String>], i: usize) -> (r: String)
    ensures
        r@ == param_name(name_views(arg_names@), i as int),
{
    if i < arg_names.len() {
        assert(name_views(arg_names@)[i as int] == crate::text::opt_view(arg_names@[i as int]));
        if let Some(name) = &arg_names[i] {
            if chars_of(name.as_str()).len() > 0 {
                return name.clone();
            }
        }
    }
    String::from_str("_").concat(decimal_u64(i as u64).as_str())
}

/// The generated module of a function body: the import statements of its
/// import map, then the body as the default export, an async function.
pub fn assemble_module(body: &str, import_map: &ImportMap, params: &str) -> (r: String)
    ensures
        r@ == module_text(body@, import_map@, params@),
{
    let entries = import_map.entries();
    let ghost all = import_map@;
    let mut module = String::new();
    let mut i: usize = 0;
    while i < entries.len()
        invariant
            i <= entries@.len(),
            all == crate::json::pair_views(entries@),
            module@ == import_statements(all.take(i as int)),
        decreases entries@.len() - i,
    {
        assert(all.take(i + 1).drop_last() =~= all.take(i as int));
        let key = entries[i].0.as_str();
        assert(all.take(i + 1).last().0 == key@);
        let statement = String::from_str("import * as ").concat(key).concat(" from \"").concat(
            key,
        ).concat("\";\n");
        module.append(statement.as_str());
        i += 1;
    }
    assert(all.take(i as int) =~= all);
    module.concat("\nexport default async function(").concat(params).concat(") {\n").concat(
        body,
    ).concat("\n}\n")
}

/// The hash of a text.
pub fn hash_str(s: &str) -> (r: u64)
    ensures
        r == text_hash(s@),
{
    let bytes = s.as_bytes_vec();
    let end: [u8; 1] = [0xff];
    let mut h = DefaultHasher::new();
    h.write(bytes.as_slice());
    h.write(&end);
    assert(end@ =~= seq![0xffu8]);
    assert(h@ =~= seq![vstd::utf8::encode_utf8(s@), seq![0xffu8]]);
    h.finish()
}

/// What the generated module of a function is made from.
pub struct ModuleInputs<'a> {
    pub cache_oid: u32,
    pub source: &'a str,
    pub param_names: &'a Vec<String>,
    pub import_map: &'a ImportMap,
    pub specifier_prefix: &'static str,
}

/// The generated module of a function: its key in the cache, its name, its
/// source and its import map.
pub struct ModuleArtifact {
    pub cache_oid: u32,
    pub source_hash: u64,
    pub specifier: String,
    pub module_source: String,
    pub import_map: ImportMap,
}

impl View for ModuleArtifact {
    type V = ArtifactView;

    open spec fn view(&self) -> ArtifactView {
        ArtifactView {
            cache_oid: self.cache_oid,
            source_hash: self.source_hash,
            specifier: self.specifier@,
            module_source: self.module_source@,
            import_map: self.import_map@,
        }
    }
}

impl<'a> ModuleInputs<'a> {
    /// Generates the module.
    pub fn prepare(self) -> (r: ModuleArtifact)
        ensures
            r@ == artifact(
                self.cache_oid,
                self.source@,
                views(self.param_names@),
                self.import_map@,
                self.specifier_prefix@,
            ),
    {
        let params = join(self.param_names, ", ");
        let module_source = assemble_module(self.source, self.import_map, params.as_str());
        let source_hash = hash_str(module_source.as_str());
        let specifier = String::from_str("file:///pg_typescript/").concat(
            self.specifier_prefix,
        ).concat("_").concat(hex16(source_hash).as_str()).concat(".ts");
        ModuleArtifact {
            cache_oid: self.cache_oid,
            source_hash,
            specifier,
            module_source,
            import_map: self.import_map.clone(),
        }
    }
}

// ---------------------------------------------------------------------------
// Error reports
// ---------------------------------------------------------------------------

/// A syntax error line as the user sees it: the name of the generated module
/// replaced by a stable one.
pub fn normalize_syntax_error_line(line: &str) -> (r: String)
    ensures
        r@ == normalized_line(line@),
{
    let out = match strip_prefix(line, "Uncaught SyntaxError: ") {
        Some(rest) => rest,
        None => String::from_str(line),
    };
    let cs = chars_of(out.as_str());
    if let Some(start) = find(&cs, &chars_of("file:///pg_typescript/"), 0) {
        proof {
            lemma_find(out@, "file:///pg_typescript/"@, 0);
        }
        if let Some(end) = find(&cs, &chars_of(".ts:"), start) {
            proof {
                reveal_strlit(".ts:");
                lemma_find(out@, ".ts:"@, start as int);
            }
            let tail = string_of(&cs, end + 3, cs.len());
            assert(cs@.subrange(0, start as int) =~= cs@.take(start as int));
            assert(tail@ =~= cs@.skip(end + 3));
            return string_of(&cs, 0, start).concat("file:///pg_typescript/input.ts").concat(
                tail.as_str(),
            );
        }
    }
    out
}

/// The report of a module that did not load: a syntax error by its first line
/// alone, anything else in full.
pub fn format_module_load_error(msg: &str) -> (r: String)
    ensures
        r@ == load_error(msg@),
{
    let line = first_line(msg);
    if starts_with(line.as_str(), "Uncaught SyntaxError: ") || (contains(
        line.as_str(),
        " at file:///pg_typescript/",
    ) && contains(line.as_str(), ".ts:")) {
        return String::from_str("pg_typescript: syntax error: ").concat(
            normalize_syntax_error_line(line.as_str()).as_str(),
        );
    }
    String::from_str("pg_typescript: module load error: ").concat(msg)
}

// ---------------------------------------------------------------------------
// The cache of compiled functions
// ---------------------------------------------------------------------------

/// One number for the pair of an OID and a source hash.
pub open spec fn cache_key(key: (u32, u64)) -> u128 {
    (key.0 * 0x1_0000_0000_0000_0000 + key.1) as u128
}

fn cache_key_of(oid: u32, hash: u64) -> (r: u128)
    ensures
        r == cache_key((oid, hash)),
{
    oid as u128 * 0x1_0000_0000_0000_0000 + hash as u128
}

proof fn lemma_cache_key(a: (u32, u64), b: (u32, u64))
    ensures
        cache_key(a) == cache_key(b) ==> a == b,
{
}

/// What was compiled from each generated module, by OID and source hash. A
/// function whose source changes gets an entry of its own.
pub struct FnCache<T> {
    entries: HashMap<u128, T>,
}

impl<T> View for FnCache<T> {
    type V = Map<(u32, u64), T>;

    closed spec fn view(&self) -> Map<(u32, u64), T> {
        Map::new(
            |key: (u32, u64)| self.entries@.contains_key(cache_key(key)),
            |key: (u32, u64)| self.entries@[cache_key(key)],
        )
    }
}

impl<T> FnCache<T> {
    /// The cache without entries.
    pub fn new() -> (r: FnCache<T>)
        ensures
            r@ == Map::<(u32, u64), T>::empty(),
    {
        let r = FnCache { entries: HashMap::new() };
        assert(r@ =~= Map::<(u32, u64), T>::empty());
        r
    }

    /// What was compiled from the module.
    pub fn get(&self, artifact: &ModuleArtifact) -> (r: Option<&T>)
        ensures
            match r {
                Some(compiled) => self@.contains_key((artifact.cache_oid, artifact.source_hash))
                    && *compiled == self@[(artifact.cache_oid, artifact.source_hash)],
                None => !self@.contains_key((artifact.cache_oid, artifact.source_hash)),
            },
    {
        broadcast use vstd::std_specs::hash::group_hash_axioms;

        self.entries.get(&cache_key_of(artifact.cache_oid, artifact.source_hash))
    }

    /// Keeps what was compiled from the module.
    pub fn insert(&mut self, artifact: &ModuleArtifact, compiled: T)
        ensures
            final(self)@ == old(self)@.insert(
                (artifact.cache_oid, artifact.source_hash),
                compiled,
            ),
    {
        broadcast use vstd::std_specs::hash::group_hash_axioms;

        let ghost key = (artifact.cache_oid, artifact.source_hash);
        let ghost before = self@;
        self.entries.insert(cache_key_of(artifact.cache_oid, artifact.source_hash), compiled);
        proof {
            assert forall|other: (u32, u64)|
                cache_key(other) == cache_key(key) implies other == key by {
                lemma_cache_key(other, key);
            }
            assert(self@ =~= before.insert(key, compiled));
        }
    }
}

// ---------------------------------------------------------------------------
// Lemmas
// ---------------------------------------------------------------------------

/// What is found stands at or after the start of the search, and the text has
/// room for it there.
proof fn lemma_find(s: Seq<char>, pat: Seq<char>, from: int)
    ensures
        find_spec(s, pat, from) matches Some(i) ==> from <= i && 0 <= i && i + pat.len()
            <= s.len(),
    decreases s.len() - from,
{
    if from >= 0 && from + pat.len() <= s.len() && !occurs_at(s, pat, from) {
        lemma_find(s, pat, from + 1);
    }
}

/// The first place at which the pattern stands is the one that is found.
proof fn lemma_find_at(s: Seq<char>, pat: Seq<char>, from: int, at: int)
    requires
        0 <= from <= at,
        occurs_at(s, pat, at),
        forall|i: int| from <= i < at ==> !occurs_at(s, pat, i),
    ensures
        find_spec(s, pat, from) == Some(at),
    decreases at - from,
{
    if from < at {
        lemma_find_at(s, pat, from + 1, at);
    }
}

/// A hexadecimal number has no dot.
proof fn lemma_hex_has_no_dot(n: nat, width: nat)
    ensures
        hex_spec(n, width).len() == width,
        forall|i: int| 0 <= i < width ==> #[trigger] hex_spec(n, width)[i] != '.',
    decreases width,
{
    if width > 0 {
        lemma_hex_has_no_dot(n / 16, (width - 1) as nat);
    }
}

// ---------------------------------------------------------------------------
// Laws
// ---------------------------------------------------------------------------

/// A compiled function is found again, and a changed source is not taken for
/// the one that was compiled.
pub proof fn law_cache<T>(
    cache: Map<(u32, u64), T>,
    compiled_from: ArtifactView,
    compiled: T,
    called: ArtifactView,
)
    ensures
        called == compiled_from ==> cache.insert(
            (compiled_from.cache_oid, compiled_from.source_hash),
            compiled,
        )[(called.cache_oid, called.source_hash)] == compiled,
        called.source_hash != compiled_from.source_hash || called.cache_oid
            != compiled_from.cache_oid ==> cache.insert(
            (compiled_from.cache_oid, compiled_from.source_hash),
            compiled,
        ).contains_key((called.cache_oid, called.source_hash)) == cache.contains_key(
            (called.cache_oid, called.source_hash),
        ),
{
}

/// The generated module depends on what the keys of the import map stand for, and
/// not on how the map came about.
pub proof fn law_generated_module_depends_on_contents(
    cache_oid: u32,
    body: Seq<char>,
    params: Seq<Seq<char>>,
    a: Seq<(Seq<char>, Seq<char>)>,
    b: Seq<(Seq<char>, Seq<char>)>,
    prefix: Seq<char>,
)
    requires
        sorted_keys(a),
        sorted_keys(b),
        forall|key: Seq<char>| #[trigger] lookup(a, key) == lookup(b, key),
    ensures
        artifact(cache_oid, body, params, a, prefix) == artifact(cache_oid, body, params, b, prefix),
{
    law_contents_determine_the_map(a, b);
}

/// A generated module is a `file` module, whatever the function, and with its
/// source in memory under its name the loader finds that source.
pub proof fn law_generated_module_is_loadable(
    cache_oid: u32,
    body: Seq<char>,
    params: Seq<Seq<char>>,
    entries: Seq<(Seq<char>, Seq<char>)>,
    prefix: Seq<char>,
    modules: Map<(u32, Seq<char>), Seq<char>>,
)
    ensures
        ({
            let a = artifact(cache_oid, body, params, entries, prefix);
            is_file(a.specifier) && module_source(
                Map::empty().insert(a.specifier, a.module_source),
                modules,
                cache_oid,
                a.specifier,
            ) == Some(a.module_source)
        }),
{
    let a = artifact(cache_oid, body, params, entries, prefix);
    let head = "file:///pg_typescript/"@;
    reveal_strlit("file:///pg_typescript/");
    reveal_strlit("file://");
    assert(a.specifier.take(7) =~= "file://"@) by {
        assert(a.specifier.take(7) =~= head.take(7));
    }
    assert("file://"@.is_prefix_of(a.specifier));
}

/// The user sees the same report of a syntax error whatever the name of the
/// generated module that it stands in.
pub proof fn law_syntax_errors_hide_generated_names(
    head: Seq<char>,
    prefix: Seq<char>,
    hash: u64,
    tail: Seq<char>,
)
    requires
        forall|i: int| 0 <= i < prefix.len() ==> prefix[i] != '.',
        !("Uncaught SyntaxError: "@.is_prefix_of(
            head + synthetic_specifier(prefix, hash) + ":"@ + tail,
        )),
        forall|i: int|
            0 <= i < head.len() ==> !occurs_at(
                head + synthetic_specifier(prefix, hash) + ":"@ + tail,
                "file:///pg_typescript/"@,
                i,
            ),
    ensures
        normalized_line(head + synthetic_specifier(prefix, hash) + ":"@ + tail) == head
            + "file:///pg_typescript/input.ts"@ + ":"@ + tail,
        normalized_line(
            "Uncaught SyntaxError: "@ + (head + synthetic_specifier(prefix, hash) + ":"@ + tail),
        ) == head + "file:///pg_typescript/input.ts"@ + ":"@ + tail,
{
    let marker = "file:///pg_typescript/"@;
    let name = prefix + "_"@ + hex_spec(hash as nat, 16);
    let specifier = synthetic_specifier(prefix, hash);
    let line = head + specifier + ":"@ + tail;
    reveal_strlit("file:///pg_typescript/");
    reveal_strlit("_");
    reveal_strlit(".ts");
    reveal_strlit(":");
    reveal_strlit(".ts:");
    lemma_hex_has_no_dot(hash as nat, 16);
    assert(specifier =~= marker + name + ".ts"@);
    let start = head.len() as int;
    let end = start + marker.len() + name.len();
    assert(occurs_at(line, marker, start));
    lemma_find_at(line, marker, 0, start);
    assert(line.subrange(end, end + 4) =~= ".ts:"@);
    assert forall|i: int| start <= i < end implies !occurs_at(line, ".ts:"@, i) by {
        assert(line[i] == (marker + name)[i - start]);
        assert(line[i] != '.');
        assert(line.subrange(i, i + 4)[0] == line[i]);
    }
    lemma_find_at(line, ".ts:"@, start, end);
    assert(with_placeholder(line) =~= head + "file:///pg_typescript/input.ts"@ + ":"@ + tail) by {
        assert(line.take(start) =~= head);
        assert(line.skip(end + 3) =~= ":"@ + tail);
    }
    let marked = "Uncaught SyntaxError: "@ + line;
    assert(marked.take("Uncaught SyntaxError: "@.len() as int) =~= "Uncaught SyntaxError: "@);
    assert("Uncaught SyntaxError: "@.is_prefix_of(marked));
    assert(marked.skip("Uncaught SyntaxError: "@.len() as int) =~= line);
}

/// The models of generated modules and of names have what these hold.
pub proof fn law_models_of_artifacts(a: ModuleArtifact, names: Seq<Option<String>>, i: int)
    requires
        0 <= i < names.len(),
    ensures
        a@.cache_oid == a.cache_oid,
        a@.source_hash == a.source_hash,
        a@.specifier == a.specifier@,
        a@.module_source == a.module_source@,
        a@.import_map == a.import_map@,
        name_views(names).len() == names.len(),
        names[i] is None <==> name_views(names)[i] is None,
        names[i] matches Some(name) ==> name_views(names)[i] == Some(name@),
{
}

/// A parameter has its own name in the generated module; one without a name, or
/// with an empty one, is called `_` and its position, counted from zero.
pub proof fn law_names_of_parameters(arg_names: Seq<Option<Seq<char>>>, nargs: nat, i: int)
    requires
        0 <= i < nargs,
    ensures
        param_names(arg_names, nargs).len() == nargs,
        i < arg_names.len() ==> (arg_names[i] matches Some(name) ==> (name.len() > 0 ==> param_names(
            arg_names,
            nargs,
        )[i] == name)),
        i >= arg_names.len() || arg_names[i] is None || arg_names[i] == Some(
            Seq::<char>::empty(),
        ) ==> param_names(arg_names, nargs)[i] == "_"@ + decimal_nat(i as nat),
{
}

proof fn lemma_first_statement(entries: Seq<(Seq<char>, Seq<char>)>)
    requires
        entries.len() > 0,
    ensures
        import_statements(entries) == import_statement(entries[0].0) + import_statements(
            entries.drop_first(),
        ),
    decreases entries.len(),
{
    let rest = entries.drop_first();
    if entries.len() == 1 {
        assert(entries.drop_last() =~= Seq::empty());
        assert(import_statements(entries.drop_last()) =~= Seq::<char>::empty());
        assert(import_statements(rest) =~= Seq::<char>::empty());
        assert(import_statements(entries) =~= import_statement(entries[0].0) + import_statements(
            rest,
        ));
    } else {
        lemma_first_statement(entries.drop_last());
        assert(entries.drop_last().drop_first() =~= rest.drop_last());
        assert(rest.last() == entries.last());
        assert(import_statements(entries) =~= import_statement(entries[0].0) + import_statements(
            rest,
        ));
    }
}

/// The generated module imports every key of the import map under its own name,
/// in the order of the keys, and then exports the body, as it stands, as an async
/// function of the parameters.
pub proof fn law_generated_text(
    body: Seq<char>,
    entries: Seq<(Seq<char>, Seq<char>)>,
    params: Seq<char>,
)
    ensures
        module_text(body, Seq::empty(), params) == "\nexport default async function("@ + params
            + ") {\n"@ + body + "\n}\n"@,
        entries.len() > 0 ==> module_text(body, entries, params) == "import * as "@ + entries[0].0
            + " from \""@ + entries[0].0 + "\";\n"@ + module_text(body, entries.drop_first(), params),
{
    let tail = "\nexport default async function("@ + params + ") {\n"@ + body + "\n}\n"@;
    assert(module_text(body, Seq::empty(), params) =~= tail);
    if entries.len() > 0 {
        lemma_first_statement(entries);
        assert(module_text(body, entries, params) =~= "import * as "@ + entries[0].0 + " from \""@
            + entries[0].0 + "\";\n"@ + module_text(body, entries.drop_first(), params));
    }
}

/// The generated module of a function has the text of its body, its parameters
/// and its import map, is hashed as that text, and is named by its kind and its
/// hash, in sixteen hexadecimal digits.
pub proof fn law_generated_modules(
    cache_oid: u32,
    body: Seq<char>,
    params: Seq<Seq<char>>,
    entries: Seq<(Seq<char>, Seq<char>)>,
    prefix: Seq<char>,
)
    ensures
        ({
            let a = artifact(cache_oid, body, params, entries, prefix);
            &&& a.cache_oid == cache_oid
            &&& a.import_map == entries
            &&& a.module_source == module_text(body, entries, join_spec(params, ", "@))
            &&& a.source_hash == DefaultHasher::spec_finish(
                seq![vstd::utf8::encode_utf8(a.module_source), seq![255u8]],
            )
            &&& a.specifier == "file:///pg_typescript/"@ + prefix + "_"@ + hex_spec(
                a.source_hash as nat,
                16,
            ) + ".ts"@
        }),
{
}

/// Generated modules of one kind with different hashes have different names.
pub proof fn law_names_tell_generated_modules_apart(prefix: Seq<char>, a: u64, b: u64)
    ensures
        synthetic_specifier(prefix, a) == synthetic_specifier(prefix, b) ==> a == b,
{
    law_hexadecimal_tells_numbers_apart(a, b);
    law_hexadecimal_tells_numbers_apart(b, a);
    let head = "file:///pg_typescript/"@ + prefix + "_"@;
    let n = head.len() as int;
    assert(synthetic_specifier(prefix, a).subrange(n, n + 16) =~= hex_spec(a as nat, 16));
    assert(synthetic_specifier(prefix, b).subrange(n, n + 16) =~= hex_spec(b as nat, 16));
}

/// Does the pattern stand somewhere in the text?
pub open spec fn stands_in(pat: Seq<char>, s: Seq<char>) -> bool {
    exists|i: int| 0 <= i <= s.len() && pat.is_prefix_of(#[trigger] s.skip(i))
}

/// A module that did not load is reported by the first line of its message alone
/// where that line reports a syntax error, of the runtime or in a generated
/// module, and by its whole message otherwise.
pub proof fn law_reports_of_modules_that_did_not_load(message: Seq<char>)
    ensures
        ({
            let line = first_line_spec(message);
            let syntax_error = "Uncaught SyntaxError: "@.is_prefix_of(line) || (stands_in(
                " at file:///pg_typescript/"@,
                line,
            ) && stands_in(".ts:"@, line));
            &&& syntax_error ==> load_error(message) == "pg_typescript: syntax error: "@
                + normalized_line(line)
            &&& !syntax_error ==> load_error(message) == "pg_typescript: module load error: "@
                + message
        }),
{
    let line = first_line_spec(message);
    law_find(line, " at file:///pg_typescript/"@, 0);
    law_find(line, ".ts:"@, 0);
}

/// A line without the name of a generated module is shown as it is, without the
/// words that mark an uncaught syntax error.
pub proof fn law_other_lines_are_shown_as_they_are(line: Seq<char>)
    requires
        !stands_in("file:///pg_typescript/"@, line),
    ensures
        !"Uncaught SyntaxError: "@.is_prefix_of(line) ==> normalized_line(line) == line,
        normalized_line("Uncaught SyntaxError: "@ + line) == line,
{
    let marked = "Uncaught SyntaxError: "@ + line;
    assert(marked.subrange(0, "Uncaught SyntaxError: "@.len() as int)
        =~= "Uncaught SyntaxError: "@);
    assert(marked.skip("Uncaught SyntaxError: "@.len() as int) =~= line);
    law_find(line, "file:///pg_typescript/"@, 0);
}

/// In the cache a module stands under its OID and its hash, and under no other
/// number.
pub proof fn law_cache_keys_tell_modules_apart(a: (u32, u64), b: (u32, u64))
    ensures
        cache_key(a) == cache_key(b) ==> a == b,
{
    lemma_cache_key(a, b);
}

} // verus!
