//! Resolving bare npm specifiers to URLs of esm.sh.
use vstd::hash_map::StringHashMap;
use vstd::prelude::*;

use crate::error::{js_result_view, ErrorClass, JsError, JsErrorView};
use crate::loader::{base_of, is_http, js_parse_result, js_parsed};
use crate::specifier::{url_join, url_parse, ModuleSpecifier, SpecifierView};
use crate::text::{chars_of, law_until, starts_with, string_of, until_spec};

verus! {

/// The esm.sh URL of a bare specifier, honouring the version that its package
/// is pinned to; an `http` or `https` URL stays as it is.
pub open spec fn esm_url(pins: Map<Seq<char>, Seq<char>>, specifier: Seq<char>) -> Seq<char> {
    if is_http(specifier) {
        specifier
    } else {
        let package = until_spec(specifier, '/');
        if pins.contains_key(package) {
            "https://esm.sh/"@ + specifier + "@"@ + pins[package]
        } else {
            "https://esm.sh/"@ + specifier
        }
    }
}

/// The module that an import resolves to.
pub open spec fn esm_resolution(
    pins: Map<Seq<char>, Seq<char>>,
    specifier: Seq<char>,
    referrer: Seq<char>,
) -> Result<SpecifierView, JsErrorView> {
    if !is_http(specifier) && ("./"@.is_prefix_of(specifier) || "../"@.is_prefix_of(specifier)) {
        js_parsed(url_join(base_of(url_parse(referrer)), specifier))
    } else {
        js_parsed(url_parse(esm_url(pins, specifier)))
    }
}

/// Module loader that resolves bare npm specifiers to esm.sh.
pub struct EsmModuleLoader {
    /// Optional version pins: package name to version string.
    pub pins: StringHashMap<String>,
}

impl EsmModuleLoader {
    /// The version of each pinned package.
    pub open spec fn versions(&self) -> Map<Seq<char>, Seq<char>> {
        Map::new(|name: Seq<char>| self.pins@.contains_key(name), |name: Seq<char>| self.pins@[name]@)
    }

    /// A loader without pins.
    pub fn new() -> (r: EsmModuleLoader)
        ensures
            r.versions() == Map::<Seq<char>, Seq<char>>::empty(),
    {
        let r = EsmModuleLoader { pins: StringHashMap::new() };
        assert(r.versions() =~= Map::<Seq<char>, Seq<char>>::empty());
        r
    }

    /// Resolve a bare specifier (e.g. `"zod"` or `"lodash/chunk"`) to a full
    /// esm.sh URL, honouring any version pins.
    pub fn resolve_to_url(&self, specifier: &str) -> (r: String)
        ensures
            r@ == esm_url(self.versions(), specifier@),
    {
        if starts_with(specifier, "http://") || starts_with(specifier, "https://") {
            return String::from_str(specifier);
        }
        let package = first_segment(specifier);
        match self.pins.get(package.as_str()) {
            Some(version) => String::from_str("https://esm.sh/").concat(specifier).concat(
                "@",
            ).concat(version.as_str()),
            None => String::from_str("https://esm.sh/").concat(specifier),
        }
    }

    /// Resolves an import.
    pub fn resolve(&self, specifier: &str, referrer: &str) -> (r: Result<ModuleSpecifier, JsError>)
        ensures
            js_result_view(r) == esm_resolution(self.versions(), specifier@, referrer@),
    {
        if starts_with(specifier, "http://") || starts_with(specifier, "https://") {
            return js_parse_result(ModuleSpecifier::parse(specifier));
        }
        if starts_with(specifier, "./") || starts_with(specifier, "../") {
            let base = match ModuleSpecifier::parse(referrer) {
                Ok(base) => base,
                Err(_) => ModuleSpecifier::file_root(),
            };
            return js_parse_result(base.join(specifier));
        }
        let url = self.resolve_to_url(specifier);
        js_parse_result(ModuleSpecifier::parse(url.as_str()))
    }
}

/// The part of a specifier before its first slash.
fn first_segment(specifier: &str) -> (r: String)
    ensures
        r@ == until_spec(specifier@, '/'),
{
    let cs = chars_of(specifier);
    let mut end: usize = 0;
    assert(cs@.skip(0) =~= cs@);
    while end < cs.len() && cs[end] != '/'
        invariant
            end <= cs@.len(),
            until_spec(cs@, '/') =~= cs@.take(end as int) + until_spec(cs@.skip(end as int), '/'),
        decreases cs@.len() - end,
    {
        assert(cs@.skip(end as int).drop_first() =~= cs@.skip(end + 1));
        assert(cs@.take(end + 1) =~= cs@.take(end as int) + seq![cs@[end as int]]);
        end += 1;
    }
    assert(cs@.take(end as int) =~= cs@.subrange(0, end as int));
    string_of(&cs, 0, end)
}

/// A package's pin reaches every path within the package.
pub proof fn law_pins_reach_subpaths(
    pins: Map<Seq<char>, Seq<char>>,
    package: Seq<char>,
    path: Seq<char>,
)
    requires
        pins.contains_key(package),
        forall|i: int| 0 <= i < package.len() ==> package[i] != '/',
        !is_http(package + seq!['/'] + path),
    ensures
        esm_url(pins, package + seq!['/'] + path) == "https://esm.sh/"@ + (package + seq!['/']
            + path) + "@"@ + pins[package],
{
    lemma_until(package, path);
}

proof fn lemma_until(head: Seq<char>, tail: Seq<char>)
    requires
        forall|i: int| 0 <= i < head.len() ==> head[i] != '/',
    ensures
        until_spec(head + seq!['/'] + tail, '/') == head,
    decreases head.len(),
{
    let s = head + seq!['/'] + tail;
    if head.len() > 0 {
        lemma_until(head.drop_first(), tail);
        assert(s.drop_first() =~= head.drop_first() + seq!['/'] + tail);
        assert(seq![head[0]] + head.drop_first() =~= head);
    } else {
        assert(until_spec(s, '/') =~= head);
    }
}

/// A package is found at esm.sh under its own name, with the version that it is
/// pinned to, where it is pinned; a URL over `http` or `https` stays as it is.
pub proof fn law_urls_of_packages(
    pins: Map<Seq<char>, Seq<char>>,
    package: Seq<char>,
    path: Seq<char>,
    version: Seq<char>,
)
    requires
        !package.contains('/'),
    ensures
        "http://"@.is_prefix_of(path) || "https://"@.is_prefix_of(path) ==> esm_url(pins, path)
            == path,
        !"http://"@.is_prefix_of(package) && !"https://"@.is_prefix_of(package) ==> {
            &&& esm_url(pins.insert(package, version), package) == "https://esm.sh/"@ + package
                + "@"@ + version
            &&& !pins.contains_key(package) ==> esm_url(pins, package) == "https://esm.sh/"@
                + package
        },
        !"http://"@.is_prefix_of(package + seq!['/'] + path) && !"https://"@.is_prefix_of(
            package + seq!['/'] + path,
        ) && !pins.contains_key(package) ==> esm_url(pins, package + seq!['/'] + path)
            == "https://esm.sh/"@ + (package + seq!['/'] + path),
{
    law_until(package, '/', path);
}

/// A relative path is resolved against the importing module, or the file root
/// where that is no URL; every other import is that of its URL.
pub proof fn law_resolution_of_packages(
    pins: Map<Seq<char>, Seq<char>>,
    specifier: Seq<char>,
    referrer: Seq<char>,
)
    ensures
        "./"@.is_prefix_of(specifier) || "../"@.is_prefix_of(specifier) ==> {
            let base = match url_parse(referrer) {
                Ok(s) => s.href,
                Err(_) => "file:///"@,
            };
            match url_join(base, specifier) {
                Ok(s) => esm_resolution(pins, specifier, referrer) == Ok::<_, JsErrorView>(s),
                Err(e) => esm_resolution(pins, specifier, referrer) == Err::<SpecifierView, _>(
                    JsErrorView { class: ErrorClass::Uri, message: e },
                ),
            }
        },
        !"./"@.is_prefix_of(specifier) && !"../"@.is_prefix_of(specifier) ==> match url_parse(
            esm_url(pins, specifier),
        ) {
            Ok(s) => esm_resolution(pins, specifier, referrer) == Ok::<_, JsErrorView>(s),
            Err(e) => esm_resolution(pins, specifier, referrer) == Err::<SpecifierView, _>(
                JsErrorView { class: ErrorClass::Uri, message: e },
            ),
        },
{
    reveal_strlit("./");
    reveal_strlit("../");
    reveal_strlit("http://");
    reveal_strlit("https://");
    if "./"@.is_prefix_of(specifier) {
        assert(specifier.subrange(0, 2)[0] == specifier[0]);
    }
    if "../"@.is_prefix_of(specifier) {
        assert(specifier.subrange(0, 3)[0] == specifier[0]);
    }
    if "http://"@.is_prefix_of(specifier) {
        assert(specifier.subrange(0, 7)[0] == specifier[0]);
    }
    if "https://"@.is_prefix_of(specifier) {
        assert(specifier.subrange(0, 8)[0] == specifier[0]);
    }
}

/// The versions of a loader are those of its pins.
pub proof fn law_versions(loader: EsmModuleLoader, name: Seq<char>)
    ensures
        loader.versions().contains_key(name) <==> loader.pins@.contains_key(name),
        loader.pins@.contains_key(name) ==> loader.versions()[name] == loader.pins@[name]@,
{
}

} // verus!
