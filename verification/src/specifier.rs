//! Module specifiers: absolute URLs, by the parts that module loading reads.
use vstd::prelude::*;

use crate::text::result_view;

verus! {

/// An absolute module URL.
#[derive(Debug, PartialEq, Eq)]
pub struct ModuleSpecifier {
    /// The serialization of the whole URL.
    pub href: String,
    /// The scheme, without its colon.
    pub scheme: String,
    /// The path, in the form it has in the serialization.
    pub path: String,
}

/// The model of a [`ModuleSpecifier`].
pub struct SpecifierView {
    pub href: Seq<char>,
    pub scheme: Seq<char>,
    pub path: Seq<char>,
}

impl View for ModuleSpecifier {
    type V = SpecifierView;

    open spec fn view(&self) -> SpecifierView {
        SpecifierView { href: self.href@, scheme: self.scheme@, path: self.path@ }
    }
}

/// What URL parsing makes of a text: the parts of the URL, or the message of
/// the error.
pub uninterp spec fn url_parse(text: Seq<char>) -> Result<SpecifierView, Seq<char>>;

/// What a reference becomes against a base URL, both given as text: the parts
/// of the URL, or the message of the error.
pub uninterp spec fn url_join(base: Seq<char>, reference: Seq<char>) -> Result<
    SpecifierView,
    Seq<char>,
>;

/// Is the scheme `http` or `https`?
pub open spec fn has_http_scheme(specifier: SpecifierView) -> bool {
    specifier.scheme == "http"@ || specifier.scheme == "https"@
}

/// Does the text begin with `http://` or `https://`?
pub open spec fn begins_with_http(text: Seq<char>) -> bool {
    "http://"@.is_prefix_of(text) || "https://"@.is_prefix_of(text)
}

/// Does the text begin with a slash or a dot?
pub open spec fn begins_with_path(text: Seq<char>) -> bool {
    text.len() > 0 && (text[0] == '/' || text[0] == '.')
}

/// Calls `deno_graph::ModuleSpecifier::parse` (`url::Url::parse`) and takes the
/// URL apart into `as_str`, `scheme` and `path`; an error becomes its message.
/// The contract says that all of this is a function of the text alone, and that
/// a URL parsed from a text that begins with `http://` or `https://` has one of
/// these two schemes.
#[verifier::external_body]
pub(crate) fn parse_url(text: &str) -> (r: Result<ModuleSpecifier, String>)
    ensures
        result_view(r) == url_parse(text@),
        begins_with_http(text@) ==> (r matches Ok(url) ==> has_http_scheme(url@)),
{
    match deno_graph::ModuleSpecifier::parse(text) {
        Ok(url) => Ok(
            ModuleSpecifier {
                href: url.as_str().to_string(),
                scheme: url.scheme().to_string(),
                path: url.path().to_string(),
            },
        ),
        Err(e) => Err(e.to_string()),
    }
}

/// Parses the base with `deno_graph::ModuleSpecifier::parse` and calls
/// `join` (`url::Url::join`) on it, then takes the URL apart as [`parse_url`]
/// does. The contract says that all of this is a function of the two texts, and
/// that a reference that begins with a slash or a dot keeps the scheme of the
/// base.
#[verifier::external_body]
pub(crate) fn join_url(base: &str, reference: &str) -> (r: Result<ModuleSpecifier, String>)
    ensures
        result_view(r) == url_join(base@, reference@),
        begins_with_path(reference@) ==> (r matches Ok(url) ==> (url_parse(base@) matches Ok(b)
            ==> url@.scheme == b.scheme)),
{
    match deno_graph::ModuleSpecifier::parse(base).and_then(|url| url.join(reference)) {
        Ok(url) => Ok(
            ModuleSpecifier {
                href: url.as_str().to_string(),
                scheme: url.scheme().to_string(),
                path: url.path().to_string(),
            },
        ),
        Err(e) => Err(e.to_string()),
    }
}

impl ModuleSpecifier {
    /// Parses an absolute URL.
    pub fn parse(text: &str) -> (r: Result<ModuleSpecifier, String>)
        ensures
            result_view(r) == url_parse(text@),
            begins_with_http(text@) ==> (r matches Ok(url) ==> has_http_scheme(url@)),
    {
        parse_url(text)
    }

    /// Resolves a reference against this URL.
    pub fn join(&self, reference: &str) -> (r: Result<ModuleSpecifier, String>)
        ensures
            result_view(r) == url_join(self@.href, reference@),
            begins_with_path(reference@) ==> (r matches Ok(url) ==> (url_parse(
                self@.href,
            ) matches Ok(b) ==> url@.scheme == b.scheme)),
    {
        join_url(self.href.as_str(), reference)
    }

    /// The root of the file system, `file:///`.
    pub fn file_root() -> (r: ModuleSpecifier)
        ensures
            r@.href == "file:///"@,
            r@.scheme == "file"@,
            r@.path == "/"@,
    {
        ModuleSpecifier {
            href: String::from_str("file:///"),
            scheme: String::from_str("file"),
            path: String::from_str("/"),
        }
    }

    /// The serialization of the whole URL.
    pub fn as_str(&self) -> (r: &str)
        ensures
            r@ == self@.href,
    {
        self.href.as_str()
    }
}

/// The model of a specifier has its parts, and its scheme is that of the web where
/// it is `http` or `https`.
pub proof fn law_models_of_specifiers(s: ModuleSpecifier)
    ensures
        s@.href == s.href@,
        s@.scheme == s.scheme@,
        s@.path == s.path@,
        has_http_scheme(s@) <==> s.scheme@ == "http"@ || s.scheme@ == "https"@,
{
}

} // verus!
