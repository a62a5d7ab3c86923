//! The configuration settings and what their texts mean.
use vstd::prelude::*;

use crate::import_map::{
    law_setting_a_key, lemma_key_index, lookup, sorted_keys, with_entry, ImportMap,
};
use crate::json::{json_parse, pair_views, JsonNode, JsonNodeView};
use crate::specifier::{url_parse, ModuleSpecifier, SpecifierView};
use crate::text::{
    blank, chars_of, dedup_spec, is_space, join_spec, law_dedup, law_split_undoes_join,
    law_trim_drops_outer_white_space, law_trim_keeps_the_rest, list_contains, lower_spec, opt_view,
    result_view, split, split_spec, starts_with, str_eq, to_ascii_lowercase, trim, trim_spec,
    utf8_text, utf8_to_string, views,
};

verus! {

// ---------------------------------------------------------------------------
// Models
// ---------------------------------------------------------------------------

/// The text of a setting without outer white space; none where nothing is left.
pub open spec fn normalized(raw: Option<Seq<char>>) -> Option<Seq<char>> {
    match raw {
        Some(s) => if trim_spec(s).len() > 0 {
            Some(trim_spec(s))
        } else {
            None
        },
        None => None,
    }
}

/// The words that switch a permission off.
pub open spec fn deny_word(s: Seq<char>) -> bool {
    s == "off"@ || s == "none"@ || s == "deny"@ || s == "false"@ || s == "0"@
}

/// The words that switch a permission on without a limit.
pub open spec fn allow_word(s: Seq<char>) -> bool {
    s == "*"@ || s == "all"@ || s == "on"@ || s == "true"@ || s == "1"@
}

/// What a switch is set to.
pub open spec fn bool_parse(value: Seq<char>, source: Seq<char>) -> Result<bool, Seq<char>> {
    let word = lower_spec(value);
    if deny_word(word) {
        Ok(false)
    } else if allow_word(word) || word == "allow"@ {
        Ok(true)
    } else {
        Err("invalid boolean setting '"@ + value + "' in "@ + source + "; expected on/off"@)
    }
}

/// The non-empty items among some pieces of a list, without outer white space.
pub open spec fn list_items(pieces: Seq<Seq<char>>) -> Seq<Seq<char>>
    decreases pieces.len(),
{
    if pieces.len() == 0 {
        Seq::empty()
    } else {
        let items = list_items(pieces.drop_last());
        let item = trim_spec(pieces.last());
        if item.len() == 0 {
            items
        } else {
            items.push(item)
        }
    }
}

/// The items of a comma-separated permission list, each once.
pub open spec fn permission_list(value: Seq<char>, source: Seq<char>) -> Result<
    Seq<Seq<char>>,
    Seq<char>,
> {
    let items = dedup_spec(list_items(split_spec(value, ',')));
    if items.len() == 0 {
        Err("invalid empty permission list in "@ + source)
    } else {
        Ok(items)
    }
}

/// What a permission setting means.
pub open spec fn permission_parse(value: Seq<char>, source: Seq<char>) -> Result<
    PermissionView,
    Seq<char>,
> {
    let word = lower_spec(value);
    if deny_word(word) {
        Ok(PermissionView::Deny)
    } else if allow_word(word) {
        Ok(PermissionView::AllowAll)
    } else {
        match permission_list(value, source) {
            Ok(items) => Ok(PermissionView::AllowList(items)),
            Err(e) => Err(e),
        }
    }
}

/// The serialization of an `http` or `https` URL, from what parsing gave.
pub open spec fn http_href(
    url: Seq<char>,
    source: Seq<char>,
    parsed: Result<SpecifierView, Seq<char>>,
) -> Result<Seq<char>, Seq<char>> {
    match parsed {
        Err(e) => Err("invalid URL '"@ + url + "' in "@ + source + ": "@ + e),
        Ok(s) => if s.scheme == "http"@ || s.scheme == "https"@ {
            Ok(s.href)
        } else {
            Err(
                "invalid URL '"@ + url + "' in "@ + source + ": unsupported scheme '"@ + s.scheme
                    + "' (only http/https allowed)"@,
            )
        },
    }
}

/// The serialized URLs of some items; the first item that is no `http` or
/// `https` URL makes the error.
pub open spec fn normalized_urls(items: Seq<Seq<char>>, source: Seq<char>) -> Result<
    Seq<Seq<char>>,
    Seq<char>,
>
    decreases items.len(),
{
    if items.len() == 0 {
        Ok(Seq::empty())
    } else {
        match normalized_urls(items.drop_last(), source) {
            Err(e) => Err(e),
            Ok(urls) => match http_href(items.last(), source, url_parse(items.last())) {
                Err(e) => Err(e),
                Ok(url) => Ok(urls.push(url)),
            },
        }
    }
}

/// The URL prefixes of a comma-separated list, serialized, each once.
pub open spec fn import_prefix_list(value: Seq<char>, source: Seq<char>) -> Result<
    Seq<Seq<char>>,
    Seq<char>,
> {
    match normalized_urls(list_items(split_spec(value, ',')), source) {
        Err(e) => Err(e),
        Ok(urls) => if dedup_spec(urls).len() == 0 {
            Err("invalid empty max_imports list in "@ + source)
        } else {
            Ok(dedup_spec(urls))
        },
    }
}

/// What the import cap setting means.
pub open spec fn max_imports_parse(value: Seq<char>, source: Seq<char>) -> Result<
    ImportCapView,
    Seq<char>,
> {
    let word = lower_spec(value);
    if deny_word(word) {
        Ok(ImportCapView::Deny)
    } else if allow_word(word) {
        Ok(ImportCapView::AllowAll)
    } else {
        match import_prefix_list(value, source) {
            Ok(prefixes) => Ok(ImportCapView::AllowList(prefixes)),
            Err(e) => Err(e),
        }
    }
}

/// Does the text begin with one of the prefixes?
pub open spec fn has_prefix(prefixes: Seq<Seq<char>>, text: Seq<char>) -> bool {
    exists|i: int| 0 <= i < prefixes.len() && (#[trigger] prefixes[i]).is_prefix_of(text)
}

/// Is a URL allowed under a cap, given what parsing made of it?
pub open spec fn url_allowed(
    url: Seq<char>,
    cap: ImportCapView,
    parsed: Result<SpecifierView, Seq<char>>,
) -> Result<bool, Seq<char>> {
    match cap {
        ImportCapView::AllowAll => Ok(true),
        ImportCapView::Deny => Ok(false),
        ImportCapView::AllowList(prefixes) => match http_href(url, "import URL"@, parsed) {
            Err(e) => Err(e),
            Ok(href) => Ok(has_prefix(prefixes, href)),
        },
    }
}

/// Is the character a letter of the English alphabet?
pub open spec fn is_letter(c: char) -> bool {
    ||| 'a' as int <= c as int <= 'z' as int
    ||| 'A' as int <= c as int <= 'Z' as int
}

/// May the character stand first in an identifier?
pub open spec fn identifier_start(c: char) -> bool {
    is_letter(c) || c == '_' || c == '$'
}

/// May the character stand behind the first of an identifier?
pub open spec fn identifier_part(c: char) -> bool {
    identifier_start(c) || '0' as int <= c as int <= '9' as int
}

/// The first character that no identifier holds behind its first.
pub open spec fn bad_identifier_part(s: Seq<char>) -> Option<char>
    decreases s.len(),
{
    if s.len() == 0 {
        None
    } else if identifier_part(s[0]) {
        bad_identifier_part(s.drop_first())
    } else {
        Some(s[0])
    }
}

/// What is wrong with an import-map key.
pub open spec fn identifier_error(name: Seq<char>) -> Option<Seq<char>> {
    if name.len() == 0 {
        Some("import_map key is empty"@)
    } else if !identifier_start(name[0]) {
        Some(
            "import_map key '"@ + name
                + "' is not a valid JS identifier (must start with a letter, '_', or '$')"@,
        )
    } else {
        match bad_identifier_part(name.drop_first()) {
            Some(c) => Some(
                "import_map key '"@ + name
                    + "' is not a valid JS identifier (invalid character '"@ + seq![c] + "')"@,
            ),
            None => None,
        }
    }
}

/// What is wrong with an import-map URL, from what parsing gave.
pub open spec fn import_url_error(
    url: Seq<char>,
    parsed: Result<SpecifierView, Seq<char>>,
) -> Option<Seq<char>> {
    match parsed {
        Err(e) => Some("import_map URL '"@ + url + "' is invalid: "@ + e),
        Ok(s) => if s.scheme == "http"@ || s.scheme == "https"@ {
            None
        } else {
            Some(
                "import_map URL '"@ + url + "' has unsupported scheme '"@ + s.scheme
                    + "' (only http/https allowed)"@,
            )
        },
    }
}

/// The JSON text of the `imports` member, from what parsing the document gave.
pub open spec fn imports_text(document: Result<JsonNodeView, Seq<char>>) -> Result<
    Option<Seq<char>>,
    Seq<char>,
> {
    match document {
        Err(e) => Err("invalid import_map JSON: "@ + e),
        Ok(JsonNodeView::Object(members)) => Ok(lookup(members, "imports"@)),
        Ok(_) => Ok(None),
    }
}

/// The members of the `imports` value, from what parsing it gave; a value that
/// is no object counts as one without members.
pub open spec fn imports_members(imports: Result<JsonNodeView, Seq<char>>) -> Result<
    Seq<(Seq<char>, Seq<char>)>,
    Seq<char>,
> {
    match imports {
        Err(e) => Err("invalid import_map JSON: "@ + e),
        Ok(JsonNodeView::Object(members)) => Ok(members),
        Ok(_) => Ok(Seq::empty()),
    }
}

/// The URL of one entry, from what parsing its value gave.
pub open spec fn entry_url(key: Seq<char>, value: Result<JsonNodeView, Seq<char>>) -> Result<
    Seq<char>,
    Seq<char>,
> {
    match value {
        Err(e) => Err("invalid import_map JSON: "@ + e),
        Ok(JsonNodeView::Text(url)) => Ok(url),
        Ok(_) => Err("import_map: value for '"@ + key + "' is not a string"@),
    }
}

/// The URL of one entry: its key an identifier, its value a string that holds
/// an `http` or `https` URL.
pub open spec fn checked_entry(key: Seq<char>, value_text: Seq<char>) -> Result<
    Seq<char>,
    Seq<char>,
> {
    match identifier_error(key) {
        Some(e) => Err(e),
        None => match entry_url(key, json_parse(value_text)) {
            Err(e) => Err(e),
            Ok(url) => match import_url_error(url, url_parse(url)) {
                Some(e) => Err(e),
                None => Ok(url),
            },
        },
    }
}

/// The import map of some members; the first member at fault makes the error.
pub open spec fn checked_entries(members: Seq<(Seq<char>, Seq<char>)>) -> Result<
    Seq<(Seq<char>, Seq<char>)>,
    Seq<char>,
>
    decreases members.len(),
{
    if members.len() == 0 {
        Ok(Seq::empty())
    } else {
        match checked_entries(members.drop_last()) {
            Err(e) => Err(e),
            Ok(map) => match checked_entry(members.last().0, members.last().1) {
                Err(e) => Err(e),
                Ok(url) => Ok(with_entry(map, members.last().0, url)),
            },
        }
    }
}

/// What an import-map document means.
pub open spec fn import_map_parse(json: Seq<char>) -> Result<
    Seq<(Seq<char>, Seq<char>)>,
    Seq<char>,
> {
    match imports_text(json_parse(json)) {
        Err(e) => Err(e),
        Ok(None) => Ok(Seq::empty()),
        Ok(Some(text)) => match imports_members(json_parse(text)) {
            Err(e) => Err(e),
            Ok(members) => checked_entries(members),
        },
    }
}

// ---------------------------------------------------------------------------
// Settings
// ---------------------------------------------------------------------------

/// How far a capability is granted.
#[derive(Clone, Debug, PartialEq, Eq)]
pub enum PermissionSetting {
    Deny,
    AllowAll,
    AllowList(Vec<String>),
}

/// The model of a [`PermissionSetting`].
pub enum PermissionView {
    Deny,
    AllowAll,
    AllowList(Seq<Seq<char>>),
}

impl View for PermissionSetting {
    type V = PermissionView;

    open spec fn view(&self) -> PermissionView {
        match self {
            PermissionSetting::Deny => PermissionView::Deny,
            PermissionSetting::AllowAll => PermissionView::AllowAll,
            PermissionSetting::AllowList(items) => PermissionView::AllowList(views(items@)),
        }
    }
}

impl Default for PermissionSetting {
    fn default() -> (r: PermissionSetting)
        ensures
            r == PermissionSetting::Deny,
    {
        PermissionSetting::Deny
    }
}

/// Which import URLs a superuser lets through.
#[derive(Clone, Debug, PartialEq, Eq)]
pub enum ImportUrlCap {
    Deny,
    AllowAll,
    AllowList(Vec<String>),
}

/// The model of an [`ImportUrlCap`].
pub enum ImportCapView {
    Deny,
    AllowAll,
    AllowList(Seq<Seq<char>>),
}

impl View for ImportUrlCap {
    type V = ImportCapView;

    open spec fn view(&self) -> ImportCapView {
        match self {
            ImportUrlCap::Deny => ImportCapView::Deny,
            ImportUrlCap::AllowAll => ImportCapView::AllowAll,
            ImportUrlCap::AllowList(items) => ImportCapView::AllowList(views(items@)),
        }
    }
}

impl Default for ImportUrlCap {
    fn default() -> (r: ImportUrlCap)
        ensures
            r == ImportUrlCap::AllowAll,
    {
        ImportUrlCap::AllowAll
    }
}

// ---------------------------------------------------------------------------
// Parsers
// ---------------------------------------------------------------------------

/// A setting's meaning: a default where it is unset or blank, and otherwise
/// what its trimmed text is parsed to.
pub trait GucParser {
    type Output: View;

    /// The value of an unset setting.
    spec fn default_view(&self) -> <Self::Output as View>::V;

    /// The meaning of a trimmed, non-empty text.
    spec fn parsed_view(&self, raw: Seq<char>, source: Seq<char>) -> Result<
        <Self::Output as View>::V,
        Seq<char>,
    >;

    fn default_value(&self) -> (r: Self::Output)
        ensures
            r@ == self.default_view(),
    ;

    fn parse_nonempty(&self, raw: &str, source: &str) -> (r: Result<Self::Output, String>)
        ensures
            result_view(r) == self.parsed_view(raw@, source@),
    ;

    /// The meaning of the bytes of a setting; bytes that are not UTF-8 count as
    /// unset.
    fn parse_cstring(&self, raw: Option<Vec<u8>>, source: &str) -> (r: Result<Self::Output, String>)
        ensures
            result_view(r) == (match normalized(
                utf8_text(
                    match raw {
                        Some(bytes) => Some(bytes@),
                        None => None,
                    },
                ),
            ) {
                Some(value) => self.parsed_view(value, source@),
                None => Ok(self.default_view()),
            }),
    {
        self.parse_raw(utf8_to_string(&raw), source)
    }

    /// The meaning of the text of a setting.
    fn parse_raw(&self, raw: Option<String>, source: &str) -> (r: Result<Self::Output, String>)
        ensures
            result_view(r) == (match normalized(opt_view(raw)) {
                Some(value) => self.parsed_view(value, source@),
                None => Ok(self.default_view()),
            }),
    {
        match normalize_raw(raw) {
            Some(value) => self.parse_nonempty(value.as_str(), source),
            None => Ok(self.default_value()),
        }
    }
}

/// The text of a setting without outer white space; none where nothing is left.
pub fn normalize_raw(raw: Option<String>) -> (r: Option<String>)
    ensures
        opt_view(r) == normalized(opt_view(raw)),
{
    match raw {
        Some(s) => {
            let t = trim(s.as_str());
            if t.as_str().is_empty() {
                None
            } else {
                Some(t)
            }
        },
        None => None,
    }
}

fn is_deny_word(s: &str) -> (r: bool)
    ensures
        r == deny_word(s@),
{
    str_eq(s, "off") || str_eq(s, "none") || str_eq(s, "deny") || str_eq(s, "false") || str_eq(
        s,
        "0",
    )
}

fn is_allow_word(s: &str) -> (r: bool)
    ensures
        r == allow_word(s@),
{
    str_eq(s, "*") || str_eq(s, "all") || str_eq(s, "on") || str_eq(s, "true") || str_eq(s, "1")
}

/// The parser of an on/off switch.
pub struct BoolGucParser {
    default_on: bool,
}

impl BoolGucParser {
    pub closed spec fn on_when_unset(&self) -> bool {
        self.default_on
    }

    /// A switch that is off when unset.
    pub fn new() -> (r: BoolGucParser)
        ensures
            !r.on_when_unset(),
    {
        BoolGucParser { default_on: false }
    }

    /// A switch that is on when unset, as that of a cap is.
    pub fn uncapped() -> (r: BoolGucParser)
        ensures
            r.on_when_unset(),
    {
        BoolGucParser { default_on: true }
    }
}

impl GucParser for BoolGucParser {
    type Output = bool;

    open spec fn default_view(&self) -> bool {
        self.on_when_unset()
    }

    open spec fn parsed_view(&self, raw: Seq<char>, source: Seq<char>) -> Result<bool, Seq<char>> {
        bool_parse(raw, source)
    }

    fn default_value(&self) -> bool {
        let r: bool = self.default_on;
        assert(r@ == self.default_on);
        r
    }

    fn parse_nonempty(&self, value: &str, source: &str) -> Result<bool, String> {
        parse_bool(value, source)
    }
}

/// The parser of a permission setting.
pub struct PermissionParser {
    default_all: bool,
}

impl PermissionParser {
    pub closed spec fn all_when_unset(&self) -> bool {
        self.default_all
    }

    /// A permission that is denied when unset.
    pub fn new() -> (r: PermissionParser)
        ensures
            !r.all_when_unset(),
    {
        PermissionParser { default_all: false }
    }

    /// A permission that is unlimited when unset, as a cap is.
    pub fn uncapped() -> (r: PermissionParser)
        ensures
            r.all_when_unset(),
    {
        PermissionParser { default_all: true }
    }
}

impl GucParser for PermissionParser {
    type Output = PermissionSetting;

    open spec fn default_view(&self) -> PermissionView {
        if self.all_when_unset() {
            PermissionView::AllowAll
        } else {
            PermissionView::Deny
        }
    }

    open spec fn parsed_view(&self, raw: Seq<char>, source: Seq<char>) -> Result<
        PermissionView,
        Seq<char>,
    > {
        permission_parse(raw, source)
    }

    fn default_value(&self) -> PermissionSetting {
        let r = if self.default_all {
            PermissionSetting::AllowAll
        } else {
            PermissionSetting::Deny
        };
        assert(r@ == self.default_view());
        r
    }

    fn parse_nonempty(&self, value: &str, source: &str) -> Result<PermissionSetting, String> {
        parse_permission(value, source)
    }
}

/// The parser of the cap on import URLs.
pub struct MaxImportsParser;

impl MaxImportsParser {
    pub fn new() -> (r: MaxImportsParser)
        ensures
            r == MaxImportsParser,
    {
        MaxImportsParser
    }
}

impl GucParser for MaxImportsParser {
    type Output = ImportUrlCap;

    open spec fn default_view(&self) -> ImportCapView {
        ImportCapView::AllowAll
    }

    open spec fn parsed_view(&self, raw: Seq<char>, source: Seq<char>) -> Result<
        ImportCapView,
        Seq<char>,
    > {
        max_imports_parse(raw, source)
    }

    fn default_value(&self) -> ImportUrlCap {
        let r = ImportUrlCap::AllowAll;
        assert(r@ == ImportCapView::AllowAll);
        r
    }

    fn parse_nonempty(&self, value: &str, source: &str) -> Result<ImportUrlCap, String> {
        parse_max_imports(value, source)
    }
}

/// The parser of an import map.
pub struct ImportMapParser;

impl ImportMapParser {
    pub fn new() -> (r: ImportMapParser)
        ensures
            r == ImportMapParser,
    {
        ImportMapParser
    }
}

impl GucParser for ImportMapParser {
    type Output = ImportMap;

    open spec fn default_view(&self) -> Seq<(Seq<char>, Seq<char>)> {
        Seq::empty()
    }

    open spec fn parsed_view(&self, raw: Seq<char>, source: Seq<char>) -> Result<
        Seq<(Seq<char>, Seq<char>)>,
        Seq<char>,
    > {
        import_map_parse(raw)
    }

    fn default_value(&self) -> ImportMap {
        ImportMap::new()
    }

    fn parse_nonempty(&self, raw: &str, _source: &str) -> Result<ImportMap, String> {
        parse_import_map_json(raw)
    }
}

/// What a switch is set to.
pub fn parse_bool(value: &str, source: &str) -> (r: Result<bool, String>)
    ensures
        result_view(r) == bool_parse(value@, source@),
{
    let word = to_ascii_lowercase(value);
    if is_deny_word(word.as_str()) {
        Ok(false)
    } else if is_allow_word(word.as_str()) || str_eq(word.as_str(), "allow") {
        Ok(true)
    } else {
        Err(
            String::from_str("invalid boolean setting '").concat(value).concat("' in ").concat(
                source,
            ).concat("; expected on/off"),
        )
    }
}

/// What a permission setting means.
pub fn parse_permission(value: &str, source: &str) -> (r: Result<PermissionSetting, String>)
    ensures
        result_view(r) == permission_parse(value@, source@),
{
    let word = to_ascii_lowercase(value);
    if is_deny_word(word.as_str()) {
        Ok(PermissionSetting::Deny)
    } else if is_allow_word(word.as_str()) {
        Ok(PermissionSetting::AllowAll)
    } else {
        match parse_permission_list(value, source) {
            Ok(items) => Ok(PermissionSetting::AllowList(items)),
            Err(e) => Err(e),
        }
    }
}

/// What the import cap setting means.
pub fn parse_max_imports(value: &str, source: &str) -> (r: Result<ImportUrlCap, String>)
    ensures
        result_view(r) == max_imports_parse(value@, source@),
{
    let word = to_ascii_lowercase(value);
    if is_deny_word(word.as_str()) {
        Ok(ImportUrlCap::Deny)
    } else if is_allow_word(word.as_str()) {
        Ok(ImportUrlCap::AllowAll)
    } else {
        match parse_import_prefix_list(value, source) {
            Ok(prefixes) => Ok(ImportUrlCap::AllowList(prefixes)),
            Err(e) => Err(e),
        }
    }
}

/// The items of a comma-separated permission list, each once.
pub fn parse_permission_list(value: &str, source: &str) -> (r: Result<Vec<String>, String>)
    ensures
        match r {
            Ok(items) => permission_list(value@, source@) == Ok::<_, Seq<char>>(views(items@)),
            Err(e) => permission_list(value@, source@) == Err::<Seq<Seq<char>>, _>(e@),
        },
{
    let pieces = split(value, ',');
    let ghost all = views(pieces@);
    let mut out: Vec<String> = Vec::new();
    let mut i: usize = 0;
    assert(all.take(0) =~= Seq::<Seq<char>>::empty());
    assert(views(out@) =~= Seq::<Seq<char>>::empty());
    while i < pieces.len()
        invariant
            i <= pieces@.len(),
            all == views(pieces@),
            views(out@) =~= dedup_spec(list_items(all.take(i as int))),
        decreases pieces@.len() - i,
    {
        let item = trim(pieces[i].as_str());
        let ghost before = list_items(all.take(i as int));
        assert(all.take(i + 1).drop_last() =~= all.take(i as int));
        if !item.as_str().is_empty() {
            assert(before.push(item@).drop_last() =~= before);
            if !list_contains(&out, item.as_str()) {
                let ghost kept = views(out@);
                out.push(item);
                assert(views(out@) =~= kept.push(item@));
            }
        }
        i += 1;
    }
    assert(all.take(i as int) =~= all);
    if out.len() == 0 {
        return Err(String::from_str("invalid empty permission list in ").concat(source));
    }
    Ok(out)
}

/// The URL prefixes of a comma-separated list, serialized, each once.
pub fn parse_import_prefix_list(value: &str, source: &str) -> (r: Result<Vec<String>, String>)
    ensures
        match r {
            Ok(prefixes) => import_prefix_list(value@, source@) == Ok::<_, Seq<char>>(
                views(prefixes@),
            ),
            Err(e) => import_prefix_list(value@, source@) == Err::<Seq<Seq<char>>, _>(e@),
        },
{
    let pieces = split(value, ',');
    let ghost all = views(pieces@);
    let mut out: Vec<String> = Vec::new();
    let ghost mut urls: Seq<Seq<char>> = Seq::empty();
    let mut i: usize = 0;
    assert(all.take(0) =~= Seq::<Seq<char>>::empty());
    while i < pieces.len()
        invariant
            i <= pieces@.len(),
            all == views(pieces@),
            all == split_spec(value@, ','),
            normalized_urls(list_items(all.take(i as int)), source@) == Ok::<_, Seq<char>>(urls),
            views(out@) =~= dedup_spec(urls),
        decreases pieces@.len() - i,
    {
        let item = trim(pieces[i].as_str());
        let ghost before = list_items(all.take(i as int));
        assert(all.take(i + 1).drop_last() =~= all.take(i as int));
        if !item.as_str().is_empty() {
            assert(before.push(item@).drop_last() =~= before);
            match normalize_http_url(item.as_str(), source) {
                Ok(url) => {
                    let ghost old_urls = urls;
                    proof {
                        urls = urls.push(url@);
                        assert(urls.drop_last() =~= old_urls);
                    }
                    if !list_contains(&out, url.as_str()) {
                        let ghost kept = views(out@);
                        out.push(url);
                        assert(views(out@) =~= kept.push(url@));
                    }
                },
                Err(e) => {
                    proof {
                        lemma_error_stays(all, i + 1, source@);
                    }
                    return Err(e);
                },
            }
        }
        i += 1;
    }
    assert(all.take(i as int) =~= all);
    if out.len() == 0 {
        return Err(String::from_str("invalid empty max_imports list in ").concat(source));
    }
    Ok(out)
}

/// Once an item among the first pieces is at fault, its error is that of the
/// whole list.
proof fn lemma_error_stays(pieces: Seq<Seq<char>>, n: int, source: Seq<char>)
    requires
        0 <= n <= pieces.len(),
        normalized_urls(list_items(pieces.take(n)), source) is Err,
    ensures
        normalized_urls(list_items(pieces), source) == normalized_urls(
            list_items(pieces.take(n)),
            source,
        ),
    decreases pieces.len() - n,
{
    if n == pieces.len() {
        assert(pieces.take(n) =~= pieces);
    } else {
        assert(pieces.take(n + 1).drop_last() =~= pieces.take(n));
        let items = list_items(pieces.take(n));
        let item = trim_spec(pieces[n]);
        assert(items.push(item).drop_last() =~= items);
        lemma_error_stays(pieces, n + 1, source);
    }
}

/// The serialization of an `http` or `https` URL, from what parsing gave.
pub fn http_href_of(url: &str, source: &str, parsed: Result<ModuleSpecifier, String>) -> (r: Result<
    String,
    String,
>)
    ensures
        result_view(r) == http_href(url@, source@, result_view(parsed)),
{
    match parsed {
        Err(e) => Err(
            String::from_str("invalid URL '").concat(url).concat("' in ").concat(source).concat(
                ": ",
            ).concat(e.as_str()),
        ),
        Ok(s) => if str_eq(s.scheme.as_str(), "http") || str_eq(s.scheme.as_str(), "https") {
            Ok(s.href)
        } else {
            Err(
                String::from_str("invalid URL '").concat(url).concat("' in ").concat(source).concat(
                    ": unsupported scheme '",
                ).concat(s.scheme.as_str()).concat("' (only http/https allowed)"),
            )
        },
    }
}

/// Parses an `http` or `https` URL and serializes it.
pub fn normalize_http_url(url: &str, source: &str) -> (r: Result<String, String>)
    ensures
        result_view(r) == http_href(url@, source@, url_parse(url@)),
{
    http_href_of(url, source, ModuleSpecifier::parse(url))
}

/// Is a URL allowed under a cap, given what parsing made of it?
pub fn url_allowed_given(
    url: &str,
    cap: &ImportUrlCap,
    parsed: Result<ModuleSpecifier, String>,
) -> (r: Result<bool, String>)
    ensures
        result_view(r) == url_allowed(url@, cap@, result_view(parsed)),
{
    match cap {
        ImportUrlCap::AllowAll => Ok(true),
        ImportUrlCap::Deny => Ok(false),
        ImportUrlCap::AllowList(prefixes) => {
            let href = match http_href_of(url, "import URL", parsed) {
                Ok(href) => href,
                Err(e) => return Err(e),
            };
            let mut i: usize = 0;
            while i < prefixes.len()
                invariant
                    i <= prefixes@.len(),
                    cap@ == ImportCapView::AllowList(views(prefixes@)),
                    http_href(url@, "import URL"@, result_view(parsed)) == Ok::<_, Seq<char>>(
                        href@,
                    ),
                    forall|j: int|
                        0 <= j < i ==> !(#[trigger] views(prefixes@)[j]).is_prefix_of(href@),
                decreases prefixes@.len() - i,
            {
                if starts_with(href.as_str(), prefixes[i].as_str()) {
                    assert(views(prefixes@)[i as int].is_prefix_of(href@));
                    return Ok(true);
                }
                i += 1;
            }
            Ok(false)
        },
    }
}

/// Is a URL allowed under a cap? Under a list, a URL is allowed where its
/// serialization begins with one of the listed prefixes.
pub fn import_url_allowed(url: &str, cap: &ImportUrlCap) -> (r: Result<bool, String>)
    ensures
        result_view(r) == url_allowed(url@, cap@, url_parse(url@)),
{
    url_allowed_given(url, cap, ModuleSpecifier::parse(url))
}

/// Checks that an import-map key is a JavaScript identifier.
pub fn validate_js_identifier(name: &str) -> (r: Result<(), String>)
    ensures
        match r {
            Ok(_) => identifier_error(name@) is None,
            Err(e) => identifier_error(name@) == Some(e@),
        },
{
    let chars = chars_of(name);
    if chars.len() == 0 {
        return Err(String::from_str("import_map key is empty"));
    }
    if !is_identifier_start(chars[0]) {
        return Err(
            String::from_str("import_map key '").concat(name).concat(
                "' is not a valid JS identifier (must start with a letter, '_', or '$')",
            ),
        );
    }
    let mut i: usize = 1;
    assert(chars@.skip(1) =~= name@.drop_first());
    while i < chars.len()
        invariant
            1 <= i <= chars@.len(),
            chars@ == name@,
            identifier_start(name@[0]),
            bad_identifier_part(name@.drop_first()) == bad_identifier_part(chars@.skip(i as int)),
        decreases chars@.len() - i,
    {
        let c = chars[i];
        if !(is_identifier_start(c) || ('0' <= c && c <= '9')) {
            let mut message = String::from_str("import_map key '").concat(name).concat(
                "' is not a valid JS identifier (invalid character '",
            );
            let ghost head = message@;
            message.push(c);
            assert(message@ =~= head + seq![c]);
            return Err(message.concat("')"));
        }
        assert(chars@.skip(i as int).drop_first() =~= chars@.skip(i + 1));
        i += 1;
    }
    Ok(())
}

fn is_identifier_start(c: char) -> (r: bool)
    ensures
        r == identifier_start(c),
{
    ('a' <= c && c <= 'z') || ('A' <= c && c <= 'Z') || c == '_' || c == '$'
}

/// Checks an import-map URL, from what parsing gave.
pub fn import_url_verdict(url: &str, parsed: Result<ModuleSpecifier, String>) -> (r: Result<
    (),
    String,
>)
    ensures
        match r {
            Ok(_) => import_url_error(url@, result_view(parsed)) is None,
            Err(e) => import_url_error(url@, result_view(parsed)) == Some(e@),
        },
{
    match parsed {
        Err(e) => Err(
            String::from_str("import_map URL '").concat(url).concat("' is invalid: ").concat(
                e.as_str(),
            ),
        ),
        Ok(s) => if str_eq(s.scheme.as_str(), "http") || str_eq(s.scheme.as_str(), "https") {
            Ok(())
        } else {
            Err(
                String::from_str("import_map URL '").concat(url).concat(
                    "' has unsupported scheme '",
                ).concat(s.scheme.as_str()).concat("' (only http/https allowed)"),
            )
        },
    }
}

/// Checks that an import-map URL is an `http` or `https` URL.
pub fn validate_http_url(url: &str) -> (r: Result<(), String>)
    ensures
        match r {
            Ok(_) => import_url_error(url@, url_parse(url@)) is None,
            Err(e) => import_url_error(url@, url_parse(url@)) == Some(e@),
        },
{
    import_url_verdict(url, ModuleSpecifier::parse(url))
}

/// The JSON text of the `imports` member, from what parsing the document gave.
pub fn imports_text_of(document: Result<JsonNode, String>) -> (r: Result<Option<String>, String>)
    ensures
        match r {
            Ok(text) => imports_text(result_view(document)) == Ok::<_, Seq<char>>(opt_view(text)),
            Err(e) => imports_text(result_view(document)) == Err::<Option<Seq<char>>, _>(e@),
        },
{
    match document {
        Err(e) => Err(String::from_str("invalid import_map JSON: ").concat(e.as_str())),
        Ok(JsonNode::Object(members)) => {
            let mut i: usize = members.len();
            let ghost all = pair_views(members@);
            assert(all.take(i as int) =~= all);
            while i > 0
                invariant
                    i <= members@.len(),
                    all == pair_views(members@),
                    result_view(document) == Ok::<_, Seq<char>>(JsonNodeView::Object(all)),
                    lookup(all, "imports"@) == lookup(all.take(i as int), "imports"@),
                decreases i,
            {
                i -= 1;
                assert(all.take(i + 1).drop_last() =~= all.take(i as int));
                if str_eq(members[i].0.as_str(), "imports") {
                    assert(all.take(i + 1).last() == all[i as int]);
                    return Ok(Some(members[i].1.clone()));
                }
                proof {
                    lemma_key_index(all.take(i as int), "imports"@);
                }
            }
            Ok(None)
        },
        Ok(_) => Ok(None),
    }
}

/// The members of the `imports` value, from what parsing it gave; a value that
/// is no object counts as one without members.
pub fn imports_members_of(imports: Result<JsonNode, String>) -> (r: Result<
    Vec<(String, String)>,
    String,
>)
    ensures
        match r {
            Ok(members) => imports_members(result_view(imports)) == Ok::<_, Seq<char>>(
                pair_views(members@),
            ),
            Err(e) => imports_members(result_view(imports)) == Err::<Seq<(Seq<char>, Seq<char>)>, _>(
                e@,
            ),
        },
{
    match imports {
        Err(e) => Err(String::from_str("invalid import_map JSON: ").concat(e.as_str())),
        Ok(JsonNode::Object(members)) => Ok(members),
        Ok(_) => {
            let none: Vec<(String, String)> = Vec::new();
            assert(pair_views(none@) =~= Seq::empty());
            Ok(none)
        },
    }
}

/// The URL of one entry, from what parsing its value gave.
pub fn entry_url_of(key: &str, value: Result<JsonNode, String>) -> (r: Result<String, String>)
    ensures
        result_view(r) == entry_url(key@, result_view(value)),
{
    match value {
        Err(e) => Err(String::from_str("invalid import_map JSON: ").concat(e.as_str())),
        Ok(JsonNode::Text(url)) => Ok(url),
        Ok(_) => Err(
            String::from_str("import_map: value for '").concat(key).concat("' is not a string"),
        ),
    }
}

fn check_entry(key: &str, value_text: &str) -> (r: Result<String, String>)
    ensures
        result_view(r) == checked_entry(key@, value_text@),
{
    if let Err(e) = validate_js_identifier(key) {
        return Err(e);
    }
    let url = match entry_url_of(key, JsonNode::parse(value_text)) {
        Ok(url) => url,
        Err(e) => return Err(e),
    };
    match validate_http_url(url.as_str()) {
        Ok(_) => Ok(url),
        Err(e) => Err(e),
    }
}

/// The import map of the members of the `imports` value: each key an
/// identifier, each value a string that holds an `http` or `https` URL.
pub fn import_map_of(members: &Vec<(String, String)>) -> (r: Result<ImportMap, String>)
    ensures
        result_view(r) == checked_entries(pair_views(members@)),
{
    let ghost all = pair_views(members@);
    let mut map = ImportMap::new();
    let mut i: usize = 0;
    assert(all.take(0) =~= Seq::empty());
    while i < members.len()
        invariant
            i <= members@.len(),
            all == pair_views(members@),
            checked_entries(all.take(i as int)) == Ok::<_, Seq<char>>(map@),
        decreases members@.len() - i,
    {
        assert(all.take(i + 1).drop_last() =~= all.take(i as int));
        let key = members[i].0.clone();
        match check_entry(key.as_str(), members[i].1.as_str()) {
            Ok(url) => {
                map.insert(key, url);
            },
            Err(e) => {
                proof {
                    lemma_entry_error_stays(all, i + 1);
                }
                return Err(e);
            },
        }
        i += 1;
    }
    assert(all.take(i as int) =~= all);
    Ok(map)
}

/// Once an entry among the first is at fault, its error is that of them all.
proof fn lemma_entry_error_stays(members: Seq<(Seq<char>, Seq<char>)>, n: int)
    requires
        0 <= n <= members.len(),
        checked_entries(members.take(n)) is Err,
    ensures
        checked_entries(members) == checked_entries(members.take(n)),
    decreases members.len() - n,
{
    if n == members.len() {
        assert(members.take(n) =~= members);
    } else {
        assert(members.take(n + 1).drop_last() =~= members.take(n));
        lemma_entry_error_stays(members, n + 1);
    }
}

/// Parses an import-map document.
pub fn parse_import_map_json(json: &str) -> (r: Result<ImportMap, String>)
    ensures
        result_view(r) == import_map_parse(json@),
{
    let text = match imports_text_of(JsonNode::parse(json)) {
        Ok(text) => text,
        Err(e) => return Err(e),
    };
    match text {
        None => Ok(ImportMap::new()),
        Some(text) => match imports_members_of(JsonNode::parse(text.as_str())) {
            Ok(members) => import_map_of(&members),
            Err(e) => Err(e),
        },
    }
}

// ---------------------------------------------------------------------------
// Laws
// ---------------------------------------------------------------------------

/// Every key is a JavaScript identifier and every URL an `http` or `https` one,
/// and the keys stand in their order, none twice.
pub open spec fn valid_import_map(entries: Seq<(Seq<char>, Seq<char>)>) -> bool {
    &&& sorted_keys(entries)
    &&& forall|i: int|
        0 <= i < entries.len() ==> identifier_error((#[trigger] entries[i]).0) is None
            && import_url_error(entries[i].1, url_parse(entries[i].1)) is None
}

proof fn lemma_checked_entries_valid(members: Seq<(Seq<char>, Seq<char>)>)
    ensures
        checked_entries(members) matches Ok(entries) ==> valid_import_map(entries),
    decreases members.len(),
{
    if members.len() > 0 {
        lemma_checked_entries_valid(members.drop_last());
        if let Ok(map) = checked_entries(members.drop_last()) {
            if let Ok(url) = checked_entry(members.last().0, members.last().1) {
                law_setting_a_key(map, members.last().0, url, members.last().0);
                lemma_with_entry_valid(map, members.last().0, url);
            }
        }
    }
}

proof fn lemma_with_entry_valid(
    entries: Seq<(Seq<char>, Seq<char>)>,
    key: Seq<char>,
    url: Seq<char>,
)
    requires
        identifier_error(key) is None,
        import_url_error(url, url_parse(url)) is None,
        forall|i: int|
            0 <= i < entries.len() ==> identifier_error((#[trigger] entries[i]).0) is None
                && import_url_error(entries[i].1, url_parse(entries[i].1)) is None,
    ensures
        forall|i: int|
            0 <= i < with_entry(entries, key, url).len() ==> identifier_error(
                (#[trigger] with_entry(entries, key, url)[i]).0,
            ) is None && import_url_error(
                with_entry(entries, key, url)[i].1,
                url_parse(with_entry(entries, key, url)[i].1),
            ) is None,
    decreases entries.len(),
{
    if entries.len() > 0 {
        let front = entries.drop_last();
        assert forall|i: int| 0 <= i < front.len() implies identifier_error(
            (#[trigger] front[i]).0,
        ) is None && import_url_error(front[i].1, url_parse(front[i].1)) is None by {
            assert(identifier_error(entries[i].0) is None);
        }
        assert(identifier_error(entries[entries.len() - 1].0) is None);
        lemma_with_entry_valid(front, key, url);
    }
}

/// An import map that is accepted imports under JavaScript identifiers only,
/// and from `http` and `https` URLs only.
pub proof fn law_accepted_import_map_is_valid(json: Seq<char>)
    ensures
        import_map_parse(json) matches Ok(entries) ==> valid_import_map(entries),
{
    if let Ok(Some(text)) = imports_text(json_parse(json)) {
        if let Ok(members) = imports_members(json_parse(text)) {
            lemma_checked_entries_valid(members);
        }
    }
}

/// The models of settings have what the settings hold.
pub proof fn law_models_of_settings(items: Vec<String>)
    ensures
        PermissionSetting::Deny@ == PermissionView::Deny,
        PermissionSetting::AllowAll@ == PermissionView::AllowAll,
        PermissionSetting::AllowList(items)@ == PermissionView::AllowList(views(items@)),
        ImportUrlCap::Deny@ == ImportCapView::Deny,
        ImportUrlCap::AllowAll@ == ImportCapView::AllowAll,
        ImportUrlCap::AllowList(items)@ == ImportCapView::AllowList(views(items@)),
{
}

/// What the settings mean when they are unset, and which text is whose: a switch
/// and a permission are off unless they are caps, imports are not capped, and no
/// modules are imported.
pub proof fn law_parsers(
    switch: BoolGucParser,
    permission: PermissionParser,
    cap: MaxImportsParser,
    map: ImportMapParser,
    raw: Seq<char>,
    source: Seq<char>,
)
    ensures
        switch.default_view() == switch.on_when_unset(),
        permission.all_when_unset() ==> permission.default_view() == PermissionView::AllowAll,
        !permission.all_when_unset() ==> permission.default_view() == PermissionView::Deny,
        cap.default_view() == ImportCapView::AllowAll,
        map.default_view() == Seq::<(Seq<char>, Seq<char>)>::empty(),
        switch.parsed_view(raw, source) == bool_parse(raw, source),
        permission.parsed_view(raw, source) == permission_parse(raw, source),
        cap.parsed_view(raw, source) == max_imports_parse(raw, source),
        map.parsed_view(raw, source) == import_map_parse(raw),
{
}

/// A setting without a text, or with white space alone, is unset; of any other,
/// what stands between the outer white space counts.
pub proof fn law_blank_settings_are_unset(lead: Seq<char>, text: Seq<char>, tail: Seq<char>)
    requires
        blank(lead),
        blank(tail),
        text.len() > 0,
        !is_space(text[0]),
        !is_space(text[text.len() - 1]),
    ensures
        normalized(None) is None,
        normalized(Some(lead)) is None,
        normalized(Some(lead + text + tail)) == Some(text),
{
    law_trim_drops_outer_white_space(lead, text, tail);
    law_trim_keeps_the_rest(text);
    law_trim_drops_outer_white_space(lead, Seq::empty(), Seq::empty());
    assert(lead + Seq::<char>::empty() + Seq::<char>::empty() =~= lead);
    law_trim_keeps_the_rest(Seq::empty());
}

/// The words that switch a setting off or on, in letters of either case, are no
/// lists, and no other words switch anything.
pub proof fn law_words(value: Seq<char>, source: Seq<char>)
    ensures
        ({
            let word = lower_spec(value);
            let off = word == "off"@ || word == "none"@ || word == "deny"@ || word == "false"@
                || word == "0"@;
            let on = word == "*"@ || word == "all"@ || word == "on"@ || word == "true"@ || word
                == "1"@;
            &&& off ==> bool_parse(value, source) == Ok::<_, Seq<char>>(false)
                && permission_parse(value, source) == Ok::<_, Seq<char>>(PermissionView::Deny)
                && max_imports_parse(value, source) == Ok::<_, Seq<char>>(ImportCapView::Deny)
            &&& on ==> bool_parse(value, source) == Ok::<_, Seq<char>>(true) && permission_parse(
                value,
                source,
            ) == Ok::<_, Seq<char>>(PermissionView::AllowAll) && max_imports_parse(value, source)
                == Ok::<_, Seq<char>>(ImportCapView::AllowAll)
            &&& word == "allow"@ ==> bool_parse(value, source) == Ok::<_, Seq<char>>(true)
            &&& !off && !on && word != "allow"@ ==> bool_parse(value, source) == Err::<bool, _>(
                "invalid boolean setting '"@ + value + "' in "@ + source + "; expected on/off"@,
            )
            &&& !off && !on ==> {
                &&& permission_parse(value, source) matches Ok(setting) ==> setting is AllowList
                &&& max_imports_parse(value, source) matches Ok(cap) ==> cap is AllowList
            }
        }),
{
    reveal_strlit("off");
    reveal_strlit("none");
    reveal_strlit("deny");
    reveal_strlit("false");
    reveal_strlit("0");
    reveal_strlit("*");
    reveal_strlit("all");
    reveal_strlit("on");
    reveal_strlit("true");
    reveal_strlit("1");
    reveal_strlit("allow");
    let word = lower_spec(value);
    assert("*"@[0] == '*' && "all"@[0] == 'a' && "on"@[1] == 'n' && "true"@[0] == 't' && "1"@[0]
        == '1' && "allow"@[0] == 'a');
    assert("off"@[0] == 'o' && "none"@[0] == 'n' && "deny"@[0] == 'd' && "false"@[0] == 'f'
        && "0"@[0] == '0');
}

/// Every other text of a permission is a list; where it holds no item, the error
/// names the setting.
pub proof fn law_other_texts_are_lists(value: Seq<char>, source: Seq<char>)
    requires
        !deny_word(lower_spec(value)),
        !allow_word(lower_spec(value)),
    ensures
        match permission_list(value, source) {
            Ok(items) => permission_parse(value, source) == Ok::<_, Seq<char>>(
                PermissionView::AllowList(items),
            ),
            Err(e) => permission_parse(value, source) == Err::<PermissionView, _>(e) && e
                == "invalid empty permission list in "@ + source,
        },
        match import_prefix_list(value, source) {
            Ok(prefixes) => max_imports_parse(value, source) == Ok::<_, Seq<char>>(
                ImportCapView::AllowList(prefixes),
            ),
            Err(e) => max_imports_parse(value, source) == Err::<ImportCapView, _>(e),
        },
{
}

/// Which words switch a setting off, and which on.
pub proof fn law_which_words(word: Seq<char>)
    ensures
        deny_word(word) <==> word == "off"@ || word == "none"@ || word == "deny"@ || word
            == "false"@ || word == "0"@,
        allow_word(word) <==> word == "*"@ || word == "all"@ || word == "on"@ || word == "true"@
            || word == "1"@,
{
}

/// The setting that a text is read from does not change what the text means.
pub proof fn law_meaning_is_the_same_everywhere(value: Seq<char>, a: Seq<char>, b: Seq<char>)
    ensures
        permission_parse(value, a) is Ok ==> permission_parse(value, b) == permission_parse(
            value,
            a,
        ),
        bool_parse(value, a) is Ok ==> bool_parse(value, b) == bool_parse(value, a),
{
}

proof fn lemma_list_items(pieces: Seq<Seq<char>>, item: Seq<char>)
    ensures
        list_items(pieces).contains(item) <==> item.len() > 0 && exists|i: int|
            0 <= i < pieces.len() && trim_spec(#[trigger] pieces[i]) == item,
    decreases pieces.len(),
{
    if pieces.len() > 0 {
        let front = pieces.drop_last();
        lemma_list_items(front, item);
        let items = list_items(front);
        let last = trim_spec(pieces.last());
        let r = list_items(pieces);
        if exists|i: int| 0 <= i < front.len() && trim_spec(#[trigger] front[i]) == item {
            let i = choose|i: int| 0 <= i < front.len() && trim_spec(#[trigger] front[i]) == item;
            assert(trim_spec(pieces[i]) == item);
        }
        if exists|i: int| 0 <= i < pieces.len() && trim_spec(#[trigger] pieces[i]) == item {
            let i = choose|i: int| 0 <= i < pieces.len() && trim_spec(#[trigger] pieces[i]) == item;
            if i < front.len() {
                assert(trim_spec(front[i]) == item);
            }
        }
        if last == item {
            assert(trim_spec(pieces[pieces.len() - 1]) == item);
        }
        if last.len() > 0 {
            assert(r[r.len() - 1] == last);
            if items.contains(item) {
                let i = choose|i: int| 0 <= i < items.len() && items[i] == item;
                assert(r[i] == item);
            }
            if r.contains(item) {
                let i = choose|i: int| 0 <= i < r.len() && r[i] == item;
                if i < items.len() {
                    assert(items[i] == item);
                    assert(items.contains(item));
                }
            }
        }
    }
}

proof fn lemma_list_items_unchanged(items: Seq<Seq<char>>)
    requires
        forall|i: int|
            0 <= i < items.len() ==> (#[trigger] items[i]).len() > 0 && !is_space(items[i][0])
                && !is_space(items[i][items[i].len() - 1]),
    ensures
        list_items(items) == items,
    decreases items.len(),
{
    if items.len() > 0 {
        let front = items.drop_last();
        assert forall|i: int| 0 <= i < front.len() implies (#[trigger] front[i]).len() > 0
            && !is_space(front[i][0]) && !is_space(front[i][front[i].len() - 1]) by {
            assert(items[i].len() > 0);
        }
        lemma_list_items_unchanged(front);
        assert(items[items.len() - 1].len() > 0);
        law_trim_keeps_the_rest(items.last());
        assert(front.push(items.last()) =~= items);
    } else {
        assert(list_items(items) =~= items);
    }
}

proof fn lemma_dedup_unchanged(items: Seq<Seq<char>>)
    requires
        items.no_duplicates(),
    ensures
        dedup_spec(items) == items,
    decreases items.len(),
{
    if items.len() > 0 {
        let front = items.drop_last();
        lemma_dedup_unchanged(front);
        if front.contains(items.last()) {
            let i = choose|i: int| 0 <= i < front.len() && front[i] == items.last();
            assert(items[i] == items[items.len() - 1]);
        }
        assert(front.push(items.last()) =~= items);
    } else {
        assert(dedup_spec(items) =~= items);
    }
}

/// A list of different items with commas between them is read as those items, in
/// their order.
pub proof fn law_lists_are_read_item_by_item(items: Seq<Seq<char>>, source: Seq<char>)
    requires
        items.len() > 0,
        items.no_duplicates(),
        forall|i: int|
            0 <= i < items.len() ==> (#[trigger] items[i]).len() > 0 && !items[i].contains(',')
                && !is_space(items[i][0]) && !is_space(items[i][items[i].len() - 1]),
    ensures
        permission_list(join_spec(items, seq![',']), source) == Ok::<_, Seq<char>>(items),
{
    assert forall|i: int| 0 <= i < items.len() implies !(#[trigger] items[i]).contains(',') by {
        assert(items[i].len() > 0);
    }
    law_split_undoes_join(items, ',');
    lemma_list_items_unchanged(items);
    lemma_dedup_unchanged(items);
}

/// White space around an item, empty items and repetitions do not count in a
/// list; one without items is refused.
pub proof fn law_items_of_a_list(pieces: Seq<Seq<char>>, source: Seq<char>, item: Seq<char>)
    requires
        pieces.len() > 0,
        forall|i: int| 0 <= i < pieces.len() ==> !(#[trigger] pieces[i]).contains(','),
    ensures
        permission_list(join_spec(pieces, seq![',']), source) matches Ok(items) ==> {
            &&& items.no_duplicates()
            &&& items.contains(item) <==> item.len() > 0 && exists|i: int|
                0 <= i < pieces.len() && trim_spec(#[trigger] pieces[i]) == item
        },
        permission_list(join_spec(pieces, seq![',']), source) is Ok <==> exists|i: int|
            0 <= i < pieces.len() && trim_spec(#[trigger] pieces[i]).len() > 0,
{
    law_split_undoes_join(pieces, ',');
    let all = list_items(pieces);
    lemma_list_items(pieces, item);
    law_dedup(all, Seq::empty(), item);
    if dedup_spec(all).len() > 0 {
        let first = dedup_spec(all)[0];
        assert(dedup_spec(all).contains(first));
        law_dedup(all, Seq::empty(), first);
        lemma_list_items(pieces, first);
        let i = choose|i: int| 0 <= i < pieces.len() && trim_spec(#[trigger] pieces[i]) == first;
        assert(trim_spec(pieces[i]).len() > 0);
    }
    if exists|i: int| 0 <= i < pieces.len() && trim_spec(#[trigger] pieces[i]).len() > 0 {
        let i = choose|i: int| 0 <= i < pieces.len() && trim_spec(#[trigger] pieces[i]).len() > 0;
        let some = trim_spec(pieces[i]);
        lemma_list_items(pieces, some);
        law_dedup(all, Seq::empty(), some);
    }
}

/// The serialization of a URL is that of what it is parsed to; one that is no URL
/// or has another scheme than `http` and `https` is refused, in a list of URLs as
/// in an import map, with an error that says why.
pub proof fn law_http_urls(url: Seq<char>, source: Seq<char>, s: SpecifierView, e: Seq<char>)
    ensures
        http_href(url, source, Err(e)) == Err::<Seq<char>, _>(
            "invalid URL '"@ + url + "' in "@ + source + ": "@ + e,
        ),
        import_url_error(url, Err(e)) == Some("import_map URL '"@ + url + "' is invalid: "@ + e),
        s.scheme == "http"@ || s.scheme == "https"@ ==> http_href(url, source, Ok(s)) == Ok::<
            _,
            Seq<char>,
        >(s.href) && import_url_error(url, Ok(s)) is None,
        s.scheme != "http"@ && s.scheme != "https"@ ==> {
            &&& http_href(url, source, Ok(s)) == Err::<Seq<char>, _>(
                "invalid URL '"@ + url + "' in "@ + source + ": unsupported scheme '"@ + s.scheme
                    + "' (only http/https allowed)"@,
            )
            &&& import_url_error(url, Ok(s)) == Some(
                "import_map URL '"@ + url + "' has unsupported scheme '"@ + s.scheme
                    + "' (only http/https allowed)"@,
            )
        },
{
}

/// Does the item serialize to the URL?
pub open spec fn serializes_to(item: Seq<char>, url: Seq<char>) -> bool {
    url_parse(item) matches Ok(s) && (s.scheme == "http"@ || s.scheme == "https"@) && s.href == url
}

proof fn lemma_normalized_urls(items: Seq<Seq<char>>, source: Seq<char>)
    ensures
        match normalized_urls(items, source) {
            Ok(urls) => urls.len() == items.len() && forall|i: int|
                0 <= i < items.len() ==> #[trigger] serializes_to(items[i], urls[i]),
            Err(e) => exists|i: int|
                0 <= i < items.len() && http_href(
                    #[trigger] items[i],
                    source,
                    url_parse(items[i]),
                ) == Err::<Seq<char>, _>(e) && forall|j: int|
                    0 <= j < i ==> http_href(#[trigger] items[j], source, url_parse(items[j])) is Ok,
        },
    decreases items.len(),
{
    if items.len() > 0 {
        let front = items.drop_last();
        lemma_normalized_urls(front, source);
        match normalized_urls(front, source) {
            Ok(done) => {
                assert forall|i: int| 0 <= i < front.len() implies http_href(
                    #[trigger] items[i],
                    source,
                    url_parse(items[i]),
                ) is Ok by {
                    assert(serializes_to(front[i], done[i]));
                }
                if let Ok(urls) = normalized_urls(items, source) {
                    assert forall|i: int| 0 <= i < items.len() implies #[trigger] serializes_to(
                        items[i],
                        urls[i],
                    ) by {
                        if i < front.len() {
                            assert(serializes_to(front[i], done[i]));
                        }
                    }
                } else {
                    let last = items.len() - 1;
                    assert(http_href(items[last], source, url_parse(items[last])) is Err);
                }
            },
            Err(e) => {
                let i = choose|i: int|
                    0 <= i < front.len() && http_href(
                        #[trigger] front[i],
                        source,
                        url_parse(front[i]),
                    ) == Err::<Seq<char>, _>(e) && forall|j: int|
                        0 <= j < i ==> http_href(#[trigger] front[j], source, url_parse(front[j])) is Ok;
                assert(http_href(items[i], source, url_parse(items[i])) == Err::<Seq<char>, _>(e));
                assert forall|j: int| 0 <= j < i implies http_href(
                    #[trigger] items[j],
                    source,
                    url_parse(items[j]),
                ) is Ok by {
                    assert(front[j] == items[j]);
                }
            },
        }
    }
}

/// The prefixes of the cap on imports are the serializations of the URLs that its
/// text lists, each once. The text is refused where it lists none, and otherwise
/// for the first item that is no `http` or `https` URL.
pub proof fn law_prefixes_of_the_import_cap(
    pieces: Seq<Seq<char>>,
    source: Seq<char>,
    prefix: Seq<char>,
)
    requires
        pieces.len() > 0,
        forall|i: int| 0 <= i < pieces.len() ==> !(#[trigger] pieces[i]).contains(','),
    ensures
        match import_prefix_list(join_spec(pieces, seq![',']), source) {
            Ok(prefixes) => {
                &&& prefixes.len() > 0
                &&& prefixes.no_duplicates()
                &&& prefixes.contains(prefix) <==> exists|i: int|
                    0 <= i < pieces.len() && trim_spec(#[trigger] pieces[i]).len() > 0
                        && serializes_to(trim_spec(pieces[i]), prefix)
                &&& forall|i: int|
                    0 <= i < pieces.len() && trim_spec(#[trigger] pieces[i]).len() > 0 ==> exists|
                        url: Seq<char>,
                    | #[trigger] serializes_to(trim_spec(pieces[i]), url)
            },
            Err(e) => {
                ||| (forall|i: int|
                    0 <= i < pieces.len() ==> trim_spec(#[trigger] pieces[i]).len() == 0) && e
                    == "invalid empty max_imports list in "@ + source
                ||| exists|i: int|
                    0 <= i < pieces.len() && trim_spec(#[trigger] pieces[i]).len() > 0 && http_href(
                        trim_spec(pieces[i]),
                        source,
                        url_parse(trim_spec(pieces[i])),
                    ) == Err::<Seq<char>, _>(e)
            },
        },
{
    law_split_undoes_join(pieces, ',');
    let items = list_items(pieces);
    lemma_normalized_urls(items, source);
    match normalized_urls(items, source) {
        Ok(urls) => {
            law_dedup(urls, Seq::empty(), prefix);
            if items.len() == 0 {
                assert forall|i: int| 0 <= i < pieces.len() implies trim_spec(
                    #[trigger] pieces[i],
                ).len() == 0 by {
                    lemma_list_items(pieces, trim_spec(pieces[i]));
                    if trim_spec(pieces[i]).len() > 0 {
                        assert(items.contains(trim_spec(pieces[i])));
                    }
                }
                assert(urls =~= Seq::empty());
            } else {
                law_dedup(urls, Seq::empty(), urls[0]);
                assert(urls.contains(urls[0]));
                assert(dedup_spec(urls).contains(urls[0]));
                if urls.contains(prefix) {
                    let k = choose|k: int| 0 <= k < urls.len() && urls[k] == prefix;
                    assert(serializes_to(items[k], urls[k]));
                    assert(items.contains(items[k]));
                    lemma_list_items(pieces, items[k]);
                    let i = choose|i: int|
                        0 <= i < pieces.len() && trim_spec(#[trigger] pieces[i]) == items[k];
                    assert(serializes_to(trim_spec(pieces[i]), prefix));
                }
                assert forall|i: int|
                    0 <= i < pieces.len()
                        && trim_spec(#[trigger] pieces[i]).len() > 0 implies exists|
                    k: int,
                |
                    0 <= k < urls.len() && #[trigger] items[k] == trim_spec(pieces[i])
                        && serializes_to(trim_spec(pieces[i]), urls[k]) by {
                    lemma_list_items(pieces, trim_spec(pieces[i]));
                    assert(items.contains(trim_spec(pieces[i])));
                    let k = choose|k: int|
                        0 <= k < items.len() && items[k] == trim_spec(pieces[i]);
                    assert(serializes_to(items[k], urls[k]));
                }
                if exists|i: int|
                    0 <= i < pieces.len() && trim_spec(#[trigger] pieces[i]).len() > 0
                        && serializes_to(trim_spec(pieces[i]), prefix) {
                    let i = choose|i: int|
                        0 <= i < pieces.len() && trim_spec(#[trigger] pieces[i]).len() > 0
                            && serializes_to(trim_spec(pieces[i]), prefix);
                    let k = choose|k: int|
                        0 <= k < urls.len() && #[trigger] items[k] == trim_spec(pieces[i])
                            && serializes_to(trim_spec(pieces[i]), urls[k]);
                    assert(urls[k] == prefix);
                    assert(urls.contains(prefix));
                }
            }
        },
        Err(e) => {
            let k = choose|k: int|
                0 <= k < items.len() && http_href(#[trigger] items[k], source, url_parse(items[k]))
                    == Err::<Seq<char>, _>(e) && forall|j: int|
                    0 <= j < k ==> http_href(#[trigger] items[j], source, url_parse(items[j])) is Ok;
            assert(items.contains(items[k]));
            lemma_list_items(pieces, items[k]);
            let i = choose|i: int|
                0 <= i < pieces.len() && trim_spec(#[trigger] pieces[i]) == items[k];
            assert(trim_spec(pieces[i]).len() > 0);
        },
    }
}

/// Different prefixes with commas between them, each its own serialization, are
/// read as those prefixes, in their order.
pub proof fn law_import_cap_is_read_item_by_item(prefixes: Seq<Seq<char>>, source: Seq<char>)
    requires
        prefixes.len() > 0,
        prefixes.no_duplicates(),
        forall|i: int|
            0 <= i < prefixes.len() ==> (#[trigger] prefixes[i]).len() > 0 && !prefixes[i].contains(
                ',',
            ) && !is_space(prefixes[i][0]) && !is_space(prefixes[i][prefixes[i].len() - 1])
                && serializes_to(prefixes[i], prefixes[i]),
    ensures
        import_prefix_list(join_spec(prefixes, seq![',']), source) == Ok::<_, Seq<char>>(prefixes),
{
    assert forall|i: int| 0 <= i < prefixes.len() implies !(#[trigger] prefixes[i]).contains(',') by {
        assert(prefixes[i].len() > 0);
    }
    law_split_undoes_join(prefixes, ',');
    lemma_list_items_unchanged(prefixes);
    lemma_normalized_urls(prefixes, source);
    lemma_dedup_unchanged(prefixes);
    match normalized_urls(prefixes, source) {
        Ok(urls) => {
            assert forall|i: int| 0 <= i < urls.len() implies urls[i] == prefixes[i] by {
                assert(serializes_to(prefixes[i], urls[i]));
                assert(prefixes[i].len() > 0);
            }
            assert(urls =~= prefixes);
        },
        Err(e) => {
            let i = choose|i: int|
                0 <= i < prefixes.len() && http_href(
                    #[trigger] prefixes[i],
                    source,
                    url_parse(prefixes[i]),
                ) == Err::<Seq<char>, _>(e) && forall|j: int|
                    0 <= j < i ==> http_href(
                        #[trigger] prefixes[j],
                        source,
                        url_parse(prefixes[j]),
                    ) is Ok;
            assert(prefixes[i].len() > 0);
        },
    }
}

/// Without a limit every URL is allowed, and under `off` none is. Under a list an
/// `http` or `https` URL is allowed just where its serialization begins with an
/// item of the list, and any other text is an error.
pub proof fn law_allowed_urls(
    url: Seq<char>,
    prefixes: Seq<Seq<char>>,
    s: SpecifierView,
    parsed: Result<SpecifierView, Seq<char>>,
    e: Seq<char>,
)
    ensures
        url_allowed(url, ImportCapView::AllowAll, parsed) == Ok::<_, Seq<char>>(true),
        url_allowed(url, ImportCapView::Deny, parsed) == Ok::<_, Seq<char>>(false),
        s.scheme == "http"@ || s.scheme == "https"@ ==> url_allowed(
            url,
            ImportCapView::AllowList(prefixes),
            Ok(s),
        ) == Ok::<_, Seq<char>>(
            exists|i: int| 0 <= i < prefixes.len() && (#[trigger] prefixes[i]).is_prefix_of(s.href),
        ),
        s.scheme != "http"@ && s.scheme != "https"@ ==> url_allowed(
            url,
            ImportCapView::AllowList(prefixes),
            Ok(s),
        ) == Err::<bool, _>(
            "invalid URL '"@ + url + "' in import URL: unsupported scheme '"@ + s.scheme
                + "' (only http/https allowed)"@,
        ),
        url_allowed(url, ImportCapView::AllowList(prefixes), Err(e)) == Err::<bool, _>(
            "invalid URL '"@ + url + "' in import URL: "@ + e,
        ),
{
    reveal_strlit("' in ");
    reveal_strlit("import URL");
    reveal_strlit(": ");
    reveal_strlit(": unsupported scheme '");
    reveal_strlit("' in import URL: ");
    reveal_strlit("' in import URL: unsupported scheme '");
    assert("' in "@ + "import URL"@ + ": "@ =~= "' in import URL: "@);
    assert("' in "@ + "import URL"@ + ": unsupported scheme '"@
        =~= "' in import URL: unsupported scheme '"@);
    let head = "invalid URL '"@ + url;
    assert(head + "' in "@ + "import URL"@ + ": "@ + e =~= head + ("' in "@ + "import URL"@ + ": "@)
        + e);
    let tail = s.scheme + "' (only http/https allowed)"@;
    assert(head + "' in "@ + "import URL"@ + ": unsupported scheme '"@ + s.scheme
        + "' (only http/https allowed)"@ =~= head + ("' in "@ + "import URL"@
        + ": unsupported scheme '"@) + s.scheme + "' (only http/https allowed)"@);
}

/// A prefix that is added to a list, at whatever place, allows every URL that
/// begins with it and keeps all that were allowed, and allows no more.
pub proof fn law_adding_a_prefix(
    url: Seq<char>,
    prefixes: Seq<Seq<char>>,
    at: int,
    prefix: Seq<char>,
    s: SpecifierView,
)
    requires
        0 <= at <= prefixes.len(),
        s.scheme == "http"@ || s.scheme == "https"@,
    ensures
        url_allowed(url, ImportCapView::AllowList(prefixes.insert(at, prefix)), Ok(s)) == Ok::<
            _,
            Seq<char>,
        >(true) <==> url_allowed(url, ImportCapView::AllowList(prefixes), Ok(s)) == Ok::<
            _,
            Seq<char>,
        >(true) || prefix.is_prefix_of(s.href),
{
    let more = prefixes.insert(at, prefix);
    assert(more[at] == prefix);
    if has_prefix(prefixes, s.href) {
        let i = choose|i: int|
            0 <= i < prefixes.len() && (#[trigger] prefixes[i]).is_prefix_of(s.href);
        if i < at {
            assert(more[i] == prefixes[i]);
        } else {
            assert(more[i + 1] == prefixes[i]);
        }
    }
    if has_prefix(more, s.href) {
        let i = choose|i: int| 0 <= i < more.len() && (#[trigger] more[i]).is_prefix_of(s.href);
        if i < at {
            assert(more[i] == prefixes[i]);
        } else if i > at {
            assert(more[i] == prefixes[i - 1]);
        }
    }
}

proof fn lemma_bad_identifier_part(s: Seq<char>)
    ensures
        match bad_identifier_part(s) {
            Some(c) => exists|i: int|
                0 <= i < s.len() && #[trigger] s[i] == c && !identifier_part(c) && forall|j: int|
                    0 <= j < i ==> identifier_part(#[trigger] s[j]),
            None => forall|i: int| 0 <= i < s.len() ==> identifier_part(#[trigger] s[i]),
        },
    decreases s.len(),
{
    if s.len() > 0 {
        let rest = s.drop_first();
        lemma_bad_identifier_part(rest);
        if identifier_part(s[0]) {
            match bad_identifier_part(rest) {
                Some(c) => {
                    let i = choose|i: int|
                        0 <= i < rest.len() && #[trigger] rest[i] == c && !identifier_part(c)
                            && forall|j: int| 0 <= j < i ==> identifier_part(#[trigger] rest[j]);
                    assert(s[i + 1] == c);
                    assert forall|j: int| 0 <= j < i + 1 implies identifier_part(#[trigger] s[j]) by {
                        if j > 0 {
                            assert(rest[j - 1] == s[j]);
                        }
                    }
                },
                None => {
                    assert forall|i: int| 0 <= i < s.len() implies identifier_part(
                        #[trigger] s[i],
                    ) by {
                        if i > 0 {
                            assert(rest[i - 1] == s[i]);
                        }
                    }
                },
            }
        } else {
            assert(s[0] == bad_identifier_part(s)->0);
        }
    }
}

/// A key of an import map is a letter, an underscore or a dollar sign, and then
/// any number of these and of digits. The error of any other names it and says
/// what is wrong.
pub proof fn law_identifiers(name: Seq<char>)
    ensures
        ({
            let start = |c: char|
                'a' as int <= c as int <= 'z' as int || 'A' as int <= c as int <= 'Z' as int || c
                    == '_' || c == '$';
            let part = |c: char| start(c) || '0' as int <= c as int <= '9' as int;
            &&& identifier_error(name) is None <==> name.len() > 0 && start(name[0]) && forall|
                i: int,
            |
                0 < i < name.len() ==> part(#[trigger] name[i])
            &&& name.len() == 0 ==> identifier_error(name) == Some("import_map key is empty"@)
            &&& name.len() > 0 && !start(name[0]) ==> identifier_error(name) == Some(
                "import_map key '"@ + name
                    + "' is not a valid JS identifier (must start with a letter, '_', or '$')"@,
            )
            &&& name.len() > 0 && start(name[0]) && identifier_error(name) is Some ==> exists|
                i: int,
            |
                0 < i < name.len() && !part(#[trigger] name[i]) && identifier_error(name) == Some(
                    "import_map key '"@ + name
                        + "' is not a valid JS identifier (invalid character '"@ + seq![name[i]]
                        + "')"@,
                ) && forall|j: int| 0 < j < i ==> part(#[trigger] name[j])
        }),
{
    if name.len() > 0 {
        let rest = name.drop_first();
        lemma_bad_identifier_part(rest);
        match bad_identifier_part(rest) {
            Some(c) => {
                let i = choose|i: int|
                    0 <= i < rest.len() && #[trigger] rest[i] == c && !identifier_part(c) && forall|
                        j: int,
                    | 0 <= j < i ==> identifier_part(#[trigger] rest[j]);
                assert(name[i + 1] == c);
                assert forall|j: int| 0 < j < i + 1 implies identifier_part(#[trigger] name[j]) by {
                    assert(rest[j - 1] == name[j]);
                }
            },
            None => {
                assert forall|i: int| 0 < i < name.len() implies identifier_part(
                    #[trigger] name[i],
                ) by {
                    assert(rest[i - 1] == name[i]);
                }
            },
        }
    }
}

/// An entry of an import map is accepted where its key is an identifier and its
/// value a string that holds an `http` or `https` URL, and then has that string
/// as its URL.
pub proof fn law_entries_of_a_document(key: Seq<char>, value: Seq<char>, url: Seq<char>)
    ensures
        checked_entry(key, value) == Ok::<_, Seq<char>>(url) <==> identifier_error(key) is None
            && json_parse(value) == Ok::<_, Seq<char>>(JsonNodeView::Text(url)) && (url_parse(
            url,
        ) matches Ok(s) && (s.scheme == "http"@ || s.scheme == "https"@)),
        identifier_error(key) matches Some(e) ==> checked_entry(key, value) == Err::<Seq<char>, _>(
            e,
        ),
        identifier_error(key) is None && (json_parse(value) matches Ok(node) && !(node is Text))
            ==> checked_entry(key, value) == Err::<Seq<char>, _>(
            "import_map: value for '"@ + key + "' is not a string"@,
        ),
        identifier_error(key) is None && json_parse(value) == Ok::<_, Seq<char>>(
            JsonNodeView::Text(url),
        ) ==> (import_url_error(url, url_parse(url)) matches Some(e) ==> checked_entry(key, value)
            == Err::<Seq<char>, _>(e)),
{
}

/// The entries of a document are taken one after the other: an accepted one adds
/// its key with its URL and changes no other, and the first that is refused makes
/// the error.
pub proof fn law_documents_are_read_entry_by_entry(
    members: Seq<(Seq<char>, Seq<char>)>,
    key: Seq<char>,
    value: Seq<char>,
    other: Seq<char>,
)
    ensures
        checked_entries(Seq::empty()) == Ok::<_, Seq<char>>(
            Seq::<(Seq<char>, Seq<char>)>::empty(),
        ),
        match checked_entries(members) {
            Err(e) => checked_entries(members.push((key, value))) == Err::<
                Seq<(Seq<char>, Seq<char>)>,
                _,
            >(e),
            Ok(map) => match checked_entry(key, value) {
                Err(e) => checked_entries(members.push((key, value))) == Err::<
                    Seq<(Seq<char>, Seq<char>)>,
                    _,
                >(e),
                Ok(url) => checked_entries(members.push((key, value))) matches Ok(more) && {
                    &&& sorted_keys(more)
                    &&& lookup(more, key) == Some(url)
                    &&& other != key ==> lookup(more, other) == lookup(map, other)
                },
            },
        },
{
    assert(members.push((key, value)).drop_last() =~= members);
    lemma_checked_entries_valid(members);
    if let Ok(map) = checked_entries(members) {
        if let Ok(url) = checked_entry(key, value) {
            law_setting_a_key(map, key, url, other);
        }
    }
}

/// An import map is the `imports` member of its document. A document without one,
/// and one whose `imports` is no object, stand for the empty map; what is no JSON
/// is refused.
pub proof fn law_import_map_documents(json: Seq<char>, members: Seq<(Seq<char>, Seq<char>)>, i: int)
    ensures
        json_parse(json) matches Err(e) ==> import_map_parse(json) == Err::<
            Seq<(Seq<char>, Seq<char>)>,
            _,
        >("invalid import_map JSON: "@ + e),
        json_parse(json) matches Ok(node) && !(node is Object) ==> import_map_parse(json) == Ok::<
            _,
            Seq<char>,
        >(Seq::<(Seq<char>, Seq<char>)>::empty()),
        json_parse(json) == Ok::<_, Seq<char>>(JsonNodeView::Object(members)) && (forall|j: int|
            0 <= j < members.len() ==> (#[trigger] members[j]).0 != "imports"@)
            ==> import_map_parse(json) == Ok::<_, Seq<char>>(
            Seq::<(Seq<char>, Seq<char>)>::empty(),
        ),
        json_parse(json) == Ok::<_, Seq<char>>(JsonNodeView::Object(members)) && 0 <= i
            < members.len() && members[i].0 == "imports"@ && (forall|j: int|
            i < j < members.len() ==> (#[trigger] members[j]).0 != "imports"@) ==> match json_parse(
            members[i].1,
        ) {
            Err(e) => import_map_parse(json) == Err::<Seq<(Seq<char>, Seq<char>)>, _>(
                "invalid import_map JSON: "@ + e,
            ),
            Ok(JsonNodeView::Object(entries)) => import_map_parse(json) == checked_entries(entries),
            Ok(_) => import_map_parse(json) == Ok::<_, Seq<char>>(
                Seq::<(Seq<char>, Seq<char>)>::empty(),
            ),
        },
{
    lemma_key_index(members, "imports"@);
    if 0 <= i < members.len() && members[i].0 == "imports"@ {
        if forall|j: int| i < j < members.len() ==> (#[trigger] members[j]).0 != "imports"@ {
            lemma_last_key_index(members, "imports"@, i);
        }
    }
}

proof fn lemma_last_key_index(members: Seq<(Seq<char>, Seq<char>)>, key: Seq<char>, i: int)
    requires
        0 <= i < members.len(),
        members[i].0 == key,
        forall|j: int| i < j < members.len() ==> (#[trigger] members[j]).0 != key,
    ensures
        lookup(members, key) == Some(members[i].1),
    decreases members.len(),
{
    if i < members.len() - 1 {
        assert(members[members.len() - 1].0 != key);
        let front = members.drop_last();
        assert forall|j: int| i < j < front.len() implies (#[trigger] front[j]).0 != key by {
            assert(members[j].0 != key);
        }
        lemma_last_key_index(front, key, i);
        lemma_key_index(front, key);
    }
}

/// A valid import map has keys that are identifiers, in order, and URLs over
/// `http` or `https`.
pub proof fn law_valid_import_maps(entries: Seq<(Seq<char>, Seq<char>)>, i: int)
    requires
        valid_import_map(entries),
        0 <= i < entries.len(),
    ensures
        sorted_keys(entries),
        identifier_error(entries[i].0) is None,
        url_parse(entries[i].1) matches Ok(s) && (s.scheme == "http"@ || s.scheme == "https"@),
{
    assert(identifier_error(entries[i].0) is None);
}

/// The items of a list are those of its parts, in their order: of one piece what
/// stands between its outer white space, where that is anything.
pub proof fn law_items_keep_their_order(
    pieces: Seq<Seq<char>>,
    more: Seq<Seq<char>>,
    piece: Seq<char>,
)
    ensures
        list_items(pieces + more) == list_items(pieces) + list_items(more),
        trim_spec(piece).len() > 0 ==> list_items(seq![piece]) == seq![trim_spec(piece)],
        trim_spec(piece).len() == 0 ==> list_items(seq![piece]) == Seq::<Seq<char>>::empty(),
    decreases more.len(),
{
    let one = seq![piece];
    assert(one.drop_last() =~= Seq::<Seq<char>>::empty());
    reveal_with_fuel(list_items, 2);
    assert(Seq::<Seq<char>>::empty().push(trim_spec(piece)) =~= seq![trim_spec(piece)]);
    if more.len() > 0 {
        law_items_keep_their_order(pieces, more.drop_last(), piece);
        assert((pieces + more).drop_last() =~= pieces + more.drop_last());
        assert(list_items(pieces + more) =~= list_items(pieces) + list_items(more));
    } else {
        assert(pieces + more =~= pieces);
        assert(list_items(pieces) + list_items(more) =~= list_items(pieces));
    }
}

/// A list is read in the order of its items, each where it first occurs; a list of
/// URLs in the order of their serializations, and with the error of the first item
/// that has none.
pub proof fn law_lists_keep_the_order_of_their_items(pieces: Seq<Seq<char>>, source: Seq<char>)
    requires
        pieces.len() > 0,
        forall|i: int| 0 <= i < pieces.len() ==> !(#[trigger] pieces[i]).contains(','),
    ensures
        permission_list(join_spec(pieces, seq![',']), source) matches Ok(items) ==> items
            == dedup_spec(list_items(pieces)),
        match import_prefix_list(join_spec(pieces, seq![',']), source) {
            Ok(prefixes) => exists|urls: Seq<Seq<char>>|
                prefixes == #[trigger] dedup_spec(urls) && urls.len() == list_items(pieces).len()
                    && forall|i: int|
                    0 <= i < urls.len() ==> #[trigger] serializes_to(list_items(pieces)[i], urls[i]),
            Err(e) => list_items(pieces).len() == 0 || exists|i: int|
                0 <= i < list_items(pieces).len() && http_href(
                    #[trigger] list_items(pieces)[i],
                    source,
                    url_parse(list_items(pieces)[i]),
                ) == Err::<Seq<char>, _>(e) && forall|j: int|
                    0 <= j < i ==> http_href(
                        #[trigger] list_items(pieces)[j],
                        source,
                        url_parse(list_items(pieces)[j]),
                    ) is Ok,
        },
{
    law_split_undoes_join(pieces, ',');
    let items = list_items(pieces);
    lemma_normalized_urls(items, source);
    if let Ok(urls) = normalized_urls(items, source) {
        if urls.len() > 0 {
            law_dedup(urls, Seq::empty(), urls[0]);
            assert(urls.contains(urls[0]));
            assert(dedup_spec(urls).contains(urls[0]));
        }
    }
}

} // verus!
