//! Permissions: what a function asks for, what a superuser caps it at, and what
//! is granted in the end.
use vstd::prelude::*;

use crate::guc::{
    bool_parse, law_meaning_is_the_same_everywhere, list_items, normalized, permission_parse,
    BoolGucParser, GucParser, PermissionParser, PermissionSetting, PermissionView,
};
use crate::runtime::{grants, RuntimePermissions, RuntimePermissionsView};
use crate::text::{
    dedup_spec, join, join_spec, law_bytes_stand_for_the_text_they_encode, list_contains, opt_view,
    result_view, split_spec, strip_prefix, utf8_text, views,
};

verus! {

// ---------------------------------------------------------------------------
// Models
// ---------------------------------------------------------------------------

/// Does a setting permit the item?
pub open spec fn permits(setting: PermissionView, item: Seq<char>) -> bool {
    match setting {
        PermissionView::Deny => false,
        PermissionView::AllowAll => true,
        PermissionView::AllowList(items) => items.contains(item),
    }
}

/// A list, where there is one, has an item.
pub open spec fn well_formed(setting: PermissionView) -> bool {
    setting matches PermissionView::AllowList(items) ==> items.len() > 0
}

/// The items of a list that a cap holds, in the order of the list.
pub open spec fn kept_items(list: Seq<Seq<char>>, cap: Seq<Seq<char>>) -> Seq<Seq<char>>
    decreases list.len(),
{
    if list.len() == 0 {
        Seq::empty()
    } else {
        let kept = kept_items(list.drop_last(), cap);
        if cap.contains(list.last()) {
            kept.push(list.last())
        } else {
            kept
        }
    }
}

/// The items of a list that a cap does not hold, in the order of the list.
pub open spec fn disallowed_items(list: Seq<Seq<char>>, cap: Seq<Seq<char>>) -> Seq<Seq<char>>
    decreases list.len(),
{
    if list.len() == 0 {
        Seq::empty()
    } else {
        let rest = disallowed_items(list.drop_last(), cap);
        if cap.contains(list.last()) {
            rest
        } else {
            rest.push(list.last())
        }
    }
}

/// A list in brackets.
pub open spec fn bracketed(items: Seq<Seq<char>>) -> Seq<char> {
    "["@ + join_spec(items, ","@) + "]"@
}

/// Why a request goes beyond its cap, where it does.
pub open spec fn excess(requested: PermissionView, max: PermissionView) -> Option<Seq<char>> {
    match requested {
        PermissionView::Deny => None,
        PermissionView::AllowAll => match max {
            PermissionView::AllowAll => None,
            PermissionView::Deny => Some("requested '*' but cap is 'off'"@),
            PermissionView::AllowList(cap) => Some(
                "requested '*' but cap only allows "@ + bracketed(cap),
            ),
        },
        PermissionView::AllowList(items) => match max {
            PermissionView::AllowAll => None,
            PermissionView::Deny => Some(
                "requested "@ + bracketed(items) + " but cap is 'off'"@,
            ),
            PermissionView::AllowList(cap) => if disallowed_items(items, cap).len() == 0 {
                None
            } else {
                Some(
                    "requested "@ + bracketed(items) + " includes disallowed values "@ + bracketed(
                        disallowed_items(items, cap),
                    ),
                )
            },
        },
    }
}

/// What is left of a request under a cap.
pub open spec fn intersection(requested: PermissionView, max: PermissionView) -> PermissionView {
    match max {
        PermissionView::Deny => PermissionView::Deny,
        PermissionView::AllowAll => requested,
        PermissionView::AllowList(cap) => match requested {
            PermissionView::Deny => PermissionView::Deny,
            PermissionView::AllowAll => PermissionView::AllowList(cap),
            PermissionView::AllowList(items) => if kept_items(items, cap).len() == 0 {
                PermissionView::Deny
            } else {
                PermissionView::AllowList(kept_items(items, cap))
            },
        },
    }
}

/// The list that grants what a setting permits.
pub open spec fn runtime_list(setting: PermissionView) -> Option<Seq<Seq<char>>> {
    match setting {
        PermissionView::AllowAll => Some(Seq::empty()),
        PermissionView::AllowList(items) => Some(items),
        PermissionView::Deny => None,
    }
}

/// The model of a [`PermissionSpec`].
pub struct PermissionSpecView {
    pub read: PermissionView,
    pub write: PermissionView,
    pub net: PermissionView,
    pub env: PermissionView,
    pub run: PermissionView,
    pub ffi: PermissionView,
    pub sys: PermissionView,
    pub import: PermissionView,
}

/// The permissions of a run, from what was asked for and the caps.
pub open spec fn granted(requested: PermissionSpecView, max: PermissionSpecView) -> RuntimePermissionsView {
    RuntimePermissionsView {
        allow_read: runtime_list(intersection(requested.read, max.read)),
        allow_write: runtime_list(intersection(requested.write, max.write)),
        allow_net: runtime_list(intersection(requested.net, max.net)),
        allow_env: runtime_list(intersection(requested.env, max.env)),
        allow_run: runtime_list(intersection(requested.run, max.run)),
        allow_ffi: runtime_list(intersection(requested.ffi, max.ffi)),
        allow_sys: runtime_list(intersection(requested.sys, max.sys)),
        allow_import: runtime_list(intersection(requested.import, max.import)),
    }
}

/// The error of one request that goes beyond its cap.
pub open spec fn cap_error(
    requested: PermissionView,
    max: PermissionView,
    requested_source: Seq<char>,
    max_source: Seq<char>,
) -> Option<Seq<char>> {
    match excess(requested, max) {
        Some(detail) => Some(
            requested_source + " cannot be fulfilled by "@ + max_source + ": "@ + detail,
        ),
        None => None,
    }
}

/// The error of the request for one capability.
pub open spec fn named_cap_error(
    requested: PermissionView,
    max: PermissionView,
    prefix: Seq<char>,
    name: Seq<char>,
) -> Option<Seq<char>> {
    cap_error(requested, max, prefix + "."@ + name, "GUC typescript.max_"@ + name)
}

/// The first of two errors.
pub open spec fn first_error(first: Option<Seq<char>>, rest: Option<Seq<char>>) -> Option<Seq<char>> {
    match first {
        Some(e) => Some(e),
        None => rest,
    }
}

/// The error of the first capability whose request goes beyond its cap.
pub open spec fn caps_error(
    requested: PermissionSpecView,
    max: PermissionSpecView,
    prefix: Seq<char>,
) -> Option<Seq<char>> {
    first_error(
        named_cap_error(requested.read, max.read, prefix, "allow_read"@),
        first_error(
            named_cap_error(requested.write, max.write, prefix, "allow_write"@),
            first_error(
                named_cap_error(requested.net, max.net, prefix, "allow_net"@),
                first_error(
                    named_cap_error(requested.env, max.env, prefix, "allow_env"@),
                    first_error(
                        named_cap_error(requested.run, max.run, prefix, "allow_run"@),
                        first_error(
                            named_cap_error(requested.ffi, max.ffi, prefix, "allow_ffi"@),
                            first_error(
                                named_cap_error(requested.sys, max.sys, prefix, "allow_sys"@),
                                named_cap_error(requested.import, max.import, prefix, "allow_import"@),
                            ),
                        ),
                    ),
                ),
            ),
        ),
    )
}

/// The settings of all capabilities, or the first error among them.
pub open spec fn assembled(
    read: Result<PermissionView, Seq<char>>,
    write: Result<PermissionView, Seq<char>>,
    net: Result<PermissionView, Seq<char>>,
    env: Result<PermissionView, Seq<char>>,
    run: Result<PermissionView, Seq<char>>,
    ffi: Result<PermissionView, Seq<char>>,
    sys: Result<PermissionView, Seq<char>>,
    import: Result<PermissionView, Seq<char>>,
) -> Result<PermissionSpecView, Seq<char>> {
    match read {
        Err(e) => Err(e),
        Ok(read_ok) => {
            match write {
                Err(e) => Err(e),
                Ok(write_ok) => {
                    match net {
                        Err(e) => Err(e),
                        Ok(net_ok) => {
                            match env {
                                Err(e) => Err(e),
                                Ok(env_ok) => {
                                    match run {
                                        Err(e) => Err(e),
                                        Ok(run_ok) => {
                                            match ffi {
                                                Err(e) => Err(e),
                                                Ok(ffi_ok) => {
                                                    match sys {
                                                        Err(e) => Err(e),
                                                        Ok(sys_ok) => {
                                                            match import {
                                                                Err(e) => Err(e),
                                                                Ok(import_ok) => {
                                                                    Ok(PermissionSpecView { read: read_ok, write: write_ok, net: net_ok, env: env_ok, run: run_ok, ffi: ffi_ok, sys: sys_ok, import: import_ok })
                                                                },
                                                            }
                                                        },
                                                    }
                                                },
                                            }
                                        },
                                    }
                                },
                            }
                        },
                    }
                },
            }
        },
    }
}

/// What the text of a permission setting means.
pub open spec fn permission_setting(
    raw: Option<Seq<char>>,
    unset: PermissionView,
    source: Seq<char>,
) -> Result<PermissionView, Seq<char>> {
    match normalized(raw) {
        Some(value) => permission_parse(value, source),
        None => Ok(unset),
    }
}

/// What the text of a switch means.
pub open spec fn switch_setting(
    raw: Option<Seq<char>>,
    unset: bool,
    source: Seq<char>,
) -> Result<bool, Seq<char>> {
    match normalized(raw) {
        Some(value) => bool_parse(value, source),
        None => Ok(unset),
    }
}

/// The rest of the first entry that begins with the prefix.
pub open spec fn first_with_prefix(entries: Seq<Seq<char>>, prefix: Seq<char>) -> Option<Seq<char>>
    decreases entries.len(),
{
    if entries.len() == 0 {
        None
    } else if prefix.is_prefix_of(entries[0]) {
        Some(entries[0].skip(prefix.len() as int))
    } else {
        first_with_prefix(entries.drop_first(), prefix)
    }
}

/// The value that a function's own configuration, a list of `key=value`
/// entries, gives a key.
pub open spec fn config_value(config: Option<Seq<Seq<char>>>, key: Seq<char>) -> Option<Seq<char>> {
    match config {
        Some(entries) => first_with_prefix(entries, key + "="@),
        None => None,
    }
}

/// What a function asks for. Only imports are granted when nothing is set:
/// their URLs are declared in the import map already.
pub open spec fn function_request(config: Option<Seq<Seq<char>>>) -> Result<
    PermissionSpecView,
    Seq<char>,
> {
    assembled(
        permission_setting(
            config_value(config, "typescript.allow_read"@),
            PermissionView::Deny,
            "function setting typescript.allow_read"@,
        ),
        permission_setting(
            config_value(config, "typescript.allow_write"@),
            PermissionView::Deny,
            "function setting typescript.allow_write"@,
        ),
        permission_setting(
            config_value(config, "typescript.allow_net"@),
            PermissionView::Deny,
            "function setting typescript.allow_net"@,
        ),
        permission_setting(
            config_value(config, "typescript.allow_env"@),
            PermissionView::Deny,
            "function setting typescript.allow_env"@,
        ),
        permission_setting(
            config_value(config, "typescript.allow_run"@),
            PermissionView::Deny,
            "function setting typescript.allow_run"@,
        ),
        permission_setting(
            config_value(config, "typescript.allow_ffi"@),
            PermissionView::Deny,
            "function setting typescript.allow_ffi"@,
        ),
        permission_setting(
            config_value(config, "typescript.allow_sys"@),
            PermissionView::Deny,
            "function setting typescript.allow_sys"@,
        ),
        permission_setting(
            config_value(config, "typescript.allow_import"@),
            PermissionView::AllowAll,
            "function setting typescript.allow_import"@,
        ),
    )
}

/// What a `DO` block asks for.
pub open spec fn inline_request(raw: PermissionRawView) -> Result<PermissionSpecView, Seq<char>> {
    assembled(
        permission_setting(raw.read, PermissionView::Deny, "GUC typescript.allow_read"@),
        permission_setting(raw.write, PermissionView::Deny, "GUC typescript.allow_write"@),
        permission_setting(raw.net, PermissionView::Deny, "GUC typescript.allow_net"@),
        permission_setting(raw.env, PermissionView::Deny, "GUC typescript.allow_env"@),
        permission_setting(raw.run, PermissionView::Deny, "GUC typescript.allow_run"@),
        permission_setting(raw.ffi, PermissionView::Deny, "GUC typescript.allow_ffi"@),
        permission_setting(raw.sys, PermissionView::Deny, "GUC typescript.allow_sys"@),
        permission_setting(raw.import, PermissionView::AllowAll, "GUC typescript.allow_import"@),
    )
}

/// The caps. A capability whose cap is not set is not capped.
pub open spec fn max_permissions(raw: PermissionRawView) -> Result<PermissionSpecView, Seq<char>> {
    assembled(
        permission_setting(raw.read, PermissionView::AllowAll, "GUC typescript.max_allow_read"@),
        permission_setting(raw.write, PermissionView::AllowAll, "GUC typescript.max_allow_write"@),
        permission_setting(raw.net, PermissionView::AllowAll, "GUC typescript.max_allow_net"@),
        permission_setting(raw.env, PermissionView::AllowAll, "GUC typescript.max_allow_env"@),
        permission_setting(raw.run, PermissionView::AllowAll, "GUC typescript.max_allow_run"@),
        permission_setting(raw.ffi, PermissionView::AllowAll, "GUC typescript.max_allow_ffi"@),
        permission_setting(raw.sys, PermissionView::AllowAll, "GUC typescript.max_allow_sys"@),
        permission_setting(raw.import, PermissionView::AllowAll, "GUC typescript.max_allow_import"@),
    )
}

/// The permissions of a run: what was asked for, where the caps cover all of it.
pub open spec fn capped(
    request: Result<PermissionSpecView, Seq<char>>,
    max: Result<PermissionSpecView, Seq<char>>,
    prefix: Seq<char>,
) -> Result<RuntimePermissionsView, Seq<char>> {
    match request {
        Err(e) => Err(e),
        Ok(requested) => match max {
            Err(e) => Err(e),
            Ok(max) => match caps_error(requested, max, prefix) {
                Some(e) => Err(e),
                None => Ok(granted(requested, max)),
            },
        },
    }
}

/// The permissions of a call of a function with the given configuration.
pub open spec fn function_permissions(
    config: Option<Seq<Seq<char>>>,
    max: PermissionRawView,
) -> Result<RuntimePermissionsView, Seq<char>> {
    capped(function_request(config), max_permissions(max), "function setting typescript"@)
}

/// The permissions of a `DO` block.
pub open spec fn inline_permissions(requested: PermissionRawView, max: PermissionRawView) -> Result<
    RuntimePermissionsView,
    Seq<char>,
> {
    capped(inline_request(requested), max_permissions(max), "GUC typescript"@)
}

/// Whether `_pg.execute()` may be used: where it was asked for and the cap,
/// which is on unless set, is on.
pub open spec fn pg_execute_granted(
    requested: Result<bool, Seq<char>>,
    max: Option<Seq<char>>,
) -> Result<bool, Seq<char>> {
    match requested {
        Err(e) => Err(e),
        Ok(requested) => match switch_setting(max, true, "GUC typescript.max_allow_pg_execute"@) {
            Err(e) => Err(e),
            Ok(max) => Ok(requested && max),
        },
    }
}

// ---------------------------------------------------------------------------
// Settings of all capabilities
// ---------------------------------------------------------------------------

/// A setting for each capability.
#[derive(Clone, Debug, PartialEq, Eq)]
pub struct PermissionSpec {
    pub read: PermissionSetting,
    pub write: PermissionSetting,
    pub net: PermissionSetting,
    pub env: PermissionSetting,
    pub run: PermissionSetting,
    pub ffi: PermissionSetting,
    pub sys: PermissionSetting,
    pub import: PermissionSetting,
}

impl View for PermissionSpec {
    type V = PermissionSpecView;

    open spec fn view(&self) -> PermissionSpecView {
        PermissionSpecView {
            read: self.read@,
            write: self.write@,
            net: self.net@,
            env: self.env@,
            run: self.run@,
            ffi: self.ffi@,
            sys: self.sys@,
            import: self.import@,
        }
    }
}

impl Default for PermissionSpec {
    /// Every capability is denied.
    fn default() -> (r: PermissionSpec)
        ensures
            r == (PermissionSpec {
                read: PermissionSetting::Deny,
                write: PermissionSetting::Deny,
                net: PermissionSetting::Deny,
                env: PermissionSetting::Deny,
                run: PermissionSetting::Deny,
                ffi: PermissionSetting::Deny,
                sys: PermissionSetting::Deny,
                import: PermissionSetting::Deny,
            }),
    {
        PermissionSpec {
            read: PermissionSetting::Deny,
            write: PermissionSetting::Deny,
            net: PermissionSetting::Deny,
            env: PermissionSetting::Deny,
            run: PermissionSetting::Deny,
            ffi: PermissionSetting::Deny,
            sys: PermissionSetting::Deny,
            import: PermissionSetting::Deny,
        }
    }
}

/// The bytes of the permission settings of a session, each unset or set.
pub struct PermissionRaw {
    pub read: Option<Vec<u8>>,
    pub write: Option<Vec<u8>>,
    pub net: Option<Vec<u8>>,
    pub env: Option<Vec<u8>>,
    pub run: Option<Vec<u8>>,
    pub ffi: Option<Vec<u8>>,
    pub sys: Option<Vec<u8>>,
    pub import: Option<Vec<u8>>,
}

/// The model of a [`PermissionRaw`]: the text of each setting.
pub struct PermissionRawView {
    pub read: Option<Seq<char>>,
    pub write: Option<Seq<char>>,
    pub net: Option<Seq<char>>,
    pub env: Option<Seq<char>>,
    pub run: Option<Seq<char>>,
    pub ffi: Option<Seq<char>>,
    pub sys: Option<Seq<char>>,
    pub import: Option<Seq<char>>,
}

/// The text of the bytes of one setting.
pub open spec fn raw_text(raw: Option<Vec<u8>>) -> Option<Seq<char>> {
    utf8_text(
        match raw {
            Some(bytes) => Some(bytes@),
            None => None,
        },
    )
}

impl View for PermissionRaw {
    type V = PermissionRawView;

    open spec fn view(&self) -> PermissionRawView {
        PermissionRawView {
            read: raw_text(self.read),
            write: raw_text(self.write),
            net: raw_text(self.net),
            env: raw_text(self.env),
            run: raw_text(self.run),
            ffi: raw_text(self.ffi),
            sys: raw_text(self.sys),
            import: raw_text(self.import),
        }
    }
}

/// The model of a function's configuration.
pub open spec fn config_view(config: Option<Vec<String>>) -> Option<Seq<Seq<char>>> {
    match config {
        Some(entries) => Some(views(entries@)),
        None => None,
    }
}

// ---------------------------------------------------------------------------
// Reading
// ---------------------------------------------------------------------------

/// The value that a function's own configuration gives a key.
pub fn read_function_config(config: &Option<Vec<String>>, key: &str) -> (r: Option<String>)
    ensures
        opt_view(r) == config_value(config_view(*config), key@),
{
    match config {
        None => None,
        Some(entries) => {
            let prefix = String::from_str(key).concat("=");
            let ghost all = views(entries@);
            let mut i: usize = 0;
            assert(all.skip(0) =~= all);
            while i < entries.len()
                invariant
                    i <= entries@.len(),
                    all == views(entries@),
                    config_view(*config) == Some(all),
                    prefix@ == key@ + "="@,
                    first_with_prefix(all, prefix@) == first_with_prefix(
                        all.skip(i as int),
                        prefix@,
                    ),
                decreases entries@.len() - i,
            {
                assert(all.skip(i as int)[0] == entries@[i as int]@);
                assert(all.skip(i as int).drop_first() =~= all.skip(i + 1));
                if let Some(value) = strip_prefix(entries[i].as_str(), prefix.as_str()) {
                    return Some(value);
                }
                i += 1;
            }
            None
        },
    }
}

/// The settings of all capabilities, or the first error among them.
fn assemble(
    read: Result<PermissionSetting, String>,
    write: Result<PermissionSetting, String>,
    net: Result<PermissionSetting, String>,
    env: Result<PermissionSetting, String>,
    run: Result<PermissionSetting, String>,
    ffi: Result<PermissionSetting, String>,
    sys: Result<PermissionSetting, String>,
    import: Result<PermissionSetting, String>,
) -> (r: Result<PermissionSpec, String>)
    ensures
        result_view(r) == assembled(
            result_view(read),
            result_view(write),
            result_view(net),
            result_view(env),
            result_view(run),
            result_view(ffi),
            result_view(sys),
            result_view(import),
        ),
{
    Ok(
        PermissionSpec {
            read: match read {
                Ok(setting) => setting,
                Err(e) => return Err(e),
            },
            write: match write {
                Ok(setting) => setting,
                Err(e) => return Err(e),
            },
            net: match net {
                Ok(setting) => setting,
                Err(e) => return Err(e),
            },
            env: match env {
                Ok(setting) => setting,
                Err(e) => return Err(e),
            },
            run: match run {
                Ok(setting) => setting,
                Err(e) => return Err(e),
            },
            ffi: match ffi {
                Ok(setting) => setting,
                Err(e) => return Err(e),
            },
            sys: match sys {
                Ok(setting) => setting,
                Err(e) => return Err(e),
            },
            import: match import {
                Ok(setting) => setting,
                Err(e) => return Err(e),
            },
        },
    )
}

fn function_setting(
    parser: &PermissionParser,
    config: &Option<Vec<String>>,
    key: &str,
    source: &str,
) -> (r: Result<PermissionSetting, String>)
    ensures
        result_view(r) == permission_setting(
            config_value(config_view(*config), key@),
            parser.default_view(),
            source@,
        ),
{
    parser.parse_raw(read_function_config(config, key), source)
}

fn session_setting(parser: &PermissionParser, raw: Option<Vec<u8>>, source: &str) -> (r: Result<
    PermissionSetting,
    String,
>)
    ensures
        result_view(r) == permission_setting(raw_text(raw), parser.default_view(), source@),
{
    parser.parse_cstring(raw, source)
}

/// What a function asks for.
fn read_function_request(config: &Option<Vec<String>>) -> (r: Result<PermissionSpec, String>)
    ensures
        result_view(r) == function_request(config_view(*config)),
{
    let denied = PermissionParser::new();
    let open = PermissionParser::uncapped();
    assemble(
        function_setting(
            &denied,
            config,
            "typescript.allow_read",
            "function setting typescript.allow_read",
        ),
        function_setting(
            &denied,
            config,
            "typescript.allow_write",
            "function setting typescript.allow_write",
        ),
        function_setting(
            &denied,
            config,
            "typescript.allow_net",
            "function setting typescript.allow_net",
        ),
        function_setting(
            &denied,
            config,
            "typescript.allow_env",
            "function setting typescript.allow_env",
        ),
        function_setting(
            &denied,
            config,
            "typescript.allow_run",
            "function setting typescript.allow_run",
        ),
        function_setting(
            &denied,
            config,
            "typescript.allow_ffi",
            "function setting typescript.allow_ffi",
        ),
        function_setting(
            &denied,
            config,
            "typescript.allow_sys",
            "function setting typescript.allow_sys",
        ),
        function_setting(
            &open,
            config,
            "typescript.allow_import",
            "function setting typescript.allow_import",
        ),
    )
}

/// What a `DO` block asks for.
fn read_inline_request(raw: PermissionRaw) -> (r: Result<PermissionSpec, String>)
    ensures
        result_view(r) == inline_request(raw@),
{
    let denied = PermissionParser::new();
    let open = PermissionParser::uncapped();
    assemble(
        session_setting(&denied, raw.read, "GUC typescript.allow_read"),
        session_setting(&denied, raw.write, "GUC typescript.allow_write"),
        session_setting(&denied, raw.net, "GUC typescript.allow_net"),
        session_setting(&denied, raw.env, "GUC typescript.allow_env"),
        session_setting(&denied, raw.run, "GUC typescript.allow_run"),
        session_setting(&denied, raw.ffi, "GUC typescript.allow_ffi"),
        session_setting(&denied, raw.sys, "GUC typescript.allow_sys"),
        session_setting(&open, raw.import, "GUC typescript.allow_import"),
    )
}

/// The caps, from the bytes of their settings.
pub fn read_max_permissions(raw: PermissionRaw) -> (r: Result<PermissionSpec, String>)
    ensures
        result_view(r) == max_permissions(raw@),
{
    let open = PermissionParser::uncapped();
    assemble(
        session_setting(&open, raw.read, "GUC typescript.max_allow_read"),
        session_setting(&open, raw.write, "GUC typescript.max_allow_write"),
        session_setting(&open, raw.net, "GUC typescript.max_allow_net"),
        session_setting(&open, raw.env, "GUC typescript.max_allow_env"),
        session_setting(&open, raw.run, "GUC typescript.max_allow_run"),
        session_setting(&open, raw.ffi, "GUC typescript.max_allow_ffi"),
        session_setting(&open, raw.sys, "GUC typescript.max_allow_sys"),
        session_setting(&open, raw.import, "GUC typescript.max_allow_import"),
    )
}

/// The permissions of a call of a function with the given configuration, under
/// the caps of the session.
pub fn read_function_permissions_result(config: &Option<Vec<String>>, max: PermissionRaw) -> (r:
    Result<RuntimePermissions, String>)
    ensures
        result_view(r) == function_permissions(config_view(*config), max@),
{
    let requested = match read_function_request(config) {
        Ok(requested) => requested,
        Err(e) => return Err(e),
    };
    let max = match read_max_permissions(max) {
        Ok(max) => max,
        Err(e) => return Err(e),
    };
    if let Err(e) = enforce_all_caps(&requested, &max, "function setting typescript") {
        return Err(e);
    }
    Ok(effective_permissions(requested, max))
}

/// The permissions of a `DO` block, from the settings of the session.
pub fn read_inline_permissions_result(requested: PermissionRaw, max: PermissionRaw) -> (r: Result<
    RuntimePermissions,
    String,
>)
    ensures
        result_view(r) == inline_permissions(requested@, max@),
{
    let requested = match read_inline_request(requested) {
        Ok(requested) => requested,
        Err(e) => return Err(e),
    };
    let max = match read_max_permissions(max) {
        Ok(max) => max,
        Err(e) => return Err(e),
    };
    if let Err(e) = enforce_all_caps(&requested, &max, "GUC typescript") {
        return Err(e);
    }
    Ok(effective_permissions(requested, max))
}

/// Whether a function may use `_pg.execute()`.
pub fn read_function_pg_execute(config: &Option<Vec<String>>, max: Option<Vec<u8>>) -> (r: Result<
    bool,
    String,
>)
    ensures
        result_view(r) == pg_execute_granted(
            switch_setting(
                config_value(config_view(*config), "typescript.allow_pg_execute"@),
                false,
                "function setting typescript.allow_pg_execute"@,
            ),
            raw_text(max),
        ),
{
    let requested = match BoolGucParser::new().parse_raw(
        read_function_config(config, "typescript.allow_pg_execute"),
        "function setting typescript.allow_pg_execute",
    ) {
        Ok(requested) => requested,
        Err(e) => return Err(e),
    };
    match BoolGucParser::uncapped().parse_cstring(max, "GUC typescript.max_allow_pg_execute") {
        Ok(max) => Ok(requested && max),
        Err(e) => Err(e),
    }
}

/// Whether a `DO` block may use `_pg.execute()`.
pub fn read_inline_pg_execute(requested: Option<Vec<u8>>, max: Option<Vec<u8>>) -> (r: Result<
    bool,
    String,
>)
    ensures
        result_view(r) == pg_execute_granted(
            switch_setting(raw_text(requested), false, "GUC typescript.allow_pg_execute"@),
            raw_text(max),
        ),
{
    let requested = match BoolGucParser::new().parse_cstring(
        requested,
        "GUC typescript.allow_pg_execute",
    ) {
        Ok(requested) => requested,
        Err(e) => return Err(e),
    };
    match BoolGucParser::uncapped().parse_cstring(max, "GUC typescript.max_allow_pg_execute") {
        Ok(max) => Ok(requested && max),
        Err(e) => Err(e),
    }
}

// ---------------------------------------------------------------------------
// Caps
// ---------------------------------------------------------------------------

/// The permissions of a run, from what was asked for and the caps.
pub fn effective_permissions(requested: PermissionSpec, max: PermissionSpec) -> (r:
    RuntimePermissions)
    ensures
        r@ == granted(requested@, max@),
{
    RuntimePermissions {
        allow_read: to_runtime_allowlist(intersect_permission(requested.read, max.read)),
        allow_write: to_runtime_allowlist(intersect_permission(requested.write, max.write)),
        allow_net: to_runtime_allowlist(intersect_permission(requested.net, max.net)),
        allow_env: to_runtime_allowlist(intersect_permission(requested.env, max.env)),
        allow_run: to_runtime_allowlist(intersect_permission(requested.run, max.run)),
        allow_ffi: to_runtime_allowlist(intersect_permission(requested.ffi, max.ffi)),
        allow_sys: to_runtime_allowlist(intersect_permission(requested.sys, max.sys)),
        allow_import: to_runtime_allowlist(intersect_permission(requested.import, max.import)),
    }
}

/// Refuses one request that goes beyond its cap.
pub fn enforce_permission_cap(
    requested: &PermissionSetting,
    max: &PermissionSetting,
    requested_source: &str,
    max_source: &str,
) -> (r: Result<(), String>)
    ensures
        match r {
            Ok(_) => cap_error(requested@, max@, requested_source@, max_source@) is None,
            Err(e) => cap_error(requested@, max@, requested_source@, max_source@) == Some(e@),
        },
{
    match unfulfillable_detail(requested, max) {
        Some(detail) => Err(
            String::from_str(requested_source).concat(" cannot be fulfilled by ").concat(
                max_source,
            ).concat(": ").concat(detail.as_str()),
        ),
        None => Ok(()),
    }
}

fn enforce_named_cap(
    requested: &PermissionSetting,
    max: &PermissionSetting,
    prefix: &str,
    name: &str,
) -> (r: Result<(), String>)
    ensures
        match r {
            Ok(_) => named_cap_error(requested@, max@, prefix@, name@) is None,
            Err(e) => named_cap_error(requested@, max@, prefix@, name@) == Some(e@),
        },
{
    let requested_source = String::from_str(prefix).concat(".").concat(name);
    let max_source = String::from_str("GUC typescript.max_").concat(name);
    enforce_permission_cap(requested, max, requested_source.as_str(), max_source.as_str())
}

/// Refuses the first request that goes beyond its cap.
pub fn enforce_all_caps(
    requested: &PermissionSpec,
    max: &PermissionSpec,
    requested_prefix: &str,
) -> (r: Result<(), String>)
    ensures
        match r {
            Ok(_) => caps_error(requested@, max@, requested_prefix@) is None,
            Err(e) => caps_error(requested@, max@, requested_prefix@) == Some(e@),
        },
{
    if let Err(e) = enforce_named_cap(
        &requested.read,
        &max.read,
        requested_prefix,
        "allow_read",
    ) {
        return Err(e);
    }
    if let Err(e) = enforce_named_cap(
        &requested.write,
        &max.write,
        requested_prefix,
        "allow_write",
    ) {
        return Err(e);
    }
    if let Err(e) = enforce_named_cap(
        &requested.net,
        &max.net,
        requested_prefix,
        "allow_net",
    ) {
        return Err(e);
    }
    if let Err(e) = enforce_named_cap(
        &requested.env,
        &max.env,
        requested_prefix,
        "allow_env",
    ) {
        return Err(e);
    }
    if let Err(e) = enforce_named_cap(
        &requested.run,
        &max.run,
        requested_prefix,
        "allow_run",
    ) {
        return Err(e);
    }
    if let Err(e) = enforce_named_cap(
        &requested.ffi,
        &max.ffi,
        requested_prefix,
        "allow_ffi",
    ) {
        return Err(e);
    }
    if let Err(e) = enforce_named_cap(
        &requested.sys,
        &max.sys,
        requested_prefix,
        "allow_sys",
    ) {
        return Err(e);
    }
    enforce_named_cap(&requested.import, &max.import, requested_prefix, "allow_import")
}

/// Why a request goes beyond its cap, where it does.
pub fn unfulfillable_detail(requested: &PermissionSetting, max: &PermissionSetting) -> (r: Option<
    String,
>)
    ensures
        opt_view(r) == excess(requested@, max@),
{
    match requested {
        PermissionSetting::Deny => None,
        PermissionSetting::AllowAll => match max {
            PermissionSetting::AllowAll => None,
            PermissionSetting::Deny => Some(String::from_str("requested '*' but cap is 'off'")),
            PermissionSetting::AllowList(max_list) => Some(
                String::from_str("requested '*' but cap only allows ").concat(
                    format_permission_values(max_list).as_str(),
                ),
            ),
        },
        PermissionSetting::AllowList(req_list) => match max {
            PermissionSetting::AllowAll => None,
            PermissionSetting::Deny => Some(
                String::from_str("requested ").concat(
                    format_permission_values(req_list).as_str(),
                ).concat(" but cap is 'off'"),
            ),
            PermissionSetting::AllowList(max_list) => {
                let disallowed = disallowed_values(req_list, max_list);
                if disallowed.len() == 0 {
                    None
                } else {
                    Some(
                        String::from_str("requested ").concat(
                            format_permission_values(req_list).as_str(),
                        ).concat(" includes disallowed values ").concat(
                            format_permission_values(&disallowed).as_str(),
                        ),
                    )
                }
            },
        },
    }
}

/// The items of a list that a cap does not hold.
fn disallowed_values(list: &Vec<String>, cap: &Vec<String>) -> (r: Vec<String>)
    ensures
        views(r@) == disallowed_items(views(list@), views(cap@)),
{
    let ghost all = views(list@);
    let mut out: Vec<String> = Vec::new();
    let mut i: usize = 0;
    assert(views(out@) =~= Seq::<Seq<char>>::empty());
    while i < list.len()
        invariant
            i <= list@.len(),
            all == views(list@),
            views(out@) =~= disallowed_items(all.take(i as int), views(cap@)),
        decreases list@.len() - i,
    {
        assert(all.take(i + 1).drop_last() =~= all.take(i as int));
        if !list_contains(cap, list[i].as_str()) {
            let ghost before = views(out@);
            let item = list[i].clone();
            out.push(item);
            assert(views(out@) =~= before.push(item@));
        }
        i += 1;
    }
    assert(all.take(i as int) =~= all);
    out
}

/// The items of a list that a cap holds.
fn kept_values(list: &Vec<String>, cap: &Vec<String>) -> (r: Vec<String>)
    ensures
        views(r@) == kept_items(views(list@), views(cap@)),
{
    let ghost all = views(list@);
    let mut out: Vec<String> = Vec::new();
    let mut i: usize = 0;
    assert(views(out@) =~= Seq::<Seq<char>>::empty());
    while i < list.len()
        invariant
            i <= list@.len(),
            all == views(list@),
            views(out@) =~= kept_items(all.take(i as int), views(cap@)),
        decreases list@.len() - i,
    {
        assert(all.take(i + 1).drop_last() =~= all.take(i as int));
        if list_contains(cap, list[i].as_str()) {
            let ghost before = views(out@);
            let item = list[i].clone();
            out.push(item);
            assert(views(out@) =~= before.push(item@));
        }
        i += 1;
    }
    assert(all.take(i as int) =~= all);
    out
}

/// A list in brackets.
pub fn format_permission_values(values: &Vec<String>) -> (r: String)
    ensures
        r@ == bracketed(views(values@)),
{
    String::from_str("[").concat(join(values, ",").as_str()).concat("]")
}

/// What is left of a request under a cap.
pub fn intersect_permission(requested: PermissionSetting, max: PermissionSetting) -> (r:
    PermissionSetting)
    ensures
        r@ == intersection(requested@, max@),
{
    match max {
        PermissionSetting::Deny => PermissionSetting::Deny,
        PermissionSetting::AllowAll => requested,
        PermissionSetting::AllowList(max_list) => match requested {
            PermissionSetting::Deny => PermissionSetting::Deny,
            PermissionSetting::AllowAll => PermissionSetting::AllowList(max_list),
            PermissionSetting::AllowList(req_list) => {
                let out = kept_values(&req_list, &max_list);
                if out.len() == 0 {
                    PermissionSetting::Deny
                } else {
                    PermissionSetting::AllowList(out)
                }
            },
        },
    }
}

/// The list that grants what a setting permits.
pub fn to_runtime_allowlist(value: PermissionSetting) -> (r: Option<Vec<String>>)
    ensures
        crate::runtime::opt_views(r) == runtime_list(value@),
{
    match value {
        PermissionSetting::AllowAll => {
            let all: Vec<String> = Vec::new();
            assert(views(all@) =~= Seq::<Seq<char>>::empty());
            Some(all)
        },
        PermissionSetting::AllowList(values) => Some(values),
        PermissionSetting::Deny => None,
    }
}

// ---------------------------------------------------------------------------
// Laws
// ---------------------------------------------------------------------------

/// What is kept are the items that both lists hold.
proof fn lemma_kept_items(list: Seq<Seq<char>>, cap: Seq<Seq<char>>, item: Seq<char>)
    ensures
        kept_items(list, cap).contains(item) <==> list.contains(item) && cap.contains(item),
    decreases list.len(),
{
    if list.len() > 0 {
        let init = list.drop_last();
        lemma_kept_items(init, cap, item);
        let kept = kept_items(init, cap);
        assert(list =~= init.push(list.last()));
        lemma_push_contains(init, list.last(), item);
        lemma_push_contains(kept, list.last(), item);
    }
}

proof fn lemma_push_contains(list: Seq<Seq<char>>, last: Seq<char>, item: Seq<char>)
    ensures
        list.push(last).contains(item) <==> list.contains(item) || last == item,
{
    if list.contains(item) {
        let i = choose|i: int| 0 <= i < list.len() && list[i] == item;
        assert(list.push(last)[i] == item);
    }
    assert(list.push(last)[list.len() as int] == last);
    if list.push(last).contains(item) {
        let i = choose|i: int| 0 <= i < list.push(last).len() && list.push(last)[i] == item;
        if i < list.len() {
            assert(list[i] == item);
        }
    }
}

/// Nothing is disallowed exactly where the cap holds every item; then all
/// items are kept.
proof fn lemma_disallowed_items(list: Seq<Seq<char>>, cap: Seq<Seq<char>>)
    ensures
        disallowed_items(list, cap).len() == 0 <==> (forall|item: Seq<char>|
            list.contains(item) ==> #[trigger] cap.contains(item)),
        disallowed_items(list, cap).len() == 0 ==> kept_items(list, cap) =~= list,
    decreases list.len(),
{
    if list.len() > 0 {
        let init = list.drop_last();
        lemma_disallowed_items(init, cap);
        assert(list =~= init.push(list.last()));
        assert forall|item: Seq<char>| list.contains(item) <==> init.contains(item) || list.last()
            == item by {
            lemma_push_contains(init, list.last(), item);
        }
        assert(list.contains(list.last()));
    } else {
        assert(forall|item: Seq<char>| !list.contains(item));
    }
}

/// Some text is longer than every item of a list.
proof fn lemma_longer_text(list: Seq<Seq<char>>) -> (fresh: Seq<char>)
    ensures
        forall|i: int| 0 <= i < list.len() ==> (#[trigger] list[i]).len() < fresh.len(),
    decreases list.len(),
{
    if list.len() == 0 {
        Seq::empty()
    } else {
        let shorter = lemma_longer_text(list.drop_last());
        let fresh = shorter + list.last() + seq!['a'];
        assert forall|i: int| 0 <= i < list.len() implies (#[trigger] list[i]).len()
            < fresh.len() by {
            if i < list.len() - 1 {
                assert(list.drop_last()[i] == list[i]);
            }
        }
        fresh
    }
}

/// What is granted under a cap is what was asked for and the cap permits.
pub proof fn law_intersection(requested: PermissionView, max: PermissionView, item: Seq<char>)
    ensures
        permits(intersection(requested, max), item) <==> permits(requested, item) && permits(
            max,
            item,
        ),
{
    if let PermissionView::AllowList(cap) = max {
        if let PermissionView::AllowList(items) = requested {
            lemma_kept_items(items, cap, item);
        }
    }
}

/// A request is refused exactly where it asks for something that its cap does
/// not permit.
pub proof fn law_refused_iff_beyond_cap(requested: PermissionView, max: PermissionView)
    requires
        well_formed(requested),
    ensures
        excess(requested, max) is None <==> (forall|item: Seq<char>|
            permits(requested, item) ==> #[trigger] permits(max, item)),
{
    if let PermissionView::AllowList(items) = requested {
        assert(permits(requested, items[0]));
        if let PermissionView::AllowList(cap) = max {
            lemma_disallowed_items(items, cap);
            if forall|item: Seq<char>| permits(requested, item) ==> #[trigger] permits(max, item) {
                assert forall|item: Seq<char>| items.contains(item) implies #[trigger] cap.contains(
                    item,
                ) by {
                    assert(permits(max, item));
                }
            }
        } else {
            assert(max is Deny ==> !permits(max, items[0]));
        }
    }
    if requested is AllowAll {
        if let PermissionView::AllowList(cap) = max {
            let fresh = lemma_longer_text(cap);
            assert(!permits(max, fresh));
        } else {
            assert(max is Deny ==> !permits(max, Seq::empty()));
        }
    }
}

/// A request that is not refused is granted as it was made.
pub proof fn law_accepted_request_is_unchanged(requested: PermissionView, max: PermissionView)
    requires
        well_formed(requested),
        excess(requested, max) is None,
    ensures
        intersection(requested, max) == requested,
{
    if let PermissionView::AllowList(cap) = max {
        if let PermissionView::AllowList(items) = requested {
            lemma_disallowed_items(items, cap);
        }
    }
}

/// A run is granted an item exactly where the setting permits it. (A list
/// without items would permit nothing, but stands for everything in a run.)
pub proof fn law_runtime_list_grants_what_is_permitted(setting: PermissionView, item: Seq<char>)
    requires
        well_formed(setting),
    ensures
        grants(runtime_list(setting), item) <==> permits(setting, item),
{
}

/// Lists stay non-empty under a cap, so that none turns into an unlimited grant.
pub proof fn law_intersection_well_formed(requested: PermissionView, max: PermissionView)
    requires
        well_formed(requested),
        well_formed(max),
    ensures
        well_formed(intersection(requested, max)),
{
}

/// A setting that is accepted is well-formed: a list has an item, and no item
/// twice.
pub proof fn law_parsed_setting_well_formed(value: Seq<char>, source: Seq<char>)
    ensures
        permission_parse(value, source) matches Ok(setting) ==> {
            &&& well_formed(setting)
            &&& (setting matches PermissionView::AllowList(items) ==> items.no_duplicates())
        },
{
    lemma_dedup_distinct(list_items(split_spec(value, ',')));
}

/// No item stands twice in a list without repetitions.
pub proof fn lemma_dedup_distinct(list: Seq<Seq<char>>)
    ensures
        dedup_spec(list).no_duplicates(),
    decreases list.len(),
{
    if list.len() > 0 {
        lemma_dedup_distinct(list.drop_last());
    }
}

/// All settings of a specification are well-formed.
pub open spec fn spec_well_formed(spec: PermissionSpecView) -> bool {
    &&& well_formed(spec.read)
    &&& well_formed(spec.write)
    &&& well_formed(spec.net)
    &&& well_formed(spec.env)
    &&& well_formed(spec.run)
    &&& well_formed(spec.ffi)
    &&& well_formed(spec.sys)
    &&& well_formed(spec.import)
}

/// All settings that a function, a `DO` block or a superuser makes are
/// well-formed.
pub proof fn law_settings_well_formed(config: Option<Seq<Seq<char>>>, raw: PermissionRawView)
    ensures
        function_request(config) matches Ok(spec) ==> spec_well_formed(spec),
        inline_request(raw) matches Ok(spec) ==> spec_well_formed(spec),
        max_permissions(raw) matches Ok(spec) ==> spec_well_formed(spec),
{
    assert forall|value: Seq<char>, source: Seq<char>|
        (#[trigger] permission_parse(value, source)) matches Ok(setting) implies well_formed(
        permission_parse(value, source)->Ok_0,
    ) by {
        law_parsed_setting_well_formed(value, source);
    }
}

/// The capabilities of a run, one by one.
pub open spec fn capability_lists(p: RuntimePermissionsView) -> Seq<Option<Seq<Seq<char>>>> {
    seq![
        p.allow_read,
        p.allow_write,
        p.allow_net,
        p.allow_env,
        p.allow_run,
        p.allow_ffi,
        p.allow_sys,
        p.allow_import,
    ]
}

/// The settings of a specification, in the same order.
pub open spec fn capability_settings(spec: PermissionSpecView) -> Seq<PermissionView> {
    seq![
        spec.read,
        spec.write,
        spec.net,
        spec.env,
        spec.run,
        spec.ffi,
        spec.sys,
        spec.import,
    ]
}

proof fn lemma_capped_one(requested: PermissionView, max: PermissionView, item: Seq<char>)
    requires
        well_formed(requested),
        well_formed(max),
        excess(requested, max) is None,
    ensures
        grants(runtime_list(intersection(requested, max)), item) <==> permits(requested, item),
        permits(requested, item) ==> permits(max, item),
{
    law_accepted_request_is_unchanged(requested, max);
    law_runtime_list_grants_what_is_permitted(requested, item);
    law_intersection(requested, max, item);
}

/// In every run that is allowed to start, each capability grants exactly what
/// was asked for, and nothing that the cap of that capability does not permit.
pub proof fn law_no_run_exceeds_its_caps(
    request: Result<PermissionSpecView, Seq<char>>,
    max: Result<PermissionSpecView, Seq<char>>,
    prefix: Seq<char>,
    capability: int,
    item: Seq<char>,
)
    requires
        0 <= capability < 8,
        request matches Ok(spec) ==> spec_well_formed(spec),
        max matches Ok(spec) ==> spec_well_formed(spec),
    ensures
        capped(request, max, prefix) matches Ok(run) ==> {
            let given = grants(capability_lists(run)[capability], item);
            &&& given <==> permits(capability_settings(request->Ok_0)[capability], item)
            &&& given ==> permits(capability_settings(max->Ok_0)[capability], item)
        },
{
    if capped(request, max, prefix) is Ok {
        let requested = request->Ok_0;
        let caps = max->Ok_0;
        lemma_capped_one(requested.read, caps.read, item);
        lemma_capped_one(requested.write, caps.write, item);
        lemma_capped_one(requested.net, caps.net, item);
        lemma_capped_one(requested.env, caps.env, item);
        lemma_capped_one(requested.run, caps.run, item);
        lemma_capped_one(requested.ffi, caps.ffi, item);
        lemma_capped_one(requested.sys, caps.sys, item);
        lemma_capped_one(requested.import, caps.import, item);
    }
}

/// In every run that is allowed to start, a capability that nobody asked for is
/// denied. Only imports are granted without being asked for, up to their cap.
pub proof fn law_unasked_capabilities_are_denied(
    config: Option<Seq<Seq<char>>>,
    requested: PermissionRawView,
    max: PermissionRawView,
)
    ensures
        function_permissions(config, max) matches Ok(run) ==> {
            &&& normalized(config_value(config, "typescript.allow_read"@)) is None
                ==> run.allow_read is None
            &&& normalized(config_value(config, "typescript.allow_write"@)) is None
                ==> run.allow_write is None
            &&& normalized(config_value(config, "typescript.allow_net"@)) is None
                ==> run.allow_net is None
            &&& normalized(config_value(config, "typescript.allow_env"@)) is None
                ==> run.allow_env is None
            &&& normalized(config_value(config, "typescript.allow_run"@)) is None
                ==> run.allow_run is None
            &&& normalized(config_value(config, "typescript.allow_ffi"@)) is None
                ==> run.allow_ffi is None
            &&& normalized(config_value(config, "typescript.allow_sys"@)) is None
                ==> run.allow_sys is None
            &&& normalized(config_value(config, "typescript.allow_import"@)) is None && normalized(
                max.import,
            ) is None ==> run.allow_import == Some(Seq::<Seq<char>>::empty())
        },
        inline_permissions(requested, max) matches Ok(run) ==> {
            &&& normalized(requested.read) is None ==> run.allow_read is None
            &&& normalized(requested.write) is None ==> run.allow_write is None
            &&& normalized(requested.net) is None ==> run.allow_net is None
            &&& normalized(requested.env) is None ==> run.allow_env is None
            &&& normalized(requested.run) is None ==> run.allow_run is None
            &&& normalized(requested.ffi) is None ==> run.allow_ffi is None
            &&& normalized(requested.sys) is None ==> run.allow_sys is None
            &&& normalized(requested.import) is None && normalized(max.import) is None
                ==> run.allow_import == Some(Seq::<Seq<char>>::empty())
        },
{
}

/// `_pg.execute()` is never granted beyond its cap, nor unasked.
pub proof fn law_pg_execute_is_capped(
    requested: Result<bool, Seq<char>>,
    max: Option<Seq<char>>,
)
    ensures
        pg_execute_granted(requested, max) == Ok::<_, Seq<char>>(true) ==> requested == Ok::<
            _,
            Seq<char>,
        >(true) && switch_setting(max, true, "GUC typescript.max_allow_pg_execute"@) == Ok::<
            _,
            Seq<char>,
        >(true),
{
}

/// What a setting permits, what a list grants in a run, and which settings are
/// well-formed.
pub proof fn law_permits(items: Seq<Seq<char>>, item: Seq<char>)
    ensures
        !permits(PermissionView::Deny, item),
        permits(PermissionView::AllowAll, item),
        permits(PermissionView::AllowList(items), item) <==> items.contains(item),
        well_formed(PermissionView::AllowList(items)) <==> items.len() > 0,
        !grants(None, item),
        grants(Some(Seq::empty()), item),
        items.len() > 0 ==> (grants(Some(items), item) <==> items.contains(item)),
{
}

/// The capabilities of a run and of its settings stand in the same order.
pub proof fn law_capabilities(p: RuntimePermissionsView, spec: PermissionSpecView)
    ensures
        capability_lists(p).len() == 8,
        capability_settings(spec).len() == 8,
        capability_lists(p)[0] == p.allow_read,
        capability_settings(spec)[0] == spec.read,
        capability_lists(p)[1] == p.allow_write,
        capability_settings(spec)[1] == spec.write,
        capability_lists(p)[2] == p.allow_net,
        capability_settings(spec)[2] == spec.net,
        capability_lists(p)[3] == p.allow_env,
        capability_settings(spec)[3] == spec.env,
        capability_lists(p)[4] == p.allow_run,
        capability_settings(spec)[4] == spec.run,
        capability_lists(p)[5] == p.allow_ffi,
        capability_settings(spec)[5] == spec.ffi,
        capability_lists(p)[6] == p.allow_sys,
        capability_settings(spec)[6] == spec.sys,
        capability_lists(p)[7] == p.allow_import,
        capability_settings(spec)[7] == spec.import,
{
}

/// The models of permissions have what the permissions hold, each in its place.
pub proof fn law_models_of_permissions(
    spec: PermissionSpec,
    raw: PermissionRaw,
    bytes: Vec<u8>,
    text: Seq<char>,
    entries: Vec<String>,
)
    ensures
        spec@.read == spec.read@,
        raw@.read == raw_text(raw.read),
        spec@.write == spec.write@,
        raw@.write == raw_text(raw.write),
        spec@.net == spec.net@,
        raw@.net == raw_text(raw.net),
        spec@.env == spec.env@,
        raw@.env == raw_text(raw.env),
        spec@.run == spec.run@,
        raw@.run == raw_text(raw.run),
        spec@.ffi == spec.ffi@,
        raw@.ffi == raw_text(raw.ffi),
        spec@.sys == spec.sys@,
        raw@.sys == raw_text(raw.sys),
        spec@.import == spec.import@,
        raw@.import == raw_text(raw.import),
        raw_text(None) is None,
        bytes@ == vstd::utf8::encode_utf8(text) ==> raw_text(Some(bytes)) == Some(text),
        !vstd::utf8::valid_utf8(bytes@) ==> raw_text(Some(bytes)) is None,
        config_view(Some(entries)) == Some(views(entries@)),
        config_view(None) is None,
{
    law_bytes_stand_for_the_text_they_encode(text, bytes@);
}

/// What the text of a setting stands for, where it has a meaning; `unset` where
/// there is no text.
pub open spec fn meaning(raw: Option<Seq<char>>, unset: PermissionView) -> PermissionView {
    match normalized(raw) {
        Some(value) => permission_parse(value, ""@)->Ok_0,
        None => unset,
    }
}

/// Does the text of a setting have a meaning?
pub open spec fn has_meaning(raw: Option<Seq<char>>) -> bool {
    normalized(raw) matches Some(value) ==> permission_parse(value, ""@) is Ok
}

proof fn lemma_meaning(raw: Option<Seq<char>>, unset: PermissionView, source: Seq<char>)
    ensures
        permission_setting(raw, unset, source) matches Ok(setting) ==> has_meaning(raw) && setting
            == meaning(raw, unset),
        permission_setting(raw, unset, source) is Ok <==> has_meaning(raw),
{
    if let Some(value) = normalized(raw) {
        law_meaning_is_the_same_everywhere(value, source, ""@);
        law_meaning_is_the_same_everywhere(value, ""@, source);
    }
}

/// The cap of each capability is what the session setting of that capability
/// stands for, and is unlimited where that is unset. The caps are read where
/// every setting has a meaning.
pub proof fn law_caps_come_from_their_own_settings(raw: PermissionRawView)
    ensures
        max_permissions(raw) matches Ok(caps) ==> {
            &&& caps.read == meaning(raw.read, PermissionView::AllowAll)
            &&& caps.write == meaning(raw.write, PermissionView::AllowAll)
            &&& caps.net == meaning(raw.net, PermissionView::AllowAll)
            &&& caps.env == meaning(raw.env, PermissionView::AllowAll)
            &&& caps.run == meaning(raw.run, PermissionView::AllowAll)
            &&& caps.ffi == meaning(raw.ffi, PermissionView::AllowAll)
            &&& caps.sys == meaning(raw.sys, PermissionView::AllowAll)
            &&& caps.import == meaning(raw.import, PermissionView::AllowAll)
        },
        max_permissions(raw) is Ok <==> has_meaning(raw.read) && has_meaning(raw.write)
            && has_meaning(raw.net) && has_meaning(raw.env) && has_meaning(raw.run)
            && has_meaning(raw.ffi) && has_meaning(raw.sys) && has_meaning(raw.import),
{
    lemma_meaning(raw.read, PermissionView::AllowAll, "GUC typescript.max_allow_read"@);
    lemma_meaning(raw.write, PermissionView::AllowAll, "GUC typescript.max_allow_write"@);
    lemma_meaning(raw.net, PermissionView::AllowAll, "GUC typescript.max_allow_net"@);
    lemma_meaning(raw.env, PermissionView::AllowAll, "GUC typescript.max_allow_env"@);
    lemma_meaning(raw.run, PermissionView::AllowAll, "GUC typescript.max_allow_run"@);
    lemma_meaning(raw.ffi, PermissionView::AllowAll, "GUC typescript.max_allow_ffi"@);
    lemma_meaning(raw.sys, PermissionView::AllowAll, "GUC typescript.max_allow_sys"@);
    lemma_meaning(raw.import, PermissionView::AllowAll, "GUC typescript.max_allow_import"@);
}

/// What a `DO` block asks of each capability is what the session setting of that
/// capability stands for; unset, it is nothing, but for imports.
pub proof fn law_inline_requests_come_from_their_own_settings(raw: PermissionRawView)
    ensures
        inline_request(raw) matches Ok(spec) ==> {
            &&& spec.read == meaning(raw.read, PermissionView::Deny)
            &&& spec.write == meaning(raw.write, PermissionView::Deny)
            &&& spec.net == meaning(raw.net, PermissionView::Deny)
            &&& spec.env == meaning(raw.env, PermissionView::Deny)
            &&& spec.run == meaning(raw.run, PermissionView::Deny)
            &&& spec.ffi == meaning(raw.ffi, PermissionView::Deny)
            &&& spec.sys == meaning(raw.sys, PermissionView::Deny)
            &&& spec.import == meaning(raw.import, PermissionView::AllowAll)
        },
        inline_request(raw) is Ok <==> has_meaning(raw.read) && has_meaning(raw.write)
            && has_meaning(raw.net) && has_meaning(raw.env) && has_meaning(raw.run)
            && has_meaning(raw.ffi) && has_meaning(raw.sys) && has_meaning(raw.import),
{
    lemma_meaning(raw.read, PermissionView::Deny, "GUC typescript.allow_read"@);
    lemma_meaning(raw.write, PermissionView::Deny, "GUC typescript.allow_write"@);
    lemma_meaning(raw.net, PermissionView::Deny, "GUC typescript.allow_net"@);
    lemma_meaning(raw.env, PermissionView::Deny, "GUC typescript.allow_env"@);
    lemma_meaning(raw.run, PermissionView::Deny, "GUC typescript.allow_run"@);
    lemma_meaning(raw.ffi, PermissionView::Deny, "GUC typescript.allow_ffi"@);
    lemma_meaning(raw.sys, PermissionView::Deny, "GUC typescript.allow_sys"@);
    lemma_meaning(raw.import, PermissionView::AllowAll, "GUC typescript.allow_import"@);
}

/// What a function asks of each capability is what its own setting of that
/// capability stands for; unset, it is nothing, but for imports.
pub proof fn law_function_requests_come_from_their_own_settings(config: Option<Seq<Seq<char>>>)
    ensures
        function_request(config) matches Ok(spec) ==> {
            &&& spec.read
                == meaning(config_value(config, "typescript.allow_read"@), PermissionView::Deny)
            &&& spec.write
                == meaning(config_value(config, "typescript.allow_write"@), PermissionView::Deny)
            &&& spec.net
                == meaning(config_value(config, "typescript.allow_net"@), PermissionView::Deny)
            &&& spec.env
                == meaning(config_value(config, "typescript.allow_env"@), PermissionView::Deny)
            &&& spec.run
                == meaning(config_value(config, "typescript.allow_run"@), PermissionView::Deny)
            &&& spec.ffi
                == meaning(config_value(config, "typescript.allow_ffi"@), PermissionView::Deny)
            &&& spec.sys
                == meaning(config_value(config, "typescript.allow_sys"@), PermissionView::Deny)
            &&& spec.import
                == meaning(config_value(config, "typescript.allow_import"@), PermissionView::AllowAll)
        },
        function_request(config) is Ok <==> has_meaning(config_value(config, "typescript.allow_read"@))
            && has_meaning(config_value(config, "typescript.allow_write"@))
            && has_meaning(config_value(config, "typescript.allow_net"@))
            && has_meaning(config_value(config, "typescript.allow_env"@))
            && has_meaning(config_value(config, "typescript.allow_run"@))
            && has_meaning(config_value(config, "typescript.allow_ffi"@))
            && has_meaning(config_value(config, "typescript.allow_sys"@))
            && has_meaning(config_value(config, "typescript.allow_import"@)),
{
    lemma_meaning(
        config_value(config, "typescript.allow_read"@),
        PermissionView::Deny,
        "function setting typescript.allow_read"@,
    );
    lemma_meaning(
        config_value(config, "typescript.allow_write"@),
        PermissionView::Deny,
        "function setting typescript.allow_write"@,
    );
    lemma_meaning(
        config_value(config, "typescript.allow_net"@),
        PermissionView::Deny,
        "function setting typescript.allow_net"@,
    );
    lemma_meaning(
        config_value(config, "typescript.allow_env"@),
        PermissionView::Deny,
        "function setting typescript.allow_env"@,
    );
    lemma_meaning(
        config_value(config, "typescript.allow_run"@),
        PermissionView::Deny,
        "function setting typescript.allow_run"@,
    );
    lemma_meaning(
        config_value(config, "typescript.allow_ffi"@),
        PermissionView::Deny,
        "function setting typescript.allow_ffi"@,
    );
    lemma_meaning(
        config_value(config, "typescript.allow_sys"@),
        PermissionView::Deny,
        "function setting typescript.allow_sys"@,
    );
    lemma_meaning(
        config_value(config, "typescript.allow_import"@),
        PermissionView::AllowAll,
        "function setting typescript.allow_import"@,
    );
}

/// The names of the settings of the capabilities, in their order.
pub open spec fn capability_names() -> Seq<Seq<char>> {
    seq![
        "allow_read"@,
        "allow_write"@,
        "allow_net"@,
        "allow_env"@,
        "allow_run"@,
        "allow_ffi"@,
        "allow_sys"@,
        "allow_import"@,
    ]
}

proof fn lemma_assembled_error(
    results: Seq<Result<PermissionView,
    Seq<char>>>,
    k: int,
    e: Seq<char>,
)
    requires
        results.len() == 8,
        0 <= k < 8,
        forall|j: int| 0 <= j < k ==> (#[trigger] results[j]) is Ok,
        results[k] == Err::<PermissionView, _>(e),
    ensures
        assembled(
            results[0],
            results[1],
            results[2],
            results[3],
            results[4],
            results[5],
            results[6],
            results[7],
        ) == Err::<PermissionSpecView, _>(e),
{
    assert(k == 0 || k == 1 || k == 2 || k == 3 || k == 4 || k == 5 || k == 6 || k == 7);
}

proof fn lemma_setting_names(capability: int)
    requires
        0 <= capability < 8,
    ensures
        capability_names()[capability] == seq![
            "allow_read"@,
            "allow_write"@,
            "allow_net"@,
            "allow_env"@,
            "allow_run"@,
            "allow_ffi"@,
            "allow_sys"@,
            "allow_import"@,
        ][capability],
        "GUC typescript.max_"@ + capability_names()[capability] == seq![
            "GUC typescript.max_allow_read"@,
            "GUC typescript.max_allow_write"@,
            "GUC typescript.max_allow_net"@,
            "GUC typescript.max_allow_env"@,
            "GUC typescript.max_allow_run"@,
            "GUC typescript.max_allow_ffi"@,
            "GUC typescript.max_allow_sys"@,
            "GUC typescript.max_allow_import"@,
        ][capability],
        "GUC typescript."@ + capability_names()[capability] == seq![
            "GUC typescript.allow_read"@,
            "GUC typescript.allow_write"@,
            "GUC typescript.allow_net"@,
            "GUC typescript.allow_env"@,
            "GUC typescript.allow_run"@,
            "GUC typescript.allow_ffi"@,
            "GUC typescript.allow_sys"@,
            "GUC typescript.allow_import"@,
        ][capability],
        "function setting typescript."@ + capability_names()[capability] == seq![
            "function setting typescript.allow_read"@,
            "function setting typescript.allow_write"@,
            "function setting typescript.allow_net"@,
            "function setting typescript.allow_env"@,
            "function setting typescript.allow_run"@,
            "function setting typescript.allow_ffi"@,
            "function setting typescript.allow_sys"@,
            "function setting typescript.allow_import"@,
        ][capability],
        "typescript."@ + capability_names()[capability] == seq![
            "typescript.allow_read"@,
            "typescript.allow_write"@,
            "typescript.allow_net"@,
            "typescript.allow_env"@,
            "typescript.allow_run"@,
            "typescript.allow_ffi"@,
            "typescript.allow_sys"@,
            "typescript.allow_import"@,
        ][capability],
{
    reveal_strlit("GUC typescript.max_");
    reveal_strlit("GUC typescript.");
    reveal_strlit("function setting typescript.");
    reveal_strlit("typescript.");
    if capability == 0 {
        reveal_strlit("allow_read");
        reveal_strlit("GUC typescript.max_allow_read");
        assert("GUC typescript.max_"@ + "allow_read"@ =~= "GUC typescript.max_allow_read"@);
        reveal_strlit("GUC typescript.allow_read");
        assert("GUC typescript."@ + "allow_read"@ =~= "GUC typescript.allow_read"@);
        reveal_strlit("function setting typescript.allow_read");
        assert("function setting typescript."@ + "allow_read"@
            =~= "function setting typescript.allow_read"@);
        reveal_strlit("typescript.allow_read");
        assert("typescript."@ + "allow_read"@ =~= "typescript.allow_read"@);
    }
    if capability == 1 {
        reveal_strlit("allow_write");
        reveal_strlit("GUC typescript.max_allow_write");
        assert("GUC typescript.max_"@ + "allow_write"@ =~= "GUC typescript.max_allow_write"@);
        reveal_strlit("GUC typescript.allow_write");
        assert("GUC typescript."@ + "allow_write"@ =~= "GUC typescript.allow_write"@);
        reveal_strlit("function setting typescript.allow_write");
        assert("function setting typescript."@ + "allow_write"@
            =~= "function setting typescript.allow_write"@);
        reveal_strlit("typescript.allow_write");
        assert("typescript."@ + "allow_write"@ =~= "typescript.allow_write"@);
    }
    if capability == 2 {
        reveal_strlit("allow_net");
        reveal_strlit("GUC typescript.max_allow_net");
        assert("GUC typescript.max_"@ + "allow_net"@ =~= "GUC typescript.max_allow_net"@);
        reveal_strlit("GUC typescript.allow_net");
        assert("GUC typescript."@ + "allow_net"@ =~= "GUC typescript.allow_net"@);
        reveal_strlit("function setting typescript.allow_net");
        assert("function setting typescript."@ + "allow_net"@
            =~= "function setting typescript.allow_net"@);
        reveal_strlit("typescript.allow_net");
        assert("typescript."@ + "allow_net"@ =~= "typescript.allow_net"@);
    }
    if capability == 3 {
        reveal_strlit("allow_env");
        reveal_strlit("GUC typescript.max_allow_env");
        assert("GUC typescript.max_"@ + "allow_env"@ =~= "GUC typescript.max_allow_env"@);
        reveal_strlit("GUC typescript.allow_env");
        assert("GUC typescript."@ + "allow_env"@ =~= "GUC typescript.allow_env"@);
        reveal_strlit("function setting typescript.allow_env");
        assert("function setting typescript."@ + "allow_env"@
            =~= "function setting typescript.allow_env"@);
        reveal_strlit("typescript.allow_env");
        assert("typescript."@ + "allow_env"@ =~= "typescript.allow_env"@);
    }
    if capability == 4 {
        reveal_strlit("allow_run");
        reveal_strlit("GUC typescript.max_allow_run");
        assert("GUC typescript.max_"@ + "allow_run"@ =~= "GUC typescript.max_allow_run"@);
        reveal_strlit("GUC typescript.allow_run");
        assert("GUC typescript."@ + "allow_run"@ =~= "GUC typescript.allow_run"@);
        reveal_strlit("function setting typescript.allow_run");
        assert("function setting typescript."@ + "allow_run"@
            =~= "function setting typescript.allow_run"@);
        reveal_strlit("typescript.allow_run");
        assert("typescript."@ + "allow_run"@ =~= "typescript.allow_run"@);
    }
    if capability == 5 {
        reveal_strlit("allow_ffi");
        reveal_strlit("GUC typescript.max_allow_ffi");
        assert("GUC typescript.max_"@ + "allow_ffi"@ =~= "GUC typescript.max_allow_ffi"@);
        reveal_strlit("GUC typescript.allow_ffi");
        assert("GUC typescript."@ + "allow_ffi"@ =~= "GUC typescript.allow_ffi"@);
        reveal_strlit("function setting typescript.allow_ffi");
        assert("function setting typescript."@ + "allow_ffi"@
            =~= "function setting typescript.allow_ffi"@);
        reveal_strlit("typescript.allow_ffi");
        assert("typescript."@ + "allow_ffi"@ =~= "typescript.allow_ffi"@);
    }
    if capability == 6 {
        reveal_strlit("allow_sys");
        reveal_strlit("GUC typescript.max_allow_sys");
        assert("GUC typescript.max_"@ + "allow_sys"@ =~= "GUC typescript.max_allow_sys"@);
        reveal_strlit("GUC typescript.allow_sys");
        assert("GUC typescript."@ + "allow_sys"@ =~= "GUC typescript.allow_sys"@);
        reveal_strlit("function setting typescript.allow_sys");
        assert("function setting typescript."@ + "allow_sys"@
            =~= "function setting typescript.allow_sys"@);
        reveal_strlit("typescript.allow_sys");
        assert("typescript."@ + "allow_sys"@ =~= "typescript.allow_sys"@);
    }
    if capability == 7 {
        reveal_strlit("allow_import");
        reveal_strlit("GUC typescript.max_allow_import");
        assert("GUC typescript.max_"@ + "allow_import"@ =~= "GUC typescript.max_allow_import"@);
        reveal_strlit("GUC typescript.allow_import");
        assert("GUC typescript."@ + "allow_import"@ =~= "GUC typescript.allow_import"@);
        reveal_strlit("function setting typescript.allow_import");
        assert("function setting typescript."@ + "allow_import"@
            =~= "function setting typescript.allow_import"@);
        reveal_strlit("typescript.allow_import");
        assert("typescript."@ + "allow_import"@ =~= "typescript.allow_import"@);
    }
}

/// The texts of the session settings of the capabilities, in their order.
pub open spec fn setting_texts(raw: PermissionRawView) -> Seq<Option<Seq<char>>> {
    seq![
        raw.read,
        raw.write,
        raw.net,
        raw.env,
        raw.run,
        raw.ffi,
        raw.sys,
        raw.import,
    ]
}

/// Where some cap has no meaning, the error is that of the first such capability,
/// and names its setting.
pub proof fn law_first_cap_without_a_meaning(
    raw: PermissionRawView,
    capability: int,
    value: Seq<char>,
)
    requires
        0 <= capability < 8,
        forall|j: int| 0 <= j < capability ==> has_meaning(#[trigger] setting_texts(raw)[j]),
        normalized(setting_texts(raw)[capability]) == Some(value),
        !has_meaning(setting_texts(raw)[capability]),
    ensures
        max_permissions(raw) == Err::<PermissionSpecView, _>(
            permission_parse(value, "GUC typescript.max_"@ + capability_names()[capability])->Err_0,
        ),
{
    let results = seq![
        permission_setting(raw.read, PermissionView::AllowAll, "GUC typescript.max_allow_read"@),
        permission_setting(raw.write, PermissionView::AllowAll, "GUC typescript.max_allow_write"@),
        permission_setting(raw.net, PermissionView::AllowAll, "GUC typescript.max_allow_net"@),
        permission_setting(raw.env, PermissionView::AllowAll, "GUC typescript.max_allow_env"@),
        permission_setting(raw.run, PermissionView::AllowAll, "GUC typescript.max_allow_run"@),
        permission_setting(raw.ffi, PermissionView::AllowAll, "GUC typescript.max_allow_ffi"@),
        permission_setting(raw.sys, PermissionView::AllowAll, "GUC typescript.max_allow_sys"@),
        permission_setting(
            raw.import,
            PermissionView::AllowAll,
            "GUC typescript.max_allow_import"@,
        ),
    ];
    lemma_setting_names(capability);
    assert(0 < capability ==> has_meaning(setting_texts(raw)[0]));
    lemma_meaning(raw.read, PermissionView::AllowAll, "GUC typescript.max_allow_read"@);
    assert(1 < capability ==> has_meaning(setting_texts(raw)[1]));
    lemma_meaning(raw.write, PermissionView::AllowAll, "GUC typescript.max_allow_write"@);
    assert(2 < capability ==> has_meaning(setting_texts(raw)[2]));
    lemma_meaning(raw.net, PermissionView::AllowAll, "GUC typescript.max_allow_net"@);
    assert(3 < capability ==> has_meaning(setting_texts(raw)[3]));
    lemma_meaning(raw.env, PermissionView::AllowAll, "GUC typescript.max_allow_env"@);
    assert(4 < capability ==> has_meaning(setting_texts(raw)[4]));
    lemma_meaning(raw.run, PermissionView::AllowAll, "GUC typescript.max_allow_run"@);
    assert(5 < capability ==> has_meaning(setting_texts(raw)[5]));
    lemma_meaning(raw.ffi, PermissionView::AllowAll, "GUC typescript.max_allow_ffi"@);
    assert(6 < capability ==> has_meaning(setting_texts(raw)[6]));
    lemma_meaning(raw.sys, PermissionView::AllowAll, "GUC typescript.max_allow_sys"@);
    assert(7 < capability ==> has_meaning(setting_texts(raw)[7]));
    lemma_meaning(raw.import, PermissionView::AllowAll, "GUC typescript.max_allow_import"@);
    lemma_assembled_error(results, capability, results[capability]->Err_0);
}

/// Where something that a `DO` block asks for has no meaning, the error is that of
/// the first such capability, and names its setting.
pub proof fn law_first_inline_request_without_a_meaning(
    raw: PermissionRawView,
    capability: int,
    value: Seq<char>,
)
    requires
        0 <= capability < 8,
        forall|j: int| 0 <= j < capability ==> has_meaning(#[trigger] setting_texts(raw)[j]),
        normalized(setting_texts(raw)[capability]) == Some(value),
        !has_meaning(setting_texts(raw)[capability]),
    ensures
        inline_request(raw) == Err::<PermissionSpecView, _>(
            permission_parse(value, "GUC typescript."@ + capability_names()[capability])->Err_0,
        ),
{
    let results = seq![
        permission_setting(raw.read, PermissionView::Deny, "GUC typescript.allow_read"@),
        permission_setting(raw.write, PermissionView::Deny, "GUC typescript.allow_write"@),
        permission_setting(raw.net, PermissionView::Deny, "GUC typescript.allow_net"@),
        permission_setting(raw.env, PermissionView::Deny, "GUC typescript.allow_env"@),
        permission_setting(raw.run, PermissionView::Deny, "GUC typescript.allow_run"@),
        permission_setting(raw.ffi, PermissionView::Deny, "GUC typescript.allow_ffi"@),
        permission_setting(raw.sys, PermissionView::Deny, "GUC typescript.allow_sys"@),
        permission_setting(raw.import, PermissionView::AllowAll, "GUC typescript.allow_import"@),
    ];
    lemma_setting_names(capability);
    assert(0 < capability ==> has_meaning(setting_texts(raw)[0]));
    lemma_meaning(raw.read, PermissionView::Deny, "GUC typescript.allow_read"@);
    assert(1 < capability ==> has_meaning(setting_texts(raw)[1]));
    lemma_meaning(raw.write, PermissionView::Deny, "GUC typescript.allow_write"@);
    assert(2 < capability ==> has_meaning(setting_texts(raw)[2]));
    lemma_meaning(raw.net, PermissionView::Deny, "GUC typescript.allow_net"@);
    assert(3 < capability ==> has_meaning(setting_texts(raw)[3]));
    lemma_meaning(raw.env, PermissionView::Deny, "GUC typescript.allow_env"@);
    assert(4 < capability ==> has_meaning(setting_texts(raw)[4]));
    lemma_meaning(raw.run, PermissionView::Deny, "GUC typescript.allow_run"@);
    assert(5 < capability ==> has_meaning(setting_texts(raw)[5]));
    lemma_meaning(raw.ffi, PermissionView::Deny, "GUC typescript.allow_ffi"@);
    assert(6 < capability ==> has_meaning(setting_texts(raw)[6]));
    lemma_meaning(raw.sys, PermissionView::Deny, "GUC typescript.allow_sys"@);
    assert(7 < capability ==> has_meaning(setting_texts(raw)[7]));
    lemma_meaning(raw.import, PermissionView::AllowAll, "GUC typescript.allow_import"@);
    lemma_assembled_error(results, capability, results[capability]->Err_0);
}

/// Where something that a function asks for has no meaning, the error is that of
/// the first such capability, and names its setting.
pub proof fn law_first_function_request_without_a_meaning(
    config: Option<Seq<Seq<char>>>,
    capability: int,
    value: Seq<char>,
)
    requires
        0 <= capability < 8,
        forall|j: int|
            0 <= j < capability ==> has_meaning(
                config_value(config, "typescript."@ + #[trigger] capability_names()[j]),
            ),
        normalized(config_value(config, "typescript."@ + capability_names()[capability])) == Some(
            value,
        ),
        !has_meaning(config_value(config, "typescript."@ + capability_names()[capability])),
    ensures
        function_request(config) == Err::<PermissionSpecView, _>(
            permission_parse(
                value,
                "function setting typescript."@ + capability_names()[capability],
            )->Err_0,
        ),
{
    let results = seq![
        permission_setting(
            config_value(config, "typescript.allow_read"@),
            PermissionView::Deny,
            "function setting typescript.allow_read"@,
        ),
        permission_setting(
            config_value(config, "typescript.allow_write"@),
            PermissionView::Deny,
            "function setting typescript.allow_write"@,
        ),
        permission_setting(
            config_value(config, "typescript.allow_net"@),
            PermissionView::Deny,
            "function setting typescript.allow_net"@,
        ),
        permission_setting(
            config_value(config, "typescript.allow_env"@),
            PermissionView::Deny,
            "function setting typescript.allow_env"@,
        ),
        permission_setting(
            config_value(config, "typescript.allow_run"@),
            PermissionView::Deny,
            "function setting typescript.allow_run"@,
        ),
        permission_setting(
            config_value(config, "typescript.allow_ffi"@),
            PermissionView::Deny,
            "function setting typescript.allow_ffi"@,
        ),
        permission_setting(
            config_value(config, "typescript.allow_sys"@),
            PermissionView::Deny,
            "function setting typescript.allow_sys"@,
        ),
        permission_setting(
            config_value(config, "typescript.allow_import"@),
            PermissionView::AllowAll,
            "function setting typescript.allow_import"@,
        ),
    ];
    lemma_setting_names(0);
    assert(0 < capability ==> has_meaning(
        config_value(config, "typescript."@ + capability_names()[0]),
    ));
    lemma_meaning(
        config_value(config, "typescript.allow_read"@),
        PermissionView::Deny,
        "function setting typescript.allow_read"@,
    );
    lemma_setting_names(1);
    assert(1 < capability ==> has_meaning(
        config_value(config, "typescript."@ + capability_names()[1]),
    ));
    lemma_meaning(
        config_value(config, "typescript.allow_write"@),
        PermissionView::Deny,
        "function setting typescript.allow_write"@,
    );
    lemma_setting_names(2);
    assert(2 < capability ==> has_meaning(
        config_value(config, "typescript."@ + capability_names()[2]),
    ));
    lemma_meaning(
        config_value(config, "typescript.allow_net"@),
        PermissionView::Deny,
        "function setting typescript.allow_net"@,
    );
    lemma_setting_names(3);
    assert(3 < capability ==> has_meaning(
        config_value(config, "typescript."@ + capability_names()[3]),
    ));
    lemma_meaning(
        config_value(config, "typescript.allow_env"@),
        PermissionView::Deny,
        "function setting typescript.allow_env"@,
    );
    lemma_setting_names(4);
    assert(4 < capability ==> has_meaning(
        config_value(config, "typescript."@ + capability_names()[4]),
    ));
    lemma_meaning(
        config_value(config, "typescript.allow_run"@),
        PermissionView::Deny,
        "function setting typescript.allow_run"@,
    );
    lemma_setting_names(5);
    assert(5 < capability ==> has_meaning(
        config_value(config, "typescript."@ + capability_names()[5]),
    ));
    lemma_meaning(
        config_value(config, "typescript.allow_ffi"@),
        PermissionView::Deny,
        "function setting typescript.allow_ffi"@,
    );
    lemma_setting_names(6);
    assert(6 < capability ==> has_meaning(
        config_value(config, "typescript."@ + capability_names()[6]),
    ));
    lemma_meaning(
        config_value(config, "typescript.allow_sys"@),
        PermissionView::Deny,
        "function setting typescript.allow_sys"@,
    );
    lemma_setting_names(7);
    assert(7 < capability ==> has_meaning(
        config_value(config, "typescript."@ + capability_names()[7]),
    ));
    lemma_meaning(
        config_value(config, "typescript.allow_import"@),
        PermissionView::AllowAll,
        "function setting typescript.allow_import"@,
    );
    lemma_setting_names(capability);
    lemma_assembled_error(results, capability, results[capability]->Err_0);
}

proof fn lemma_granted_fields(
    requested: PermissionSpecView,
    max: PermissionSpecView,
    prefix: Seq<char>,
    item: Seq<char>,
)
    requires
        spec_well_formed(requested),
        spec_well_formed(max),
    ensures
        capped(Ok(requested), Ok(max), prefix) matches Ok(run) ==> {
            &&& grants(run.allow_read, item) <==> permits(requested.read, item)
            &&& grants(run.allow_read, item) ==> permits(max.read, item)
            &&& max.read is Deny ==> run.allow_read is None
            &&& grants(run.allow_write, item) <==> permits(requested.write, item)
            &&& grants(run.allow_write, item) ==> permits(max.write, item)
            &&& max.write is Deny ==> run.allow_write is None
            &&& grants(run.allow_net, item) <==> permits(requested.net, item)
            &&& grants(run.allow_net, item) ==> permits(max.net, item)
            &&& max.net is Deny ==> run.allow_net is None
            &&& grants(run.allow_env, item) <==> permits(requested.env, item)
            &&& grants(run.allow_env, item) ==> permits(max.env, item)
            &&& max.env is Deny ==> run.allow_env is None
            &&& grants(run.allow_run, item) <==> permits(requested.run, item)
            &&& grants(run.allow_run, item) ==> permits(max.run, item)
            &&& max.run is Deny ==> run.allow_run is None
            &&& grants(run.allow_ffi, item) <==> permits(requested.ffi, item)
            &&& grants(run.allow_ffi, item) ==> permits(max.ffi, item)
            &&& max.ffi is Deny ==> run.allow_ffi is None
            &&& grants(run.allow_sys, item) <==> permits(requested.sys, item)
            &&& grants(run.allow_sys, item) ==> permits(max.sys, item)
            &&& max.sys is Deny ==> run.allow_sys is None
            &&& grants(run.allow_import, item) <==> permits(requested.import, item)
            &&& grants(run.allow_import, item) ==> permits(max.import, item)
            &&& max.import is Deny ==> run.allow_import is None
        },
{
    if capped(Ok(requested), Ok(max), prefix) is Ok {
        lemma_capped_one(requested.read, max.read, item);
        lemma_capped_one(requested.write, max.write, item);
        lemma_capped_one(requested.net, max.net, item);
        lemma_capped_one(requested.env, max.env, item);
        lemma_capped_one(requested.run, max.run, item);
        lemma_capped_one(requested.ffi, max.ffi, item);
        lemma_capped_one(requested.sys, max.sys, item);
        lemma_capped_one(requested.import, max.import, item);
    }
}

/// A call grants of each capability just what the function's setting asks for,
/// and starts only where the cap of that capability permits all of it; a
/// capability whose cap is `off` is denied.
pub proof fn law_calls_are_granted_what_they_ask_for(
    config: Option<Seq<Seq<char>>>,
    max: PermissionRawView,
    item: Seq<char>,
)
    ensures
        function_permissions(config, max) matches Ok(run) ==> {
            &&& grants(run.allow_read, item) <==> permits(
                meaning(config_value(config, "typescript.allow_read"@), PermissionView::Deny),
                item,
            )
            &&& grants(run.allow_read, item) ==> permits(
                meaning(max.read, PermissionView::AllowAll),
                item,
            )
            &&& meaning(max.read, PermissionView::AllowAll) is Deny ==> run.allow_read is None
            &&& grants(run.allow_write, item) <==> permits(
                meaning(config_value(config, "typescript.allow_write"@), PermissionView::Deny),
                item,
            )
            &&& grants(run.allow_write, item) ==> permits(
                meaning(max.write, PermissionView::AllowAll),
                item,
            )
            &&& meaning(max.write, PermissionView::AllowAll) is Deny ==> run.allow_write is None
            &&& grants(run.allow_net, item) <==> permits(
                meaning(config_value(config, "typescript.allow_net"@), PermissionView::Deny),
                item,
            )
            &&& grants(run.allow_net, item) ==> permits(
                meaning(max.net, PermissionView::AllowAll),
                item,
            )
            &&& meaning(max.net, PermissionView::AllowAll) is Deny ==> run.allow_net is None
            &&& grants(run.allow_env, item) <==> permits(
                meaning(config_value(config, "typescript.allow_env"@), PermissionView::Deny),
                item,
            )
            &&& grants(run.allow_env, item) ==> permits(
                meaning(max.env, PermissionView::AllowAll),
                item,
            )
            &&& meaning(max.env, PermissionView::AllowAll) is Deny ==> run.allow_env is None
            &&& grants(run.allow_run, item) <==> permits(
                meaning(config_value(config, "typescript.allow_run"@), PermissionView::Deny),
                item,
            )
            &&& grants(run.allow_run, item) ==> permits(
                meaning(max.run, PermissionView::AllowAll),
                item,
            )
            &&& meaning(max.run, PermissionView::AllowAll) is Deny ==> run.allow_run is None
            &&& grants(run.allow_ffi, item) <==> permits(
                meaning(config_value(config, "typescript.allow_ffi"@), PermissionView::Deny),
                item,
            )
            &&& grants(run.allow_ffi, item) ==> permits(
                meaning(max.ffi, PermissionView::AllowAll),
                item,
            )
            &&& meaning(max.ffi, PermissionView::AllowAll) is Deny ==> run.allow_ffi is None
            &&& grants(run.allow_sys, item) <==> permits(
                meaning(config_value(config, "typescript.allow_sys"@), PermissionView::Deny),
                item,
            )
            &&& grants(run.allow_sys, item) ==> permits(
                meaning(max.sys, PermissionView::AllowAll),
                item,
            )
            &&& meaning(max.sys, PermissionView::AllowAll) is Deny ==> run.allow_sys is None
            &&& grants(run.allow_import, item) <==> permits(
                meaning(config_value(config, "typescript.allow_import"@), PermissionView::AllowAll),
                item,
            )
            &&& grants(run.allow_import, item) ==> permits(
                meaning(max.import, PermissionView::AllowAll),
                item,
            )
            &&& meaning(max.import, PermissionView::AllowAll) is Deny ==> run.allow_import is None
        },
{
    law_settings_well_formed(config, max);
    law_function_requests_come_from_their_own_settings(config);
    law_caps_come_from_their_own_settings(max);
    if function_request(config) is Ok && max_permissions(max) is Ok {
        lemma_granted_fields(
            function_request(config)->Ok_0,
            max_permissions(max)->Ok_0,
            "function setting typescript"@,
            item,
        );
    }
}

/// A `DO` block is granted of each capability just what its setting asks for, and
/// starts only where the cap of that capability permits all of it; a capability
/// whose cap is `off` is denied.
pub proof fn law_blocks_are_granted_what_they_ask_for(
    requested: PermissionRawView,
    max: PermissionRawView,
    item: Seq<char>,
)
    ensures
        inline_permissions(requested, max) matches Ok(run) ==> {
            &&& grants(run.allow_read, item) <==> permits(
                meaning(requested.read, PermissionView::Deny),
                item,
            )
            &&& grants(run.allow_read, item) ==> permits(
                meaning(max.read, PermissionView::AllowAll),
                item,
            )
            &&& meaning(max.read, PermissionView::AllowAll) is Deny ==> run.allow_read is None
            &&& grants(run.allow_write, item) <==> permits(
                meaning(requested.write, PermissionView::Deny),
                item,
            )
            &&& grants(run.allow_write, item) ==> permits(
                meaning(max.write, PermissionView::AllowAll),
                item,
            )
            &&& meaning(max.write, PermissionView::AllowAll) is Deny ==> run.allow_write is None
            &&& grants(run.allow_net, item) <==> permits(
                meaning(requested.net, PermissionView::Deny),
                item,
            )
            &&& grants(run.allow_net, item) ==> permits(
                meaning(max.net, PermissionView::AllowAll),
                item,
            )
            &&& meaning(max.net, PermissionView::AllowAll) is Deny ==> run.allow_net is None
            &&& grants(run.allow_env, item) <==> permits(
                meaning(requested.env, PermissionView::Deny),
                item,
            )
            &&& grants(run.allow_env, item) ==> permits(
                meaning(max.env, PermissionView::AllowAll),
                item,
            )
            &&& meaning(max.env, PermissionView::AllowAll) is Deny ==> run.allow_env is None
            &&& grants(run.allow_run, item) <==> permits(
                meaning(requested.run, PermissionView::Deny),
                item,
            )
            &&& grants(run.allow_run, item) ==> permits(
                meaning(max.run, PermissionView::AllowAll),
                item,
            )
            &&& meaning(max.run, PermissionView::AllowAll) is Deny ==> run.allow_run is None
            &&& grants(run.allow_ffi, item) <==> permits(
                meaning(requested.ffi, PermissionView::Deny),
                item,
            )
            &&& grants(run.allow_ffi, item) ==> permits(
                meaning(max.ffi, PermissionView::AllowAll),
                item,
            )
            &&& meaning(max.ffi, PermissionView::AllowAll) is Deny ==> run.allow_ffi is None
            &&& grants(run.allow_sys, item) <==> permits(
                meaning(requested.sys, PermissionView::Deny),
                item,
            )
            &&& grants(run.allow_sys, item) ==> permits(
                meaning(max.sys, PermissionView::AllowAll),
                item,
            )
            &&& meaning(max.sys, PermissionView::AllowAll) is Deny ==> run.allow_sys is None
            &&& grants(run.allow_import, item) <==> permits(
                meaning(requested.import, PermissionView::AllowAll),
                item,
            )
            &&& grants(run.allow_import, item) ==> permits(
                meaning(max.import, PermissionView::AllowAll),
                item,
            )
            &&& meaning(max.import, PermissionView::AllowAll) is Deny ==> run.allow_import is None
        },
{
    law_settings_well_formed(None, max);
    law_settings_well_formed(None, requested);
    law_inline_requests_come_from_their_own_settings(requested);
    law_caps_come_from_their_own_settings(max);
    if inline_request(requested) is Ok && max_permissions(max) is Ok {
        lemma_granted_fields(
            inline_request(requested)->Ok_0,
            max_permissions(max)->Ok_0,
            "GUC typescript"@,
            item,
        );
    }
}

/// A run starts where every setting has a meaning and no request goes beyond its
/// cap.
pub proof fn law_which_runs_start(
    request: Result<PermissionSpecView, Seq<char>>,
    max: Result<PermissionSpecView, Seq<char>>,
    prefix: Seq<char>,
)
    ensures
        capped(request, max, prefix) is Ok <==> request is Ok && max is Ok && forall|k: int|
            0 <= k < 8 ==> excess(
                #[trigger] capability_settings(request->Ok_0)[k],
                capability_settings(max->Ok_0)[k],
            ) is None,
        request matches Err(e) ==> capped(request, max, prefix) == Err::<RuntimePermissionsView, _>(
            e,
        ),
        request is Ok ==> (max matches Err(e) ==> capped(request, max, prefix) == Err::<
            RuntimePermissionsView,
            _,
        >(e)),
{
    if request is Ok && max is Ok {
        let r = capability_settings(request->Ok_0);
        let m = capability_settings(max->Ok_0);
        if forall|k: int| 0 <= k < 8 ==> excess(#[trigger] r[k], m[k]) is None {
            assert(excess(r[0], m[0]) is None);
            assert(excess(r[1], m[1]) is None);
            assert(excess(r[2], m[2]) is None);
            assert(excess(r[3], m[3]) is None);
            assert(excess(r[4], m[4]) is None);
            assert(excess(r[5], m[5]) is None);
            assert(excess(r[6], m[6]) is None);
            assert(excess(r[7], m[7]) is None);
        }
        if capped(request, max, prefix) is Ok {
            assert forall|k: int| 0 <= k < 8 implies excess(#[trigger] r[k], m[k]) is None by {
                assert(k == 0 || k == 1 || k == 2 || k == 3 || k == 4 || k == 5 || k == 6
                    || k == 7);
            }
        }
    }
}

/// The first request that goes beyond its cap is refused by the names of the two
/// settings and with the reason.
pub proof fn law_first_request_beyond_its_cap(
    requested: PermissionSpecView,
    max: PermissionSpecView,
    prefix: Seq<char>,
    capability: int,
    reason: Seq<char>,
)
    requires
        0 <= capability < 8,
        forall|j: int|
            0 <= j < capability ==> excess(
                #[trigger] capability_settings(requested)[j],
                capability_settings(max)[j],
            ) is None,
        excess(capability_settings(requested)[capability], capability_settings(max)[capability])
            == Some(reason),
    ensures
        capped(Ok(requested), Ok(max), prefix) == Err::<RuntimePermissionsView, _>(
            prefix + "."@ + capability_names()[capability] + " cannot be fulfilled by "@ + (
            "GUC typescript.max_"@ + capability_names()[capability]) + ": "@ + reason,
        ),
{
    let r = capability_settings(requested);
    let m = capability_settings(max);
    assert(0 < capability ==> excess(r[0], m[0]) is None);
    assert(1 < capability ==> excess(r[1], m[1]) is None);
    assert(2 < capability ==> excess(r[2], m[2]) is None);
    assert(3 < capability ==> excess(r[3], m[3]) is None);
    assert(4 < capability ==> excess(r[4], m[4]) is None);
    assert(5 < capability ==> excess(r[5], m[5]) is None);
    assert(6 < capability ==> excess(r[6], m[6]) is None);
    assert(7 < capability ==> excess(r[7], m[7]) is None);
    assert(capability == 0 || capability == 1 || capability == 2 || capability == 3 || capability
        == 4 || capability == 5 || capability == 6 || capability == 7);
}

/// The sources that requests are named by.
pub proof fn law_names_of_requests(
    config: Option<Seq<Seq<char>>>,
    requested: PermissionRawView,
    max: PermissionRawView,
)
    ensures
        function_permissions(config, max) == capped(
            function_request(config),
            max_permissions(max),
            "function setting typescript"@,
        ),
        inline_permissions(requested, max) == capped(
            inline_request(requested),
            max_permissions(max),
            "GUC typescript"@,
        ),
{
}

/// Why a request goes beyond its cap is said by what was asked for and what the
/// cap leaves of it.
pub proof fn law_reasons_of_refusals(items: Seq<Seq<char>>, cap: Seq<Seq<char>>)
    ensures
        excess(PermissionView::AllowAll, PermissionView::Deny) == Some(
            "requested '*' but cap is 'off'"@,
        ),
        excess(PermissionView::AllowAll, PermissionView::AllowList(cap)) == Some(
            "requested '*' but cap only allows "@ + ("["@ + join_spec(cap, ","@) + "]"@),
        ),
        excess(PermissionView::AllowList(items), PermissionView::Deny) == Some(
            "requested "@ + ("["@ + join_spec(items, ","@) + "]"@) + " but cap is 'off'"@,
        ),
        (exists|item: Seq<char>| #[trigger] items.contains(item) && !cap.contains(item)) ==> excess(
            PermissionView::AllowList(items),
            PermissionView::AllowList(cap),
        ) == Some(
            "requested "@ + ("["@ + join_spec(items, ","@) + "]"@)
                + " includes disallowed values "@ + ("["@ + join_spec(
                disallowed_items(items, cap),
                ","@,
            ) + "]"@),
        ),
{
    lemma_disallowed_items(items, cap);
}

/// A list is parted by its cap: each item is kept or disallowed, in the order of
/// the list.
pub proof fn law_lists_are_parted_by_their_cap(
    list: Seq<Seq<char>>,
    more: Seq<Seq<char>>,
    cap: Seq<Seq<char>>,
    item: Seq<char>,
)
    ensures
        kept_items(list + more, cap) == kept_items(list, cap) + kept_items(more, cap),
        disallowed_items(list + more, cap) == disallowed_items(list, cap) + disallowed_items(
            more,
            cap,
        ),
        cap.contains(item) ==> kept_items(seq![item], cap) == seq![item] && disallowed_items(
            seq![item],
            cap,
        ) == Seq::<Seq<char>>::empty(),
        !cap.contains(item) ==> kept_items(seq![item], cap) == Seq::<Seq<char>>::empty()
            && disallowed_items(seq![item], cap) == seq![item],
    decreases more.len(),
{
    let one = seq![item];
    assert(one.drop_last() =~= Seq::<Seq<char>>::empty());
    reveal_with_fuel(kept_items, 2);
    reveal_with_fuel(disallowed_items, 2);
    assert(Seq::<Seq<char>>::empty().push(item) =~= one);
    if more.len() > 0 {
        law_lists_are_parted_by_their_cap(list, more.drop_last(), cap, item);
        assert((list + more).drop_last() =~= list + more.drop_last());
        assert(kept_items(list + more, cap) =~= kept_items(list, cap) + kept_items(more, cap));
        assert(disallowed_items(list + more, cap) =~= disallowed_items(list, cap)
            + disallowed_items(more, cap));
    } else {
        assert(list + more =~= list);
        assert(kept_items(list, cap) + kept_items(more, cap) =~= kept_items(list, cap));
        assert(disallowed_items(list, cap) + disallowed_items(more, cap) =~= disallowed_items(
            list,
            cap,
        ));
    }
}

/// What is left of a request under a cap: nothing under `off`, all of it without
/// a limit, and otherwise the items of the two, in the order in which they were
/// asked for.
pub proof fn law_what_is_left_under_a_cap(
    requested: PermissionView,
    items: Seq<Seq<char>>,
    cap: Seq<Seq<char>>,
)
    ensures
        intersection(requested, PermissionView::Deny) == PermissionView::Deny,
        intersection(requested, PermissionView::AllowAll) == requested,
        intersection(PermissionView::Deny, PermissionView::AllowList(cap)) == PermissionView::Deny,
        intersection(PermissionView::AllowAll, PermissionView::AllowList(cap))
            == PermissionView::AllowList(cap),
        match intersection(PermissionView::AllowList(items), PermissionView::AllowList(cap)) {
            PermissionView::AllowList(left) => left == kept_items(items, cap) && left.len() > 0,
            PermissionView::Deny => kept_items(items, cap).len() == 0,
            PermissionView::AllowAll => false,
        },
        runtime_list(PermissionView::AllowAll) == Some(Seq::<Seq<char>>::empty()),
        runtime_list(PermissionView::AllowList(items)) == Some(items),
        runtime_list(PermissionView::Deny) is None,
{
}

/// The configuration of a function gives a key the rest of the first entry that
/// begins with the key and `=`.
pub proof fn law_configuration_of_a_function(
    before: Seq<Seq<char>>,
    key: Seq<char>,
    value: Seq<char>,
    after: Seq<Seq<char>>,
)
    requires
        forall|i: int| 0 <= i < before.len() ==> !(key + "="@).is_prefix_of(#[trigger] before[i]),
    ensures
        config_value(Some(before + seq![key + "="@ + value] + after), key) == Some(value),
        config_value(Some(before), key) is None,
        config_value(None, key) is None,
    decreases before.len(),
{
    let prefix = key + "="@;
    let entry = key + "="@ + value;
    let all = before + seq![entry] + after;
    if before.len() > 0 {
        let rest = before.drop_first();
        assert forall|i: int| 0 <= i < rest.len() implies !(key + "="@).is_prefix_of(
            #[trigger] rest[i],
        ) by {
            assert(!(key + "="@).is_prefix_of(before[i + 1]));
        }
        law_configuration_of_a_function(rest, key, value, after);
        assert(!prefix.is_prefix_of(before[0]));
        assert(all[0] == before[0]);
        assert(all.drop_first() =~= rest + seq![entry] + after);
    } else {
        assert(all[0] == entry);
        assert(entry.subrange(0, prefix.len() as int) =~= prefix);
        assert(entry.skip(prefix.len() as int) =~= value);
    }
}

/// `_pg.execute()` is granted where it is asked for and its cap, which is on
/// unless it is set, is on.
pub proof fn law_pg_execute_is_granted(
    asked: Option<Seq<char>>,
    max: Option<Seq<char>>,
    source: Seq<char>,
)
    ensures
        ({
            let requested = switch_setting(asked, false, source);
            let means = |raw: Option<Seq<char>>, unset: bool|
                match normalized(raw) {
                    Some(value) => bool_parse(value, ""@)->Ok_0,
                    None => unset,
                };
            let has_meaning = |raw: Option<Seq<char>>|
                (normalized(raw) matches Some(value) ==> bool_parse(value, ""@) is Ok);
            &&& has_meaning(asked) && has_meaning(max) ==> pg_execute_granted(requested, max)
                == Ok::<_, Seq<char>>(means(asked, false) && means(max, true))
            &&& !has_meaning(asked) || !has_meaning(max) ==> pg_execute_granted(
                requested,
                max,
            ) is Err
            &&& !has_meaning(asked) ==> pg_execute_granted(requested, max) == Err::<bool, _>(
                bool_parse(normalized(asked)->0, source)->Err_0,
            )
            &&& has_meaning(asked) && !has_meaning(max) ==> pg_execute_granted(requested, max)
                == Err::<bool, _>(
                bool_parse(normalized(max)->0, "GUC typescript.max_allow_pg_execute"@)->Err_0,
            )
        }),
{
    if let Some(value) = normalized(asked) {
        law_meaning_is_the_same_everywhere(value, source, ""@);
        law_meaning_is_the_same_everywhere(value, ""@, source);
    }
    if let Some(value) = normalized(max) {
        law_meaning_is_the_same_everywhere(value, "GUC typescript.max_allow_pg_execute"@, ""@);
        law_meaning_is_the_same_everywhere(value, ""@, "GUC typescript.max_allow_pg_execute"@);
    }
}

} // verus!
