use pg_typescript::guc::{GucParser, PermissionParser, PermissionSetting};
use pg_typescript::permissions::{
    effective_permissions, enforce_all_caps, enforce_permission_cap, format_permission_values,
    intersect_permission, read_function_config, read_function_permissions_result,
    read_function_pg_execute, read_inline_permissions_result, read_inline_pg_execute,
    read_max_permissions, to_runtime_allowlist, unfulfillable_detail, PermissionRaw,
    PermissionSpec,
};

fn allow_list(values: &[&str]) -> PermissionSetting {
    PermissionSetting::AllowList(values.iter().map(|v| v.to_string()).collect())
}

fn parse_setting_for_test(raw: Option<String>) -> PermissionSetting {
    PermissionParser::new().parse_raw(raw, "test").unwrap()
}

fn no_settings() -> PermissionRaw {
    PermissionRaw {
        read: None,
        write: None,
        net: None,
        env: None,
        run: None,
        ffi: None,
        sys: None,
        import: None,
    }
}

fn bytes(text: &str) -> Option<Vec<u8>> {
    Some(text.as_bytes().to_vec())
}

fn config(entries: &[&str]) -> Option<Vec<String>> {
    Some(entries.iter().map(|e| e.to_string()).collect())
}

#[test]
fn intersect_max_deny_overrides_everything() {
    assert_eq!(
        intersect_permission(PermissionSetting::AllowAll, PermissionSetting::Deny),
        PermissionSetting::Deny
    );
    assert_eq!(
        intersect_permission(allow_list(&["PATH"]), PermissionSetting::Deny),
        PermissionSetting::Deny
    );
}

#[test]
fn intersect_max_allows_all_preserves_requested() {
    assert_eq!(
        intersect_permission(PermissionSetting::AllowAll, PermissionSetting::AllowAll),
        PermissionSetting::AllowAll
    );
    assert_eq!(
        intersect_permission(allow_list(&["PATH", "USER"]), PermissionSetting::AllowAll),
        allow_list(&["PATH", "USER"])
    );
}

#[test]
fn intersect_allow_all_with_cap_list_becomes_cap_list() {
    assert_eq!(
        intersect_permission(PermissionSetting::AllowAll, allow_list(&["PATH", "HOME"])),
        allow_list(&["PATH", "HOME"])
    );
}

#[test]
fn intersect_list_with_cap_list_keeps_overlap_in_request_order() {
    assert_eq!(
        intersect_permission(
            allow_list(&["USER", "PATH", "SHELL"]),
            allow_list(&["PATH", "HOME", "USER"]),
        ),
        allow_list(&["USER", "PATH"])
    );
}

#[test]
fn intersect_list_with_no_overlap_becomes_deny() {
    assert_eq!(
        intersect_permission(allow_list(&["USER"]), allow_list(&["PATH"])),
        PermissionSetting::Deny
    );
}

#[test]
fn parse_setting_understands_aliases_and_dedupes_lists() {
    assert_eq!(
        parse_setting_for_test(Some("on".to_string())),
        PermissionSetting::AllowAll
    );
    assert_eq!(
        parse_setting_for_test(Some("none".to_string())),
        PermissionSetting::Deny
    );
    assert_eq!(
        parse_setting_for_test(Some(" PATH , PATH , USER ".to_string())),
        allow_list(&["PATH", "USER"])
    );
}

#[test]
fn effective_permissions_enforces_cap() {
    let requested = PermissionSpec {
        env: allow_list(&["PATH"]),
        net: allow_list(&["internal"]),
        ..Default::default()
    };
    let max = PermissionSpec {
        env: allow_list(&["PATH", "USER"]),
        net: allow_list(&["internal"]),
        ..Default::default()
    };

    let out = effective_permissions(requested, max);
    assert_eq!(out.allow_env, Some(vec!["PATH".to_string()]));
    assert_eq!(out.allow_net, Some(vec!["internal".to_string()]));
    assert_eq!(out.allow_read, None);
}

#[test]
fn unfulfillable_detail_rejects_wildcard_above_list_cap() {
    assert_eq!(
        unfulfillable_detail(&PermissionSetting::AllowAll, &allow_list(&["PATH", "HOME"])),
        Some("requested '*' but cap only allows [PATH,HOME]".to_string())
    );
}

#[test]
fn unfulfillable_detail_rejects_partial_overlap() {
    assert_eq!(
        unfulfillable_detail(
            &allow_list(&["USER", "PATH", "SHELL"]),
            &allow_list(&["PATH", "HOME", "USER"])
        ),
        Some("requested [USER,PATH,SHELL] includes disallowed values [SHELL]".to_string())
    );
}

#[test]
fn unfulfillable_detail_accepts_subset() {
    assert_eq!(
        unfulfillable_detail(&allow_list(&["USER", "PATH"]), &allow_list(&["PATH", "USER"])),
        None
    );
}

#[test]
fn runtime_lists() {
    assert_eq!(to_runtime_allowlist(PermissionSetting::AllowAll), Some(vec![]));
    assert_eq!(
        to_runtime_allowlist(allow_list(&["a", "b"])),
        Some(vec!["a".to_string(), "b".to_string()])
    );
    assert_eq!(to_runtime_allowlist(PermissionSetting::Deny), None);
    assert_eq!(
        format_permission_values(&vec!["a".to_string(), "b".to_string()]),
        "[a,b]"
    );
}

#[test]
fn cap_errors_name_both_settings() {
    assert_eq!(
        enforce_permission_cap(
            &allow_list(&["x"]),
            &allow_list(&["y"]),
            "function setting typescript.allow_net",
            "GUC typescript.max_allow_net",
        ),
        Err("function setting typescript.allow_net cannot be fulfilled by \
             GUC typescript.max_allow_net: requested [x] includes disallowed values [x]"
            .to_string())
    );
    let requested = PermissionSpec { sys: PermissionSetting::AllowAll, ..Default::default() };
    let max = PermissionSpec { sys: allow_list(&["hostname"]), ..Default::default() };
    assert_eq!(
        enforce_all_caps(&requested, &max, "GUC typescript"),
        Err("GUC typescript.allow_sys cannot be fulfilled by GUC typescript.max_allow_sys: \
             requested '*' but cap only allows [hostname]"
            .to_string())
    );
}

#[test]
fn function_settings_are_found_by_name() {
    let settings = config(&["search_path=public", "typescript.allow_net=a,b", "x=y=z"]);
    assert_eq!(
        read_function_config(&settings, "typescript.allow_net"),
        Some("a,b".to_string())
    );
    assert_eq!(read_function_config(&settings, "x"), Some("y=z".to_string()));
    assert_eq!(read_function_config(&settings, "typescript.allow"), None);
    assert_eq!(read_function_config(&None, "x"), None);
}

#[test]
fn everything_is_denied_by_default() {
    let run = read_function_permissions_result(&None, no_settings()).unwrap();
    assert_eq!(run.allow_read, None);
    assert_eq!(run.allow_write, None);
    assert_eq!(run.allow_net, None);
    assert_eq!(run.allow_env, None);
    assert_eq!(run.allow_run, None);
    assert_eq!(run.allow_ffi, None);
    assert_eq!(run.allow_sys, None);
    assert_eq!(run.allow_import, Some(vec![]));
    let inline = read_inline_permissions_result(no_settings(), no_settings()).unwrap();
    assert_eq!(inline, run);
    assert_eq!(run.clone(), run);
}

#[test]
fn caps_are_open_by_default() {
    let caps = read_max_permissions(no_settings()).unwrap();
    assert_eq!(caps.net, PermissionSetting::AllowAll);
    let run = read_function_permissions_result(
        &config(&["typescript.allow_net=*", "typescript.allow_env= HOME ,PATH"]),
        no_settings(),
    )
    .unwrap();
    assert_eq!(run.allow_net, Some(vec![]));
    assert_eq!(
        run.allow_env,
        Some(vec!["HOME".to_string(), "PATH".to_string()])
    );
}

#[test]
fn requests_beyond_a_cap_are_refused() {
    let max = PermissionRaw { net: bytes("api.example.com"), ..no_settings() };
    assert_eq!(
        read_function_permissions_result(&config(&["typescript.allow_net=evil.example"]), max),
        Err("function setting typescript.allow_net cannot be fulfilled by \
             GUC typescript.max_allow_net: \
             requested [evil.example] includes disallowed values [evil.example]"
            .to_string())
    );
    let max = PermissionRaw { net: bytes("api.example.com"), ..no_settings() };
    let requested = PermissionRaw { net: bytes("api.example.com"), ..no_settings() };
    let run = read_inline_permissions_result(requested, max).unwrap();
    assert_eq!(run.allow_net, Some(vec!["api.example.com".to_string()]));
}

#[test]
fn malformed_settings_are_refused() {
    assert!(read_function_permissions_result(&config(&["typescript.allow_net=, ,"]), no_settings())
        .is_err());
    assert!(read_function_pg_execute(&config(&["typescript.allow_pg_execute=maybe"]), None)
        .is_err());
}

#[test]
fn pg_execute_is_off_unless_asked_for_and_capped() {
    let on = config(&["typescript.allow_pg_execute=on"]);
    assert_eq!(read_function_pg_execute(&None, None), Ok(false));
    assert_eq!(read_function_pg_execute(&on, None), Ok(true));
    assert_eq!(read_function_pg_execute(&on, bytes("off")), Ok(false));
    assert_eq!(read_inline_pg_execute(bytes("true"), None), Ok(true));
    assert_eq!(read_inline_pg_execute(None, None), Ok(false));
    assert_eq!(read_inline_pg_execute(bytes("on"), bytes("none")), Ok(false));
}
