use little_snitch_mcp::cli::CliRun;
use little_snitch_mcp::json::{parse, to_text, Json};
use little_snitch_mcp::model::serial::model_to_json;
use little_snitch_mcp::model::{Group, Model};
use little_snitch_mcp::safety::resolver::{display_name_for, resolve_group, ResolveResult};
use little_snitch_mcp::safety::session::Session;
use little_snitch_mcp::tools::backup_harness::GuardedRun;
use little_snitch_mcp::tools::manage_profiles::{
    self, activate, activation_command, deactivate_all, prepare_activate, prepare_deactivate,
    validate_profile_exists, ActivateProfileArgs, DeactivateAllProfilesArgs,
    PrepareActivateProfileArgs, PrepareDeactivateAllProfilesArgs,
};
use little_snitch_mcp::tools::manage_rule_groups::{
    disable, disable_sha, enable, enable_sha, finish_disable, finish_enable, is_builtin_group,
    prepare_disable, prepare_disable_with_model, prepare_enable, prepare_enable_with_model,
    resolve_to_display_name, DisableRuleGroupArgs, EnableRuleGroupArgs,
    PrepareDisableRuleGroupArgs, PrepareEnableRuleGroupArgs,
};
use little_snitch_mcp::tools::update_factory_rule_groups::{
    finish_update, prepare_update, update, update_sha, PrepareUpdateFactoryRuleGroupsArgs, Scope,
    UpdateFactoryRuleGroupsArgs,
};

const NOW: u64 = 1_777_200_000;

fn session() -> Session {
    Session::from_raw([1u8; 32], [9u8; 32])
}

fn group(name: &str, kind: Option<&str>, is_active: bool) -> Group {
    Group {
        name: Some(name.into()),
        kind: kind.map(|k| k.into()),
        kind_legacy: None,
        is_active: Some(is_active),
        update_interval: None,
        last_update_invalid_domains_count: None,
        extra: vec![],
    }
}

fn empty_model() -> Model {
    Model {
        bundle_version: 7172,
        factory_rule_set_version: 424,
        rules: vec![],
        groups: vec![],
        disabled_domains_in_lists: vec![],
        disabled_host_names_in_lists: vec![],
        disabled_ip_address_ranges_in_lists: vec![],
        rest: vec![],
    }
}

fn model_with_builtin() -> Model {
    let mut m = empty_model();
    m.groups = vec![
        ("group-1".into(), group("macOS Services", Some("builtinMacOSServices"), true)),
        ("group-2".into(), group("My Custom Group", None, false)),
    ];
    m
}

fn ran(run: CliRun) -> GuardedRun {
    GuardedRun::Ran { backup_path: "/b.json".into(), run }
}

// ---------- manage_rule_groups ----------

#[test]
fn resolve_to_display_name_exact_match() {
    let name = resolve_to_display_name("macOS Services", &model_with_builtin()).unwrap();
    assert_eq!(name, "macOS Services");
}

#[test]
fn resolve_to_display_name_kind_match() {
    let name = resolve_to_display_name("builtinMacOSServices", &model_with_builtin()).unwrap();
    assert_eq!(name, "macOS Services");
}

#[test]
fn resolve_not_found_returns_candidates() {
    let err = resolve_to_display_name("DoesNotExist", &model_with_builtin()).unwrap_err();
    assert!(err.contains("not found"), "unexpected: {err}");
    assert!(
        err.contains("macOS Services") || err.contains("My Custom Group"),
        "should list candidates: {err}"
    );
}

#[test]
fn resolve_best_effort_for_no_named_groups() {
    let name = resolve_to_display_name("SomeUnknownGroup", &empty_model()).unwrap();
    assert_eq!(name, "SomeUnknownGroup");
}

#[test]
fn is_builtin_group_detects_builtin_kind() {
    let model = model_with_builtin();
    assert!(is_builtin_group("macOS Services", &model));
    assert!(!is_builtin_group("My Custom Group", &model));
    assert!(!is_builtin_group("Not Present", &model));
}

#[test]
fn prepare_disable_refuses_builtin_without_ack() {
    let model = model_with_builtin();
    assert!(is_builtin_group("macOS Services", &model));
    let result = prepare_disable_with_model(&session(), "macOS Services", None, &model, NOW);
    assert!(result.is_err());
    assert!(result.unwrap_err().contains("acknowledge_builtin"));
    let no = prepare_disable_with_model(&session(), "macOS Services", Some(false), &model, NOW);
    assert!(no.is_err());
}

#[test]
fn prepare_disable_allows_builtin_with_ack() {
    let model = model_with_builtin();
    assert!(is_builtin_group("macOS Services", &model));
    let result =
        prepare_disable_with_model(&session(), "macOS Services", Some(true), &model, NOW);
    assert!(result.is_ok());
    assert!(result.unwrap().is_builtin);
}

#[test]
fn enable_sha_is_stable() {
    let s1 = enable_sha("macOS Services");
    let s2 = enable_sha("macOS Services");
    assert_eq!(s1, s2);
    assert_ne!(s1, enable_sha("iCloud Services"));
}

#[test]
fn disable_sha_differs_from_enable_sha() {
    let e = enable_sha("macOS Services");
    let d = disable_sha("macOS Services");
    assert_ne!(e, d);
}

#[test]
fn enable_rejects_bad_token() {
    let args =
        EnableRuleGroupArgs { resolved_name: "macOS Services".into(), token: "garbage".into() };
    assert!(enable(&mut session(), &args, Ok(()), NOW).is_err());
}

#[test]
fn disable_rejects_bad_token() {
    let args =
        DisableRuleGroupArgs { resolved_name: "macOS Services".into(), token: "garbage".into() };
    assert!(disable(&mut session(), &args, Ok(()), NOW).is_err());
}

#[test]
fn empty_resolved_name_rejected() {
    let mut s = session();
    let args = EnableRuleGroupArgs { resolved_name: String::new(), token: "x".into() };
    assert!(enable(&mut s, &args, Ok(()), NOW).is_err());
    let args = DisableRuleGroupArgs { resolved_name: String::new(), token: "x".into() };
    assert!(disable(&mut s, &args, Ok(()), NOW).is_err());
}

#[test]
fn a_prepared_group_change_goes_through() {
    let mut s = session();
    let model = model_with_builtin();
    let p = prepare_enable_with_model(&s, "builtinMacOSServices", &model, NOW).unwrap();
    assert_eq!(p.resolved_name, "macOS Services");
    let args = EnableRuleGroupArgs { resolved_name: p.resolved_name, token: p.token };
    assert_eq!(enable(&mut s, &args, Err("not root".into()), NOW).unwrap_err(), "not root");
    let cmd = enable(&mut s, &args, Ok(()), NOW).unwrap();
    assert_eq!(cmd, vec!["rulegroup", "-e", "macOS Services"]);
    assert!(enable(&mut s, &args, Ok(()), NOW).is_err());
    let done = finish_enable(args, ran(CliRun::Output("".into()))).unwrap();
    assert_eq!((done.resolved_name.as_str(), done.enabled), ("macOS Services", true));
    assert_eq!(done.backup_path, "/b.json");

    let p = prepare_disable_with_model(&s, "My Custom Group", None, &model, NOW).unwrap();
    assert!(!p.is_builtin);
    let args = DisableRuleGroupArgs { resolved_name: p.resolved_name, token: p.token };
    let cmd = disable(&mut s, &args, Ok(()), NOW).unwrap();
    assert_eq!(cmd, vec!["rulegroup", "-d", "My Custom Group"]);
    let err = finish_disable(args, ran(CliRun::Failed("exit 1".into()))).unwrap_err();
    assert_eq!(err, "[pre-mutation backup: /b.json] rulegroup -d failed: exit 1");
}

#[test]
fn an_unnamed_builtin_group_needs_acknowledgement() {
    let s = session();
    let mut m = model_with_builtin();
    m.groups[0].1.name = None;
    assert!(is_builtin_group("macOS Services", &m));
    for input in ["builtinMacOSServices", "group-1"] {
        let err = prepare_disable_with_model(&s, input, None, &m, NOW).unwrap_err();
        assert!(err.contains("\"macOS Services\" is a builtin subscription"), "{err}");
        let ok = prepare_disable_with_model(&s, input, Some(true), &m, NOW).unwrap();
        assert!(ok.is_builtin);
        assert_eq!(ok.diff_summary, "disable rule group \"macOS Services\" [builtin — acknowledged]");
    }
    let args = PrepareDisableRuleGroupArgs { input: "group-1".into(), acknowledge_builtin: None };
    let export = CliRun::Output(to_text(&model_to_json(&m)));
    assert!(prepare_disable(&s, args, export, NOW).is_err());
}

#[test]
fn a_group_token_is_for_one_group() {
    let mut s = session();
    let m = model_with_builtin();
    let p = prepare_enable_with_model(&s, "macOS Services", &m, NOW).unwrap();
    let args = EnableRuleGroupArgs { resolved_name: "My Custom Group".into(), token: p.token };
    let err = enable(&mut s, &args, Ok(()), NOW).unwrap_err();
    assert!(err.starts_with("DIFF_DRIFT"), "{err}");
}

#[test]
fn a_profile_token_is_for_one_profile() {
    let mut s = session();
    let p =
        prepare_activate(&s, PrepareActivateProfileArgs { name: "Home".into() }, NOW).unwrap();
    let args = ActivateProfileArgs { name: "Work".into(), token: p.token };
    let err = activate(&mut s, &args, Ok(()), NOW).unwrap_err();
    assert!(err.contains("DIFF_DRIFT"), "{err}");
}

#[test]
fn a_group_change_needs_the_live_model() {
    let s = session();
    let args = PrepareEnableRuleGroupArgs { input: "macOS Services".into() };
    let err = prepare_enable(&s, args, CliRun::Output("[]".into()), NOW).unwrap_err();
    assert_eq!(err, "export-model JSON invalid: missing or invalid field `bundleVersion`");
    let args = PrepareDisableRuleGroupArgs {
        input: "macOS Services".into(),
        acknowledge_builtin: Some(true),
    };
    let export = CliRun::Output(to_text(&model_to_json(&model_with_builtin())));
    let ok = prepare_disable(&s, args, export, NOW).unwrap();
    assert_eq!(ok.resolved_name, "macOS Services");
}

#[test]
fn groups_are_found_by_name_kind_or_key() {
    let m = model_with_builtin();
    assert!(matches!(resolve_group("group-2", &m), ResolveResult::Verified(n) if n == "My Custom Group"));
    assert_eq!(display_name_for("group-1", &m), ("macOS Services".to_string(), true));
    assert_eq!(display_name_for("group-2", &m), ("My Custom Group".to_string(), false));
    match resolve_group("nope", &m) {
        ResolveResult::NotFound { candidates } => {
            assert_eq!(candidates, vec!["macOS Services", "My Custom Group"])
        }
        other => panic!("unexpected: {other:?}"),
    }
}

// ---------- manage_profiles ----------

#[test]
fn prepare_activate_rejects_empty_name() {
    let err = prepare_activate(
        &session(),
        PrepareActivateProfileArgs { name: String::new() },
        NOW,
    )
    .unwrap_err();
    assert!(err.contains("empty"), "unexpected: {err}");
}

#[test]
fn prepare_activate_returns_token() {
    let result =
        prepare_activate(&session(), PrepareActivateProfileArgs { name: "home".into() }, NOW)
            .unwrap();
    assert!(!result.token.is_empty());
    assert!(result.diff_summary.contains("home"));
}

#[test]
fn prepare_deactivate_returns_token() {
    let result =
        prepare_deactivate(&session(), PrepareDeactivateAllProfilesArgs {}, NOW).unwrap();
    assert!(!result.token.is_empty());
}

#[test]
fn activate_rejects_wrong_token() {
    let result = activate(
        &mut session(),
        &ActivateProfileArgs { name: "home".into(), token: "bad-token".into() },
        Ok(()),
        NOW,
    );
    assert!(result.is_err(), "expected error, got ok");
}

fn exported() -> String {
    let mut doc = parse("{\"bundleVersion\": 1}").unwrap();
    doc.insert("profiles".into(), parse("[{\"name\": \"Home\"}, {}, {\"name\": \"Work\"}]").unwrap());
    to_text(&doc)
}

#[test]
fn a_profile_is_activated_only_if_it_exists() {
    let mut s = session();
    let p =
        prepare_activate(&s, PrepareActivateProfileArgs { name: "Work".into() }, NOW).unwrap();
    let args = ActivateProfileArgs { name: p.name, token: p.token };
    activate(&mut s, &args, Ok(()), NOW).unwrap();
    let cmd = activation_command("Work", CliRun::Output(exported())).unwrap();
    assert_eq!(cmd, vec!["profile", "-a", "Work"]);
    assert_eq!(
        validate_profile_exists("Nope", CliRun::Output(exported())).unwrap_err(),
        "profile \"Nope\" not found; available profiles: [\"Home\", \"Work\"]"
    );
    assert!(validate_profile_exists("Work", CliRun::Failed("exit 1".into())).is_err());
    let done = manage_profiles::finish_activate(args, ran(CliRun::Output("".into()))).unwrap();
    assert_eq!((done.name.as_str(), done.activated, done.backup_path.as_str()), ("Work", true, "/b.json"));
}

#[test]
fn all_profiles_are_deactivated_once() {
    let mut s = session();
    let p = prepare_deactivate(&s, PrepareDeactivateAllProfilesArgs {}, NOW).unwrap();
    let args = DeactivateAllProfilesArgs { token: p.token };
    let cmd = deactivate_all(&mut s, &args, Ok(()), NOW).unwrap();
    assert_eq!(cmd, vec!["profile", "-d"]);
    assert!(deactivate_all(&mut s, &args, Ok(()), NOW).is_err());
    let err = manage_profiles::finish_deactivate_all(GuardedRun::NoBackup("full".into()));
    assert_eq!(
        err.unwrap_err(),
        "pre-mutation backup failed — refusing to proceed: full"
    );
}

// ---------- update_factory_rule_groups ----------

fn scoped(scope: Option<&str>) -> PrepareUpdateFactoryRuleGroupsArgs {
    PrepareUpdateFactoryRuleGroupsArgs { scope: scope.map(|s| s.to_string()) }
}

#[test]
fn prepare_update_all_returns_token() {
    let result = prepare_update(&session(), scoped(None), NOW).unwrap();
    assert!(!result.token.is_empty());
    assert_eq!(result.scope, "all");
}

#[test]
fn prepare_update_apple_scoped() {
    let result = prepare_update(&session(), scoped(Some("apple")), NOW).unwrap();
    assert_eq!(result.scope, "apple");
    assert!(result.diff_summary.contains("Apple"));
}

#[test]
fn prepare_update_rejects_invalid_scope() {
    let err = prepare_update(&session(), scoped(Some("invalid")), NOW).unwrap_err();
    assert!(err.contains("invalid scope"), "unexpected: {err}");
}

#[test]
fn update_rejects_bad_token() {
    let args = UpdateFactoryRuleGroupsArgs { scope: None, token: "garbage".into() };
    assert!(update(&mut session(), &args, Ok(()), NOW).is_err());
}

#[test]
fn a_prepared_update_goes_through_for_its_scope() {
    let mut s = session();
    let p = prepare_update(&s, scoped(Some("apple")), NOW).unwrap();
    let wrong = UpdateFactoryRuleGroupsArgs { scope: None, token: p.token.clone() };
    assert!(update(&mut s, &wrong, Ok(()), NOW).is_err());
    let args = UpdateFactoryRuleGroupsArgs { scope: Some("apple".into()), token: p.token };
    let (scope, cmd) = update(&mut s, &args, Ok(()), NOW).unwrap();
    assert_eq!(cmd[0], "update-rule-groups");
    let done = finish_update(scope, ran(CliRun::Output("".into()))).unwrap();
    assert_eq!((done.scope.as_str(), done.updated), ("apple", true));
    assert_ne!(update_sha(Some("apple")), update_sha(None));
    assert!(finish_update(Scope::All, ran(CliRun::Failed("x".into()))).is_err());
}

#[test]
fn json_is_written_in_a_fixed_order() {
    let v = parse("{\"b\": 1, \"a\": [true, null, \"x\\n\"]}").unwrap();
    assert_eq!(to_text(&v), "{\"a\":[true,null,\"x\\n\"],\"b\":1}");
    assert!(v.get("a").unwrap().as_array().unwrap()[1].same(&Json::Null));
}
