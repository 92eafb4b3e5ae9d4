use little_snitch_mcp::json::{parse, Json};
use little_snitch_mcp::managed_dir::FileRead;
use little_snitch_mcp::model::{Action, Group, Model, Origin, Rule, StringOrVec};
use little_snitch_mcp::safety::prefs::PreferencePolicy;
use little_snitch_mcp::safety::restore::restore_command;
use little_snitch_mcp::safety::session::Session;
use little_snitch_mcp::safety::token::VerifyContext;
use little_snitch_mcp::tools::apply_lsrules_file_to_live_model::{apply_pure, prepare_pure};
use little_snitch_mcp::tools::create_lsrules_file::{self, CreateLsrulesArgs};
use little_snitch_mcp::tools::find_rules_for_remote::{self, FindRulesForRemoteArgs};
use little_snitch_mcp::tools::get_rules_for_process::{self, GetRulesForProcessArgs};
use little_snitch_mcp::tools::manage_profiles::{
    activate, activation_command, deactivate_all, prepare_activate, prepare_deactivate,
    ActivateProfileArgs, DeactivateAllProfilesArgs, PrepareActivateProfileArgs,
    PrepareDeactivateAllProfilesArgs,
};
use little_snitch_mcp::tools::manage_rule_groups::{
    disable, enable, prepare_disable_with_model, prepare_enable_with_model, DisableRuleGroupArgs,
    EnableRuleGroupArgs,
};
use little_snitch_mcp::tools::update_factory_rule_groups::{
    prepare_update, update, PrepareUpdateFactoryRuleGroupsArgs, UpdateFactoryRuleGroupsArgs,
};
use little_snitch_mcp::tools::write_preference::{
    prepare_write, remove, PrepareWritePreferenceArgs, RemovePreferenceArgs,
};
use little_snitch_mcp::cli::CliRun;

const NOW: u64 = 1_777_200_000;

fn new_session() -> Session {
    Session::from_raw([7u8; 32], [3u8; 32])
}

fn group(name: &str, kind: Option<&str>, is_active: bool) -> Group {
    Group {
        name: Some(name.into()),
        kind: kind.map(|k| k.into()),
        kind_legacy: None,
        is_active: Some(is_active),
        update_interval: None,
        last_update_invalid_domains_count: None,
        extra: vec![],
    }
}

fn model(rules: Vec<Rule>, groups: Vec<(String, Group)>) -> Model {
    Model {
        bundle_version: 7172,
        factory_rule_set_version: 424,
        rules,
        groups,
        disabled_domains_in_lists: vec![],
        disabled_host_names_in_lists: vec![],
        disabled_ip_address_ranges_in_lists: vec![],
        rest: vec![],
    }
}

fn fixture_model() -> Model {
    model(
        vec![],
        vec![
            (
                "group-builtin-macos".into(),
                group("macOS Services", Some("builtinMacOSServices"), true),
            ),
            ("group-custom-work".into(), group("Work Rules", None, true)),
            ("group-custom-disabled".into(), group("Disabled Rules", None, false)),
        ],
    )
}

// ---------- rule groups ----------

#[test]
fn enable_group_prepare_verify_roundtrip_custom() {
    let prep = prepare_enable_with_model(&new_session(), "Work Rules", &fixture_model(), NOW)
        .expect("prepare must succeed for known custom group");
    assert_eq!(prep.resolved_name, "Work Rules");
    assert!(prep.diff_summary.contains("Work Rules"));
    assert!(!prep.token.is_empty());
}

#[test]
fn enable_group_prepare_resolves_by_kind() {
    let prep =
        prepare_enable_with_model(&new_session(), "builtinMacOSServices", &fixture_model(), NOW)
            .expect("kind-based resolve must work");
    assert_eq!(prep.resolved_name, "macOS Services");
}

#[test]
fn enable_group_rejects_bad_token() {
    let args = EnableRuleGroupArgs { resolved_name: "Work Rules".into(), token: "garbage".into() };
    let err = enable(&mut new_session(), &args, Ok(()), NOW).unwrap_err();
    assert!(!err.is_empty());
}

#[test]
fn enable_group_rejects_empty_resolved_name() {
    let args = EnableRuleGroupArgs { resolved_name: String::new(), token: "x".into() };
    let err = enable(&mut new_session(), &args, Ok(()), NOW).unwrap_err();
    assert!(err.contains("empty") || !err.is_empty());
}

#[test]
fn disable_group_prepare_verify_roundtrip_custom() {
    let prep =
        prepare_disable_with_model(&new_session(), "Work Rules", None, &fixture_model(), NOW)
            .expect("prepare must succeed for custom group without ack");
    assert_eq!(prep.resolved_name, "Work Rules");
    assert!(!prep.is_builtin);
    assert!(!prep.token.is_empty());
}

#[test]
fn disable_group_builtin_requires_ack() {
    let err =
        prepare_disable_with_model(&new_session(), "macOS Services", None, &fixture_model(), NOW)
            .unwrap_err();
    assert!(err.contains("builtin") || err.contains("acknowledge"), "unexpected: {err}");
}

#[test]
fn disable_group_builtin_allowed_with_ack() {
    let prep = prepare_disable_with_model(
        &new_session(),
        "macOS Services",
        Some(true),
        &fixture_model(),
        NOW,
    )
    .expect("ack=true must unlock builtin disable");
    assert_eq!(prep.resolved_name, "macOS Services");
    assert!(prep.is_builtin);
    assert!(prep.diff_summary.contains("builtin"));
}

#[test]
fn disable_group_unknown_name_returns_not_found() {
    let err =
        prepare_disable_with_model(&new_session(), "NonExistentGroup", None, &fixture_model(), NOW)
            .unwrap_err();
    assert!(
        err.contains("not found") || err.contains("NonExistentGroup"),
        "unexpected: {err}"
    );
}

#[test]
fn enable_token_rejected_by_disable_verify() {
    let mut s = new_session();
    let prep = prepare_enable_with_model(&s, "Work Rules", &fixture_model(), NOW).unwrap();
    let args = DisableRuleGroupArgs { resolved_name: "Work Rules".into(), token: prep.token };
    let err = disable(&mut s, &args, Ok(()), NOW).unwrap_err();
    assert!(!err.is_empty());
}

#[test]
fn disable_token_rejected_by_enable_verify() {
    let mut s = new_session();
    let prep = prepare_disable_with_model(&s, "Work Rules", None, &fixture_model(), NOW).unwrap();
    let args = EnableRuleGroupArgs { resolved_name: "Work Rules".into(), token: prep.token };
    let err = enable(&mut s, &args, Ok(()), NOW).unwrap_err();
    assert!(!err.is_empty());
}

// ---------- profiles ----------

#[test]
fn activate_profile_prepare_returns_token() {
    let result =
        prepare_activate(&new_session(), PrepareActivateProfileArgs { name: "Home".into() }, NOW)
            .expect("prepare must succeed with non-empty name");
    assert_eq!(result.name, "Home");
    assert!(!result.token.is_empty());
    assert!(result.diff_summary.contains("Home"));
}

#[test]
fn activate_profile_prepare_rejects_empty_name() {
    let args = PrepareActivateProfileArgs { name: String::new() };
    let err = prepare_activate(&new_session(), args, NOW).unwrap_err();
    assert!(err.contains("empty") || !err.is_empty());
}

#[test]
fn activate_profile_rejects_bad_token() {
    let args = ActivateProfileArgs { name: "Home".into(), token: "junk".into() };
    let err = activate(&mut new_session(), &args, Ok(()), NOW).unwrap_err();
    assert!(!err.is_empty());
}

#[test]
fn deactivate_all_prepare_returns_token() {
    let result = prepare_deactivate(&new_session(), PrepareDeactivateAllProfilesArgs {}, NOW)
        .expect("prepare_deactivate must always succeed");
    assert!(!result.token.is_empty());
    assert!(!result.diff_summary.is_empty());
}

#[test]
fn deactivate_all_rejects_bad_token() {
    let args = DeactivateAllProfilesArgs { token: "junk".into() };
    let err = deactivate_all(&mut new_session(), &args, Ok(()), NOW).unwrap_err();
    assert!(!err.is_empty());
}

#[test]
fn activate_token_not_accepted_by_deactivate() {
    let mut s = new_session();
    let prep =
        prepare_activate(&s, PrepareActivateProfileArgs { name: "Work".into() }, NOW).unwrap();
    let args = DeactivateAllProfilesArgs { token: prep.token };
    let err = deactivate_all(&mut s, &args, Ok(()), NOW).unwrap_err();
    assert!(!err.is_empty());
}

// ---------- groups of the factory ----------

fn prepare_scope(s: &Session, scope: Option<&str>) -> Result<(String, String, String), String> {
    let args = PrepareUpdateFactoryRuleGroupsArgs { scope: scope.map(|x| x.to_string()) };
    prepare_update(s, args, NOW).map(|r| (r.scope, r.token, r.diff_summary))
}

#[test]
fn factory_update_prepare_all_returns_token() {
    let (scope, token, _) = prepare_scope(&new_session(), None).unwrap();
    assert_eq!(scope, "all");
    assert!(!token.is_empty());
}

#[test]
fn factory_update_prepare_apple_scope() {
    let (scope, _, summary) = prepare_scope(&new_session(), Some("apple")).unwrap();
    assert_eq!(scope, "apple");
    assert!(summary.contains("Apple"));
}

#[test]
fn factory_update_prepare_third_party_scope() {
    let (scope, _, _) = prepare_scope(&new_session(), Some("third-party")).unwrap();
    assert_eq!(scope, "third-party");
}

#[test]
fn factory_update_prepare_rejects_invalid_scope() {
    let err = prepare_scope(&new_session(), Some("unknown")).unwrap_err();
    assert!(err.contains("invalid scope") || !err.is_empty());
}

#[test]
fn factory_update_rejects_bad_token() {
    let args = UpdateFactoryRuleGroupsArgs { scope: None, token: "bad".into() };
    let err = update(&mut new_session(), &args, Ok(()), NOW).unwrap_err();
    assert!(!err.is_empty());
}

#[test]
fn factory_update_apple_token_rejected_for_all_scope() {
    let mut s = new_session();
    let (_, token, _) = prepare_scope(&s, Some("apple")).unwrap();
    let args = UpdateFactoryRuleGroupsArgs { scope: None, token };
    let err = update(&mut s, &args, Ok(()), NOW).unwrap_err();
    assert!(!err.is_empty());
}

// ---------- preferences ----------

#[test]
fn write_token_rejected_by_remove_verify() {
    let mut s = new_session();
    let policy = PreferencePolicy {
        writable: vec!["activeSilentMode".into()],
        denied: vec![],
        secret: vec![],
    };
    let prep = prepare_write(
        &s,
        PrepareWritePreferenceArgs { key: "activeSilentMode".into(), value: Json::Bool(true) },
        &policy,
        NOW,
    )
    .unwrap();
    let args = RemovePreferenceArgs { key: "activeSilentMode".into(), token: prep.token };
    let err = remove(&mut s, &args, &policy, Ok(()), NOW).unwrap_err();
    assert!(!err.is_empty());
}

// ---------- the commands that are run ----------

#[test]
fn rulegroup_enable_passes_minus_e_flag() {
    let mut s = new_session();
    let m = model(vec![], vec![("g".into(), group("My Rule Group", None, false))]);
    let p = prepare_enable_with_model(&s, "My Rule Group", &m, NOW).unwrap();
    let args = EnableRuleGroupArgs { resolved_name: p.resolved_name, token: p.token };
    let recorded = enable(&mut s, &args, Ok(()), NOW).unwrap().join(" ");
    assert!(
        recorded.contains("rulegroup -e My Rule Group"),
        "expected 'rulegroup -e My Rule Group', got: {recorded}"
    );
}

#[test]
fn rulegroup_disable_passes_minus_d_flag() {
    let mut s = new_session();
    let m = model(vec![], vec![("g".into(), group("Blocklist Group", None, true))]);
    let p = prepare_disable_with_model(&s, "Blocklist Group", None, &m, NOW).unwrap();
    let args = DisableRuleGroupArgs { resolved_name: p.resolved_name, token: p.token };
    let recorded = disable(&mut s, &args, Ok(()), NOW).unwrap().join(" ");
    assert!(
        recorded.contains("rulegroup -d Blocklist Group"),
        "expected 'rulegroup -d Blocklist Group', got: {recorded}"
    );
}

#[test]
fn profile_activate_passes_minus_a_flag() {
    let export = CliRun::Output("{\"profiles\": [{\"name\": \"Work\"}]}".into());
    let recorded = activation_command("Work", export).unwrap().join(" ");
    assert!(
        recorded.contains("profile -a Work"),
        "expected 'profile -a Work', got: {recorded}"
    );
}

#[test]
fn restore_model_with_terminal_flag_passes_correct_args() {
    let recorded = restore_command("/tmp/model.json").join(" ");
    assert!(
        recorded.contains("restore-model -t"),
        "expected 'restore-model -t', got: {recorded}"
    );
    assert_eq!(recorded, "restore-model -t /tmp/model.json");
}

// ---------- the main uses, end to end ----------

fn rule(action: Action, date: &str, grp: &str) -> Rule {
    Rule {
        action,
        creation_date: date.into(),
        modification_date: date.into(),
        origin: Origin::frontend(),
        uid: None,
        process: Some("/usr/bin/curl".into()),
        requires_trusted_signature_for_any_process: None,
        remote: None,
        remote_domains: None,
        remote_hosts: None,
        remote_addresses: None,
        direction: None,
        priority: None,
        protocol: None,
        ports: None,
        via: None,
        notes: None,
        group: Some(grp.into()),
        factory_id: None,
        factory_help_text: None,
        protected: None,
        last_used: None,
        use_count: None,
        approved: None,
        hidden: None,
        owner: None,
        extra: vec![],
    }
}

fn base_model() -> Model {
    model(
        vec![
            Rule {
                remote_domains: Some(StringOrVec::One("api.example.com".into())),
                ..rule(Action::Allow, "2026-01-01T00:00:00Z", "grp-allow")
            },
            Rule {
                remote_addresses: Some(StringOrVec::One("198.51.100.0/24".into())),
                ..rule(Action::Deny, "2026-01-02T00:00:00Z", "grp-deny")
            },
        ],
        vec![
            ("grp-allow".into(), group("Allow Group", None, true)),
            ("grp-deny".into(), group("Deny Group", None, true)),
        ],
    )
}

fn rules_of(process: &str) -> get_rules_for_process::GetRulesForProcessResult {
    get_rules_for_process::run_with_model(
        GetRulesForProcessArgs { process: process.into() },
        &base_model(),
    )
}

#[test]
fn get_rules_for_process_returns_matching_rules() {
    let result = rules_of("/usr/bin/curl");
    assert_eq!(result.total_count, 2, "curl has 2 rules in base model");
    assert_eq!(result.process, "/usr/bin/curl");
}

#[test]
fn get_rules_for_process_empty_for_unmatched_process() {
    let result = rules_of("/usr/bin/wget");
    assert_eq!(result.total_count, 0);
    assert!(result.groups.is_empty());
}

#[test]
fn get_rules_for_process_groups_are_sorted() {
    let result = rules_of("/usr/bin/curl");
    let names: Vec<&str> = result.groups.iter().map(|g| g.display_name.as_str()).collect();
    let mut sorted = names.clone();
    sorted.sort();
    assert_eq!(names, sorted, "groups must be sorted by display name");
}

fn find(remote: &str) -> find_rules_for_remote::FindRulesForRemoteResult {
    find_rules_for_remote::run_with_model(
        FindRulesForRemoteArgs { remote: remote.into(), include_catch_all: false },
        &base_model(),
    )
}

#[test]
fn find_rules_for_remote_domain_match() {
    let result = find("api.example.com");
    assert_eq!(result.total_count, 1);
    assert_eq!(result.remote, "api.example.com");
}

#[test]
fn find_rules_for_remote_cidr_match() {
    assert_eq!(find("198.51.100.42").total_count, 1);
}

#[test]
fn find_rules_for_remote_no_match() {
    assert_eq!(find("10.0.0.1").total_count, 0);
}

fn created(name: &str, description: Option<&str>, domain: &str) -> (String, FileRead) {
    let schema = parse("{\"type\": \"object\", \"required\": [\"name\"]}").unwrap();
    let args = CreateLsrulesArgs {
        name: name.into(),
        description: description.map(|d| d.to_string()),
        denied_remote_domains: Some(vec![domain.into()]),
        rules: None,
        replace: None,
    };
    let (r, text) = create_lsrules_file::run_with_root(args, "/root", Ok(()), false, &schema)
        .expect("create_lsrules_file must succeed");
    (r.path, FileRead::Bytes(text.into_bytes()))
}

#[test]
fn create_lsrules_file_then_prepare_and_apply_pure() {
    let mut session = new_session();
    let (path, file) = created("test-block", Some("smoke test deny rule"), "malware.example");
    assert!(path.ends_with("test-block.lsrules"));
    let current_model = base_model();
    let prep = prepare_pure(&session, "test-block", "/root", &file, &current_model, 501, NOW)
        .expect("prepare_pure must succeed");
    assert_eq!(prep.rules_to_add, 1, "one rule from denied_remote_domains");
    let updated = apply_pure(
        "test-block",
        prep.token,
        "/root",
        &file,
        &current_model,
        &mut session,
        501,
        NOW,
    )
    .expect("apply_pure must succeed");
    assert_eq!(updated.rules.len(), current_model.rules.len() + 1);
    let new_rule = updated.rules.last().expect("must have a new rule");
    let domains = new_rule.remote_domains.as_ref().expect("must have remote_domains");
    assert!(domains.contains("malware.example"), "new rule must block malware.example");
}

#[test]
fn apply_pure_rejects_wrong_token() {
    let session_a = new_session();
    let mut session_b = Session::from_raw([8u8; 32], [4u8; 32]);
    let (_, file) = created("test-reject", None, "bad.example");
    let current_model = base_model();
    let prep = prepare_pure(&session_a, "test-reject", "/root", &file, &current_model, 501, NOW)
        .expect("prepare must succeed");
    let err = apply_pure(
        "test-reject",
        prep.token,
        "/root",
        &file,
        &current_model,
        &mut session_b,
        501,
        NOW,
    )
    .expect_err("apply_pure with wrong session key must fail");
    let msg = format!("{err:?}");
    assert!(
        msg.contains("token")
            || msg.contains("Token")
            || msg.contains("invalid")
            || msg.contains("Invalid"),
        "error should mention token: {msg}"
    );
}

#[test]
fn prepare_enable_rule_group_returns_token_for_disabled_group() {
    let result =
        prepare_enable_with_model(&new_session(), "group-custom-disabled", &fixture_model(), NOW)
            .expect("prepare_enable must succeed for a disabled group");
    assert!(!result.token.is_empty(), "must issue a token");
    assert!(!result.resolved_name.is_empty(), "must return resolved name");
}

#[test]
fn prepare_enable_rule_group_rejects_unknown_group() {
    let err =
        prepare_enable_with_model(&new_session(), "non-existent-group-xyz", &fixture_model(), NOW)
            .expect_err("must fail for unknown group");
    assert!(
        err.contains("not found")
            || err.contains("No group")
            || err.contains("no group")
            || err.contains("ambiguous")
            || err.contains("unknown"),
        "got: {err}"
    );
}

#[test]
fn prepare_disable_rule_group_returns_token_for_active_group() {
    let result = prepare_disable_with_model(
        &new_session(),
        "group-custom-work",
        None,
        &fixture_model(),
        NOW,
    )
    .expect("prepare_disable must succeed for an active custom group");
    assert!(!result.token.is_empty(), "must issue a token");
}

#[test]
fn enable_token_rejected_when_tool_name_mismatches() {
    let mut session = new_session();
    let prep =
        prepare_enable_with_model(&session, "group-custom-disabled", &fixture_model(), NOW)
            .expect("prepare_enable must succeed");
    let ctx = VerifyContext {
        tool: "disable_rule_group",
        current_diff_sha256: "any-sha-does-not-matter",
        current_bundle_version: "7172",
    };
    let result = session.verify_at(&prep.token, &ctx, NOW);
    assert!(result.is_err(), "enable token must be rejected by disable verify context");
}

#[test]
fn apply_pure_with_replayed_token_produces_mac_failure() {
    let mut session = new_session();
    let (_, file) = created("test-replay", None, "replay.example");
    let current_model = base_model();
    let prep = prepare_pure(&session, "test-replay", "/root", &file, &current_model, 501, NOW)
        .expect("prepare must succeed");
    apply_pure(
        "test-replay",
        prep.token.clone(),
        "/root",
        &file,
        &current_model,
        &mut session,
        501,
        NOW,
    )
    .expect("first apply must succeed");
    assert!(apply_pure(
        "test-replay",
        prep.token,
        "/root",
        &file,
        &current_model,
        &mut session,
        501,
        NOW,
    )
    .is_err());
}

#[test]
fn apply_pure_with_tampered_token_is_rejected() {
    let mut session = new_session();
    let (_, file) = created("test-tamper", None, "tamper.example");
    let current_model = base_model();
    let prep = prepare_pure(&session, "test-tamper", "/root", &file, &current_model, 501, NOW)
        .expect("prepare must succeed");
    let mut tampered = prep.token;
    let last = tampered.pop().unwrap_or('a');
    tampered.push(if last == 'a' { 'b' } else { 'a' });
    let err = apply_pure(
        "test-tamper",
        tampered,
        "/root",
        &file,
        &current_model,
        &mut session,
        501,
        NOW,
    )
    .expect_err("tampered token must be rejected");
    let msg = format!("{err:?}");
    assert!(
        msg.contains("token")
            || msg.contains("Token")
            || msg.contains("invalid")
            || msg.contains("Invalid")
            || msg.contains("mac")
            || msg.contains("Mac"),
        "error must reference token/mac failure: {msg}"
    );
}
