use little_snitch_mcp::cli::CliRun;
use little_snitch_mcp::json::{parse, to_pretty_text, Json};
use little_snitch_mcp::managed_dir::FileRead;
use little_snitch_mcp::model::construct::{
    apply_partial_at, construct_at, ConstructError, NewRuleSpec, ProcessMatcher, Remote, RulePatch,
};
use little_snitch_mcp::model::serial::{model_to_json, rule_to_json};
use little_snitch_mcp::model::{
    Action, Direction, Group, Model, Origin, Priority, Rule, StringOrVec,
};
use little_snitch_mcp::safety::rules::{guard, Intent};
use little_snitch_mcp::safety::session::Session;
use little_snitch_mcp::safety::token::{
    issued_at, payload, proposal_time, TokenError, VerifyContext, DEFAULT_TTL_SECS,
};
use little_snitch_mcp::tools::add_rule_to_live_model::{self, AddRuleError};
use little_snitch_mcp::tools::apply_lsrules_file_to_live_model::{
    self, fold_into_model, parse_string_or_vec, translate, ApplyLsrulesError,
};
use little_snitch_mcp::tools::backup_harness::GuardedRun;
use little_snitch_mcp::tools::prepare_live_model_change::{
    prepare_pure, tool_name_for, ChangeRequest, Diff, PrepareError,
};
use little_snitch_mcp::tools::remove_rule_from_live_model::{self, RemoveRuleError};
use little_snitch_mcp::tools::update_rule_in_live_model::{self, UpdateRuleError};

const FIXED_NOW: u64 = 1_777_200_000;
const FIXED_NOW_ISO: &str = "2026-04-26T10:40:00Z";

fn json(s: &str) -> Json {
    parse(s).unwrap()
}

fn text<'a>(v: &'a Json, key: &str) -> &'a str {
    v.text_member(key).unwrap()
}

fn empty_model() -> Model {
    Model {
        bundle_version: 1,
        factory_rule_set_version: 1,
        rules: vec![],
        groups: vec![],
        disabled_domains_in_lists: vec![],
        disabled_host_names_in_lists: vec![],
        disabled_ip_address_ranges_in_lists: vec![],
        rest: vec![("profiles".into(), Json::object()), ("users".into(), Json::Array(vec![]))],
    }
}

fn session() -> Session {
    Session::from_raw([1u8; 32], [9u8; 32])
}

fn fixture_spec() -> NewRuleSpec {
    NewRuleSpec {
        action: Action::Deny,
        process: ProcessMatcher::Path("/bin/test".into()),
        remote: Remote::Domains(vec!["evil.invalid".into()]),
        uid: 501,
        direction: None,
        priority: None,
        protocol: None,
        ports: None,
        via: None,
        notes: None,
        group: None,
    }
}

fn add_request() -> ChangeRequest {
    ChangeRequest::AddRule { wanted: Ok(fixture_spec()), path_exists: true }
}

fn plain_rule() -> Rule {
    Rule {
        action: Action::Allow,
        creation_date: "2026-04-25T17:43:37Z".into(),
        modification_date: "2026-04-25T17:43:37Z".into(),
        origin: Origin::frontend(),
        uid: Some(501),
        process: Some("/usr/bin/curl".into()),
        requires_trusted_signature_for_any_process: None,
        remote: None,
        remote_domains: Some(StringOrVec::One("example.com".into())),
        remote_hosts: None,
        remote_addresses: None,
        direction: Some(Direction::Outgoing),
        priority: Some(Priority::High),
        protocol: None,
        ports: None,
        via: None,
        notes: None,
        group: None,
        factory_id: None,
        factory_help_text: None,
        protected: None,
        last_used: None,
        use_count: None,
        approved: None,
        hidden: None,
        owner: None,
        extra: vec![],
    }
}

fn builtin_group() -> Group {
    Group {
        name: None,
        kind: Some("builtinMacOSServices".into()),
        kind_legacy: None,
        is_active: Some(true),
        update_interval: None,
        last_update_invalid_domains_count: None,
        extra: vec![],
    }
}

fn model_with_one_rule(r: Rule) -> Model {
    let mut m = empty_model();
    m.rules.push(r);
    m
}

fn deny() -> RulePatch {
    RulePatch { action: Some(Action::Deny), ..Default::default() }
}

// ---------- add_rule_to_live_model ----------

fn add(
    m: Model,
    wanted: NewRuleSpec,
    token: String,
    s: &mut Session,
    now: u64,
) -> Result<(Model, Rule), AddRuleError> {
    add_rule_to_live_model::apply_pure(m, wanted, true, token, s, now)
}

#[test]
fn add_rule_to_live_model_prepare_then_apply_round_trip() {
    let mut s = session();
    let m = empty_model();
    let prep = prepare_pure(add_request(), &m, &s, FIXED_NOW).unwrap();
    let (new_model, added) = add(m, fixture_spec(), prep.token, &mut s, FIXED_NOW).unwrap();
    assert_eq!(new_model.rules.len(), 1);
    assert_eq!(new_model.rules[0], added);
    assert_eq!(added.action, Action::Deny);
    assert_eq!(added.process.as_deref(), Some("/bin/test"));
}

#[test]
fn wrong_tool_token_rejected() {
    let mut s = session();
    let token = prepare_pure(add_request(), &empty_model(), &s, FIXED_NOW).unwrap().token;
    let (m, _) = add(empty_model(), fixture_spec(), token, &mut s, FIXED_NOW).unwrap();
    let update_token = prepare_pure(
        ChangeRequest::UpdateRule {
            index: 0,
            patch: Ok(RulePatch { action: Some(Action::Allow), ..Default::default() }),
        },
        &m,
        &s,
        FIXED_NOW,
    )
    .unwrap()
    .token;
    let err = add(m, fixture_spec(), update_token, &mut s, FIXED_NOW).unwrap_err();
    match err {
        AddRuleError::Token(TokenError::ToolMismatch) => {}
        other => panic!("expected ToolMismatch, got {other:?}"),
    }
}

#[test]
fn schema_drift_rejected() {
    let mut s = session();
    let mut m_prepare = empty_model();
    m_prepare.bundle_version = 1;
    let mut m_apply = empty_model();
    m_apply.bundle_version = 2;
    let prep = prepare_pure(add_request(), &m_prepare, &s, FIXED_NOW).unwrap();
    let err = add(m_apply, fixture_spec(), prep.token, &mut s, FIXED_NOW).unwrap_err();
    match err {
        AddRuleError::Token(TokenError::SchemaDrift) => {}
        other => panic!("expected SchemaDrift, got {other:?}"),
    }
}

#[test]
fn add_rule_to_live_model_replay_rejected() {
    let mut s = session();
    let m = empty_model();
    let prep = prepare_pure(add_request(), &m, &s, FIXED_NOW).unwrap();
    let token = prep.token.clone();
    add(m.copy(), fixture_spec(), token.clone(), &mut s, FIXED_NOW).unwrap();
    let err = add(m, fixture_spec(), token, &mut s, FIXED_NOW).unwrap_err();
    match err {
        AddRuleError::Token(TokenError::Replay) => {}
        other => panic!("expected Replay, got {other:?}"),
    }
}

#[test]
fn diff_drift_when_spec_changed_between_prepare_and_apply() {
    let mut s = session();
    let m = empty_model();
    let prep = prepare_pure(add_request(), &m, &s, FIXED_NOW).unwrap();
    let mut tampered_spec = fixture_spec();
    tampered_spec.remote = Remote::Domains(vec!["different.invalid".into()]);
    let err = add(m, tampered_spec, prep.token, &mut s, FIXED_NOW).unwrap_err();
    match err {
        AddRuleError::Token(TokenError::DiffDrift) => {}
        other => panic!("expected DiffDrift, got {other:?}"),
    }
}

#[test]
fn diff_drift_when_apply_now_differs_from_prepare_now() {
    let mut s = session();
    let m = empty_model();
    let prep = prepare_pure(add_request(), &m, &s, FIXED_NOW).unwrap();
    let err = add(m, fixture_spec(), prep.token, &mut s, FIXED_NOW + 60).unwrap_err();
    match err {
        AddRuleError::Token(TokenError::Expired) | AddRuleError::Token(TokenError::DiffDrift) => {}
        other => panic!(
            "expected Expired or DiffDrift (depending on whether 60s past expiry hits first), \
             got {other:?}"
        ),
    }
}

#[test]
fn construction_refusal_propagates_and_does_not_consume_token() {
    let mut s = session();
    let m = empty_model();
    let token = prepare_pure(add_request(), &m, &s, FIXED_NOW).unwrap().token;
    let mut bad_spec = fixture_spec();
    bad_spec.process = ProcessMatcher::Path("/definitely/not/a/real/path/lsmcp59".into());
    let err = add_rule_to_live_model::apply_pure(
        m.copy(),
        bad_spec,
        false,
        token.clone(),
        &mut s,
        FIXED_NOW,
    )
    .unwrap_err();
    assert!(matches!(err, AddRuleError::Construction(_)));
    let result = add(m, fixture_spec(), token, &mut s, FIXED_NOW);
    assert!(result.is_ok(), "token should not have been consumed: {result:?}");
}

// ---------- remove_rule_from_live_model ----------

fn remove(m: Model, index: usize, token: &str, s: &mut Session) -> Result<(Model, Rule), RemoveRuleError> {
    remove_rule_from_live_model::apply_pure(m, index, token.to_string(), s, FIXED_NOW)
}

#[test]
fn prepare_then_apply_round_trip_removes_the_rule() {
    let mut s = session();
    let m = model_with_one_rule(plain_rule());
    let prep = prepare_pure(ChangeRequest::RemoveRule { index: 0 }, &m, &s, FIXED_NOW).unwrap();
    let (new_model, removed) = remove(m, 0, &prep.token, &mut s).unwrap();
    assert_eq!(new_model.rules.len(), 0);
    assert_eq!(removed.process.as_deref(), Some("/usr/bin/curl"));
}

#[test]
fn factory_rule_remove_refused() {
    let mut r = plain_rule();
    r.factory_id = Some("ls-factory-007".into());
    let err = remove(model_with_one_rule(r), 0, "fake", &mut session()).unwrap_err();
    match err {
        RemoveRuleError::RequiresStrongAck { reason } => {
            assert!(reason.contains("ls-factory-007"));
        }
        other => panic!("expected RequiresStrongAck, got {other:?}"),
    }
}

#[test]
fn protected_rule_remove_refused() {
    let mut r = plain_rule();
    r.protected = Some(true);
    let err = remove(model_with_one_rule(r), 0, "fake", &mut session()).unwrap_err();
    assert!(matches!(err, RemoveRuleError::RequiresStrongAck { .. }));
}

#[test]
fn remove_rule_from_live_model_rule_in_builtin_group_refused() {
    let mut r = plain_rule();
    r.group = Some("aaaaa1".into());
    let mut m = model_with_one_rule(r);
    m.groups.push(("aaaaa1".into(), builtin_group()));
    let err = remove(m, 0, "fake", &mut session()).unwrap_err();
    assert!(matches!(err, RemoveRuleError::RequiresStrongAck { .. }));
}

#[test]
fn remove_rule_from_live_model_out_of_range_index_returns_error() {
    let err = remove(empty_model(), 0, "fake", &mut session()).unwrap_err();
    match err {
        RemoveRuleError::IndexOutOfRange { index, total } => {
            assert_eq!(index, 0);
            assert_eq!(total, 0);
        }
        other => panic!("wrong error: {other:?}"),
    }
}

#[test]
fn diff_drift_when_rule_changed_between_prepare_and_apply() {
    let mut s = session();
    let m_at_prepare = model_with_one_rule(plain_rule());
    let prep = prepare_pure(ChangeRequest::RemoveRule { index: 0 }, &m_at_prepare, &s, FIXED_NOW)
        .unwrap();
    let mut r2 = plain_rule();
    r2.notes = Some("modified by another actor".into());
    let err = remove(model_with_one_rule(r2), 0, &prep.token, &mut s).unwrap_err();
    assert!(matches!(err, RemoveRuleError::Token(TokenError::DiffDrift)));
}

#[test]
fn removing_an_added_rule_gives_the_rule_set_back() {
    let mut s = session();
    let before = model_with_one_rule(plain_rule());
    let token = prepare_pure(add_request(), &before, &s, FIXED_NOW).unwrap().token;
    let (m, added) = add(before.copy(), fixture_spec(), token, &mut s, FIXED_NOW).unwrap();
    let prep = prepare_pure(ChangeRequest::RemoveRule { index: 1 }, &m, &s, FIXED_NOW).unwrap();
    let (after, removed) = remove(m, 1, &prep.token, &mut s).unwrap();
    assert_eq!(after, before);
    assert_eq!(removed, added);
}

// ---------- update_rule_in_live_model ----------

fn update(
    m: Model,
    index: usize,
    patch: RulePatch,
    token: &str,
    s: &mut Session,
) -> Result<(Model, Rule), UpdateRuleError> {
    update_rule_in_live_model::apply_pure(m, index, patch, token.to_string(), s, FIXED_NOW)
}

#[test]
fn prepare_then_apply_round_trip_on_plain_rule() {
    let mut s = session();
    let m = model_with_one_rule(plain_rule());
    let prep = prepare_pure(
        ChangeRequest::UpdateRule { index: 0, patch: Ok(deny()) },
        &m,
        &s,
        FIXED_NOW,
    )
    .unwrap();
    let (new_model, after) = update(m, 0, deny(), &prep.token, &mut s).unwrap();
    assert_eq!(after.action, Action::Deny);
    assert_eq!(new_model.rules[0].action, Action::Deny);
    assert_eq!(new_model.rules[0].process.as_deref(), Some("/usr/bin/curl"));
}

#[test]
fn protected_rule_update_refused_with_strong_ack_requirement() {
    let mut r = plain_rule();
    r.protected = Some(true);
    let m = model_with_one_rule(r);
    let err = update(m, 0, deny(), "fake-token-not-checked", &mut session()).unwrap_err();
    match err {
        UpdateRuleError::RequiresStrongAck { reason } => {
            assert!(reason.contains("protected"), "reason should name protected: {reason}");
            assert!(
                reason.contains("live_write_strong"),
                "reason should mention live_write_strong escalation: {reason}"
            );
        }
        other => panic!("expected RequiresStrongAck, got {other:?}"),
    }
}

#[test]
fn factory_rule_update_refused() {
    let mut r = plain_rule();
    r.factory_id = Some("ls-factory-007".into());
    let m = model_with_one_rule(r);
    let err = update(m, 0, RulePatch::default(), "fake", &mut session()).unwrap_err();
    match err {
        UpdateRuleError::RequiresStrongAck { reason } => {
            assert!(reason.contains("factoryID") || reason.contains("factory_id"));
            assert!(reason.contains("ls-factory-007"));
        }
        other => panic!("expected RequiresStrongAck, got {other:?}"),
    }
}

#[test]
fn update_rule_in_live_model_rule_in_builtin_group_refused() {
    let mut r = plain_rule();
    r.group = Some("aaaaa1".into());
    let mut m = model_with_one_rule(r);
    m.groups.push(("aaaaa1".into(), builtin_group()));
    let err = update(m, 0, RulePatch::default(), "fake", &mut session()).unwrap_err();
    match err {
        UpdateRuleError::RequiresStrongAck { reason } => {
            assert!(reason.contains("builtin"), "reason: {reason}");
        }
        other => panic!("expected RequiresStrongAck, got {other:?}"),
    }
}

#[test]
fn update_rule_in_live_model_out_of_range_index_returns_error() {
    let err = update(empty_model(), 5, RulePatch::default(), "fake", &mut session()).unwrap_err();
    match err {
        UpdateRuleError::IndexOutOfRange { index, total } => {
            assert_eq!(index, 5);
            assert_eq!(total, 0);
        }
        other => panic!("wrong error: {other:?}"),
    }
}

#[test]
fn update_rule_in_live_model_replay_rejected() {
    let mut s = session();
    let m = model_with_one_rule(plain_rule());
    let prep = prepare_pure(
        ChangeRequest::UpdateRule { index: 0, patch: Ok(deny()) },
        &m,
        &s,
        FIXED_NOW,
    )
    .unwrap();
    update(m.copy(), 0, deny(), &prep.token, &mut s).unwrap();
    let err = update(m, 0, deny(), &prep.token, &mut s).unwrap_err();
    assert!(matches!(err, UpdateRuleError::Token(TokenError::Replay)));
}

// ---------- prepare_live_model_change ----------

#[test]
fn add_rule_returns_token_and_diff() {
    let r = prepare_pure(add_request(), &empty_model(), &session(), FIXED_NOW).unwrap();
    assert_eq!(r.expires_in_seconds, DEFAULT_TTL_SECS);
    assert!(!r.token.is_empty());
    match r.diff {
        Diff::AddRule { rule } => {
            assert_eq!(text(&rule, "action"), "deny");
            assert_eq!(text(&rule, "process"), "/bin/test");
        }
        other => panic!("wrong diff variant: {other:?}"),
    }
}

#[test]
fn issued_token_verifies_under_same_session_and_state() {
    let mut s = session();
    let result = prepare_pure(add_request(), &empty_model(), &s, FIXED_NOW).unwrap();
    let diff_sha256 = result.diff.sha256();
    let ctx = VerifyContext {
        tool: "add_rule_to_live_model",
        current_diff_sha256: &diff_sha256,
        current_bundle_version: "1",
    };
    let verified = s.verify_at(&result.token, &ctx, FIXED_NOW + 30);
    assert!(verified.is_ok(), "round-trip verify must succeed: {verified:?}");
}

#[test]
fn update_rule_diff_carries_before_and_after() {
    let m = model_with_one_rule(plain_rule());
    let req = ChangeRequest::UpdateRule { index: 0, patch: Ok(deny()) };
    let r = prepare_pure(req, &m, &session(), FIXED_NOW).unwrap();
    match r.diff {
        Diff::UpdateRule { index, before, after } => {
            assert_eq!(index, 0);
            assert_eq!(text(&before, "action"), "allow");
            assert_eq!(text(&after, "action"), "deny");
            assert_eq!(text(&before, "process"), text(&after, "process"));
        }
        other => panic!("wrong diff variant: {other:?}"),
    }
}

#[test]
fn update_rule_with_out_of_range_index_refuses() {
    let req = ChangeRequest::UpdateRule { index: 5, patch: Ok(RulePatch::default()) };
    let err = prepare_pure(req, &empty_model(), &session(), FIXED_NOW).unwrap_err();
    match err {
        PrepareError::IndexOutOfRange { index, total } => {
            assert_eq!(index, 5);
            assert_eq!(total, 0);
        }
        other => panic!("wrong error: {other:?}"),
    }
}

#[test]
fn remove_rule_diff_carries_the_rule_being_removed() {
    let m = model_with_one_rule(plain_rule());
    let r = prepare_pure(ChangeRequest::RemoveRule { index: 0 }, &m, &session(), FIXED_NOW)
        .unwrap();
    match r.diff {
        Diff::RemoveRule { index, rule } => {
            assert_eq!(index, 0);
            assert_eq!(text(&rule, "action"), "allow");
        }
        other => panic!("wrong diff variant: {other:?}"),
    }
}

#[test]
fn remove_rule_with_out_of_range_index_refuses() {
    let req = ChangeRequest::RemoveRule { index: 0 };
    let err = prepare_pure(req, &empty_model(), &session(), FIXED_NOW).unwrap_err();
    assert!(matches!(err, PrepareError::IndexOutOfRange { .. }));
}

#[test]
fn apply_lsrules_file_diff_carries_the_filename() {
    let req = ChangeRequest::ApplyLsrulesFile { name: "incident.lsrules".into() };
    let r = prepare_pure(req, &empty_model(), &session(), FIXED_NOW).unwrap();
    match r.diff {
        Diff::ApplyLsrulesFile { name } => assert_eq!(name, "incident.lsrules"),
        other => panic!("wrong diff variant: {other:?}"),
    }
}

#[test]
fn enable_and_disable_rule_group_diffs_carry_display_name() {
    let s = session();
    let m = empty_model();
    let name = || "macOS Services".to_string();
    let enable =
        prepare_pure(ChangeRequest::EnableRuleGroup { display_name: name() }, &m, &s, FIXED_NOW)
            .unwrap();
    let disable =
        prepare_pure(ChangeRequest::DisableRuleGroup { display_name: name() }, &m, &s, FIXED_NOW)
            .unwrap();
    match enable.diff {
        Diff::EnableRuleGroup { display_name } => assert_eq!(display_name, "macOS Services"),
        other => panic!("wrong diff variant: {other:?}"),
    }
    match disable.diff {
        Diff::DisableRuleGroup { display_name } => assert_eq!(display_name, "macOS Services"),
        other => panic!("wrong diff variant: {other:?}"),
    }
}

#[test]
fn token_binds_to_per_variant_tool_name() {
    let mut s = session();
    let add = prepare_pure(add_request(), &empty_model(), &s, FIXED_NOW).unwrap();
    let ctx = VerifyContext {
        tool: "update_rule_in_live_model",
        current_diff_sha256: "anything",
        current_bundle_version: "1",
    };
    let err = s.verify_at(&add.token, &ctx, FIXED_NOW + 30).unwrap_err();
    assert!(
        matches!(err, TokenError::ToolMismatch | TokenError::DiffDrift),
        "wrong-tool verify must fail with TOOL_MISMATCH (or DIFF_DRIFT if check ordering): {err:?}"
    );
}

#[test]
fn token_binds_to_bundle_version_from_current_model() {
    let mut s = session();
    let mut m = empty_model();
    m.bundle_version = 42;
    let result = prepare_pure(add_request(), &m, &s, FIXED_NOW).unwrap();
    let diff_sha256 = result.diff.sha256();
    let ctx = VerifyContext {
        tool: "add_rule_to_live_model",
        current_diff_sha256: &diff_sha256,
        current_bundle_version: "999",
    };
    let err = s.verify_at(&result.token, &ctx, FIXED_NOW + 30).unwrap_err();
    assert_eq!(err, TokenError::SchemaDrift);
}

#[test]
fn diff_sha256_is_invariant_to_struct_field_order() {
    let s = session();
    let m = model_with_one_rule(plain_rule());
    let note = || ChangeRequest::UpdateRule {
        index: 0,
        patch: Ok(RulePatch { notes: Some("x".into()), ..Default::default() }),
    };
    let r1 = prepare_pure(note(), &m, &s, FIXED_NOW).unwrap();
    let r2 = prepare_pure(note(), &m, &s, FIXED_NOW).unwrap();
    assert_eq!(r1.diff.sha256(), r1.diff.sha256());
    assert_eq!(r1.diff.sha256(), r2.diff.sha256());
}

#[test]
fn add_rule_blanket_allow_combo_refused_at_prepare_time() {
    let wanted = NewRuleSpec {
        action: Action::Allow,
        process: ProcessMatcher::Any,
        remote: Remote::Any,
        ..fixture_spec()
    };
    let bad = ChangeRequest::AddRule { wanted: Ok(wanted), path_exists: true };
    let err = prepare_pure(bad, &empty_model(), &session(), FIXED_NOW).unwrap_err();
    assert!(matches!(err, PrepareError::Construction(_)));
}

#[test]
fn diff_serializes_with_kind_tag() {
    let r = prepare_pure(add_request(), &empty_model(), &session(), FIXED_NOW).unwrap();
    assert_eq!(text(&r.diff.to_json(), "kind"), "add_rule");
}

#[test]
fn a_change_that_cannot_be_read_is_refused() {
    let m = model_with_one_rule(plain_rule());
    let bad = ChangeRequest::AddRule { wanted: Err("missing field".into()), path_exists: true };
    let err = prepare_pure(bad, &m, &session(), FIXED_NOW).unwrap_err();
    assert!(err.message().contains("missing field"));
    let bad = ChangeRequest::UpdateRule { index: 0, patch: Err("missing field".into()) };
    let err = prepare_pure(bad, &m, &session(), FIXED_NOW).unwrap_err();
    assert!(err.message().contains("missing field"));
    assert_eq!(
        tool_name_for(&ChangeRequest::RemoveRule { index: 0 }),
        "remove_rule_from_live_model"
    );
}

// ---------- apply_lsrules_file_to_live_model ----------

fn translated(doc: &str) -> Vec<Rule> {
    translate(&json(doc), 501, FIXED_NOW).unwrap()
}

fn one_rule(rule: &str) -> Rule {
    let mut v = translated(&format!("{{\"name\": \"test\", \"rules\": [{rule}]}}"));
    assert_eq!(v.len(), 1);
    v.remove(0)
}

#[test]
fn translate_handles_minimal_rule() {
    let out = translated(
        r#"{"name": "test", "rules": [{"action": "deny", "process": "any", "remote": "any"}]}"#,
    );
    assert_eq!(out.len(), 1);
    let r = &out[0];
    assert_eq!(r.action, Action::Deny);
    assert_eq!(r.process.as_deref(), Some("any"));
    assert_eq!(r.remote.as_deref(), Some("any"));
    assert_eq!(r.creation_date, FIXED_NOW_ISO);
    assert_eq!(r.uid, Some(501));
    assert_eq!(r.origin.0, Origin::FRONTEND);
}

#[test]
fn translate_omits_outgoing_direction() {
    let r = one_rule(
        r#"{"action": "deny", "process": "any", "remote": "any", "direction": "outgoing"}"#,
    );
    assert_eq!(r.direction, None);
}

#[test]
fn translate_keeps_incoming_direction() {
    let r = one_rule(
        r#"{"action": "deny", "process": "any", "remote": "any", "direction": "incoming"}"#,
    );
    assert_eq!(r.direction, Some(Direction::Incoming));
}

#[test]
fn translate_omits_regular_priority() {
    let r = one_rule(
        r#"{"action": "deny", "process": "any", "remote": "any", "priority": "regular"}"#,
    );
    assert_eq!(r.priority, None);
}

#[test]
fn translate_keeps_high_priority() {
    let r =
        one_rule(r#"{"action": "deny", "process": "any", "remote": "any", "priority": "high"}"#);
    assert_eq!(r.priority, Some(Priority::High));
}

#[test]
fn translate_remote_domains_single_string_preserved() {
    let r =
        one_rule(r#"{"action": "deny", "process": "any", "remote-domains": "evil.example"}"#);
    match &r.remote_domains {
        Some(StringOrVec::One(s)) => assert_eq!(s, "evil.example"),
        other => panic!("expected One, got {other:?}"),
    }
}

#[test]
fn translate_remote_domains_array_preserved_when_multi() {
    let r = one_rule(
        r#"{"action": "deny", "process": "any", "remote-domains": ["a.example", "b.example"]}"#,
    );
    match &r.remote_domains {
        Some(StringOrVec::Many(v)) => assert_eq!(v.len(), 2),
        other => panic!("expected Many, got {other:?}"),
    }
}

#[test]
fn translate_remote_domains_array_with_one_entry_collapses_to_string() {
    let r =
        one_rule(r#"{"action": "deny", "process": "any", "remote-domains": ["only.example"]}"#);
    match &r.remote_domains {
        Some(StringOrVec::One(s)) => assert_eq!(s, "only.example"),
        other => panic!("expected One, got {other:?}"),
    }
}

#[test]
fn translate_requires_trusted_signature() {
    let r = one_rule(
        r#"{"action": "allow", "requiresTrustedSignatureForAnyProcess": true, "remote": "any"}"#,
    );
    assert_eq!(r.process, None);
    assert_eq!(r.requires_trusted_signature_for_any_process, Some(true));
}

#[test]
fn translate_unknown_action_refused() {
    let doc = json(r#"{"name": "test", "rules": [{"action": "log-only"}]}"#);
    let err = translate(&doc, 501, FIXED_NOW).unwrap_err();
    assert!(matches!(err, ApplyLsrulesError::Translation(_)));
}

#[test]
fn shorthand_domains_expand_to_one_deny_rule_per_entry() {
    let out = translated(
        r#"{"name": "test", "denied-remote-domains": ["a.example", "b.example", "c.example"]}"#,
    );
    assert_eq!(out.len(), 3);
    for (i, expected) in ["a.example", "b.example", "c.example"].iter().enumerate() {
        assert_eq!(out[i].action, Action::Deny);
        assert_eq!(out[i].process.as_deref(), Some("any"));
        match &out[i].remote_domains {
            Some(StringOrVec::One(s)) => assert_eq!(s, expected),
            other => panic!("entry {i}: expected One, got {other:?}"),
        }
    }
}

#[test]
fn shorthand_hosts_and_addresses_route_to_their_arrays() {
    let out = translated(
        r#"{"name": "test", "denied-remote-hosts": ["host.example"],
            "denied-remote-addresses": ["10.0.0.0/8"]}"#,
    );
    assert_eq!(out.len(), 2);
    assert!(out[0].remote_hosts.is_some());
    assert!(out[0].remote_domains.is_none());
    assert!(out[1].remote_addresses.is_some());
}

#[test]
fn rules_array_processed_before_shorthand() {
    let out = translated(
        r#"{"name": "test", "rules": [{"action": "allow", "process": "/bin/ls", "remote": "any"}],
            "denied-remote-domains": ["evil.example"]}"#,
    );
    assert_eq!(out.len(), 2);
    assert_eq!(out[0].action, Action::Allow);
    assert_eq!(out[1].action, Action::Deny);
}

fn held(doc: &str) -> FileRead {
    FileRead::Bytes(to_pretty_text(&json(doc)).into_bytes())
}

fn prepare_file(
    s: &Session,
    file: &FileRead,
) -> Result<apply_lsrules_file_to_live_model::PrepareApplyLsrulesResult, ApplyLsrulesError> {
    apply_lsrules_file_to_live_model::prepare_pure(
        s,
        "test",
        "/m",
        file,
        &empty_model(),
        501,
        FIXED_NOW,
    )
}

fn apply_file(token: String, file: &FileRead, s: &mut Session) -> Result<Model, ApplyLsrulesError> {
    apply_lsrules_file_to_live_model::apply_pure(
        "test",
        token,
        "/m",
        file,
        &empty_model(),
        s,
        501,
        FIXED_NOW,
    )
}

#[test]
fn prepare_then_apply_round_trip_appends_rules() {
    let mut s = session();
    let file = held(r#"{"name": "test", "denied-remote-domains": ["a.example", "b.example"]}"#);
    let prep = prepare_file(&s, &file).unwrap();
    assert_eq!(prep.rules_to_add, 2);
    let folded = apply_file(prep.token, &file, &mut s).unwrap();
    assert_eq!(folded.rules.len(), 2);
    assert_eq!(folded.rules[0].action, Action::Deny);
}

#[test]
fn missing_file_refused_at_prepare() {
    let err = prepare_file(&session(), &FileRead::Missing).unwrap_err();
    assert!(matches!(err, ApplyLsrulesError::FileNotFound(_)));
}

#[test]
fn malformed_json_refused() {
    let file = FileRead::Bytes(b"not json".to_vec());
    let err = prepare_file(&session(), &file).unwrap_err();
    assert!(matches!(err, ApplyLsrulesError::InvalidJson { .. }));
}

#[test]
fn diff_drift_when_file_changes_between_prepare_and_apply() {
    let mut s = session();
    let file = held(r#"{"name": "test", "denied-remote-domains": ["a.example"]}"#);
    let prep = prepare_file(&s, &file).unwrap();
    let changed = held(
        r#"{"name": "test", "denied-remote-domains": ["a.example", "b.example", "c.example"]}"#,
    );
    let err = apply_file(prep.token, &changed, &mut s).unwrap_err();
    assert!(matches!(err, ApplyLsrulesError::Token(TokenError::DiffDrift)));
}

#[test]
fn apply_lsrules_file_to_live_model_replay_rejected() {
    let mut s = session();
    let file = held(r#"{"name": "test", "denied-remote-domains": ["x.example"]}"#);
    let prep = prepare_file(&s, &file).unwrap();
    apply_file(prep.token.clone(), &file, &mut s).unwrap();
    let err = apply_file(prep.token, &file, &mut s).unwrap_err();
    assert!(matches!(err, ApplyLsrulesError::Token(TokenError::Replay)));
}

#[test]
fn rules_to_add_count_matches_translated_length() {
    let file = held(
        r#"{"name": "test", "rules": [
                {"action": "allow", "process": "/bin/ls", "remote": "any"},
                {"action": "deny", "process": "any", "remote-domains": "x.example"}
            ],
            "denied-remote-domains": ["a.example", "b.example"],
            "denied-remote-hosts": ["h.example"]}"#,
    );
    let prep = prepare_file(&session(), &file).unwrap();
    assert_eq!(prep.rules_to_add, 2 + 2 + 1);
}

#[test]
fn a_rule_file_that_cannot_be_read_is_named() {
    let err = prepare_file(&session(), &FileRead::Failed("io".into())).unwrap_err();
    assert!(matches!(&err, ApplyLsrulesError::ReadFailed { source, .. } if source == "io"));
    assert!(err.message().contains("/m/rules/test.lsrules"));
    assert!(parse_string_or_vec(&Json::number(1), "remote-hosts", 3).is_err());
    let m = fold_into_model(model_with_one_rule(plain_rule()), vec![plain_rule()]);
    assert_eq!(m.rules.len(), 2);
}

// ---------- building and changing rules ----------

#[test]
fn a_rule_is_built_from_its_parts() {
    let r = construct_at(fixture_spec(), true, FIXED_NOW).unwrap();
    assert_eq!(r.creation_date, FIXED_NOW_ISO);
    assert_eq!(r.modification_date, FIXED_NOW_ISO);
    assert_eq!(r.uid, Some(501));
    assert_eq!(r.remote_domains, Some(StringOrVec::One("evil.invalid".into())));
    let missing = construct_at(fixture_spec(), false, FIXED_NOW).unwrap_err();
    assert!(matches!(missing, ConstructError::PathNotFound(ref p) if p == "/bin/test"));
    assert!(missing.message().contains("/bin/test"));
}

#[test]
fn a_patch_changes_only_what_it_names() {
    let mut r = plain_rule();
    apply_partial_at(&mut r, deny(), FIXED_NOW);
    let expected =
        Rule { action: Action::Deny, modification_date: FIXED_NOW_ISO.into(), ..plain_rule() };
    assert_eq!(r, expected);
    apply_partial_at(&mut r, deny(), FIXED_NOW);
    assert_eq!(r, expected);
}

#[test]
fn rules_and_rule_sets_are_written_as_json() {
    let r = rule_to_json(&plain_rule());
    assert_eq!(text(&r, "action"), "allow");
    assert_eq!(text(&r, "remote-domains"), "example.com");
    assert_eq!(text(&r, "creationDate"), "2026-04-25T17:43:37Z");
    assert!(r.get("notes").is_none());
    let m = model_to_json(&model_with_one_rule(plain_rule()));
    assert!(m.get("bundleVersion").unwrap().same(&Json::number(1)));
    assert!(m.array_member("rules").unwrap()[0].same(&r));
    assert!(m.get("users").unwrap().same(&Json::Array(vec![])));
}

#[test]
fn a_plain_rule_may_be_changed() {
    let ok = guard(&plain_rule(), Intent::Update, None);
    assert!(ok.allowed && !ok.requires_strong_ack && ok.reason.is_none());
    let no = guard(&plain_rule(), Intent::Remove, Some(&builtin_group()));
    assert!(!no.allowed && no.requires_strong_ack);
}

// ---------- tokens ----------

fn token_parts() -> (String, Json) {
    ("d".repeat(64), json("{\"op\": \"x\"}"))
}

fn ctx<'a>(tool: &'a str, sha: &'a str, version: &'a str) -> VerifyContext<'a> {
    VerifyContext { tool, current_diff_sha256: sha, current_bundle_version: version }
}

#[test]
fn a_token_is_held_to_everything_it_was_issued_for() {
    let mut s = session();
    let (sha, target) = token_parts();
    let token = s.issue(&payload("t", &target, &sha, "1", FIXED_NOW, 60));
    let mut check = |text: &str, c: VerifyContext, now: u64| s.verify_at(text, &c, now);
    assert_eq!(check("junk", ctx("t", &sha, "1"), FIXED_NOW), Err(TokenError::Malformed));
    assert_eq!(check(&token, ctx("u", &sha, "1"), FIXED_NOW), Err(TokenError::ToolMismatch));
    assert_eq!(check(&token, ctx("t", &sha, "2"), FIXED_NOW), Err(TokenError::SchemaDrift));
    assert_eq!(check(&token, ctx("t", "e", "1"), FIXED_NOW), Err(TokenError::DiffDrift));
    assert_eq!(check(&token, ctx("t", &sha, "1"), FIXED_NOW + 60), Err(TokenError::Expired));
    assert_eq!(check(&token, ctx("t", &sha, "1"), FIXED_NOW + 59), Ok(()));
    assert_eq!(check(&token, ctx("t", &sha, "1"), FIXED_NOW + 59), Err(TokenError::Replay));
}

#[test]
fn a_token_of_another_key_is_refused() {
    let (sha, target) = token_parts();
    let token = session().issue(&payload("t", &target, &sha, "1", FIXED_NOW, 60));
    let mut other_key = Session::from_raw([2u8; 32], [9u8; 32]);
    assert_eq!(
        other_key.verify_at(&token, &ctx("t", &sha, "1"), FIXED_NOW),
        Err(TokenError::InvalidMac)
    );
    let mut other_id = Session::from_raw([1u8; 32], [8u8; 32]);
    assert_eq!(
        other_id.verify_at(&token, &ctx("t", &sha, "1"), FIXED_NOW),
        Err(TokenError::SessionMismatch)
    );
}

#[test]
fn a_change_is_made_with_the_time_of_its_proposal() {
    let mut s = session();
    let m = empty_model();
    let p = prepare_pure(add_request(), &m, &s, FIXED_NOW).unwrap();
    assert_eq!(issued_at(&p.token), Some(FIXED_NOW));
    assert_eq!(proposal_time(&p.token, FIXED_NOW + 59), Ok(FIXED_NOW));
    assert_eq!(proposal_time(&p.token, FIXED_NOW + 60), Err(TokenError::Expired));
    assert_eq!(proposal_time("no token", FIXED_NOW), Err(TokenError::Malformed));
    assert_eq!(issued_at("1.2.3.4.5.x.7.8"), None);

    let later = FIXED_NOW + 30;
    let err = add(empty_model(), fixture_spec(), p.token.clone(), &mut s, later).unwrap_err();
    assert!(matches!(err, AddRuleError::Token(TokenError::DiffDrift)));
    let time = proposal_time(&p.token, later).unwrap();
    let (model, _) = add(m, fixture_spec(), p.token, &mut s, time).unwrap();
    assert_eq!(model.rules.len(), 1);
}

#[test]
fn a_live_change_names_its_backup() {
    let rule = plain_rule();
    let ran = |run: CliRun| GuardedRun::Ran { backup_path: "/b.json".into(), run };
    let done = add_rule_to_live_model::finish_add(&rule, ran(CliRun::Output("".into()))).unwrap();
    assert_eq!((text(&done.rule, "action"), done.backup_path.as_str()), ("allow", "/b.json"));
    let err = update_rule_in_live_model::finish_update(&rule, ran(CliRun::Failed("exit 1".into())));
    assert_eq!(err.unwrap_err(), "[pre-mutation backup: /b.json] restore-model failed: exit 1");
    let done =
        update_rule_in_live_model::finish_update(&rule, ran(CliRun::Output("".into()))).unwrap();
    assert_eq!(text(&done.rule, "process"), "/usr/bin/curl");
    let err =
        remove_rule_from_live_model::finish_remove(&rule, GuardedRun::NoBackup("full".into()));
    assert_eq!(err.unwrap_err(), "pre-mutation backup failed — refusing to proceed: full");
    let done =
        remove_rule_from_live_model::finish_remove(&rule, ran(CliRun::Output("".into()))).unwrap();
    assert_eq!(text(&done.removed_rule, "action"), "allow");
}
