use little_snitch_mcp::cli::{load_model, CliRun};
use little_snitch_mcp::json::{parse, parse_bytes, to_pretty_text, to_text, Json};
use little_snitch_mcp::model::read::{parse_action, read_group, read_model, read_rule};
use little_snitch_mcp::model::serial::{group_to_json, model_to_json, rule_to_json};
use little_snitch_mcp::model::{Action, Direction, Priority, StringOrVec};
use little_snitch_mcp::text::{char_is_whitespace, trim};

fn json(text: &str) -> Json {
    parse(text).unwrap()
}

const RULE: &str = r#"{
    "action": "deny",
    "creationDate": "2026-04-25T17:43:37Z",
    "modificationDate": "2026-04-26T10:40:00Z",
    "origin": "frontend",
    "uid": 501,
    "process": "/usr/bin/curl",
    "requiresTrustedSignatureForAnyProcess": true,
    "remote": "any",
    "remote-domains": "example.com",
    "remote-hosts": ["a.example", "b.example"],
    "remote-addresses": [],
    "direction": "incoming",
    "priority": "high",
    "protocol": "tcp",
    "ports": "443",
    "via": "/bin/sh",
    "notes": "n",
    "group": "g",
    "factoryID": "f",
    "factoryHelpText": "h",
    "protected": false,
    "lastUsed": "2026-04-26T10:40:00Z",
    "useCount": 18446744073709551615,
    "approved": true,
    "hidden": false,
    "owner": "any",
    "somethingNew": {"a": [1, 2.5, null]}
}"#;

const MODEL_TAIL: &str = r#"
    "profiles": {"p": {"name": "Home"}},
    "noProfilePseudoProfile": null,
    "blocklistStatistics": {"entries": 12},
    "disabledDomainsInLists": ["ads.example"],
    "disabledHostNamesInLists": [],
    "disabledIPAddressRangesInLists": ["10.0.0.0/8"]
}"#;

fn model_text(rules: &str, groups: &str) -> String {
    format!(
        "{{\"bundleVersion\": 7, \"factoryRuleSetVersion\": 3, \"rules\": {rules}, \
         \"groups\": {groups}, {MODEL_TAIL}"
    )
}

#[test]
fn a_rule_is_read_field_by_field() {
    let r = read_rule(&json(RULE)).unwrap();
    assert_eq!(r.action, Action::Deny);
    assert_eq!(r.creation_date, "2026-04-25T17:43:37Z");
    assert_eq!(r.modification_date, "2026-04-26T10:40:00Z");
    assert_eq!(r.origin.0, "frontend");
    assert_eq!(r.uid, Some(501));
    assert_eq!(r.process.as_deref(), Some("/usr/bin/curl"));
    assert_eq!(r.requires_trusted_signature_for_any_process, Some(true));
    assert!(matches!(&r.remote_domains, Some(StringOrVec::One(d)) if d == "example.com"));
    assert!(matches!(&r.remote_hosts, Some(StringOrVec::Many(v)) if v.len() == 2));
    assert!(matches!(&r.remote_addresses, Some(StringOrVec::Many(v)) if v.is_empty()));
    assert_eq!(r.direction, Some(Direction::Incoming));
    assert_eq!(r.priority, Some(Priority::High));
    assert_eq!(r.use_count, Some(u64::MAX));
    assert_eq!(r.hidden, Some(false));
    assert_eq!(r.extra.len(), 1);
    assert_eq!(r.extra[0].0, "somethingNew");
}

#[test]
fn a_rule_is_kept() {
    let j = json(RULE);
    let back = rule_to_json(&read_rule(&j).unwrap());
    assert_eq!(to_text(&back), to_text(&j));
}

#[test]
fn a_null_field_is_left_out() {
    let text = r#"{"action":"ask","creationDate":"","modificationDate":"","origin":"o","notes":null}"#;
    let r = read_rule(&json(text)).unwrap();
    assert_eq!(r.notes, None);
    assert!(rule_to_json(&r).get("notes").is_none());
}

#[test]
fn a_bad_field_is_named() {
    let with = |member: &str| {
        let text = format!(
            "{{\"action\":\"allow\",\"creationDate\":\"\",\"modificationDate\":\"\",\
             \"origin\":\"o\"{member}}}"
        );
        read_rule(&json(&text)).map(|_| ())
    };
    let bad = |key: &str| Err(format!("missing or invalid field `{key}`"));
    assert_eq!(with(""), Ok(()));
    assert_eq!(with(",\"uid\":4294967296"), bad("uid"));
    assert_eq!(with(",\"uid\":4294967295"), Ok(()));
    assert_eq!(with(",\"useCount\":-1"), bad("useCount"));
    assert_eq!(with(",\"useCount\":1.0"), bad("useCount"));
    assert_eq!(with(",\"remote-hosts\":[\"a\",1]"), bad("remote-hosts"));
    assert_eq!(with(",\"direction\":\"sideways\""), bad("direction"));
    assert_eq!(with(",\"priority\":\"low\""), bad("priority"));
    assert_eq!(with(",\"hidden\":\"yes\""), bad("hidden"));
    assert_eq!(with(",\"action\":\"perhaps\""), bad("action"));
    assert_eq!(read_rule(&json("[]")).map(|_| ()), bad("action"));
    assert_eq!(
        read_rule(&json(r#"{"action":"deny"}"#)).map(|_| ()),
        bad("creationDate")
    );
}

#[test]
fn a_group_is_kept() {
    let text = r#"{"name":"n","kind":"k","kindLegacy":"l","isActive":true,"updateInterval":60,
        "lastUpdateInvalidDomainsCount":2,"domains":["x"]}"#;
    let g = read_group(&json(text)).unwrap();
    assert_eq!(g.update_interval, Some(60));
    assert_eq!(g.last_update_invalid_domains_count, Some(2));
    assert_eq!(to_text(&group_to_json(&g)), to_text(&json(text)));
    assert_eq!(read_group(&Json::Null).unwrap_err(), "not an object");
}

#[test]
fn a_rule_set_is_kept() {
    let text = model_text(&format!("[{RULE}]"), r#"{"g": {"name": "G"}, "h": {}}"#);
    let j = json(&text);
    let m = read_model(&j).unwrap();
    assert_eq!((m.bundle_version, m.factory_rule_set_version), (7, 3));
    assert_eq!((m.rules.len(), m.groups.len()), (1, 2));
    assert_eq!(m.disabled_domains_in_lists.len(), 1);
    assert_eq!(m.rest.len(), 3);
    assert_eq!(to_text(&model_to_json(&m)), to_text(&j));
}

#[test]
fn what_is_wrong_with_a_rule_set_is_said() {
    let read = |rules: &str, groups: &str| {
        read_model(&json(&model_text(rules, groups))).map(|_| ())
    };
    assert_eq!(read("[]", "{}"), Ok(()));
    assert_eq!(
        read(&format!("[{RULE}, {{}}]"), "{}"),
        Err("rules[1]: missing or invalid field `action`".into())
    );
    assert_eq!(read("{}", "{}"), Err("missing or invalid field `rules`".into()));
    assert_eq!(read("[]", "[]"), Err("missing or invalid field `groups`".into()));
    assert_eq!(
        read("[]", r#"{"g": {"name": 1}}"#),
        Err("missing or invalid field `groups`".into())
    );
}

#[test]
fn an_export_is_loaded() {
    let text = model_text("[]", "{}");
    let m = load_model(CliRun::Output(text), "bad").unwrap();
    assert_eq!(m.bundle_version, 7);
    assert_eq!(
        load_model(CliRun::Failed("exit 2".into()), "bad").unwrap_err(),
        "export-model failed: exit 2"
    );
    assert_eq!(
        load_model(CliRun::NoBinary("nowhere".into()), "bad").unwrap_err(),
        "littlesnitch binary not found: nowhere"
    );
    let err = load_model(CliRun::Output("nope".into()), "bad").unwrap_err();
    assert_eq!(err, "bad: expected ident at line 1 column 2");
}

#[test]
fn actions_are_named() {
    assert_eq!(parse_action("allow"), Some(Action::Allow));
    assert_eq!(parse_action("deny"), Some(Action::Deny));
    assert_eq!(parse_action("ask"), Some(Action::Ask));
    assert_eq!(parse_action("Allow"), None);
}

#[test]
fn deep_values_are_refused() {
    let nested = |n: usize| "[".repeat(n) + &"]".repeat(n);
    assert!(parse(&nested(127)).is_ok());
    assert_eq!(
        parse(&nested(128)).unwrap_err(),
        "recursion limit exceeded at line 1 column 128"
    );
    let deep = parse(&nested(127)).unwrap();
    let again = parse(&to_pretty_text(&deep)).unwrap();
    assert_eq!(to_text(&again), to_text(&deep));
}

#[test]
fn pretty_text_is_read_back() {
    let j = json(RULE);
    let mut text = to_pretty_text(&j);
    assert_eq!(to_text(&parse(&text).unwrap()), to_text(&j));
    text.push('\n');
    assert_eq!(to_text(&parse(&text).unwrap()), to_text(&j));
    assert_eq!(to_text(&parse_bytes(text.as_bytes()).unwrap()), to_text(&j));
}

#[test]
fn compact_text_is_read_back() {
    let j = json(RULE);
    let back = parse(&to_text(&j)).unwrap();
    assert_eq!(to_text(&back), to_text(&j));
}

#[test]
fn zeros_are_equal_whatever_their_sign() {
    assert!(json("[-0.0, {\"a\": 0.0}]").same(&json("[0.0, {\"a\": -0.0}]")));
    assert!(json("-0").same(&json("0.0")));
    assert!(!json("0").same(&json("0.0")));
    assert!(!json("-0.5").same(&json("0.5")));
    assert_eq!(to_text(&json("-0.0")), "-0.0");
}

#[test]
fn white_space_is_that_of_unicode() {
    for n in 0..=0x10ffffu32 {
        if let Some(c) = char::from_u32(n) {
            assert_eq!(char_is_whitespace(c), c.is_whitespace(), "{n:x}");
        }
    }
    assert_eq!(trim("\u{2003} a b\u{85}\t"), "a b");
}

#[test]
fn a_group_is_read_once() {
    let g = r#"{"name": "A"}, "k": {"name": "B"}"#;
    let m = read_model(&json(&model_text("[]", &format!("{{\"k\": {g}}}")))).unwrap();
    assert_eq!(m.groups.len(), 1);
    assert_eq!(m.groups[0].1.name.as_deref(), Some("B"));
    let doubled = Json::Object(vec![
        ("k".into(), json(r#"{"name": "A"}"#)),
        ("l".into(), json(r#"{"name": "L"}"#)),
        ("k".into(), json(r#"{"name": "B"}"#)),
    ]);
    let mut j = json(&model_text("[]", "{}"));
    j.insert("groups".into(), doubled);
    let m = read_model(&j).unwrap();
    assert_eq!(m.groups.len(), 2);
    assert_eq!(m.group("k").unwrap().name.as_deref(), Some("B"));
}
