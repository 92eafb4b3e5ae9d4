use little_snitch_mcp::cli::CliRun;
use little_snitch_mcp::json::{parse, Json};
use little_snitch_mcp::safety::prefs::{redact, require_writable, PreferencePolicy};
use little_snitch_mcp::safety::session::Session;
use little_snitch_mcp::safety::token::VerifyContext;
use little_snitch_mcp::tools::backup_harness::GuardedRun;
use little_snitch_mcp::tools::list_preferences::{
    self, parse_pref_lines, ListPreferencesArgs, ListPreferencesResult, PreferenceScope,
};
use little_snitch_mcp::tools::read_preference::{self, ReadPreferenceArgs};
use little_snitch_mcp::tools::write_preference::{
    self, compute_remove_sha, compute_write_sha, finish_remove, finish_write,
    json_value_to_cli_arg, prepare_remove, prepare_write, remove, PrepareRemovePreferenceArgs,
    PrepareWritePreferenceArgs, RemovePreferenceArgs, WritePreferenceArgs, PREFS_BUNDLE_VERSION,
};

const NOW: u64 = 1_777_200_000;

fn policy() -> PreferencePolicy {
    PreferencePolicy {
        writable: vec!["activeSilentMode".to_string(), "networkFilterEnabled".to_string()],
        denied: vec!["networkFilterEnabled".to_string()],
        secret: vec!["dnsEncryptionConfigurations".to_string()],
    }
}

fn behind_backup(run: CliRun) -> GuardedRun {
    GuardedRun::Ran { backup_path: "/b.json".into(), run }
}

fn session() -> Session {
    Session::from_raw([1u8; 32], [9u8; 32])
}

fn json(s: &str) -> Json {
    parse(s).unwrap()
}

fn prefs(s: &str) -> Vec<(String, Json)> {
    parse_pref_lines(s, &policy())
}

fn value<'a>(m: &'a [(String, Json)], key: &str) -> &'a Json {
    &m.iter().find(|(k, _)| k == key).unwrap().1
}

// ---------- list_preferences ----------

#[test]
fn parses_bool_pref() {
    let m = prefs("activeSilentMode = false\n");
    assert!(value(&m, "activeSilentMode").same(&Json::Bool(false)));
}

#[test]
fn parses_number_pref() {
    let m = prefs("autoConfirmationDelay = 30\n");
    assert!(value(&m, "autoConfirmationDelay").same(&Json::number(30)));
}

#[test]
fn parses_string_pref() {
    let m = prefs("autoConfirmationAction = \"allow\"\n");
    assert!(value(&m, "autoConfirmationAction").same(&Json::text("allow")));
}

#[test]
fn parses_unquoted_string_as_string() {
    let m = prefs("autoConfirmationAction = hello\n");
    assert!(value(&m, "autoConfirmationAction").same(&Json::text("hello")));
}

#[test]
fn redacts_secret_key() {
    let m = prefs("dnsEncryptionConfigurations = [{\"url\":\"https://example.com\"}]\n");
    let v = value(&m, "dnsEncryptionConfigurations").as_str().unwrap();
    assert!(v.starts_with("<redacted:"), "expected redaction, got: {v}");
    assert_eq!(v, "<redacted: dnsEncryptionConfigurations>");
}

#[test]
fn skips_malformed_lines() {
    let m = prefs("noequalssign\nactiveSilentMode = true\n");
    assert!(!m.iter().any(|(k, _)| k == "noequalssign"));
    assert!(value(&m, "activeSilentMode").same(&Json::Bool(true)));
}

#[test]
fn empty_output_returns_empty_map() {
    let m = prefs("");
    assert!(m.is_empty());
}

#[test]
fn result_count_matches_map_len() {
    let prefs = vec![("a".to_string(), Json::number(1)), ("b".to_string(), Json::number(2))];
    let count = prefs.len();
    let result = ListPreferencesResult { preferences: prefs, count };
    assert_eq!(result.count, 2);
}

#[test]
fn keys_stand_in_order_and_a_later_line_wins() {
    let m = prefs("b = 1\na = 2\n = 3\nb = [1, \"x = y\"]\nc = one = two\n");
    let keys: Vec<&str> = m.iter().map(|(k, _)| k.as_str()).collect();
    assert_eq!(keys, vec!["a", "b", "c"]);
    assert!(value(&m, "b").same(&json("[1, \"x = y\"]")));
    assert!(value(&m, "c").same(&Json::text("one = two")));
}

#[test]
fn list_preferences_runs_the_command_of_the_scope() {
    let args = |scope| ListPreferencesArgs { scope };
    let g = list_preferences::command_args(&args(Some(PreferenceScope::Global)));
    assert_eq!(g, vec!["list-preferences", "-g"]);
    let u = list_preferences::command_args(&args(Some(PreferenceScope::User)));
    assert_eq!(u, vec!["list-preferences", "-u"]);
    assert_eq!(
        list_preferences::command_args(&args(Some(PreferenceScope::All))),
        vec!["list-preferences"]
    );
    assert_eq!(list_preferences::command_args(&args(None)), vec!["list-preferences"]);
}

#[test]
fn list_preferences_reports_what_went_wrong() {
    let out = list_preferences::run(CliRun::Output("a = 1\n".into()), &policy()).unwrap();
    assert_eq!(out.count, 1);
    let err = list_preferences::run(CliRun::NoBinary("nowhere".into()), &policy()).unwrap_err();
    assert_eq!(err, "littlesnitch binary not found: nowhere");
    let err = list_preferences::run(CliRun::Failed("exit 1".into()), &policy()).unwrap_err();
    assert_eq!(err, "list-preferences failed: exit 1");
}

#[test]
fn a_secret_is_shown_the_same_whatever_it_is() {
    let a = redact(&policy(), "dnsEncryptionConfigurations", Json::number(1));
    let b = redact(&policy(), "dnsEncryptionConfigurations", Json::Null);
    assert!(a.same(&b));
    assert!(redact(&policy(), "other", Json::number(1)).same(&Json::number(1)));
}

// ---------- read_preference ----------

#[test]
fn empty_keys_errors() {
    let err = read_preference::run(ReadPreferenceArgs { keys: vec![] }, Ok(()), vec![]).unwrap_err();
    assert!(err.contains("must not be empty"), "unexpected: {err}");
}

#[test]
fn empty_key_string_errors() {
    let err = read_preference::run(
        ReadPreferenceArgs { keys: vec!["".into()] },
        Err("no such program".into()),
        vec![],
    )
    .unwrap_err();
    assert!(err.contains("must not be empty"), "unexpected: {err}");
}

#[test]
fn read_preference_reads_every_key() {
    let args = ReadPreferenceArgs { keys: vec!["a".into(), "b".into(), "c".into()] };
    let reads = vec![Ok(" {\"x\": 1}\n".to_string()), Ok("\n".to_string()), Ok("plain\n".into())];
    let r = read_preference::run(args, Ok(()), reads).unwrap();
    assert!(value(&r.values, "a").same(&json("{\"x\":1}")));
    assert!(value(&r.values, "b").same(&Json::Null));
    assert!(value(&r.values, "c").same(&Json::text("plain")));
    assert_eq!(read_preference::command_args("a"), vec!["read-preference", "a"]);
}

#[test]
fn read_preference_reports_what_went_wrong() {
    let args = || ReadPreferenceArgs { keys: vec!["a".into(), "b".into()] };
    let err = read_preference::run(args(), Err("nowhere".into()), vec![]).unwrap_err();
    assert_eq!(err, "littlesnitch binary not found: nowhere");
    let reads = vec![Ok("1".to_string()), Err("exit 1".to_string())];
    let err = read_preference::run(args(), Ok(()), reads).unwrap_err();
    assert_eq!(err, "read-preference \"b\" failed: exit 1");
}

// ---------- write_preference ----------

#[test]
fn compute_write_sha_is_deterministic() {
    let sha1 = compute_write_sha("activeSilentMode", &Json::Bool(true));
    let sha2 = compute_write_sha("activeSilentMode", &Json::Bool(true));
    assert_eq!(sha1, sha2);
}

#[test]
fn compute_write_sha_differs_by_key() {
    let sha1 = compute_write_sha("activeSilentMode", &Json::Bool(true));
    let sha2 = compute_write_sha("confirmAutomatically", &Json::Bool(true));
    assert_ne!(sha1, sha2);
}

#[test]
fn compute_write_sha_differs_by_value() {
    let sha1 = compute_write_sha("activeSilentMode", &Json::Bool(true));
    let sha2 = compute_write_sha("activeSilentMode", &Json::Bool(false));
    assert_ne!(sha1, sha2);
}

#[test]
fn compute_remove_sha_is_deterministic() {
    let sha1 = compute_remove_sha("activeSilentMode");
    let sha2 = compute_remove_sha("activeSilentMode");
    assert_eq!(sha1, sha2);
}

#[test]
fn write_sha_and_remove_sha_differ_for_same_key() {
    let ws = compute_write_sha("activeSilentMode", &Json::Bool(true));
    let rs = compute_remove_sha("activeSilentMode");
    assert_ne!(ws, rs);
}

#[test]
fn json_value_to_cli_arg_bool() {
    assert_eq!(json_value_to_cli_arg(&Json::Bool(true)), "true");
    assert_eq!(json_value_to_cli_arg(&Json::Bool(false)), "false");
}

#[test]
fn json_value_to_cli_arg_string() {
    let v = Json::Text("hello".to_string());
    assert_eq!(json_value_to_cli_arg(&v), "hello");
}

#[test]
fn json_value_to_cli_arg_others() {
    assert_eq!(json_value_to_cli_arg(&json("-1.5")), "-1.5");
    assert_eq!(json_value_to_cli_arg(&Json::Null), "null");
    assert_eq!(json_value_to_cli_arg(&json("{\"b\": [1, 2], \"a\": \"x\"}")), "{\"a\":\"x\",\"b\":[1,2]}");
}

#[test]
fn prepare_write_rejected_for_hard_deny_key() {
    let result = prepare_write(
        &session(),
        PrepareWritePreferenceArgs {
            key: "networkFilterEnabled".to_string(),
            value: Json::Bool(false),
        },
        &policy(),
        NOW,
    );
    assert!(result.is_err());
    let msg = result.unwrap_err();
    assert!(msg.contains("networkFilterEnabled"), "error should name the key: {msg}");
}

#[test]
fn prepare_write_rejected_for_unknown_key() {
    let result = prepare_write(
        &session(),
        PrepareWritePreferenceArgs { key: "someUnknownKey".to_string(), value: Json::Bool(true) },
        &policy(),
        NOW,
    );
    assert!(result.is_err());
}

#[test]
fn prepare_write_succeeds_for_allowlisted_key() {
    let result = prepare_write(
        &session(),
        PrepareWritePreferenceArgs { key: "activeSilentMode".to_string(), value: Json::Bool(true) },
        &policy(),
        NOW,
    );
    assert!(result.is_ok(), "unexpected err: {:?}", result.err());
    let r = result.unwrap();
    assert!(!r.token.is_empty());
    assert!(r.diff_summary.contains("activeSilentMode"));
    assert_eq!(r.diff_summary, "write globalDefaults[\"activeSilentMode\"]\n  new value: true");
}

#[test]
fn prepare_then_token_verifies_for_write() {
    let mut session = session();
    let key = "activeSilentMode";
    let value = Json::Bool(true);
    let prep = prepare_write(
        &session,
        PrepareWritePreferenceArgs { key: key.to_string(), value: value.copy() },
        &policy(),
        NOW,
    )
    .unwrap();
    let diff_sha = compute_write_sha(key, &value);
    let result = session.verify_at(
        &prep.token,
        &VerifyContext {
            tool: "write_preference",
            current_diff_sha256: &diff_sha,
            current_bundle_version: PREFS_BUNDLE_VERSION,
        },
        NOW,
    );
    assert!(result.is_ok(), "token should verify: {:?}", result.err());
}

#[test]
fn prepare_then_token_verifies_for_remove() {
    let mut session = session();
    let key = "activeSilentMode";
    let prep = prepare_remove(
        &session,
        PrepareRemovePreferenceArgs { key: key.to_string() },
        &policy(),
        NOW,
    )
    .unwrap();
    let diff_sha = compute_remove_sha(key);
    let result = session.verify_at(
        &prep.token,
        &VerifyContext {
            tool: "remove_preference",
            current_diff_sha256: &diff_sha,
            current_bundle_version: PREFS_BUNDLE_VERSION,
        },
        NOW,
    );
    assert!(result.is_ok(), "token should verify: {:?}", result.err());
}

#[test]
fn write_pref_prepare_returns_token() {
    let result = prepare_write(
        &session(),
        PrepareWritePreferenceArgs { key: "activeSilentMode".into(), value: Json::Bool(true) },
        &policy(),
        NOW,
    )
    .expect("prepare must succeed for allowlisted key");
    assert!(!result.token.is_empty());
    assert_eq!(result.key, "activeSilentMode");
    assert!(result.value.same(&Json::Bool(true)));
}

#[test]
fn write_pref_prepare_rejects_unknown_key() {
    let err = prepare_write(
        &session(),
        PrepareWritePreferenceArgs { key: "notAValidPref".into(), value: Json::Bool(true) },
        &policy(),
        NOW,
    )
    .unwrap_err();
    assert!(!err.is_empty());
}

#[test]
fn write_pref_rejects_bad_token() {
    let err = write_preference::write(
        &mut session(),
        &WritePreferenceArgs {
            key: "activeSilentMode".into(),
            value: Json::Bool(false),
            token: "junk".into(),
        },
        &policy(),
        Ok(()),
        NOW,
    )
    .unwrap_err();
    assert!(!err.is_empty());
    assert!(err.starts_with("token verification failed: "), "unexpected: {err}");
}

#[test]
fn remove_pref_prepare_returns_token() {
    let result = prepare_remove(
        &session(),
        PrepareRemovePreferenceArgs { key: "activeSilentMode".into() },
        &policy(),
        NOW,
    )
    .expect("prepare must succeed for allowlisted key");
    assert!(!result.token.is_empty());
    assert_eq!(result.diff_summary, "remove globalDefaults[\"activeSilentMode\"]");
}

#[test]
fn remove_pref_rejects_bad_token() {
    let err = remove(
        &mut session(),
        &RemovePreferenceArgs { key: "activeSilentMode".into(), token: "junk".into() },
        &policy(),
        Ok(()),
        NOW,
    )
    .unwrap_err();
    assert!(!err.is_empty());
}

#[test]
fn a_prepared_write_goes_through_once() {
    let mut s = session();
    let prep = prepare_write(
        &s,
        PrepareWritePreferenceArgs { key: "activeSilentMode".into(), value: json("[1]") },
        &policy(),
        NOW,
    )
    .unwrap();
    let args =
        WritePreferenceArgs { key: prep.key, value: prep.value, token: prep.token };
    let refused = write_preference::write(&mut s, &args, &policy(), Err("not root".into()), NOW).unwrap_err();
    assert_eq!(refused, "not root");
    let cmd = write_preference::write(&mut s, &args, &policy(), Ok(()), NOW + 59).unwrap();
    assert_eq!(cmd, vec!["write-preference", "activeSilentMode", "[1]"]);
    assert!(write_preference::write(&mut s, &args, &policy(), Ok(()), NOW + 59).is_err());
    let err = finish_write(
        WritePreferenceArgs { key: "k".into(), value: Json::Null, token: "t".into() },
        behind_backup(CliRun::Failed("exit 1".into())),
    )
    .unwrap_err();
    assert_eq!(err, "[pre-mutation backup: /b.json] write-preference failed: exit 1");
    let done = finish_write(args, behind_backup(CliRun::Output("".into()))).unwrap();
    assert!(done.written);
    assert_eq!(done.key, "activeSilentMode");
    assert!(done.value.same(&json("[1]")));
}

#[test]
fn a_prepared_removal_goes_through() {
    let mut s = session();
    let prep = prepare_remove(
        &s,
        PrepareRemovePreferenceArgs { key: "activeSilentMode".into() },
        &policy(),
        NOW,
    )
    .unwrap();
    let args = RemovePreferenceArgs { key: prep.key, token: prep.token };
    let cmd = remove(&mut s, &args, &policy(), Ok(()), NOW).unwrap();
    assert_eq!(cmd, vec!["write-preference", "-r", "activeSilentMode"]);
    let err = finish_remove(
        RemovePreferenceArgs { key: "k".into(), token: "t".into() },
        behind_backup(CliRun::Failed("exit 1".into())),
    )
    .unwrap_err();
    assert_eq!(err, "[pre-mutation backup: /b.json] write-preference -r failed: exit 1");
    assert!(finish_remove(args, behind_backup(CliRun::Output("".into()))).unwrap().removed);
}

#[test]
fn no_preference_changes_without_a_backup() {
    let err = finish_remove(
        RemovePreferenceArgs { key: "k".into(), token: "t".into() },
        GuardedRun::NoBackup("disk full".into()),
    )
    .unwrap_err();
    assert_eq!(err, "pre-mutation backup failed — refusing to proceed: disk full");
    let err = finish_write(
        WritePreferenceArgs { key: "k".into(), value: Json::Null, token: "t".into() },
        GuardedRun::NoBackup("disk full".into()),
    )
    .unwrap_err();
    assert_eq!(err, "pre-mutation backup failed — refusing to proceed: disk full");
}

#[test]
fn a_preference_token_is_for_one_key_and_value() {
    let mut s = session();
    let prep = prepare_write(
        &s,
        PrepareWritePreferenceArgs { key: "activeSilentMode".into(), value: json("1") },
        &policy(),
        NOW,
    )
    .unwrap();
    let args = WritePreferenceArgs { key: prep.key, value: json("2"), token: prep.token };
    let err = write_preference::write(&mut s, &args, &policy(), Ok(()), NOW).unwrap_err();
    assert!(err.contains("DIFF_DRIFT"), "{err}");
}

#[test]
fn a_key_that_is_read_twice_has_one_value() {
    let r = read_preference::run(
        ReadPreferenceArgs { keys: vec!["b".into(), "a".into(), "b".into()] },
        Ok(()),
        vec![Ok("1".into()), Ok(" \u{3000}\n".into()), Ok("2".into())],
    )
    .unwrap();
    let keys: Vec<&str> = r.values.iter().map(|(k, _)| k.as_str()).collect();
    assert_eq!(keys, vec!["a", "b"]);
    assert!(r.values[0].1.same(&Json::Null));
    assert!(r.values[1].1.same(&json("2")));
}

#[test]
fn only_writable_preferences_are_written() {
    assert_eq!(require_writable(&policy(), "activeSilentMode"), None);
    let denied = require_writable(&policy(), "networkFilterEnabled").unwrap();
    assert_eq!(denied, "preference \"networkFilterEnabled\" must not be written");
    let unknown = require_writable(&policy(), "x").unwrap();
    assert_eq!(unknown, "preference \"x\" is not on the write allowlist");
}
