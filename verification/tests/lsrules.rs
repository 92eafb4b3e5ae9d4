use little_snitch_mcp::json::{parse, to_pretty_text, Json};
use little_snitch_mcp::lsrules::{check_plain_name, rule_matches};
use little_snitch_mcp::managed_dir::{lsrules_file, path_below, TextRead};
use little_snitch_mcp::textdiff::make_diff;
use little_snitch_mcp::tools::add_rule_to_lsrules_file::{self, AddRuleArgs, AddRuleResult};
use little_snitch_mcp::tools::create_lsrules_file::{self, CreateLsrulesArgs, CreateResult};
use little_snitch_mcp::tools::lsrules_metadata::{
    diff_files, set_metadata, unified_diff, validate_file_name, DiffLsrulesArgs, ManagedText,
    SetMetadataArgs,
};
use little_snitch_mcp::tools::remove_rule_from_lsrules_file::{
    self, RemoveRuleArgs, RemoveRuleResult,
};
use little_snitch_mcp::tools::update_rule_in_lsrules_file::{
    self, UpdateRuleArgs, UpdateRuleResult,
};
use little_snitch_mcp::tools::validate_lsrules::{
    self, write_complaints, FieldError, ValidateLsrulesArgs, ValidateResult,
};

const SCHEMA: &str = r#"{
    "type": "object",
    "required": ["name"],
    "additionalProperties": false,
    "properties": {
        "name": {"type": "string"},
        "description": {"type": "string"},
        "denied-remote-domains": {"type": "array", "items": {"type": "string"}},
        "denied-remote-hosts": {"type": "array", "items": {"type": "string"}},
        "denied-remote-addresses": {"type": "array", "items": {"type": "string"}},
        "rules": {
            "type": "array",
            "items": {
                "type": "object",
                "required": ["action"],
                "properties": {"action": {"enum": ["allow", "deny", "ask"]}}
            }
        }
    }
}"#;

fn json(s: &str) -> Json {
    parse(s).unwrap()
}

fn schema() -> Json {
    json(SCHEMA)
}

fn texts<'a>(v: &'a Json, key: &str) -> &'a str {
    v.text_member(key).unwrap()
}

/// The rule files of a managed directory at `/m`.
struct Files {
    held: Vec<(String, String)>,
}

impl Files {
    fn new() -> Files {
        Files { held: vec![] }
    }

    fn with(name: &str, doc: &str) -> Files {
        let mut f = Files::new();
        f.put(lsrules_file("/m", name), to_pretty_text(&json(doc)));
        f
    }

    fn put(&mut self, path: String, text: String) {
        self.held.retain(|(p, _)| *p != path);
        self.held.push((path, text));
    }

    fn text(&self, path: &str) -> Option<String> {
        self.held.iter().find(|(p, _)| p == path).map(|(_, t)| t.clone())
    }

    fn read(&self, name: &str) -> TextRead {
        match self.text(&lsrules_file("/m", name)) {
            Some(t) => TextRead::Text(t),
            None => TextRead::Missing,
        }
    }

    fn create(&mut self, args: CreateLsrulesArgs) -> Result<CreateResult, String> {
        let path = lsrules_file("/m", &args.name);
        let exists = self.text(&path).is_some();
        let (r, text) =
            create_lsrules_file::run(args, Ok("/m/rules".into()), exists, &schema())?;
        self.put(r.path.clone(), text);
        Ok(r)
    }

    fn add(&mut self, file_name: &str, rule: Json) -> Result<AddRuleResult, String> {
        let args = AddRuleArgs { file_name: file_name.into(), rule };
        let (r, text) =
            add_rule_to_lsrules_file::run(args, "/m", self.read(file_name), &schema())?;
        if let Some(t) = text {
            self.put(lsrules_file("/m", file_name), t);
        }
        Ok(r)
    }

    fn remove(
        &mut self,
        file_name: &str,
        index: Option<usize>,
        match_tuple: Option<&str>,
    ) -> Result<RemoveRuleResult, String> {
        let args = RemoveRuleArgs {
            file_name: file_name.into(),
            index,
            match_tuple: match_tuple.map(json),
        };
        let (r, text) =
            remove_rule_from_lsrules_file::run(args, "/m", self.read(file_name), &schema())?;
        self.put(lsrules_file("/m", file_name), text);
        Ok(r)
    }

    fn update(
        &mut self,
        file_name: &str,
        index: Option<usize>,
        match_tuple: Option<&str>,
        updates: &str,
    ) -> Result<UpdateRuleResult, String> {
        let args = UpdateRuleArgs {
            file_name: file_name.into(),
            index,
            match_tuple: match_tuple.map(json),
            updates: json(updates),
        };
        let (r, text) =
            update_rule_in_lsrules_file::run(args, "/m", self.read(file_name), &schema())?;
        self.put(lsrules_file("/m", file_name), text);
        Ok(r)
    }

    fn validate(&self, name: &str) -> ValidateResult {
        let path = lsrules_file("/m", name);
        let text = self.text(&path).ok_or("no such file".to_string());
        let args = ValidateLsrulesArgs { path: Some(path), inline_json: None };
        validate_lsrules::run(args, text, &schema()).unwrap()
    }
}

fn minimal(name: &str) -> CreateLsrulesArgs {
    CreateLsrulesArgs {
        name: name.to_string(),
        description: None,
        denied_remote_domains: None,
        rules: None,
        replace: None,
    }
}

const ALLOW_ANY: &str = r#"{"action": "allow", "process": "any", "remote": "any"}"#;

// ---------- add_rule_to_lsrules_file ----------

#[test]
fn add_new_rule_appends_it() {
    let mut f = Files::with(
        "rules",
        r#"{"name": "rules", "rules": [{"action": "allow", "process": "any", "remote": "any"}]}"#,
    );
    let result = f
        .add("rules", json(r#"{"action": "deny", "process": "/usr/bin/curl", "remote": "any"}"#))
        .unwrap();
    assert!(!result.already_present);
    assert_eq!(result.rule_index, 1);
    assert_eq!(result.rules_total, 2);
    assert!(result.diff.contains('+'));
}

#[test]
fn adding_duplicate_rule_is_noop() {
    let mut f = Files::with(
        "dup",
        r#"{"name": "dup", "rules": [{"action": "allow", "process": "any", "remote": "any"}]}"#,
    );
    let result = f.add("dup", json(ALLOW_ANY)).unwrap();
    assert!(result.already_present);
    assert_eq!(result.rule_index, 0);
    assert_eq!(result.rules_total, 1);
    assert!(result.diff.is_empty());
}

#[test]
fn dedup_only_matches_same_tuple() {
    let mut f = Files::with(
        "nodup",
        r#"{"name": "nodup", "rules": [{"action": "allow", "process": "any", "remote": "any"}]}"#,
    );
    let result =
        f.add("nodup", json(r#"{"action": "deny", "process": "any", "remote": "any"}"#)).unwrap();
    assert!(!result.already_present);
    assert_eq!(result.rules_total, 2);
}

#[test]
fn add_rule_to_lsrules_file_invalid_rule_is_rejected() {
    let mut f = Files::with("invalid", r#"{"name": "invalid", "rules": []}"#);
    let err =
        f.add("invalid", json(r#"{"action": "bad-action", "remote": "any"}"#)).unwrap_err();
    assert!(err.contains("invalid after adding"), "unexpected: {err}");
}

#[test]
fn add_rule_to_lsrules_file_missing_file_errors() {
    let mut f = Files::new();
    let err = f.add("missing", json(r#"{"action": "allow", "remote": "any"}"#)).unwrap_err();
    assert!(err.contains("not found"), "unexpected: {err}");
}

#[test]
fn non_object_rule_errors() {
    let mut f = Files::with("badrule", r#"{"name": "badrule", "rules": []}"#);
    let err = f.add("badrule", Json::text("not an object")).unwrap_err();
    assert!(err.contains("must be a JSON object"), "unexpected: {err}");
}

// ---------- remove_rule_from_lsrules_file ----------

#[test]
fn remove_by_index() {
    let mut f = Files::with(
        "rules",
        r#"{"name": "rules", "rules": [
            {"action": "allow", "process": "any", "remote": "any"},
            {"action": "deny", "process": "/usr/bin/curl", "remote": "any"}
        ]}"#,
    );
    let result = f.remove("rules", Some(0), None).unwrap();
    assert_eq!(result.removed_index, 0);
    assert_eq!(texts(&result.removed_rule, "action"), "allow");
    assert_eq!(result.rules_remaining, 1);
}

#[test]
fn remove_by_match_tuple() {
    let mut f = Files::with(
        "mtch",
        r#"{"name": "mtch", "rules": [
            {"action": "allow", "process": "/usr/bin/ssh", "remote": "any"},
            {"action": "deny", "process": "/usr/bin/curl", "remote": "any"}
        ]}"#,
    );
    let result = f
        .remove("mtch", None, Some(r#"{"action": "deny", "process": "/usr/bin/curl"}"#))
        .unwrap();
    assert_eq!(texts(&result.removed_rule, "process"), "/usr/bin/curl");
    assert_eq!(result.rules_remaining, 1);
}

#[test]
fn remove_rule_from_lsrules_file_ambiguous_match_tuple_errors() {
    let mut f = Files::with(
        "ambig",
        r#"{"name": "ambig", "rules": [
            {"action": "deny", "remote": "any"}, {"action": "deny", "remote": "any"}
        ]}"#,
    );
    let err = f.remove("ambig", None, Some(r#"{"action": "deny"}"#)).unwrap_err();
    assert!(err.contains("ambiguous"), "unexpected: {err}");
}

#[test]
fn remove_rule_from_lsrules_file_no_match_errors() {
    let mut f = Files::with(
        "nomatch",
        r#"{"name": "nomatch", "rules": [{"action": "allow", "remote": "any"}]}"#,
    );
    let err = f.remove("nomatch", None, Some(r#"{"action": "deny"}"#)).unwrap_err();
    assert!(err.contains("no rules matched"), "unexpected: {err}");
}

#[test]
fn remove_rule_from_lsrules_file_out_of_range_index_errors() {
    let mut f = Files::with(
        "range",
        r#"{"name": "range", "rules": [{"action": "allow", "remote": "any"}]}"#,
    );
    let err = f.remove("range", Some(5), None).unwrap_err();
    assert!(err.contains("out of range"), "unexpected: {err}");
}

#[test]
fn remove_rule_from_lsrules_file_result_contains_diff() {
    let mut f = Files::with(
        "difftest",
        r#"{"name": "difftest", "rules": [
            {"action": "allow", "remote": "any"}, {"action": "deny", "remote": "any"}
        ]}"#,
    );
    let result = f.remove("difftest", Some(0), None).unwrap();
    assert!(result.diff.contains("---"), "diff should have header");
    assert!(result.diff.contains('-'), "diff should have removed lines");
}

#[test]
fn remove_rule_from_lsrules_file_missing_file_errors() {
    let mut f = Files::new();
    let err = f.remove("missing", Some(0), None).unwrap_err();
    assert!(err.contains("not found"), "unexpected: {err}");
}

// ---------- update_rule_in_lsrules_file ----------

#[test]
fn update_by_index_changes_field() {
    let mut f = Files::with(
        "rules",
        r#"{"name": "rules", "rules": [
            {"action": "allow", "process": "any", "remote": "any"},
            {"action": "deny", "process": "/usr/bin/curl", "remote": "any"}
        ]}"#,
    );
    let result = f.update("rules", Some(0), None, r#"{"action": "deny"}"#).unwrap();
    assert_eq!(result.updated_index, 0);
    assert_eq!(texts(&result.rule_before, "action"), "allow");
    assert_eq!(texts(&result.rule_after, "action"), "deny");
    assert_eq!(texts(&result.rule_after, "process"), "any");
    assert_eq!(result.rules_remaining, 2);
}

#[test]
fn update_by_match_tuple_changes_field() {
    let mut f = Files::with(
        "mtch",
        r#"{"name": "mtch", "rules": [
            {"action": "allow", "process": "/usr/bin/ssh", "remote": "any"},
            {"action": "deny", "process": "/usr/bin/curl", "remote": "any"}
        ]}"#,
    );
    let result = f
        .update("mtch", None, Some(r#"{"process": "/usr/bin/curl"}"#), r#"{"action": "allow"}"#)
        .unwrap();
    assert_eq!(texts(&result.rule_after, "action"), "allow");
    assert_eq!(texts(&result.rule_after, "process"), "/usr/bin/curl");
}

#[test]
fn update_preserves_unmentioned_fields() {
    let mut f = Files::with(
        "preserve",
        r#"{"name": "preserve", "rules": [
            {"action": "allow", "process": "/bin/sh", "remote": "any"}
        ]}"#,
    );
    let result = f.update("preserve", Some(0), None, r#"{"action": "deny"}"#).unwrap();
    assert_eq!(texts(&result.rule_after, "process"), "/bin/sh");
    assert_eq!(texts(&result.rule_after, "remote"), "any");
}

#[test]
fn update_rule_in_lsrules_file_ambiguous_match_tuple_errors() {
    let mut f = Files::with(
        "ambig",
        r#"{"name": "ambig", "rules": [
            {"action": "deny", "remote": "any"}, {"action": "deny", "remote": "any"}
        ]}"#,
    );
    let err = f
        .update("ambig", None, Some(r#"{"action": "deny"}"#), r#"{"remote": "host:foo.com"}"#)
        .unwrap_err();
    assert!(err.contains("ambiguous"), "unexpected: {err}");
}

#[test]
fn update_rule_in_lsrules_file_no_match_errors() {
    let mut f = Files::with(
        "nomatch",
        r#"{"name": "nomatch", "rules": [{"action": "allow", "remote": "any"}]}"#,
    );
    let err = f
        .update("nomatch", None, Some(r#"{"action": "deny"}"#), r#"{"remote": "host:foo.com"}"#)
        .unwrap_err();
    assert!(err.contains("no rules matched"), "unexpected: {err}");
}

#[test]
fn update_rule_in_lsrules_file_out_of_range_index_errors() {
    let mut f = Files::with(
        "range",
        r#"{"name": "range", "rules": [{"action": "allow", "remote": "any"}]}"#,
    );
    let err = f.update("range", Some(5), None, r#"{"action": "deny"}"#).unwrap_err();
    assert!(err.contains("out of range"), "unexpected: {err}");
}

#[test]
fn empty_updates_errors() {
    let mut f = Files::with(
        "empty",
        r#"{"name": "empty", "rules": [{"action": "allow", "remote": "any"}]}"#,
    );
    let err = f.update("empty", Some(0), None, "{}").unwrap_err();
    assert!(err.contains("must not be empty"), "unexpected: {err}");
}

#[test]
fn update_rule_in_lsrules_file_result_contains_diff() {
    let mut f = Files::with(
        "difftest",
        r#"{"name": "difftest", "rules": [
            {"action": "allow", "remote": "any"}, {"action": "deny", "remote": "any"}
        ]}"#,
    );
    let result = f.update("difftest", Some(0), None, r#"{"action": "deny"}"#).unwrap();
    assert!(result.diff.contains("---"), "diff should have header");
    assert!(result.diff.contains('-'), "diff should have removed lines");
    assert!(result.diff.contains('+'), "diff should have added lines");
}

#[test]
fn update_rule_in_lsrules_file_missing_file_errors() {
    let mut f = Files::new();
    let err = f.update("missing", Some(0), None, r#"{"action": "deny"}"#).unwrap_err();
    assert!(err.contains("not found"), "unexpected: {err}");
}

// ---------- create_lsrules_file ----------

#[test]
fn creates_file_with_correct_name() {
    let mut f = Files::new();
    let result = f.create(minimal("my-rules")).unwrap();
    assert!(f.text(&result.path).is_some());
    assert_eq!(result.path, "/m/rules/my-rules.lsrules");
}

#[test]
fn file_contains_name_field() {
    let mut f = Files::new();
    let result = f.create(minimal("check-name")).unwrap();
    let content = json(&f.text(&result.path).unwrap());
    assert_eq!(texts(&content, "name"), "check-name");
}

#[test]
fn refuses_overwrite_without_replace() {
    let mut f = Files::new();
    f.create(minimal("dup")).unwrap();
    let err = f.create(minimal("dup")).unwrap_err();
    assert!(err.contains("replace: true"), "unexpected: {err}");
}

#[test]
fn replace_true_overwrites() {
    let mut f = Files::new();
    f.create(minimal("overwrite-me")).unwrap();
    let mut args = minimal("overwrite-me");
    args.replace = Some(true);
    assert!(f.create(args).is_ok());
}

#[test]
fn description_stored_in_file() {
    let mut f = Files::new();
    let args =
        CreateLsrulesArgs { description: Some("My desc".into()), ..minimal("with-desc") };
    let r = f.create(args).unwrap();
    let content = json(&f.text(&r.path).unwrap());
    assert_eq!(texts(&content, "description"), "My desc");
}

#[test]
fn valid_rule_is_accepted() {
    let mut f = Files::new();
    let args = CreateLsrulesArgs { rules: Some(vec![json(ALLOW_ANY)]), ..minimal("with-rule") };
    assert!(f.create(args).is_ok());
}

#[test]
fn create_lsrules_file_invalid_rule_is_rejected() {
    let mut f = Files::new();
    let args = CreateLsrulesArgs {
        rules: Some(vec![json(r#"{"action": "INVALID"}"#)]),
        ..minimal("bad-rule")
    };
    let err = f.create(args).unwrap_err();
    assert!(err.contains("schema validation"), "unexpected error: {err}");
}

#[test]
fn path_traversal_in_name_rejected() {
    let mut f = Files::new();
    assert!(f.create(minimal("../escape")).is_err());
}

#[test]
fn a_file_is_created_below_a_given_root() {
    let (r, text) = create_lsrules_file::run_with_root(
        CreateLsrulesArgs {
            denied_remote_domains: Some(vec!["ads.example".into()]),
            ..minimal("n")
        },
        "/root",
        Ok(()),
        false,
        &schema(),
    )
    .unwrap();
    assert_eq!(r.path, "/root/rules/n.lsrules");
    assert!(json(&text).get("denied-remote-domains").unwrap().same(&json("[\"ads.example\"]")));
    let err = create_lsrules_file::run_with_root(
        minimal("n"),
        "/root",
        Err("denied".into()),
        false,
        &schema(),
    );
    assert!(err.unwrap_err().contains("denied"));
    let err = create_lsrules_file::run(minimal("n"), Err("denied".into()), false, &schema());
    assert!(err.unwrap_err().contains("denied"));
}

// ---------- validate_lsrules ----------

fn valid(v: &str) -> ValidateResult {
    let args = ValidateLsrulesArgs { path: None, inline_json: Some(json(v)) };
    validate_lsrules::run(args, Err("not read".into()), &schema()).unwrap()
}

#[test]
fn minimal_valid_document() {
    let result = valid(r#"{"name": "My Rules"}"#);
    assert!(result.valid);
    assert!(result.errors.is_empty());
}

#[test]
fn missing_required_name() {
    let result = valid("{}");
    assert!(!result.valid);
    assert!(!result.errors.is_empty());
}

#[test]
fn unknown_top_level_field_rejected() {
    let result = valid(r#"{"name": "X", "bogus": true}"#);
    assert!(!result.valid);
}

#[test]
fn valid_rule_with_allow_action() {
    let result = valid(
        r#"{"name": "Test", "rules": [{"action": "allow", "process": "any", "remote": "any"}]}"#,
    );
    assert!(result.valid, "errors: {:?}", result.errors);
}

#[test]
fn invalid_rule_action_rejected() {
    let result = valid(r#"{"name": "Test", "rules": [{"action": "INVALID"}]}"#);
    assert!(!result.valid);
}

#[test]
fn error_includes_json_pointer_path() {
    let result = valid(r#"{"name": "Test", "rules": [{"action": "INVALID"}]}"#);
    assert!(!result.errors.is_empty());
    let first = &result.errors[0];
    assert!(
        first.path.contains("rules") || first.path.contains("action"),
        "unexpected path: {}",
        first.path
    );
    assert_eq!(first.path, "/rules/0/action");
}

#[test]
fn both_inputs_is_error() {
    let args = ValidateLsrulesArgs {
        path: Some("/tmp/x.lsrules".into()),
        inline_json: Some(Json::object()),
    };
    assert!(validate_lsrules::run(args, Ok("{}".into()), &schema()).is_err());
}

#[test]
fn no_inputs_is_error() {
    let args = ValidateLsrulesArgs { path: None, inline_json: None };
    assert!(validate_lsrules::run(args, Ok("{}".into()), &schema()).is_err());
}

#[test]
fn missing_file_is_error() {
    let args = ValidateLsrulesArgs {
        path: Some("/tmp/__nonexistent_lsrules_test__.lsrules".into()),
        inline_json: None,
    };
    let missing = Err("No such file or directory".to_string());
    assert!(validate_lsrules::run(args, missing, &schema()).is_err());
}

#[test]
fn a_file_is_parsed_before_it_is_validated() {
    let args = || ValidateLsrulesArgs { path: Some("/x".into()), inline_json: None };
    assert!(validate_lsrules::run(args(), Ok("not json".into()), &schema()).is_err());
    let ok = validate_lsrules::run(args(), Ok("{\"name\": \"x\"}".into()), &schema()).unwrap();
    assert!(ok.valid);
    assert!(validate_lsrules::validate(&json("{}"), &json("{\"type\": 7}")).is_err());
    let complaint = FieldError {
        path: "/a".into(),
        message: "bad".into(),
        expected: None,
        actual: None,
    };
    assert!(write_complaints(&vec![complaint]).contains("/a"));
}

#[test]
fn a_schema_that_does_not_compile_is_reported() {
    let outside = json(
        r#"{"properties": {"a": {"$ref": "http://x.invalid/a"}, "b": {"$ref": "http://x.invalid/b"}}}"#,
    );
    for bad in [&json("{\"type\": 7}"), &outside] {
        let err = validate_lsrules::validate(&json("{}"), bad).unwrap_err();
        assert_eq!(err, "lsrules schema does not compile");
        let args = CreateLsrulesArgs {
            name: "x".into(),
            description: None,
            denied_remote_domains: None,
            rules: None,
            replace: None,
        };
        let err = create_lsrules_file::run(args, Ok("/m/rules".into()), false, bad).unwrap_err();
        assert_eq!(err, "schema validation error: lsrules schema does not compile");
    }
}

// ---------- lsrules_metadata ----------

#[test]
fn validate_file_name_rejects_empty() {
    assert!(validate_file_name("").is_err());
}

#[test]
fn validate_file_name_rejects_slash() {
    assert!(validate_file_name("dir/file").is_err());
    assert!(validate_file_name("dir\\file").is_err());
}

#[test]
fn validate_file_name_accepts_plain() {
    assert!(validate_file_name("my-rules").is_ok());
    assert!(validate_file_name("MyRules123").is_ok());
}

#[test]
fn unified_diff_identical_returns_empty() {
    let same = "line1\nline2\n";
    let diff = unified_diff(same, same, "test");
    assert_eq!(diff, "", "identical files should produce empty diff");
}

#[test]
fn unified_diff_detects_change() {
    let diff = unified_diff("line1\nline2\n", "line1\nline_changed\n", "test");
    assert!(diff.contains("-line2"), "diff should show removed line");
    assert!(diff.contains("+line_changed"), "diff should show added line");
}

#[test]
fn unified_diff_holds_both_texts() {
    let (old, new) = ("a\nb\nc\nd\n", "a\nx\nc\ny\nd\n");
    let diff = unified_diff(old, new, "test");
    let side = |mark: char| -> String {
        diff.lines()
            .skip(2)
            .filter(|l| !l.starts_with(mark))
            .map(|l| format!("{}\n", &l[1..]))
            .collect()
    };
    assert_eq!(side('+'), old);
    assert_eq!(side('-'), new);
}

#[test]
fn unified_diff_includes_label() {
    let diff = unified_diff("a\n", "b\n", "my-label");
    assert!(diff.contains("my-label"), "diff header must include label");
}

#[test]
fn metadata_is_set_and_the_rest_is_kept() {
    let text = to_pretty_text(&json(r#"{"name": "old", "rules": [{"action": "deny"}]}"#));
    let args = SetMetadataArgs {
        file_name: "f".into(),
        name: Some("new".into()),
        description: Some("what for".into()),
    };
    let (r, after) = set_metadata(args, "/m", ManagedText::Text(text)).unwrap();
    assert_eq!(r.name, "new");
    assert_eq!(r.description.as_deref(), Some("what for"));
    assert!(r.diff.contains("+  \"name\": \"new\""));
    let doc = json(&after);
    assert_eq!(texts(&doc, "name"), "new");
    assert!(doc.get("rules").unwrap().same(&json("[{\"action\": \"deny\"}]")));
}

#[test]
fn two_files_are_compared() {
    let args = || DiffLsrulesArgs { file_a: "a".into(), file_b: "b".into() };
    let text = |s: &str| ManagedText::Text(s.to_string());
    let same = diff_files(args(), "/m", text("{}\n"), text("{}\n")).unwrap();
    assert!(same.identical);
    assert_eq!(same.diff, "");
    let other = diff_files(args(), "/m", text("x\n"), text("y\n")).unwrap();
    assert!(!other.identical);
    assert!(other.diff.contains("-x") && other.diff.contains("+y"));
    assert!(diff_files(args(), "/m", ManagedText::Failed("io".into()), text("")).is_err());
}

// ---------- the whole cycle ----------

#[test]
fn full_crud_cycle_produces_expected_final_state() {
    let mut f = Files::new();
    let create = f
        .create(CreateLsrulesArgs {
            description: Some("integration test".into()),
            ..minimal("cycle")
        })
        .expect("create should succeed");
    assert_eq!(create.name, "cycle");
    let r1 = ALLOW_ANY;
    let r2 = r#"{"action": "deny", "process": "/usr/bin/curl", "remote": "any"}"#;
    let r3 = r#"{"action": "allow", "process": "/usr/bin/ssh", "remote": "any"}"#;
    for rule in [r1, r2, r3] {
        let res = f.add("cycle", json(rule)).expect("add should succeed");
        assert!(!res.already_present);
    }
    let upd = f
        .update("cycle", None, Some(r#"{"process": "/usr/bin/curl"}"#), r#"{"action": "allow"}"#)
        .expect("update should succeed");
    assert_eq!(texts(&upd.rule_before, "action"), "deny");
    assert_eq!(texts(&upd.rule_after, "action"), "allow");
    let rem = f
        .remove("cycle", None, Some(r#"{"process": "/usr/bin/ssh", "action": "allow"}"#))
        .expect("remove should succeed");
    assert_eq!(texts(&rem.removed_rule, "process"), "/usr/bin/ssh");
    assert_eq!(rem.rules_remaining, 2);
    let val = f.validate("cycle");
    assert!(val.valid, "final file must be schema-valid: {:?}", val.errors);
}

#[test]
fn add_is_idempotent() {
    let mut f = Files::new();
    f.create(minimal("idem")).unwrap();
    let first = f.add("idem", json(ALLOW_ANY)).unwrap();
    assert!(!first.already_present);
    assert_eq!(first.rules_total, 1);
    let second = f.add("idem", json(ALLOW_ANY)).unwrap();
    assert!(second.already_present, "second add must be a no-op");
    assert_eq!(second.rules_total, 1, "rule count must not change");
    assert!(second.diff.is_empty(), "no diff for a no-op add");
}

#[test]
fn remove_last_rule_leaves_valid_empty_file() {
    let mut f = Files::new();
    f.create(CreateLsrulesArgs { rules: Some(vec![json(ALLOW_ANY)]), ..minimal("last") }).unwrap();
    let rem = f.remove("last", Some(0), None).unwrap();
    assert_eq!(rem.rules_remaining, 0);
    assert!(f.validate("last").valid, "empty-rules file must still be schema-valid");
}

#[test]
fn remove_after_removal_errors_gracefully() {
    let mut f = Files::new();
    f.create(CreateLsrulesArgs { rules: Some(vec![json(ALLOW_ANY)]), ..minimal("gone") }).unwrap();
    f.remove("gone", Some(0), None).unwrap();
    let err = f.remove("gone", Some(0), None).unwrap_err();
    assert!(err.contains("out of range"), "unexpected: {err}");
}

// ---------- parts ----------

#[test]
fn a_rule_matches_what_it_holds() {
    let rule = json(r#"{"action": "deny", "ports": [1, 2]}"#);
    assert!(rule_matches(&rule, &json(r#"{"ports": [1, 2]}"#)));
    assert!(!rule_matches(&rule, &json(r#"{"ports": [1]}"#)));
    assert!(!rule_matches(&rule, &json(r#"{"remote": "any"}"#)));
    assert!(check_plain_name("a"));
    assert!(!check_plain_name("a/b"));
    assert_eq!(path_below("/m/", "x"), "/m/x");
    assert_eq!(path_below("/m", "/x"), "/x");
}

#[test]
fn a_diff_is_written_with_its_header() {
    let d = make_diff("a\nb\n", "a\nc\n", "f");
    assert!(d.contains("-b\n") && d.contains("+c\n"), "unexpected: {d}");
    assert!(d.contains("---") && d.contains("+++"), "unexpected: {d}");
    assert_eq!(make_diff("a\n", "a\n", "f"), make_diff("", "", "f"));
}
