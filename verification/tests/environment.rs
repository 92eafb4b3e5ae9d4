use little_snitch_mcp::cli::{check_version, classify, LsCliError, VersionResult};
use little_snitch_mcp::json::parse;
use little_snitch_mcp::model::read::read_model;
use little_snitch_mcp::model::{Direction, Model, Priority};
use little_snitch_mcp::safety::touchid::{detect, PamRead, TouchIdSudoStatus};
use little_snitch_mcp::tools::capture_process_traffic::{
    self, CaptureStep, CaptureTrafficArgs, DEFAULT_DURATION_SECS, DEFAULT_MAX_BYTES,
    MAX_ALLOWED_BYTES, MAX_DURATION_SECS,
};
use little_snitch_mcp::tools::doctor::{
    self, all_green, Binary, Check, CheckStatus, DirState, DoctorArgs, DoctorReport, Probe,
};
use little_snitch_mcp::tools::explain_rule_match::{
    self, deciding_key_str, parse_direction, query, DecidingKey, ExplainRuleMatchArgs, MatchReason,
    RuleMatch,
};
use little_snitch_mcp::tools::warm_sudo::{
    self, setup_instructions, status_string, SetupInstructions, Waiting, WarmSudoArgs,
    WarmSudoResult, MAX_POLLS, POLL_INTERVAL_SECS,
};

// ---------- the littlesnitch command ----------

#[test]
fn log_not_authorized_maps_to_error() {
    let err = classify(1, "Error: command line tool is not authorized\n");
    assert!(matches!(err, LsCliError::NotAuthorized), "expected NotAuthorized, got: {err:?}");
}

#[test]
fn rulegroup_not_found_maps_to_error() {
    let err = classify(1, "Error: Rule group or blocklist \"No Such Group\" not found\n");
    assert!(matches!(err, LsCliError::NotFound { .. }), "expected NotFound, got: {err:?}");
    if let LsCliError::NotFound { resource } = err {
        assert_eq!(resource, "No Such Group");
    }
}

#[test]
fn profile_must_be_root_maps_to_error() {
    let err = classify(1, "Error: must be run as root\n");
    assert!(matches!(err, LsCliError::MustBeRoot), "expected MustBeRoot, got: {err:?}");
}

#[test]
fn generic_non_zero_exit_maps_to_generic_error() {
    match classify(42, "unexpected failure output\n") {
        LsCliError::Generic { exit_code, stderr } => {
            assert_eq!(exit_code, 42);
            assert!(stderr.contains("unexpected failure output"));
        }
        other => panic!("expected Generic, got: {other:?}"),
    }
}

#[test]
fn versions_from_6_3_3_on_are_compatible() {
    assert_eq!(check_version("6.3.3\n"), VersionResult::Compatible("6.3.3".into()));
    assert_eq!(check_version("6.10.0"), VersionResult::Compatible("6.10.0".into()));
    assert_eq!(check_version("7.0.0"), VersionResult::Compatible("7.0.0".into()));
    assert_eq!(check_version("6.3.2"), VersionResult::TooOld("6.3.2".into()));
    assert_eq!(check_version("6.2.9"), VersionResult::TooOld("6.2.9".into()));
    assert_eq!(check_version("5.9.9"), VersionResult::TooOld("5.9.9".into()));
    assert_eq!(check_version("6.3"), VersionResult::Unparseable("6.3".into()));
    assert_eq!(check_version("six"), VersionResult::Unparseable("six".into()));
}

// ---------- doctor ----------

#[test]
fn doctor_report_ok_only_when_all_green() {
    let report = DoctorReport {
        ok: false,
        checks: vec![
            Check {
                name: "a",
                status: CheckStatus::Green,
                message: "fine".into(),
                remediation: None,
            },
            Check {
                name: "b",
                status: CheckStatus::Red,
                message: "broken".into(),
                remediation: None,
            },
        ],
    };
    assert!(!all_green(&report.checks));
    assert!(all_green(&vec![]));
}

#[test]
fn check_status_serializes_lowercase() {
    assert_eq!(CheckStatus::Green.as_str(), "green");
    assert_eq!(CheckStatus::Yellow.as_str(), "yellow");
    assert_eq!(CheckStatus::Red.as_str(), "red");
}

fn good_binary() -> Binary {
    Binary::Found {
        path: "/usr/local/bin/littlesnitch".into(),
        version: VersionResult::Compatible("6.3.3".into()),
    }
}

fn examine(binary: Binary, probe: Probe, touchid: TouchIdSudoStatus, dir: DirState) -> DoctorReport {
    doctor::run(DoctorArgs {}, &binary, &probe, &touchid, &dir).unwrap()
}

#[test]
fn doctor_is_content_when_everything_is_in_place() {
    let r = examine(
        good_binary(),
        Probe::Passed,
        TouchIdSudoStatus::Configured,
        DirState::Ready("/m".into()),
    );
    assert!(r.ok);
    let names: Vec<&str> = r.checks.iter().map(|c| c.name).collect();
    assert_eq!(
        names,
        vec![
            "ls_binary",
            "cli_authorized",
            "touchid_sudo",
            "managed_dir",
            "restore_model_terminal_flag"
        ]
    );
    assert_eq!(r.checks[0].message, "found at /usr/local/bin/littlesnitch (version 6.3.3)");
    assert_eq!(r.checks[4].message, "restore-model supports -t (LS 6.3.3 ≥ 6.3.3)");
    assert!(r.checks.iter().all(|c| c.remediation.is_none()));
}

#[test]
fn doctor_names_everything_that_is_wrong() {
    let r = examine(
        Binary::Missing("nowhere".into()),
        Probe::NoBinary("nowhere".into()),
        TouchIdSudoStatus::FileMissing,
        DirState::NoDirectory("denied".into()),
    );
    assert!(!r.ok);
    let status: Vec<CheckStatus> = r.checks.iter().map(|c| c.status).collect();
    assert_eq!(
        status,
        vec![
            CheckStatus::Red,
            CheckStatus::Red,
            CheckStatus::Yellow,
            CheckStatus::Red,
            CheckStatus::Red
        ]
    );
    assert_eq!(r.checks[0].message, "littlesnitch binary not found: nowhere");
    assert_eq!(r.checks[1].message, "binary unavailable: nowhere");
    assert_eq!(r.checks[3].message, "cannot bootstrap managed directory: denied");

    let r = examine(
        Binary::Found { path: "/b".into(), version: VersionResult::Unparseable("x\"".into()) },
        Probe::Refused { error: LsCliError::MustBeRoot, text: "root".into() },
        TouchIdSudoStatus::ReadError("io".into()),
        DirState::ReadOnly("/m".into()),
    );
    assert_eq!(r.checks[0].status, CheckStatus::Yellow);
    assert_eq!(r.checks[0].message, "found at \"/b\" but could not parse version: \"x\\\"\"");
    assert_eq!(r.checks[1].status, CheckStatus::Yellow);
    assert_eq!(r.checks[2].message, "could not read PAM config: io");
    assert_eq!(r.checks[3].message, "managed directory is read-only: /m");

    let r = examine(
        Binary::Found { path: "/b".into(), version: VersionResult::TooOld("6.0.0".into()) },
        Probe::Refused { error: LsCliError::NotAuthorized, text: "no".into() },
        TouchIdSudoStatus::NotConfigured,
        DirState::StatFailed("io".into()),
    );
    assert_eq!(r.checks[0].message, "version 6.0.0 is below minimum 6.3.3");
    assert_eq!(r.checks[1].status, CheckStatus::Red);
    assert_eq!(r.checks[3].message, "managed directory stat failed: io");
    assert_eq!(r.checks[4].status, CheckStatus::Red);

    let r = examine(
        good_binary(),
        Probe::Refused {
            error: LsCliError::Generic { exit_code: 3, stderr: "odd".into() },
            text: "exit code 3: odd".into(),
        },
        TouchIdSudoStatus::Configured,
        DirState::Ready("/m".into()),
    );
    assert!(!r.ok);
    assert_eq!(r.checks[1].message, "probe call returned unexpected error: exit code 3: odd");
}

// ---------- explain_rule_match ----------

fn args(process: &str, remote: &str) -> ExplainRuleMatchArgs {
    ExplainRuleMatchArgs {
        process: process.into(),
        remote_hostname: Some(remote.into()),
        remote_ip: None,
        port: None,
        direction: None,
        protocol: None,
    }
}

fn model_of(rules: &[&str]) -> Model {
    let text = format!(
        "{{\"bundleVersion\": 1, \"factoryRuleSetVersion\": 1, \"rules\": [{}], \"groups\": {{}}, \
         \"disabledDomainsInLists\": [], \"disabledHostNamesInLists\": [], \
         \"disabledIPAddressRangesInLists\": []}}",
        rules.join(", ")
    );
    read_model(&parse(&text).unwrap()).unwrap()
}

const ALLOW_ANY: &str = r#"{"action": "allow", "creationDate": "2026-01-01T00:00:00Z",
    "modificationDate": "2026-01-01T00:00:00Z", "origin": "frontend", "uid": 501,
    "process": "any", "remote": "any"}"#;

const DENY_ANY: &str = r#"{"action": "deny", "creationDate": "2026-01-01T00:00:00Z",
    "modificationDate": "2026-01-01T00:00:00Z", "origin": "frontend", "uid": 501,
    "process": "any", "remote": "any"}"#;

const ALLOW_ADDRESS: &str = r#"{"action": "allow", "creationDate": "2026-01-01T00:00:00Z",
    "modificationDate": "2026-01-01T00:00:00Z", "origin": "frontend", "uid": 501,
    "process": "any", "remote-addresses": "10.0.0.1"}"#;

fn allow_at(index: usize, deciding_key: Option<DecidingKey>) -> Option<RuleMatch> {
    Some(RuleMatch {
        index,
        why: MatchReason { priority: Priority::Regular, specificity_score: 0, deciding_key },
    })
}

#[test]
fn match_returns_provisional_status() {
    let r = explain_rule_match::run(
        args("/usr/bin/curl", "example.com"),
        &model_of(&[ALLOW_ANY]),
        allow_at(0, None),
    );
    assert_eq!(r.simulator_status, "unverified-against-live-ls");
    assert!(r.warning.contains("NOT been verified against"));
    assert!(r.matched);
    assert_eq!(r.action.as_deref(), Some("allow"));
}

#[test]
fn no_match_still_carries_provenance_warning() {
    let r = explain_rule_match::run(args("/usr/bin/curl", "example.com"), &model_of(&[]), None);
    assert_eq!(r.simulator_status, "unverified-against-live-ls");
    assert!(r.warning.contains("NOT been verified against"));
    assert!(!r.matched);
    assert!(r.action.is_none());
    assert!(r.explanation.contains("No rule applied"));
}

#[test]
fn explanation_names_the_priority_tier_and_score() {
    let r = explain_rule_match::run(
        args("/usr/bin/curl", "example.com"),
        &model_of(&[ALLOW_ANY]),
        allow_at(0, None),
    );
    assert!(r.explanation.contains("Priority tier: regular"));
    assert!(r.explanation.contains("Specificity score:"));
}

#[test]
fn explanation_names_deciding_key_when_multiple_apply() {
    let found = allow_at(0, Some(DecidingKey::DeclarationOrder));
    let m = model_of(&[ALLOW_ANY, ALLOW_ANY]);
    let r = explain_rule_match::run(args("/usr/bin/curl", "example.com"), &m, found);
    assert_eq!(r.rule_index, Some(0));
    assert!(r.explanation.contains("declaration order"));
}

#[test]
fn explanation_says_no_other_when_only_one_applies() {
    let r = explain_rule_match::run(
        args("/usr/bin/curl", "example.com"),
        &model_of(&[ALLOW_ANY]),
        allow_at(0, None),
    );
    assert!(r.explanation.contains("No other rule was applicable"));
}

#[test]
fn warning_links_to_verification_issue() {
    let r = explain_rule_match::run(args("/usr/bin/curl", "example.com"), &model_of(&[]), None);
    assert!(
        r.warning.contains("issues/29"),
        "warning must point operators at the verification ticket: {}",
        r.warning
    );
}

#[test]
fn parse_direction_defaults_to_outgoing() {
    assert_eq!(parse_direction(None), Direction::Outgoing);
    assert_eq!(parse_direction(Some("garbage")), Direction::Outgoing);
    assert_eq!(parse_direction(Some("incoming")), Direction::Incoming);
    assert_eq!(parse_direction(Some("both")), Direction::Both);
}

#[test]
fn explain_handles_remote_addresses_match() {
    let mut a = args("/usr/bin/curl", "ignored");
    a.remote_hostname = None;
    a.remote_ip = Some("10.0.0.1".into());
    assert_eq!(query(&a).remote_ip, Some("10.0.0.1"));
    let result = explain_rule_match::run(a, &model_of(&[ALLOW_ADDRESS]), allow_at(0, None));
    assert!(result.matched);
    assert_eq!(result.action.as_deref(), Some("allow"));
}

#[test]
fn the_explanation_is_written_out_in_full() {
    let mut a = args("/usr/bin/curl", "a\"b");
    a.port = Some(443);
    let found = Some(RuleMatch {
        index: 7,
        why: MatchReason {
            priority: Priority::High,
            specificity_score: 12,
            deciding_key: Some(DecidingKey::PriorityTier),
        },
    });
    let mut rules = vec![ALLOW_ANY; 7];
    rules.push(DENY_ANY);
    let r = explain_rule_match::run(a, &model_of(&rules), found);
    assert_eq!((r.rule_index, r.action.as_deref()), (Some(7), Some("deny")));
    assert_eq!(
        r.explanation,
        "Rule at index 7 matched. Action: deny.\n\nWhy:\n  - Priority tier: high\n  \
         - Specificity score: 12\n  - Decided over the next-best rule by: priority tier\n\n\
         Query: process=/usr/bin/curl, remote_hostname=Some(\"a\\\"b\"), remote_ip=None, port=Some(443)"
    );
    assert_eq!(deciding_key_str(DecidingKey::SpecificityScore), "specificity score");
    assert_eq!(deciding_key_str(DecidingKey::GroupPrecedence), "group precedence");

    let mut a = args("/usr/bin/curl", "h");
    a.direction = Some("incoming".into());
    assert_eq!(query(&a).direction, Direction::Incoming);
    let r = explain_rule_match::run(a, &model_of(&[ALLOW_ANY]), None);
    assert_eq!(
        r.explanation,
        "No rule applied to the query: process=\"/usr/bin/curl\", remote_hostname=Some(\"h\"), \
         remote_ip=None, port=None, direction=Some(\"incoming\"). LS would fall back to its \
         default policy (typically: ask, then deny if unanswered)."
    );
}

// ---------- warm_sudo ----------

#[test]
fn status_string_variants() {
    assert_eq!(status_string(&TouchIdSudoStatus::Configured), "configured");
    assert_eq!(status_string(&TouchIdSudoStatus::NotConfigured), "not_configured");
    assert_eq!(status_string(&TouchIdSudoStatus::FileMissing), "pam_file_missing");
    assert!(
        status_string(&TouchIdSudoStatus::ReadError("oops".to_string())).contains("read_error")
    );
}

#[test]
fn instructions_have_pam_tid_command() {
    let instructions = setup_instructions();
    assert!(instructions.tier1_touchid.iter().any(|s| s.contains("pam_tid.so")));
    assert!(instructions.tier3_keepalive.contains("sudo -v"));
    assert_eq!(instructions.tier1_touchid.len(), 3);
}

#[test]
fn result_serializes_all_fields() {
    let r = WarmSudoResult {
        already_root: true,
        touchid_status: "configured".to_string(),
        instructions: SetupInstructions {
            tier1_touchid: vec!["cmd1".to_string()],
            tier3_keepalive: "keepalive".to_string(),
        },
        sudo_available: true,
        polls_performed: 0,
        message: "ok".to_string(),
    };
    assert!(r.already_root);
    assert!(r.sudo_available);
    assert_eq!(r.polls_performed, 0);
    assert_eq!(r.instructions.tier1_touchid.len(), 1);
}

#[test]
fn max_polls_constant_gives_60s() {
    assert_eq!(MAX_POLLS * POLL_INTERVAL_SECS as u32, 60);
}

#[test]
fn root_needs_no_polling() {
    let r =
        warm_sudo::run(WarmSudoArgs {}, true, &TouchIdSudoStatus::Configured, Waiting::start())
            .unwrap();
    assert!(r.already_root && r.sudo_available);
    assert_eq!(r.polls_performed, 0);
    assert_eq!(r.message, "MCP server is running as root — live-write tools are available.");
}

#[test]
fn polling_stops_at_the_first_yes() {
    let mut w = Waiting::start();
    w = w.next(false);
    w = w.next(false);
    assert_eq!(w, Waiting::Ask { failed: 2 });
    w = w.next(true);
    assert_eq!(w, Waiting::Available { polls: 3 });
    assert_eq!(w.next(false), w);
    let r = warm_sudo::run(WarmSudoArgs {}, false, &TouchIdSudoStatus::Configured, w).unwrap();
    assert!(!r.already_root && r.sudo_available);
    assert_eq!(r.polls_performed, 3);
    assert_eq!(r.message, "sudo is now available — live-write tools are enabled for this session.");
}

#[test]
fn polling_ends_after_the_last_pause() {
    let mut w = Waiting::start();
    for _ in 0..12 {
        w = w.next(false);
    }
    assert_eq!(w, Waiting::Ask { failed: 12 });
    assert_eq!(w.next(true), Waiting::Available { polls: 13 });
    w = w.next(false);
    assert_eq!(w, Waiting::GaveUp);
    let r = warm_sudo::run(WarmSudoArgs {}, false, &TouchIdSudoStatus::FileMissing, w).unwrap();
    assert!(!r.sudo_available);
    assert_eq!(r.polls_performed, 13);
    assert_eq!(r.touchid_status, "pam_file_missing");
    assert_eq!(
        r.message,
        "sudo is not yet available after 12 polls (60 s). Follow the setup instructions below, \
         then invoke warm_sudo again."
    );
}

#[test]
fn touchid_is_read_from_the_pam_configuration() {
    let on = detect(PamRead::Text("# sudo\nauth sufficient pam_tid.so\n".into()));
    assert!(matches!(on, TouchIdSudoStatus::Configured));
    let off = detect(PamRead::Text("  # auth sufficient pam_tid.so\n".into()));
    assert!(matches!(off, TouchIdSudoStatus::NotConfigured));
    assert!(matches!(detect(PamRead::Missing), TouchIdSudoStatus::FileMissing));
    match detect(PamRead::Failed("io".into())) {
        TouchIdSudoStatus::ReadError(e) => assert_eq!(e, "io"),
        other => panic!("unexpected: {other:?}"),
    }
}

// ---------- capture_process_traffic ----------

fn capture(process: &str) -> CaptureTrafficArgs {
    CaptureTrafficArgs {
        process_path: process.to_string(),
        parent_path: None,
        pcap_format: false,
        max_duration_seconds: None,
        max_bytes: None,
    }
}

fn plan(a: CaptureTrafficArgs) -> Result<capture_process_traffic::CapturePlan, String> {
    capture_process_traffic::run(a, Ok("/m/captures".into()), Ok(()), 1_705_322_096)
}

#[test]
fn defaults_are_sane() {
    assert!(DEFAULT_DURATION_SECS <= MAX_DURATION_SECS);
    assert!(DEFAULT_MAX_BYTES <= MAX_ALLOWED_BYTES);
    assert!(MAX_DURATION_SECS == 300);
    assert!(MAX_ALLOWED_BYTES == 100 * 1024 * 1024);
}

#[test]
fn timestamp_format_is_correct() {
    let ts = capture_process_traffic::timestamp_now(1_777_200_000);
    assert_eq!(ts.len(), 16);
    assert!(ts.ends_with('Z'));
    assert!(ts.contains('T'));
}

#[test]
fn rejects_empty_process_path() {
    let result = plan(capture(""));
    assert!(result.is_err());
    assert!(
        result.unwrap_err().contains("process_path"),
        "error should mention process_path"
    );
}

#[test]
fn capture_process_traffic_rejects_zero_duration() {
    let mut a = capture("/usr/bin/curl");
    a.max_duration_seconds = Some(0);
    assert_eq!(plan(a).unwrap_err(), "max_duration_seconds must be between 1 and 300");
}

#[test]
fn capture_process_traffic_rejects_over_max_duration() {
    let mut a = capture("/usr/bin/curl");
    a.max_duration_seconds = Some(MAX_DURATION_SECS + 1);
    assert!(plan(a).is_err());
}

#[test]
fn rejects_over_max_bytes() {
    let mut a = capture("/usr/bin/curl");
    a.max_duration_seconds = Some(1);
    a.max_bytes = Some(MAX_ALLOWED_BYTES + 1);
    assert_eq!(plan(a).unwrap_err(), "max_bytes must be between 1 and 104857600 (100 MiB)");
}

#[test]
fn a_capture_is_planned_and_ends_within_its_limits() {
    let mut a = capture("/usr/bin/curl");
    a.parent_path = Some("/bin/sh".into());
    a.pcap_format = true;
    a.max_duration_seconds = Some(2);
    a.max_bytes = Some(10);
    let p = plan(a).unwrap();
    assert_eq!(p.capture_path, "/m/captures/20240115T123456Z.pcap");
    assert_eq!(p.command, vec!["capture-traffic", "-v", "/bin/sh", "-p", "/usr/bin/curl"]);
    assert_eq!(p.before_pause(1999), CaptureStep::GoOn);
    assert_eq!(p.before_pause(2000), CaptureStep::Stop { size_cap_hit: false });
    assert_eq!(p.after_pause(true, 9), CaptureStep::GoOn);
    assert_eq!(p.after_pause(true, 10), CaptureStep::Stop { size_cap_hit: true });
    assert_eq!(p.after_pause(false, 10), CaptureStep::Stop { size_cap_hit: false });
    let r = p.finish(10, 500, true);
    assert_eq!(r.format, "pcap");
    assert_eq!((r.file_size_bytes, r.duration_millis, r.size_cap_hit), (10, 500, true));

    let p = plan(capture("/usr/bin/curl")).unwrap();
    assert_eq!(p.capture_path, "/m/captures/20240115T123456Z.hex");
    assert_eq!(p.command, vec!["capture-traffic", "/usr/bin/curl"]);
    assert_eq!((p.duration_secs, p.max_bytes), (30, 10_485_760));
}

#[test]
fn a_capture_needs_a_directory_and_the_program() {
    let run = capture_process_traffic::run;
    let err = run(capture("/c"), Err("denied".into()), Ok(()), 0).unwrap_err();
    assert_eq!(err, "cannot bootstrap managed directory: denied");
    let err = run(capture("/c"), Ok("/m".into()), Err("nowhere".into()), 0).unwrap_err();
    assert_eq!(err, "littlesnitch binary not found: nowhere");
}
