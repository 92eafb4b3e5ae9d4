use little_snitch_mcp::cli::CliRun;
use little_snitch_mcp::json::{to_text, Json};
use little_snitch_mcp::model::serial::model_to_json;
use little_snitch_mcp::model::{Action, Direction, Group, Model, Origin, Rule, StringOrVec};
use little_snitch_mcp::tools::find_rules_for_remote::{
    self, address_covers_ip, address_covers_net, domain_covers, parse_query,
    query_covers_stored_domain, FindRulesForRemoteArgs, FindRulesForRemoteResult, MatchKind,
    QueryKind,
};
use little_snitch_mcp::tools::get_rules_for_process::{
    self, GetRulesForProcessArgs, GetRulesForProcessResult,
};
use little_snitch_mcp::tools::show_restrictions::{
    self, extract_expiry, parse_restrictions, ShowRestrictionsArgs,
};
use little_snitch_mcp::tools::tail_log::{
    self, parse_json_lines, TailLogArgs, TailLogResult, MAX_DURATION_SECS,
};
use little_snitch_mcp::tools::tail_traffic::{
    self, parse_csv, protocol_name, split_csv_line, TailTrafficArgs, UntrustedData, MAX_ROWS,
};

fn rule(action: Action, process: &str, date: &str) -> Rule {
    Rule {
        action,
        creation_date: date.into(),
        modification_date: date.into(),
        origin: Origin::frontend(),
        uid: None,
        process: Some(process.into()),
        requires_trusted_signature_for_any_process: None,
        remote: None,
        remote_domains: None,
        remote_hosts: None,
        remote_addresses: None,
        direction: None,
        priority: None,
        protocol: None,
        ports: None,
        via: None,
        notes: None,
        group: None,
        factory_id: None,
        factory_help_text: None,
        protected: None,
        last_used: None,
        use_count: None,
        approved: None,
        hidden: None,
        owner: None,
        extra: vec![],
    }
}

fn group(name: &str, is_active: bool) -> Group {
    Group {
        name: Some(name.into()),
        kind: None,
        kind_legacy: None,
        is_active: Some(is_active),
        update_interval: None,
        last_update_invalid_domains_count: None,
        extra: vec![],
    }
}

fn model(rules: Vec<Rule>, groups: Vec<(String, Group)>) -> Model {
    Model {
        bundle_version: 7172,
        factory_rule_set_version: 424,
        rules,
        groups,
        disabled_domains_in_lists: vec![],
        disabled_host_names_in_lists: vec![],
        disabled_ip_address_ranges_in_lists: vec![],
        rest: vec![],
    }
}

fn one(s: &str) -> Option<StringOrVec> {
    Some(StringOrVec::One(s.into()))
}

// ---------- find_rules_for_remote ----------

fn remote_model() -> Model {
    let a = || Some("grp-a".to_string());
    model(
        vec![
            Rule {
                remote_addresses: one("1.2.3.4"),
                group: a(),
                ..rule(Action::Deny, "/usr/bin/curl", "2026-01-01T00:00:00Z")
            },
            Rule {
                remote_addresses: one("10.0.0.0/8"),
                group: a(),
                ..rule(Action::Allow, "/usr/bin/curl", "2026-01-02T00:00:00Z")
            },
            Rule {
                remote_hosts: one("api.example.com"),
                group: Some("grp-b".into()),
                ..rule(Action::Allow, "/usr/bin/ssh", "2026-01-03T00:00:00Z")
            },
            Rule {
                remote_domains: one("example.com"),
                ..rule(Action::Deny, "/usr/bin/curl", "2026-01-04T00:00:00Z")
            },
            Rule {
                remote: Some("any".into()),
                ..rule(Action::Allow, "/usr/bin/curl", "2026-01-05T00:00:00Z")
            },
            Rule {
                remote_addresses: Some(StringOrVec::Many(vec!["::1".into(), "fe80::/10".into()])),
                group: a(),
                ..rule(Action::Deny, "/usr/bin/curl", "2026-01-06T00:00:00Z")
            },
        ],
        vec![
            ("grp-a".into(), group("Group A", true)),
            ("grp-b".into(), group("Group B", false)),
        ],
    )
}

fn find(remote: &str, catch_all: bool) -> FindRulesForRemoteResult {
    find_rules_for_remote::run_with_model(
        FindRulesForRemoteArgs { remote: remote.into(), include_catch_all: catch_all },
        &remote_model(),
    )
}

fn has(r: &FindRulesForRemoteResult, kind: MatchKind) -> bool {
    r.groups.iter().flat_map(|g| &g.rules).any(|r| r.match_kind == kind)
}

#[test]
fn exact_ip_matches_address_rule() {
    let r = find("1.2.3.4", false);
    assert_eq!(r.total_count, 1);
    let rule = &r.groups[0].rules[0];
    assert_eq!(rule.match_kind, MatchKind::Address);
    assert_eq!(rule.matched_remote, "1.2.3.4");
}

#[test]
fn ip_inside_cidr_matches() {
    let r = find("10.0.0.55", false);
    assert_eq!(r.total_count, 1);
    assert_eq!(r.groups[0].rules[0].match_kind, MatchKind::Address);
}

#[test]
fn ip_outside_cidr_does_not_match() {
    let r = find("192.168.1.1", false);
    assert_eq!(r.total_count, 0);
}

#[test]
fn cidr_query_overlapping_stored_cidr_matches() {
    let r = find("10.1.0.0/16", false);
    assert_eq!(r.total_count, 1);
    assert_eq!(r.groups[0].rules[0].match_kind, MatchKind::Address);
}

#[test]
fn cidr_query_no_overlap_does_not_match() {
    let r = find("192.168.0.0/16", false);
    assert_eq!(r.total_count, 0);
}

#[test]
fn ipv6_exact_matches_array_entry() {
    let r = find("::1", false);
    assert_eq!(r.total_count, 1);
    assert_eq!(r.groups[0].rules[0].match_kind, MatchKind::Address);
}

#[test]
fn ipv6_inside_link_local_cidr_matches() {
    let r = find("fe80::1", false);
    assert_eq!(r.total_count, 1);
    assert_eq!(r.groups[0].rules[0].match_kind, MatchKind::Address);
}

#[test]
fn exact_hostname_matches_remote_hosts() {
    let r = find("api.example.com", false);
    assert!(r.total_count >= 1);
    assert!(has(&r, MatchKind::Host), "should have at least one Host match");
}

#[test]
fn hostname_not_in_hosts_list_doesnt_match_host_kind() {
    let r = find("other.example.com", false);
    assert!(!has(&r, MatchKind::Host), "other.example.com is not in remote-hosts");
}

#[test]
fn stored_domain_covers_subdomain_query() {
    let r = find("api.example.com", false);
    assert!(has(&r, MatchKind::Domain), "stored domain should cover subdomain");
}

#[test]
fn exact_domain_matches() {
    let r = find("example.com", false);
    assert!(has(&r, MatchKind::Domain), "exact domain match should work");
}

#[test]
fn unrelated_domain_does_not_match() {
    let r = find("notexample.com", false);
    assert!(!has(&r, MatchKind::Domain));
}

#[test]
fn catch_all_excluded_by_default() {
    let r = find("1.2.3.4", false);
    assert!(!has(&r, MatchKind::CatchAll), "catch-all must be opt-in");
}

#[test]
fn catch_all_included_when_requested() {
    let r = find("1.2.3.4", true);
    assert!(
        has(&r, MatchKind::CatchAll),
        "catch-all rule must appear when include_catch_all=true"
    );
}

#[test]
fn only_special_values_are_catch_all() {
    let found = |remote: &str| {
        let mut m = remote_model();
        m.rules.truncate(1);
        m.rules[0].remote_addresses = None;
        m.rules[0].remote_hosts = None;
        m.rules[0].remote_domains = None;
        m.rules[0].remote = Some(remote.into());
        let args = FindRulesForRemoteArgs { remote: "other.invalid".into(), include_catch_all: true };
        find_rules_for_remote::run_with_model(args, &m).total_count
    };
    for special in
        ["any", "local-net", "multicast", "broadcast", "bonjour", "dns-servers", "bpf"]
    {
        assert_eq!(found(special), 1, "{special}");
    }
    assert_eq!(found("api.example.com"), 0);
    assert_eq!(found("Any"), 0);
    assert_eq!(found(""), 0);
}

#[test]
fn find_rules_for_remote_groups_sorted_by_display_name() {
    let r = find("1.2.3.4", true);
    let names: Vec<&str> = r.groups.iter().map(|g| g.display_name.as_str()).collect();
    let mut sorted = names.clone();
    sorted.sort();
    assert_eq!(names, sorted);
}

#[test]
fn disabled_group_flagged_in_result() {
    let r = find("api.example.com", false);
    let grp_b = r.groups.iter().find(|g| g.group_id == "grp-b");
    assert!(grp_b.is_some(), "grp-b must appear");
    let grp_b = grp_b.unwrap();
    assert!(!grp_b.is_active);
    assert!(grp_b.rules.iter().all(|r| !r.group_active));
}

fn exported(m: &Model) -> CliRun {
    CliRun::Output(to_text(&model_to_json(m)))
}

#[test]
fn no_group_bucket_appears_for_ungrouped_rules() {
    let r = find("example.com", false);
    assert!(r.groups.iter().any(|g| g.group_id == "<no-group>"));
}

#[test]
fn empty_remote_propagates_from_live_run() {
    let result = find("", false);
    assert_eq!(result.total_count, 0);
    let live = find_rules_for_remote::run(
        FindRulesForRemoteArgs { remote: String::new(), include_catch_all: false },
        exported(&remote_model()),
    );
    assert!(live.is_err());
}

#[test]
fn total_count_matches_sum_of_rule_counts() {
    let r = find("10.0.0.1", true);
    let sum: usize = r.groups.iter().map(|g| g.rules.len()).sum();
    assert_eq!(r.total_count, sum);
}

#[test]
fn domain_covers_exact_and_subdomain() {
    assert!(domain_covers("example.com", "example.com"));
    assert!(domain_covers("example.com", "api.example.com"));
    assert!(domain_covers("example.com", "deep.api.example.com"));
    assert!(!domain_covers("example.com", "notexample.com"));
    assert!(!domain_covers("example.com", "xexample.com"));
}

fn covers(stored: &str, ip: &str) -> bool {
    match parse_query(ip) {
        QueryKind::Ip(a) => address_covers_ip(stored, a),
        QueryKind::Net(n) => address_covers_net(stored, &n),
        QueryKind::Name(n) => panic!("no address: {n}"),
    }
}

#[test]
fn address_covers_ip_exact_and_cidr() {
    assert!(covers("1.2.3.4", "1.2.3.4"));
    assert!(!covers("1.2.3.4", "1.2.3.5"));
    assert!(covers("10.0.0.0/8", "10.0.0.1"));
    assert!(!covers("10.0.0.0/8", "11.0.0.1"));
}

#[test]
fn a_found_rule_is_described_in_full() {
    let mut m = remote_model();
    m.rules[0].direction = Some(Direction::Incoming);
    let r = find_rules_for_remote::run(
        FindRulesForRemoteArgs { remote: "1.2.3.4".into(), include_catch_all: true },
        exported(&m),
    )
    .unwrap();
    assert_eq!(r.remote, "1.2.3.4");
    assert_eq!(r.total_count, 2);
    assert_eq!(r.groups[0].group_id, "<no-group>");
    assert_eq!(r.groups[0].rules[0].global_index, 4);
    assert_eq!(r.groups[0].rules[0].matched_remote, "any");
    let a = &r.groups[1];
    assert_eq!((a.group_id.as_str(), a.display_name.as_str(), a.is_active), ("grp-a", "Group A", true));
    let x = &a.rules[0];
    assert_eq!(x.global_index, 0);
    assert_eq!(x.action, "deny");
    assert_eq!(x.direction.as_deref(), Some("incoming"));
    assert_eq!(x.process.as_deref(), Some("/usr/bin/curl"));
    assert_eq!(x.creation_date, "2026-01-01T00:00:00Z");
    assert!(x.group_active);
}

#[test]
fn ranges_are_compared_within_one_family() {
    assert!(!covers("::/0", "1.2.3.4"));
    assert!(!covers("0.0.0.0/0", "::1"));
    assert!(covers("0.0.0.0/0", "255.255.255.255"));
    assert!(covers("::/0", "ffff:ffff:ffff:ffff:ffff:ffff:ffff:ffff"));
    assert!(!covers("not an address", "1.2.3.4"));
    assert!(covers("10.1.2.3", "10.1.2.0/24"));
    assert!(!covers("10.1.3.3", "10.1.2.0/24"));
    assert!(query_covers_stored_domain("api.example.com", "example.com"));
    assert!(!query_covers_stored_domain("example.com", "api.example.com"));
}

#[test]
fn a_missing_live_model_is_reported() {
    let args = || FindRulesForRemoteArgs { remote: "x".into(), include_catch_all: false };
    let err = find_rules_for_remote::run(args(), CliRun::NoBinary("nowhere".into()));
    assert_eq!(err.unwrap_err(), "littlesnitch binary not found: nowhere");
    let err = find_rules_for_remote::run(args(), CliRun::Failed("exit 1".into()));
    assert_eq!(err.unwrap_err(), "export-model failed: exit 1");
    let err = find_rules_for_remote::run(args(), CliRun::Output("{".into())).unwrap_err();
    assert!(err.starts_with("model JSON invalid: EOF while parsing"), "{err}");
    let err = find_rules_for_remote::run(args(), CliRun::Output("{}".into())).unwrap_err();
    assert_eq!(err, "model JSON invalid: missing or invalid field `bundleVersion`");
}

// ---------- get_rules_for_process ----------

fn process_model() -> Model {
    model(
        vec![
            Rule {
                remote: Some("any".into()),
                group: Some("group-active".into()),
                ..rule(Action::Allow, "/usr/bin/curl", "2026-01-01T00:00:00Z")
            },
            Rule {
                remote: Some("api.example.com".into()),
                group: Some("group-disabled".into()),
                ..rule(Action::Deny, "/usr/bin/curl", "2026-01-02T00:00:00Z")
            },
            Rule {
                remote: Some("any".into()),
                ..rule(Action::Allow, "/usr/bin/ssh", "2026-01-01T00:00:00Z")
            },
            Rule {
                remote: Some("any".into()),
                ..rule(Action::Allow, "/usr/bin/curl", "2026-01-03T00:00:00Z")
            },
        ],
        vec![
            ("group-active".into(), group("Active Group", true)),
            ("group-disabled".into(), group("Disabled Group", false)),
        ],
    )
}

fn rules_of(process: &str) -> GetRulesForProcessResult {
    get_rules_for_process::run_with_model(
        GetRulesForProcessArgs { process: process.into() },
        &process_model(),
    )
}

#[test]
fn matches_by_exact_process_path() {
    let result = rules_of("/usr/bin/curl");
    assert_eq!(result.total_count, 3);
    assert_eq!(result.process, "/usr/bin/curl");
}

#[test]
fn non_matching_process_returns_empty() {
    let result = rules_of("/usr/bin/wget");
    assert_eq!(result.total_count, 0);
    assert!(result.groups.is_empty());
}

#[test]
fn get_rules_for_process_groups_sorted_by_display_name() {
    let result = rules_of("/usr/bin/curl");
    let names: Vec<&str> = result.groups.iter().map(|g| g.display_name.as_str()).collect();
    let mut sorted = names.clone();
    sorted.sort();
    assert_eq!(names, sorted, "groups must be sorted by display name");
}

#[test]
fn disabled_group_flagged() {
    let result = rules_of("/usr/bin/curl");
    let disabled = result
        .groups
        .iter()
        .find(|g| g.display_name == "Disabled Group")
        .expect("disabled group must appear");
    assert!(!disabled.is_active);
    assert!(
        disabled.rules.iter().all(|r| !r.group_active),
        "all rules in disabled group must have group_active=false"
    );
}

#[test]
fn active_group_flagged_correctly() {
    let result = rules_of("/usr/bin/curl");
    let active = result
        .groups
        .iter()
        .find(|g| g.display_name == "Active Group")
        .expect("active group must appear");
    assert!(active.is_active);
    assert!(active.rules.iter().all(|r| r.group_active));
}

#[test]
fn no_group_bucket_present() {
    let result = rules_of("/usr/bin/curl");
    assert!(
        result.groups.iter().any(|g| g.group_id == "<no-group>"),
        "ungrouped rule must land in <no-group>"
    );
}

#[test]
fn empty_process_returns_error() {
    let result = get_rules_for_process::run(
        GetRulesForProcessArgs { process: String::new() },
        exported(&process_model()),
    );
    assert!(result.is_err());
}

#[test]
fn ssh_rules_dont_appear_in_curl_query() {
    let result = rules_of("/usr/bin/curl");
    assert_eq!(result.total_count, 3, "only curl rules, not ssh");
}

#[test]
fn a_listed_rule_is_described_in_full() {
    let result = get_rules_for_process::run(
        GetRulesForProcessArgs { process: "/usr/bin/curl".into() },
        exported(&process_model()),
    )
    .unwrap();
    let g = result.groups.iter().find(|g| g.group_id == "group-disabled").unwrap();
    assert_eq!(g.rules.len(), 1);
    let x = &g.rules[0];
    assert_eq!(x.index, 0);
    assert_eq!(x.action, "deny");
    assert_eq!(x.direction, None);
    assert_eq!(x.remote.as_deref(), Some("api.example.com"));
    assert_eq!(x.modification_date, "2026-01-02T00:00:00Z");
}

// ---------- show_restrictions ----------

#[test]
fn parse_perpetual_full_license() {
    let raw = "Product never expires.\nHave fully featured non-expiring license.\n";
    let r = parse_restrictions(raw).unwrap();
    assert!(r.licensed);
    assert_eq!(r.expires_at, None);
    assert_eq!(r.features, "full");
}

#[test]
fn parse_demo_mode() {
    let raw = "Running in demo mode.\nLimited features available.\n";
    let r = parse_restrictions(raw).unwrap();
    assert!(!r.licensed);
    assert_eq!(r.features, "limited");
}

#[test]
fn parse_expiring_license() {
    let raw = "License expires on 2025-12-31.\nHave fully featured license.\n";
    let r = parse_restrictions(raw).unwrap();
    assert!(r.licensed);
    assert_eq!(r.expires_at.as_deref(), Some("2025-12-31"));
    assert_eq!(r.features, "full");
}

#[test]
fn parse_expired_license() {
    let raw = "License expired on 2023-01-01.\nNot licensed.\n";
    let r = parse_restrictions(raw).unwrap();
    assert!(!r.licensed);
}

#[test]
fn parse_unknown_format_returns_limited() {
    let raw = "Some unexpected output format.\n";
    let r = parse_restrictions(raw).unwrap();
    assert!(r.licensed);
    assert_eq!(r.features, "limited");
}

#[test]
fn an_expiry_date_is_found_in_either_notation() {
    assert_eq!(extract_expiry("License expires on 2025-12-31.").as_deref(), Some("2025-12-31"));
    assert_eq!(
        extract_expiry("License expires on January 1, 2025.\nDemo.\n").as_deref(),
        Some("January 1, 2025")
    );
    assert_eq!(extract_expiry("Product never expires."), None);
}

#[test]
fn show_restrictions_reports_what_went_wrong() {
    let run = |ran| show_restrictions::run(ShowRestrictionsArgs {}, ran);
    assert_eq!(
        run(CliRun::NoBinary("nowhere".into())).unwrap_err(),
        "littlesnitch binary not found: nowhere"
    );
    assert!(run(CliRun::Failed("exit 1".into())).unwrap_err().ends_with("failed: exit 1"));
    assert_eq!(run(CliRun::Output("odd\n".into())).unwrap().features, "limited");
}

// ---------- tail_log ----------

fn log(duration_secs: u64) -> TailLogArgs {
    TailLogArgs { duration_secs, predicate: None }
}

#[test]
fn tail_log_rejects_zero_duration() {
    let err = tail_log::run(log(0), CliRun::Output("".into())).unwrap_err();
    assert!(err.contains("at least 1"), "unexpected: {err}");
}

#[test]
fn tail_log_rejects_over_max_duration() {
    let err = tail_log::run(log(MAX_DURATION_SECS + 1), CliRun::Output("".into())).unwrap_err();
    assert!(err.contains("exceeds maximum"), "unexpected: {err}");
}

#[test]
fn accepts_max_duration_bound_check_only() {
    if let Err(msg) = tail_log::run(log(MAX_DURATION_SECS), CliRun::NoBinary("nowhere".into())) {
        assert!(!msg.contains("exceeds maximum"), "got bounds error at max: {msg}");
    }
}

#[test]
fn parse_empty_output() {
    assert!(parse_json_lines("").unwrap().is_empty());
}

#[test]
fn parse_single_event() {
    let events = parse_json_lines(r#"{"process":"Safari","remote":"example.com"}"#).unwrap();
    assert_eq!(events.len(), 1);
    assert_eq!(events[0].text_member("process").unwrap(), "Safari");
}

#[test]
fn parse_multiple_events() {
    let input = "{\"a\":1}\n{\"b\":2}\n{\"c\":3}\n";
    assert_eq!(parse_json_lines(input).unwrap().len(), 3);
}

#[test]
fn parse_skips_blank_lines() {
    let input = "{\"a\":1}\n\n{\"b\":2}\n";
    assert_eq!(parse_json_lines(input).unwrap().len(), 2);
}

#[test]
fn parse_skips_non_json_text() {
    let input = "Starting log capture...\n{\"a\":1}\nDone.\n";
    assert_eq!(parse_json_lines(input).unwrap().len(), 1);
}

#[test]
fn parse_errors_on_malformed_json_object() {
    let result = parse_json_lines("{invalid}\n");
    assert!(result.is_err(), "expected parse error for malformed JSON");
}

#[test]
fn result_fields_consistent() {
    let r = TailLogResult {
        events: vec![Json::number(1), Json::number(2)],
        count: 2,
        duration_secs: 30,
    };
    assert_eq!(r.count, r.events.len());
    assert_eq!(r.duration_secs, 30);
}

#[test]
fn tail_log_runs_the_command_and_reads_its_output() {
    let args = TailLogArgs { duration_secs: 5, predicate: Some("deny".into()) };
    let cmd = tail_log::command_args(&args);
    assert_eq!(&cmd[..4], &["log", "-j", "-l", "5s"]);
    assert!(cmd.contains(&"deny".to_string()));
    let r = tail_log::run(args, CliRun::Output("{\"a\":1}\n{\"a\":2}\n".into())).unwrap();
    assert_eq!((r.count, r.duration_secs), (2, 5));
    assert!(r.events[1].get("a").unwrap().same(&Json::number(2)));
    assert_eq!(
        tail_log::run(log(1), CliRun::NoBinary("nowhere".into())).unwrap_err(),
        "littlesnitch binary not found: nowhere"
    );
}

// ---------- tail_traffic ----------

#[test]
fn split_csv_line_simple() {
    let cols = split_csv_line("a,b,c,d");
    assert_eq!(cols, vec!["a", "b", "c", "d"]);
}

#[test]
fn split_csv_line_quoted_field() {
    let cols = split_csv_line(r#"a,"b,c",d"#);
    assert_eq!(cols, vec!["a", "b,c", "d"]);
}

#[test]
fn split_csv_line_quoted_with_escaped_quote() {
    let cols = split_csv_line(r#"a,"b""c",d"#);
    assert_eq!(cols, vec!["a", "b\"c", "d"]);
}

#[test]
fn split_csv_line_empty_field() {
    let cols = split_csv_line("a,,c");
    assert_eq!(cols, vec!["a", "", "c"]);
}

#[test]
fn protocol_name_maps_known() {
    assert_eq!(protocol_name(6), "tcp");
    assert_eq!(protocol_name(17), "udp");
    assert_eq!(protocol_name(1), "icmp");
}

#[test]
fn protocol_name_unknown_returns_number() {
    assert_eq!(protocol_name(99), "99");
}

#[test]
fn parse_csv_single_row() {
    let csv = "2024-01-15T10:00:00Z,out,501,93.184.216.34,example.com,6,443,5,0,1024,512,\"/Applications/Safari.app/Contents/MacOS/Safari\",\"/Applications/Safari.app\"\n";
    let entries = parse_csv(csv).unwrap();
    assert_eq!(entries.len(), 1);
    let e = &entries[0];
    assert_eq!(e.date, "2024-01-15T10:00:00Z");
    assert_eq!(e.direction, "out");
    assert_eq!(e.uid, "501");
    assert_eq!(e.ip_address, "93.184.216.34");
    assert_eq!(e.remote_hostname.untrusted_data, "example.com");
    assert_eq!(e.protocol, "tcp");
    assert_eq!(e.port, 443);
    assert_eq!(e.connect_count, 5);
    assert_eq!(e.deny_count, 0);
    assert_eq!(e.byte_count_in, 1024);
    assert_eq!(e.byte_count_out, 512);
    assert_eq!(
        e.connecting_executable.untrusted_data,
        "/Applications/Safari.app/Contents/MacOS/Safari"
    );
    assert_eq!(e.parent_app_executable.untrusted_data, "/Applications/Safari.app");
}

#[test]
fn parse_csv_skips_header_line() {
    let csv = "date,direction,uid,ipAddress,remoteHostname,protocol,port,connectCount,denyCount,byteCountIn,byteCountOut,connectingExecutable,parentAppExecutable\n2024-01-15T10:00:00Z,out,501,1.2.3.4,host.example,6,80,1,0,100,50,/usr/bin/curl,\n";
    let entries = parse_csv(csv).unwrap();
    assert_eq!(entries.len(), 1);
}

#[test]
fn parse_csv_skips_empty_lines() {
    let csv = "\n2024-01-15T10:00:00Z,out,501,1.2.3.4,,17,53,2,0,200,400,/usr/bin/dns-resolver,\n\n";
    let entries = parse_csv(csv).unwrap();
    assert_eq!(entries.len(), 1);
    assert_eq!(entries[0].protocol, "udp");
}

#[test]
fn parse_csv_rejects_too_few_columns() {
    let csv = "a,b,c\n";
    let result = parse_csv(csv);
    assert!(result.is_err());
    assert!(result.unwrap_err().contains("expected 13 columns"));
}

#[test]
fn untrusted_data_contains_ci() {
    let d = UntrustedData::new("Example.COM".into());
    assert!(d.contains_ci("example.com"));
    assert!(d.contains_ci("EXAMPLE"));
    assert!(!d.contains_ci("google"));
}

#[test]
fn max_rows_constant_reasonable() {
    assert!(MAX_ROWS >= 1000, "MAX_ROWS should be at least 1000");
    assert!(MAX_ROWS <= 100_000, "MAX_ROWS should not be unreasonably large");
}

fn traffic() -> TailTrafficArgs {
    TailTrafficArgs {
        begin: None,
        end: None,
        process_name: None,
        remote_host: None,
        direction: None,
    }
}

#[test]
fn traffic_is_filtered() {
    let csv = "d1,out,1,1.1.1.1,Example.COM,6,443,1,0,1,1,/bin/a,/App\n\
               d2,in,1,2.2.2.2,other,17,53,1,0,1,1,/bin/b,\n";
    let run = |a| tail_traffic::run(a, CliRun::Output(csv.into())).unwrap();
    let all = run(traffic());
    assert_eq!((all.count, all.filtered_count), (2, 2));
    let host = run(TailTrafficArgs { remote_host: Some("example".into()), ..traffic() });
    assert_eq!((host.count, host.filtered_count), (1, 2));
    assert_eq!(host.entries[0].date, "d1");
    let dir = run(TailTrafficArgs { direction: Some("in".into()), ..traffic() });
    assert_eq!(dir.entries.len(), 1);
    assert_eq!(dir.entries[0].date, "d2");
    let app = run(TailTrafficArgs { process_name: Some("/BIN/B".into()), ..traffic() });
    assert_eq!(app.entries[0].date, "d2");
}

#[test]
fn traffic_is_asked_for_a_period() {
    let args =
        TailTrafficArgs { begin: Some("b".into()), end: Some("e".into()), ..traffic() };
    let cmd = tail_traffic::command_args(&args);
    assert!(cmd.contains(&"b".to_string()) && cmd.contains(&"e".to_string()));
    assert_eq!(
        tail_traffic::run(args, CliRun::NoBinary("nowhere".into())).unwrap_err(),
        "littlesnitch binary not found: nowhere"
    );
}
