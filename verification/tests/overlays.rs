use little_snitch_mcp::model::Model;
use little_snitch_mcp::safety::session::Session;
use little_snitch_mcp::safety::token::TokenError;
use little_snitch_mcp::tools::blocklist_overlays::{
    apply_disable_pure, apply_enable_pure, build_diff, disable_pure, enable_pure, list_overlays,
    prepare_disable, prepare_enable, BlocklistEntryKind, OverlayError, OverlayOp,
    PrepareOverlayArgs,
};

fn empty_model() -> Model {
    Model {
        bundle_version: 1,
        factory_rule_set_version: 1,
        rules: vec![],
        groups: vec![],
        disabled_domains_in_lists: vec![],
        disabled_host_names_in_lists: vec![],
        disabled_ip_address_ranges_in_lists: vec![],
        rest: vec![],
    }
}

fn session() -> Session {
    Session::from_raw([1u8; 32], [9u8; 32])
}

fn ads() -> PrepareOverlayArgs {
    PrepareOverlayArgs { entry: "ads.example".into(), kind: BlocklistEntryKind::Domain }
}

const FIXED_NOW: u64 = 1_777_200_000;

#[test]
fn disable_pure_appends_when_absent() {
    let mut m = empty_model();
    assert!(disable_pure(&mut m, "ads.example", BlocklistEntryKind::Domain));
    assert_eq!(m.disabled_domains_in_lists.len(), 1);
}

#[test]
fn disable_pure_is_noop_when_present() {
    let mut m = empty_model();
    disable_pure(&mut m, "ads.example", BlocklistEntryKind::Domain);
    let changed = disable_pure(&mut m, "ads.example", BlocklistEntryKind::Domain);
    assert!(!changed);
    assert_eq!(m.disabled_domains_in_lists.len(), 1);
}

#[test]
fn enable_pure_removes_when_present() {
    let mut m = empty_model();
    disable_pure(&mut m, "ads.example", BlocklistEntryKind::Domain);
    let changed = enable_pure(&mut m, "ads.example", BlocklistEntryKind::Domain);
    assert!(changed);
    assert_eq!(m.disabled_domains_in_lists.len(), 0);
}

#[test]
fn enable_pure_is_noop_when_absent() {
    let mut m = empty_model();
    let changed = enable_pure(&mut m, "ads.example", BlocklistEntryKind::Domain);
    assert!(!changed);
}

#[test]
fn round_trip_disable_then_enable_returns_to_original() {
    let m_original = empty_model();
    let mut m = m_original.copy();
    disable_pure(&mut m, "ads.example", BlocklistEntryKind::Domain);
    enable_pure(&mut m, "ads.example", BlocklistEntryKind::Domain);
    assert_eq!(m.disabled_domains_in_lists, m_original.disabled_domains_in_lists);
}

#[test]
fn disable_routes_domain_to_domain_array() {
    let mut m = empty_model();
    disable_pure(&mut m, "ads.example", BlocklistEntryKind::Domain);
    assert_eq!(m.disabled_domains_in_lists.len(), 1);
    assert_eq!(m.disabled_host_names_in_lists.len(), 0);
    assert_eq!(m.disabled_ip_address_ranges_in_lists.len(), 0);
}

#[test]
fn disable_routes_host_to_host_array() {
    let mut m = empty_model();
    disable_pure(&mut m, "host.example", BlocklistEntryKind::Host);
    assert_eq!(m.disabled_domains_in_lists.len(), 0);
    assert_eq!(m.disabled_host_names_in_lists.len(), 1);
    assert_eq!(m.disabled_ip_address_ranges_in_lists.len(), 0);
}

#[test]
fn disable_routes_address_to_address_array() {
    let mut m = empty_model();
    disable_pure(&mut m, "10.0.0.0/8", BlocklistEntryKind::Address);
    assert_eq!(m.disabled_domains_in_lists.len(), 0);
    assert_eq!(m.disabled_host_names_in_lists.len(), 0);
    assert_eq!(m.disabled_ip_address_ranges_in_lists.len(), 1);
}

#[test]
fn enable_in_one_kind_does_not_touch_other_kinds() {
    let mut m = empty_model();
    disable_pure(&mut m, "ads.example", BlocklistEntryKind::Domain);
    disable_pure(&mut m, "ads.example", BlocklistEntryKind::Host);
    enable_pure(&mut m, "ads.example", BlocklistEntryKind::Domain);
    assert_eq!(m.disabled_domains_in_lists.len(), 0);
    assert_eq!(m.disabled_host_names_in_lists.len(), 1);
}

#[test]
fn list_overlays_returns_all_three_arrays() {
    let mut m = empty_model();
    disable_pure(&mut m, "a.example", BlocklistEntryKind::Domain);
    disable_pure(&mut m, "h.example", BlocklistEntryKind::Host);
    disable_pure(&mut m, "10.0.0.0/8", BlocklistEntryKind::Address);
    let r = list_overlays(&m);
    assert_eq!(r.disabled_domains.len(), 1);
    assert_eq!(r.disabled_hosts.len(), 1);
    assert_eq!(r.disabled_addresses.len(), 1);
}

#[test]
fn prepare_then_apply_disable_round_trip() {
    let mut s = session();
    let m = empty_model();
    let prep = prepare_disable(&s, ads(), &m, FIXED_NOW);
    let new_model = apply_disable_pure(
        m,
        "ads.example".into(),
        BlocklistEntryKind::Domain,
        prep.token,
        &mut s,
        FIXED_NOW,
    )
    .unwrap();
    assert_eq!(new_model.disabled_domains_in_lists.len(), 1);
}

#[test]
fn prepare_then_apply_enable_round_trip() {
    let mut s = session();
    let mut m = empty_model();
    disable_pure(&mut m, "ads.example", BlocklistEntryKind::Domain);
    let prep = prepare_enable(&s, ads(), &m, FIXED_NOW);
    let new_model = apply_enable_pure(
        m,
        "ads.example".into(),
        BlocklistEntryKind::Domain,
        prep.token,
        &mut s,
        FIXED_NOW,
    )
    .unwrap();
    assert_eq!(new_model.disabled_domains_in_lists.len(), 0);
}

#[test]
fn wrong_kind_at_apply_yields_diff_drift() {
    let mut s = session();
    let m = empty_model();
    let prep = prepare_disable(&s, ads(), &m, FIXED_NOW);
    let err = apply_disable_pure(
        m,
        "ads.example".into(),
        BlocklistEntryKind::Host,
        prep.token,
        &mut s,
        FIXED_NOW,
    )
    .unwrap_err();
    assert!(matches!(err, OverlayError::Token(TokenError::DiffDrift)));
}

#[test]
fn enable_token_used_for_disable_apply_yields_tool_mismatch() {
    let mut s = session();
    let m = empty_model();
    let prep = prepare_enable(&s, ads(), &m, FIXED_NOW);
    let err = apply_disable_pure(
        m,
        "ads.example".into(),
        BlocklistEntryKind::Domain,
        prep.token,
        &mut s,
        FIXED_NOW,
    )
    .unwrap_err();
    assert!(matches!(
        err,
        OverlayError::Token(TokenError::ToolMismatch | TokenError::DiffDrift)
    ));
    assert!(err.message().starts_with("token verify failed: "));
}

#[test]
fn replay_rejected_for_disable() {
    let mut s = session();
    let m = empty_model();
    let prep = prepare_disable(&s, ads(), &m, FIXED_NOW);
    let m2 = apply_disable_pure(
        m,
        "ads.example".into(),
        BlocklistEntryKind::Domain,
        prep.token.clone(),
        &mut s,
        FIXED_NOW,
    )
    .unwrap();
    let err = apply_disable_pure(
        m2,
        "ads.example".into(),
        BlocklistEntryKind::Domain,
        prep.token,
        &mut s,
        FIXED_NOW,
    )
    .unwrap_err();
    assert!(matches!(err, OverlayError::Token(TokenError::Replay)));
}

#[test]
fn a_proposal_says_what_it_is_about() {
    let d = build_diff(OverlayOp::Disable, "10.0.0.0/8", BlocklistEntryKind::Address);
    assert_eq!(d.text_member("entry").unwrap(), "10.0.0.0/8");
    assert_eq!(d.text_member("kind").unwrap(), "disable_blocklist_entry");
    assert_eq!(d.text_member("entry_kind").unwrap(), "address");
    let e = build_diff(OverlayOp::Enable, "10.0.0.0/8", BlocklistEntryKind::Address);
    assert!(!d.same(&e));
    let p = prepare_enable(&session(), ads(), &empty_model(), FIXED_NOW);
    assert!(p.diff.same(&build_diff(OverlayOp::Enable, "ads.example", BlocklistEntryKind::Domain)));
    assert_eq!(p.expires_in_seconds, 60);
}
