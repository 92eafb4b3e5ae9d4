use little_snitch_mcp::cli::CliRun;
use little_snitch_mcp::json::{to_pretty_text, Json};
use little_snitch_mcp::model::serial::model_to_json;
use little_snitch_mcp::model::Model;
use little_snitch_mcp::safety::session::Session;
use little_snitch_mcp::safety::token::{TokenError, DEFAULT_TTL_SECS};
use little_snitch_mcp::time_fmt::{compact_iso8601_utc, days_to_ymd, format_iso8601_utc};
use little_snitch_mcp::tools::backup_harness::{
    guard_run, run_with_backup, with_backup, BackupResult,
};
use little_snitch_mcp::tools::export_model_backup::{
    self, timestamp_now, ExportModelBackupArgs, ExportRun,
};
use little_snitch_mcp::tools::list_backups::{
    self, is_backup_filename, run_with_root, DirEntry, DirRead, ListBackupsArgs,
};
use little_snitch_mcp::tools::restore_model_from_file::{
    apply_pure, locate, prepare_pure, Located, ModelFile, RestoreFromFileError,
};

const FIXED_NOW: u64 = 1_777_200_000;

// ---------- list_backups ----------

fn file(name: &str, size: u64) -> DirEntry {
    DirEntry { name: name.to_string(), file_size: Some(size) }
}

fn entries(v: Vec<DirEntry>) -> DirRead {
    DirRead::Entries(v)
}

#[test]
fn empty_dir_returns_empty_list() {
    let result = run_with_root(ListBackupsArgs {}, "/b", entries(vec![])).unwrap();
    assert!(result.backups.is_empty());
    assert_eq!(result.backups_dir, "/b");
}

#[test]
fn nonexistent_dir_returns_empty_list() {
    let result = run_with_root(ListBackupsArgs {}, "/b/no-such-dir", DirRead::Missing).unwrap();
    assert!(result.backups.is_empty());
}

#[test]
fn single_backup_returned() {
    let dir = entries(vec![file("20240115T123456Z.json", 1024)]);
    let result = run_with_root(ListBackupsArgs {}, "/b", dir).unwrap();
    assert_eq!(result.backups.len(), 1);
    assert_eq!(result.backups[0].filename, "20240115T123456Z.json");
    assert_eq!(result.backups[0].timestamp, "20240115T123456Z");
    assert_eq!(result.backups[0].size_bytes, 1024);
}

#[test]
fn multiple_backups_sorted_newest_first() {
    let dir = entries(vec![
        file("20240101T000000Z.json", 100),
        file("20240315T120000Z.json", 200),
        file("20240201T060000Z.json", 150),
    ]);
    let result = run_with_root(ListBackupsArgs {}, "/b", dir).unwrap();
    assert_eq!(result.backups.len(), 3);
    assert_eq!(result.backups[0].timestamp, "20240315T120000Z");
    assert_eq!(result.backups[1].timestamp, "20240201T060000Z");
    assert_eq!(result.backups[2].timestamp, "20240101T000000Z");
    assert_eq!(result.backups[2].size_bytes, 100);
}

#[test]
fn non_backup_files_ignored() {
    let dir = entries(vec![
        file("20240115T123456Z.json", 512),
        file("README.txt", 9),
        file("short.json", 2),
        file("20240115T123456.json", 2),
        file("20240115X123456Z.json", 2),
        DirEntry { name: "20240116T123456Z.json".into(), file_size: None },
    ]);
    let result = run_with_root(ListBackupsArgs {}, "/b", dir).unwrap();
    assert_eq!(result.backups.len(), 1);
    assert_eq!(result.backups[0].filename, "20240115T123456Z.json");
}

#[test]
fn is_backup_filename_valid() {
    assert!(is_backup_filename("20240115T123456Z.json"));
    assert!(is_backup_filename("19700101T000000Z.json"));
}

#[test]
fn is_backup_filename_invalid() {
    assert!(!is_backup_filename("20240115T123456.json")); // no Z
    assert!(!is_backup_filename("20240115X123456Z.json")); // X not T
    assert!(!is_backup_filename("short.json"));
    assert!(!is_backup_filename("README.txt"));
    assert!(!is_backup_filename("20240115T123456Z")); // no .json
    assert!(!is_backup_filename("2024011aT123456Z.json"));
    assert!(!is_backup_filename("20240115T12345xZ.json"));
}

#[test]
fn list_backups_reports_what_went_wrong() {
    let err = list_backups::run(ListBackupsArgs {}, Err("denied".into()), DirRead::Missing);
    assert_eq!(err.unwrap_err(), "cannot bootstrap managed directory: denied");
    let dir = DirRead::Failed("io".into());
    let err = list_backups::run(ListBackupsArgs {}, Ok("/b".into()), dir);
    assert_eq!(err.unwrap_err(), "cannot read backups directory: io");
    let dir = entries(vec![file("20240115T123456Z.json", 1)]);
    let ok = list_backups::run(ListBackupsArgs {}, Ok("/b".into()), dir).unwrap();
    assert_eq!(ok.backups.len(), 1);
}

// ---------- export_model_backup ----------

#[test]
fn timestamp_now_has_correct_format() {
    let ts = timestamp_now(FIXED_NOW);
    assert_eq!(ts.len(), 16, "unexpected length: {ts}");
    assert!(ts.ends_with('Z'), "must end with Z: {ts}");
    assert!(ts.contains('T'), "must contain T: {ts}");
    let digits: String = ts.chars().filter(|c| *c != 'T' && *c != 'Z').collect();
    assert!(digits.chars().all(|c| c.is_ascii_digit()), "non-digit chars: {ts}");
}

#[test]
fn a_backup_goes_to_a_file_named_by_the_time() {
    let run = |ran| export_model_backup::run(ExportModelBackupArgs {}, Ok("/m/b".into()), ran, 1_705_322_096);
    let r = run(ExportRun::Written).unwrap();
    assert_eq!(r.backup_path, "/m/b/20240115T123456Z.json");
    assert_eq!(r.timestamp, "20240115T123456Z");
    assert!(is_backup_filename("20240115T123456Z.json"));
    assert_eq!(
        export_model_backup::command_args(&r.backup_path),
        vec!["export-model", "/m/b/20240115T123456Z.json"]
    );
    assert_eq!(
        run(ExportRun::NoBinary("nowhere".into())).unwrap_err(),
        "littlesnitch binary not found: nowhere"
    );
    assert_eq!(run(ExportRun::Failed("exit 1".into())).unwrap_err(), "export-model failed: exit 1");
    assert_eq!(
        run(ExportRun::NoFile).unwrap_err(),
        "export-model succeeded but file not found at \"/m/b/20240115T123456Z.json\""
    );
    assert_eq!(
        run(ExportRun::ModeFailed("io".into())).unwrap_err(),
        "cannot set permissions on \"/m/b/20240115T123456Z.json\": io"
    );
    let err = export_model_backup::run(
        ExportModelBackupArgs {},
        Err("denied".into()),
        ExportRun::Written,
        0,
    );
    assert_eq!(err.unwrap_err(), "cannot bootstrap managed directory: denied");
}

// ---------- points in time ----------

#[test]
fn times_are_written_in_utc() {
    assert_eq!(format_iso8601_utc(0), "1970-01-01T00:00:00Z");
    assert_eq!(format_iso8601_utc(951_782_400), "2000-02-29T00:00:00Z");
    assert_eq!(format_iso8601_utc(1_777_200_000), "2026-04-26T10:40:00Z");
    assert_eq!(compact_iso8601_utc(0), "19700101T000000Z");
    assert_eq!(compact_iso8601_utc(1_705_322_096), "20240115T123456Z");
    assert_eq!(compact_iso8601_utc(253_402_300_799), "99991231T235959Z");
    assert_eq!(days_to_ymd(19_723), (2024, 1, 1));
    assert_eq!(days_to_ymd(47_541), (2100, 3, 1));
}

#[test]
fn later_times_come_later_as_text() {
    let times = [0, 1, 59, 60, 3600, 86_399, 86_400, 2_678_400, 31_536_000, 1_705_322_096];
    for w in times.windows(2) {
        assert!(compact_iso8601_utc(w[0]) < compact_iso8601_utc(w[1]));
    }
}

// ---------- restore_model_from_file ----------

fn empty_model() -> Model {
    Model {
        bundle_version: 1,
        factory_rule_set_version: 1,
        rules: vec![],
        groups: vec![],
        disabled_domains_in_lists: vec![],
        disabled_host_names_in_lists: vec![],
        disabled_ip_address_ranges_in_lists: vec![],
        rest: vec![
            ("profiles".into(), Json::object()),
            ("noProfilePseudoProfile".into(), Json::Null),
            ("globalDefaults".into(), Json::object()),
            ("users".into(), Json::Array(vec![])),
        ],
    }
}

fn session() -> Session {
    Session::from_raw([1u8; 32], [9u8; 32])
}

fn at(path: &str) -> Located {
    Located::At { path: path.into(), root: "/managed".into() }
}

fn holds(m: Model) -> ModelFile {
    ModelFile::read(to_pretty_text(&model_to_json(&m)).as_bytes())
}

#[test]
fn restore_model_from_file_prepare_then_apply_round_trip() {
    let mut s = session();
    let path = "/managed/new_model.json";
    let file = holds(empty_model());
    let current = empty_model();
    let prep = prepare_pure(&s, path, "/managed", &at(path), &file, &current, FIXED_NOW).unwrap();
    assert!(!prep.token.is_empty());
    assert_eq!(prep.expires_in_seconds, DEFAULT_TTL_SECS);
    let restored =
        apply_pure(path, prep.token, "/managed", &at(path), &file, &current, &mut s, FIXED_NOW)
            .unwrap();
    assert_eq!(restored.bundle_version, 1);
}

#[test]
fn refuses_path_outside_managed_dir() {
    let s = session();
    let located = at("/other/model.json");
    let err = prepare_pure(
        &s,
        "/other/model.json",
        "/managed",
        &located,
        &holds(empty_model()),
        &empty_model(),
        FIXED_NOW,
    )
    .unwrap_err();
    assert_eq!(
        err.message(),
        "PATH_OUTSIDE_MANAGED_DIR: \"/other/model.json\" is not under the managed root \"/managed\""
    );
    match err {
        RestoreFromFileError::PathOutsideManagedDir { .. } => {}
        other => panic!("expected PathOutsideManagedDir, got {other:?}"),
    }
}

#[test]
fn refuses_symlink_escape() {
    let s = session();
    // The link lies below the managed directory, and what it leads to does not.
    let err = prepare_pure(
        &s,
        "/managed/escape.json",
        "/managed",
        &at("/outside/real_model.json"),
        &holds(empty_model()),
        &empty_model(),
        FIXED_NOW,
    )
    .unwrap_err();
    match err {
        RestoreFromFileError::PathOutsideManagedDir { path, .. } => {
            assert!(
                !path.starts_with("/managed"),
                "canonical path should be outside managed root after symlink resolution: {path:?}"
            );
        }
        other => panic!("expected PathOutsideManagedDir, got {other:?}"),
    }
}

#[test]
fn a_sibling_of_the_managed_directory_is_outside() {
    let refused = locate("/managed2/m.json", "/managed", &at("/managed2/m.json"));
    assert!(matches!(refused, Err(RestoreFromFileError::PathOutsideManagedDir { .. })));
    assert_eq!(locate("x", "y", &at("/managed/a/b.json")).unwrap(), "/managed/a/b.json");
    assert_eq!(locate("x", "y", &at("/managed")).unwrap(), "/managed");
    let root = Located::At { path: "/a.json".into(), root: "/".into() };
    assert_eq!(locate("x", "y", &root).unwrap(), "/a.json");
}

#[test]
fn refuses_missing_file() {
    let s = session();
    let err = prepare_pure(
        &s,
        "/managed/does_not_exist.json",
        "/managed",
        &Located::Missing,
        &holds(empty_model()),
        &empty_model(),
        FIXED_NOW,
    )
    .unwrap_err();
    assert_eq!(err.message(), "FILE_NOT_FOUND: \"/managed/does_not_exist.json\"");
    assert!(matches!(err, RestoreFromFileError::FileNotFound(_)));
}

#[test]
fn refuses_malformed_json() {
    let s = session();
    let path = "/managed/bad.json";
    let bad = ModelFile::read(b"this is not json");
    let err = prepare_pure(&s, path, "/managed", &at(path), &bad, &empty_model(), FIXED_NOW)
        .unwrap_err();
    assert_eq!(
        err.message(),
        "INVALID_MODEL_JSON: \"/managed/bad.json\" did not parse as a Model: expected ident at \
         line 1 column 2"
    );
    assert!(matches!(err, RestoreFromFileError::InvalidModelJson { .. }));
}

#[test]
fn refuses_json_that_does_not_match_model_schema() {
    let s = session();
    let path = "/managed/not_model.json";
    let bad = ModelFile::read(br#"{"hello": "world"}"#);
    let err = prepare_pure(&s, path, "/managed", &at(path), &bad, &empty_model(), FIXED_NOW)
        .unwrap_err();
    assert!(matches!(err, RestoreFromFileError::InvalidModelJson { .. }));
}

#[test]
fn refuses_a_file_that_cannot_be_read() {
    let message = |located: Located, file: ModelFile| {
        prepare_pure(&session(), "/managed/m", "/managed", &located, &file, &empty_model(), 0)
            .unwrap_err()
            .message()
    };
    assert_eq!(
        message(at("/managed/r"), ModelFile::Unreadable("io".into())),
        "READ_FAILED: cannot read \"/managed/r\": io"
    );
    assert_eq!(
        message(Located::PathFailed("io".into()), holds(empty_model())),
        "READ_FAILED: cannot read \"/managed/m\": io"
    );
    assert_eq!(
        message(Located::RootFailed("io".into()), holds(empty_model())),
        "READ_FAILED: cannot read \"/managed\": io"
    );
}

#[test]
fn diff_drift_when_file_modified_between_prepare_and_apply() {
    let mut s = session();
    let path = "/managed/model.json";
    let current = empty_model();
    let prep =
        prepare_pure(&s, path, "/managed", &at(path), &holds(empty_model()), &current, FIXED_NOW)
            .unwrap();
    let mut changed = empty_model();
    changed.bundle_version = 999;
    let err = apply_pure(
        path,
        prep.token,
        "/managed",
        &at(path),
        &holds(changed),
        &current,
        &mut s,
        FIXED_NOW,
    )
    .unwrap_err();
    assert!(matches!(err, RestoreFromFileError::Token(TokenError::DiffDrift)));
}

#[test]
fn schema_drift_when_live_bundle_version_changes() {
    let mut s = session();
    let path = "/managed/model.json";
    let file = holds(empty_model());
    let prep = prepare_pure(&s, path, "/managed", &at(path), &file, &empty_model(), FIXED_NOW)
        .unwrap();
    let mut apply_state = empty_model();
    apply_state.bundle_version = 2;
    let err = apply_pure(
        path,
        prep.token,
        "/managed",
        &at(path),
        &file,
        &apply_state,
        &mut s,
        FIXED_NOW,
    )
    .unwrap_err();
    assert!(matches!(err, RestoreFromFileError::Token(TokenError::SchemaDrift)));
}

#[test]
fn restore_model_from_file_replay_rejected() {
    let mut s = session();
    let path = "/managed/model.json";
    let file = holds(empty_model());
    let current = empty_model();
    let prep = prepare_pure(&s, path, "/managed", &at(path), &file, &current, FIXED_NOW).unwrap();
    let token = prep.token.clone();
    apply_pure(path, token, "/managed", &at(path), &file, &current, &mut s, FIXED_NOW).unwrap();
    let err =
        apply_pure(path, prep.token, "/managed", &at(path), &file, &current, &mut s, FIXED_NOW)
            .unwrap_err();
    assert!(matches!(err, RestoreFromFileError::Token(TokenError::Replay)));
}

// ---------- backup_harness ----------

fn done() -> Json {
    let mut v = Json::object();
    v.insert("done".into(), Json::Bool(true));
    v
}

fn ok_op() -> Result<Json, String> {
    Ok(done())
}

fn err_op() -> Result<Json, String> {
    Err("operation exploded".to_string())
}

#[test]
fn with_backup_success_contains_result() {
    let r = with_backup(Ok("/tmp/backup.json".to_string()), ok_op).unwrap();
    assert_eq!(r.backup_path, "/tmp/backup.json");
    assert!(r.result.same(&done()));
}

#[test]
fn with_backup_operation_failure_includes_path() {
    let err = with_backup(Ok("/tmp/backup.json".to_string()), err_op).unwrap_err();
    assert!(err.contains("/tmp/backup.json"), "backup path missing from error: {err}");
    assert!(err.contains("operation exploded"), "original error missing: {err}");
    assert_eq!(err, "[pre-mutation backup: /tmp/backup.json] operation exploded");
}

#[test]
fn backup_result_serializes_both_fields() {
    let r = BackupResult { backup_path: "/tmp/foo.json".to_string(), result: Json::number(42) };
    assert_eq!(r.backup_path, "/tmp/foo.json");
    assert!(r.result.same(&Json::number(42)));
}

#[test]
fn without_a_backup_nothing_is_done() {
    let mut ran = false;
    let err = with_backup(Err("disk full".to_string()), || {
        ran = true;
        ok_op()
    })
    .unwrap_err();
    assert_eq!(err, "pre-mutation backup failed — refusing to proceed: disk full");
    assert!(!ran);
    let g = guard_run(Err("disk full".to_string()), || {
        ran = true;
        CliRun::Output("".into())
    });
    assert!(!ran);
    assert_eq!(
        run_with_backup(g, "x").unwrap_err(),
        "pre-mutation backup failed — refusing to proceed: disk full"
    );
}

#[test]
fn a_command_behind_a_backup_names_it() {
    let run = |out: CliRun| run_with_backup(guard_run(Ok("/b.json".to_string()), || out), "profile -a");
    assert_eq!(run(CliRun::Output("".into())).unwrap(), "/b.json");
    assert_eq!(
        run(CliRun::Failed("exit 1".into())).unwrap_err(),
        "[pre-mutation backup: /b.json] profile -a failed: exit 1"
    );
    assert_eq!(
        run(CliRun::NoBinary("nowhere".into())).unwrap_err(),
        "[pre-mutation backup: /b.json] littlesnitch binary not found: nowhere"
    );
}

#[test]
fn a_changed_version_is_named_before_a_changed_file() {
    let path = "/managed/m.json";
    let root = "/managed";
    let mut s = session();
    let current = empty_model();
    let file = holds(empty_model());
    let prep = prepare_pure(&s, path, root, &at(path), &file, &current, FIXED_NOW).unwrap();
    let mut other = empty_model();
    other.factory_rule_set_version = 2;
    let mut later = empty_model();
    later.bundle_version = 2;
    let changed = holds(other);
    let mut apply = |file: &ModelFile, current: &Model| {
        apply_pure(path, prep.token.clone(), root, &at(path), file, current, &mut s, FIXED_NOW)
    };
    assert!(matches!(
        apply(&changed, &later).unwrap_err(),
        RestoreFromFileError::Token(TokenError::SchemaDrift)
    ));
    assert!(matches!(
        apply(&changed, &current).unwrap_err(),
        RestoreFromFileError::Token(TokenError::DiffDrift)
    ));
    assert!(apply(&file, &current).is_ok());
}

#[test]
fn days_are_counted_far_into_the_future() {
    assert_eq!(days_to_ymd(0), (1970, 1, 1));
    let (y, m, d) = days_to_ymd(u64::MAX - 719_468);
    assert!(y > 50_000_000_000_000_000);
    assert!((1..=12).contains(&m) && (1..=31).contains(&d));
}
