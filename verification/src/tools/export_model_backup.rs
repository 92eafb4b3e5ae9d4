//! Making a backup of the live rule set.

use vstd::prelude::*;
use crate::managed_dir::{below, law_below_a_directory, path_below, path_debug_form, quoted_path};
use crate::text::{concat, is_digit, texts};
use crate::time_fmt::{
    compact_iso8601, compact_iso8601_utc, law_compact_time_has_its_form, YEAR_10000_SECS,
};
use crate::tools::list_backups::names_backup;

verus! {

/// What the tool is given.
#[derive(Debug)]
pub struct ExportModelBackupArgs {}

/// What the tool returns.
#[derive(Debug)]
pub struct ExportModelBackupResult {
    /// Path of the backup.
    pub backup_path: String,
    /// When the backup was made, as its name says.
    pub timestamp: String,
}

/// The time as it stands in the names of files, such as `20240115T123456Z`.
pub fn timestamp_now(now_unix_secs: u64) -> (r: String)
    ensures
        r@ == compact_iso8601(now_unix_secs as nat),
{
    compact_iso8601_utc(now_unix_secs)
}

/// The file that a backup of this time goes to.
pub open spec fn backup_file(backups_dir: Seq<char>, now: nat) -> Seq<char> {
    below(backups_dir, compact_iso8601(now) + ".json"@)
}

/// The file that a backup of this time goes to.
pub fn backup_path(backups_dir: &str, now_unix_secs: u64) -> (r: String)
    ensures
        r@ == backup_file(backups_dir@, now_unix_secs as nat),
{
    let timestamp: String = timestamp_now(now_unix_secs);
    path_below(backups_dir, concat(timestamp.as_str(), ".json").as_str())
}

/// The arguments of the command that makes the backup.
pub fn command_args(path: &str) -> (r: Vec<String>)
    ensures
        texts(r@) == seq!["export-model"@, path@],
{
    let mut out: Vec<String> = Vec::new();
    out.push("export-model".to_owned());
    out.push(path.to_owned());
    proof {
        assert(texts(out@) =~= seq!["export-model"@, path@]);
    }
    out
}

/// What became of making the backup.
#[derive(Debug)]
pub enum ExportRun {
    /// The program was not found; the text says why.
    NoBinary(String),
    /// The command failed; the text says why.
    Failed(String),
    /// The command went through, and there is no file.
    NoFile,
    /// The file is there, and its mode could not be set; the text says why.
    ModeFailed(String),
    /// The file is there, for its owner alone.
    Written,
}

/// Why there is no backup at `path`, if there is none.
pub open spec fn export_failure(ran: ExportRun, path: Seq<char>) -> Option<Seq<char>> {
    match ran {
        ExportRun::NoBinary(e) => Some("littlesnitch binary not found: "@ + e@),
        ExportRun::Failed(e) => Some("export-model failed: "@ + e@),
        ExportRun::NoFile => Some(
            "export-model succeeded but file not found at "@ + path_debug_form(path),
        ),
        ExportRun::ModeFailed(e) => Some(
            "cannot set permissions on "@ + path_debug_form(path) + ": "@ + e@,
        ),
        ExportRun::Written => None,
    }
}

/// Makes a backup. `backups_dir` is the path of the backups in the managed directory, or
/// why there is no managed directory, and `ran` is what became of running the command.
pub fn run(
    _args: ExportModelBackupArgs,
    backups_dir: Result<String, String>,
    ran: ExportRun,
    now_unix_secs: u64,
) -> (r: Result<ExportModelBackupResult, String>)
    ensures
        match backups_dir {
            Err(e) => r is Err && r->Err_0@ == "cannot bootstrap managed directory: "@ + e@,
            Ok(dir) => ({
                let path = backup_file(dir@, now_unix_secs as nat);
                match export_failure(ran, path) {
                    Some(e) => r is Err && r->Err_0@ == e,
                    None => r is Ok && r->Ok_0.backup_path@ == path && r->Ok_0.timestamp@
                        == compact_iso8601(now_unix_secs as nat),
                }
            }),
        },
{
    let dir: String = match backups_dir {
        Ok(dir) => dir,
        Err(e) => {
            return Err(concat("cannot bootstrap managed directory: ", e.as_str()));
        },
    };
    let timestamp: String = timestamp_now(now_unix_secs);
    let path: String = backup_path(dir.as_str(), now_unix_secs);
    match ran {
        ExportRun::NoBinary(e) => Err(concat("littlesnitch binary not found: ", e.as_str())),
        ExportRun::Failed(e) => Err(concat("export-model failed: ", e.as_str())),
        ExportRun::NoFile => Err(
            concat(
                "export-model succeeded but file not found at ",
                quoted_path(path.as_str()).as_str(),
            ),
        ),
        ExportRun::ModeFailed(e) => {
            let mut out: String = concat(
                "cannot set permissions on ",
                quoted_path(path.as_str()).as_str(),
            );
            out.push_str(": ");
            out.push_str(e.as_str());
            Err(out)
        },
        ExportRun::Written => Ok(ExportModelBackupResult { backup_path: path, timestamp }),
    }
}

/// Up to the end of the year 9999, a backup has a name by which it is found again among
/// the backups, and which says when it was made.
pub proof fn law_backup_is_found_again(now: nat)
    requires
        now < YEAR_10000_SECS,
    ensures
        ({
            let name = compact_iso8601(now) + ".json"@;
            names_backup(name) && name.take(name.len() - 5) == compact_iso8601(now)
        }),
{
    reveal_strlit(".json");
    law_compact_time_has_its_form(now);
    let name = compact_iso8601(now) + ".json"@;
    assert(name.skip(name.len() - 5) =~= ".json"@);
    assert(name.take(name.len() - 5) =~= compact_iso8601(now));
}

/// A backup is written below the directory, under the time at which it is made.
pub proof fn law_where_backups_are_written(dir: Seq<char>, now: nat)
    requires
        now < YEAR_10000_SECS,
        dir.len() > 0,
        dir.last() != '/',
    ensures
        backup_file(dir, now) == (dir.push('/') + compact_iso8601(now)) + ".json"@,
{
    law_compact_time_has_its_form(now);
    let name = compact_iso8601(now) + ".json"@;
    assert(is_digit(compact_iso8601(now)[0]));
    assert(name[0] == compact_iso8601(now)[0]);
    law_below_a_directory(dir, name);
    assert(backup_file(dir, now) =~= (dir.push('/') + compact_iso8601(now)) + ".json"@);
}

/// A backup counts just if the file was written.
pub proof fn law_only_written_files_count(ran: ExportRun, path: Seq<char>)
    ensures
        export_failure(ran, path) is None <==> ran is Written,
{
}

} // verus!
