//! The backup that is taken before every change of the live rule set.
//!
//! Without a backup the change is not made. Where the change fails, what is said of
//! it names the backup.

use vstd::prelude::*;
use crate::cli::{output_of, printed, CliRun};
use crate::text::{concat, occurs_in, stands_at, texts};

verus! {

/// The result of a change and the backup from before it.
#[derive(Debug)]
pub struct BackupResult<T> {
    /// Where the backup is.
    pub backup_path: String,
    /// What the change came to.
    pub result: T,
}

/// That there is no backup.
pub open spec fn no_backup(e: Seq<char>) -> Seq<char> {
    "pre-mutation backup failed — refusing to proceed: "@ + e
}

/// That a change failed, with the backup from before it.
pub open spec fn failed_behind(path: Seq<char>, e: Seq<char>) -> Seq<char> {
    "[pre-mutation backup: "@ + path + "] "@ + e
}

fn behind(backup_path: &str, e: &str) -> (r: String)
    ensures
        r@ == failed_behind(backup_path@, e@),
{
    let mut out: String = concat("[pre-mutation backup: ", backup_path);
    out.push_str("] ");
    out.push_str(e);
    out
}

/// What a change comes to whose outcome behind a backup at `path` is `out`.
pub open spec fn comes_to<T>(
    path: String,
    out: Result<T, String>,
    r: Result<BackupResult<T>, String>,
) -> bool {
    match out {
        Ok(x) => r is Ok && r->Ok_0.backup_path == path && r->Ok_0.result == x,
        Err(e) => r is Err && r->Err_0@ == failed_behind(path@, e@),
    }
}

/// Makes a change behind a backup. `backup` is the path of the backup, or why there is
/// none; without a backup the change is not made.
pub fn with_backup<F, T>(backup: Result<String, String>, operation: F) -> (r: Result<
    BackupResult<T>,
    String,
>) where F: FnOnce() -> Result<T, String>
    requires
        operation.requires(()),
    ensures
        match backup {
            Err(e) => r is Err && r->Err_0@ == no_backup(e@),
            Ok(path) => exists|out: Result<T, String>| #[trigger]
                operation.ensures((), out) && comes_to(path, out, r),
        },
{
    match backup {
        Err(e) => Err(concat("pre-mutation backup failed — refusing to proceed: ", e.as_str())),
        Ok(backup_path) => match operation() {
            Ok(result) => Ok(BackupResult { backup_path, result }),
            Err(e) => Err(behind(backup_path.as_str(), e.as_str())),
        },
    }
}

/// What became of running a command behind a backup.
#[derive(Debug)]
pub enum GuardedRun {
    /// There is no backup, and the command was not run; the text says why.
    NoBackup(String),
    /// The backup is at this path, and the command was run.
    Ran { backup_path: String, run: CliRun },
}

/// The backup from before a command that went through, or why it did not; `what`
/// names the command.
pub open spec fn backup_of(g: GuardedRun, what: Seq<char>) -> Result<Seq<char>, Seq<char>> {
    match g {
        GuardedRun::NoBackup(e) => Err(no_backup(e@)),
        GuardedRun::Ran { backup_path, run } => match printed(run, what) {
            Ok(_) => Ok(backup_path@),
            Err(e) => Err(failed_behind(backup_path@, e)),
        },
    }
}

/// The backup from before a command that went through, or why it did not.
pub fn run_with_backup(g: GuardedRun, what: &str) -> (r: Result<String, String>)
    ensures
        match r {
            Ok(p) => backup_of(g, what@) == Ok::<Seq<char>, Seq<char>>(p@),
            Err(e) => backup_of(g, what@) == Err::<Seq<char>, Seq<char>>(e@),
        },
{
    match g {
        GuardedRun::NoBackup(e) => Err(
            concat("pre-mutation backup failed — refusing to proceed: ", e.as_str()),
        ),
        GuardedRun::Ran { backup_path, run } => match output_of(run, what) {
            Ok(_) => Ok(backup_path),
            Err(e) => Err(behind(backup_path.as_str(), e.as_str())),
        },
    }
}

/// Runs a command behind a backup. `backup` is the path of the backup, or why there is
/// none; without a backup the command is not run.
pub fn guard_run<F>(backup: Result<String, String>, run: F) -> (r: GuardedRun) where
    F: FnOnce() -> CliRun,

    requires
        run.requires(()),
    ensures
        match backup {
            Err(e) => r == GuardedRun::NoBackup(e),
            Ok(path) => r matches GuardedRun::Ran { backup_path, run: out } && backup_path == path
                && run.ensures((), out),
        },
{
    match backup {
        Err(e) => GuardedRun::NoBackup(e),
        Ok(backup_path) => GuardedRun::Ran { backup_path, run: run() },
    }
}

/// What is said of a change that failed names the backup and what went wrong.
pub proof fn law_failure_names_the_backup(path: Seq<char>, e: Seq<char>)
    ensures
        occurs_in(failed_behind(path, e), path),
        occurs_in(failed_behind(path, e), e),
{
    let s = failed_behind(path, e);
    let a = "[pre-mutation backup: "@.len() as int;
    let b = a + path.len() + "] "@.len();
    assert(s.subrange(a, a + path.len()) =~= path);
    assert(stands_at(s, path, a));
    assert(s.subrange(b, b + e.len()) =~= e);
    assert(stands_at(s, e, b));
}

/// A few words as a list of arguments.
pub fn words(a: &str, b: &str, c: &str) -> (r: Vec<String>)
    ensures
        texts(r@) == seq![a@, b@, c@],
{
    let mut out: Vec<String> = Vec::new();
    out.push(a.to_owned());
    out.push(b.to_owned());
    out.push(c.to_owned());
    proof {
        assert(texts(out@) =~= seq![a@, b@, c@]);
    }
    out
}

/// A change counts just if there is a backup from before it and the command went through, and
/// the backup is the one that is named.
pub proof fn law_no_change_without_a_backup(g: GuardedRun, what: Seq<char>)
    ensures
        backup_of(g, what) is Ok <==> g is Ran && g->run is Output,
        backup_of(g, what) matches Ok(path) ==> path == g->backup_path@,
{
}

} // verus!
