//! Looking over the surroundings: whether the program is there and allowed, and the
//! managed directory is ready.

use vstd::prelude::*;
use crate::cli::{LsCliError, VersionResult};
use crate::managed_dir::{path_debug_form, quoted_path};
use crate::safety::restore::RESTORE_MODEL_TERMINAL_GUARD_FLAG;
use crate::safety::touchid::TouchIdSudoStatus;
use crate::text::{concat, debug_form, opt_text, quoted};

verus! {

/// What the tool is given.
#[derive(Debug)]
pub struct DoctorArgs {}

/// How a check came out.
#[derive(Debug, Clone, Copy, PartialEq, Eq, Structural)]
pub enum CheckStatus {
    /// All is well.
    Green,
    /// Something is missing, and some tools still work.
    Yellow,
    /// Something is in the way.
    Red,
}

impl CheckStatus {
    /// The word that stands for the status.
    pub open spec fn word(self) -> Seq<char> {
        match self {
            CheckStatus::Green => "green"@,
            CheckStatus::Yellow => "yellow"@,
            CheckStatus::Red => "red"@,
        }
    }

    /// The word that stands for the status.
    pub fn as_str(self) -> (r: &'static str)
        ensures
            r@ == self.word(),
    {
        match self {
            CheckStatus::Green => "green",
            CheckStatus::Yellow => "yellow",
            CheckStatus::Red => "red",
        }
    }
}

/// A check.
#[derive(Debug)]
pub struct Check {
    pub name: &'static str,
    pub status: CheckStatus,
    pub message: String,
    /// What can be done about it.
    pub remediation: Option<String>,
}

/// What a [`Check`] means.
#[verifier::ext_equal]
pub struct CheckView {
    pub name: Seq<char>,
    pub status: CheckStatus,
    pub message: Seq<char>,
    pub remediation: Option<Seq<char>>,
}

impl View for Check {
    type V = CheckView;

    open spec fn view(&self) -> CheckView {
        CheckView {
            name: self.name@,
            status: self.status,
            message: self.message@,
            remediation: opt_text(self.remediation),
        }
    }
}

/// A check that came out well.
pub open spec fn green(name: Seq<char>, message: Seq<char>) -> CheckView {
    CheckView { name, status: CheckStatus::Green, message, remediation: None }
}

/// A check that came out otherwise.
pub open spec fn fault(
    name: Seq<char>,
    status: CheckStatus,
    message: Seq<char>,
    remediation: Option<Seq<char>>,
) -> CheckView {
    CheckView { name, status, message, remediation }
}

fn make(name: &'static str, status: CheckStatus, message: String, remediation: Option<&str>) -> (r:
    Check)
    ensures
        r@ == (CheckView {
            name: name@,
            status,
            message: message@,
            remediation: match remediation {
                Some(s) => Some(s@),
                None => None,
            },
        }),
{
    let remediation: Option<String> = match remediation {
        Some(s) => Some(s.to_owned()),
        None => None,
    };
    Check { name, status, message, remediation }
}

/// The checks.
#[derive(Debug)]
pub struct DoctorReport {
    /// Whether every check came out well.
    pub ok: bool,
    pub checks: Vec<Check>,
}

/// The program.
#[derive(Debug)]
pub enum Binary {
    /// It was not found; the text says why.
    Missing(String),
    /// It is at this path, and this is what its version comes to.
    Found { path: String, version: VersionResult },
}

/// The check of the program itself.
pub open spec fn binary_check(binary: Binary) -> CheckView {
    match binary {
        Binary::Missing(e) => fault(
            "ls_binary"@,
            CheckStatus::Red,
            "littlesnitch binary not found: "@ + e@,
            Some("Install Little Snitch 6.3.3+ from https://obdev.at/products/littlesnitch"@),
        ),
        Binary::Found { path, version } => match version {
            VersionResult::Compatible(v) => green(
                "ls_binary"@,
                "found at "@ + path@ + " (version "@ + v@ + ")"@,
            ),
            VersionResult::TooOld(v) => fault(
                "ls_binary"@,
                CheckStatus::Red,
                "version "@ + v@ + " is below minimum 6.3.3"@,
                Some("Upgrade Little Snitch to ≥ 6.3.3"@),
            ),
            VersionResult::Unparseable(s) => fault(
                "ls_binary"@,
                CheckStatus::Yellow,
                "found at "@ + path_debug_form(path@) + " but could not parse version: "@
                    + debug_form(s@),
                Some("Upgrade Little Snitch to ≥ 6.3.3"@),
            ),
        },
    }
}

/// Checks the program itself.
pub fn check_binary(binary: &Binary) -> (r: Check)
    ensures
        r@ == binary_check(*binary),
{
    match binary {
        Binary::Missing(e) => make(
            "ls_binary",
            CheckStatus::Red,
            concat("littlesnitch binary not found: ", e.as_str()),
            Some("Install Little Snitch 6.3.3+ from https://obdev.at/products/littlesnitch"),
        ),
        Binary::Found { path, version } => match version {
            VersionResult::Compatible(v) => {
                let mut message: String = concat("found at ", path.as_str());
                message.push_str(" (version ");
                message.push_str(v.as_str());
                message.push_str(")");
                make("ls_binary", CheckStatus::Green, message, None)
            },
            VersionResult::TooOld(v) => {
                let mut message: String = concat("version ", v.as_str());
                message.push_str(" is below minimum 6.3.3");
                make(
                    "ls_binary",
                    CheckStatus::Red,
                    message,
                    Some("Upgrade Little Snitch to ≥ 6.3.3"),
                )
            },
            VersionResult::Unparseable(s) => {
                let mut message: String = concat("found at ", quoted_path(path.as_str()).as_str());
                message.push_str(" but could not parse version: ");
                message.push_str(quoted(s.as_str()).as_str());
                make(
                    "ls_binary",
                    CheckStatus::Yellow,
                    message,
                    Some("Upgrade Little Snitch to ≥ 6.3.3"),
                )
            },
        },
    }
}

/// What became of a command that needs root, run to see whether it is allowed.
#[derive(Debug)]
pub enum Probe {
    /// The program was not found; the text says why.
    NoBinary(String),
    /// The command went through.
    Passed,
    /// The command refused; the text says why.
    Refused { error: LsCliError, text: String },
}

/// The check whether the command is allowed.
pub open spec fn cli_check(probe: Probe) -> CheckView {
    match probe {
        Probe::NoBinary(e) => fault(
            "cli_authorized"@,
            CheckStatus::Red,
            "binary unavailable: "@ + e@,
            None,
        ),
        Probe::Passed => green("cli_authorized"@, "CLI is authorized and running as root"@),
        Probe::Refused { error, text } => match error {
            LsCliError::NotAuthorized => fault(
                "cli_authorized"@,
                CheckStatus::Red,
                "CLI is not authorized to make changes"@,
                Some(
                    "Open Little Snitch Preferences → Security and enable 'Allow access via Terminal'"@,
                ),
            ),
            LsCliError::MustBeRoot => fault(
                "cli_authorized"@,
                CheckStatus::Yellow,
                "CLI is authorized but not running as root (sudo required for most tools)"@,
                Some(
                    "Restart the MCP server with sudo, or configure TouchID for sudo (see check 'touchid_sudo')"@,
                ),
            ),
            _ => fault(
                "cli_authorized"@,
                CheckStatus::Yellow,
                "probe call returned unexpected error: "@ + text@,
                None,
            ),
        },
    }
}

/// Checks whether the command is allowed.
pub fn check_cli_authorized(probe: &Probe) -> (r: Check)
    ensures
        r@ == cli_check(*probe),
{
    match probe {
        Probe::NoBinary(e) => make(
            "cli_authorized",
            CheckStatus::Red,
            concat("binary unavailable: ", e.as_str()),
            None,
        ),
        Probe::Passed => make(
            "cli_authorized",
            CheckStatus::Green,
            "CLI is authorized and running as root".to_owned(),
            None,
        ),
        Probe::Refused { error, text } => match error {
            LsCliError::NotAuthorized => make(
                "cli_authorized",
                CheckStatus::Red,
                "CLI is not authorized to make changes".to_owned(),
                Some(
                    "Open Little Snitch Preferences → Security and enable 'Allow access via Terminal'",
                ),
            ),
            LsCliError::MustBeRoot => make(
                "cli_authorized",
                CheckStatus::Yellow,
                "CLI is authorized but not running as root (sudo required for most tools)".to_owned(),
                Some(
                    "Restart the MCP server with sudo, or configure TouchID for sudo (see check 'touchid_sudo')",
                ),
            ),
            _ => make(
                "cli_authorized",
                CheckStatus::Yellow,
                concat("probe call returned unexpected error: ", text.as_str()),
                None,
            ),
        },
    }
}

/// The check whether `sudo` accepts Touch ID.
pub open spec fn touchid_check(status: TouchIdSudoStatus) -> CheckView {
    match status {
        TouchIdSudoStatus::Configured => green(
            "touchid_sudo"@,
            "pam_tid.so is enabled for sudo"@,
        ),
        TouchIdSudoStatus::ReadError(e) => fault(
            "touchid_sudo"@,
            CheckStatus::Yellow,
            "could not read PAM config: "@ + e@,
            None,
        ),
        _ => fault(
            "touchid_sudo"@,
            CheckStatus::Yellow,
            "TouchID for sudo is not configured — sudo tools will require a terminal TTY"@,
            Some(
                "Add `auth sufficient pam_tid.so` as the first auth line in /etc/pam.d/sudo_local (create the file if needed)"@,
            ),
        ),
    }
}

/// Checks whether `sudo` accepts Touch ID.
pub fn check_touchid_sudo(status: &TouchIdSudoStatus) -> (r: Check)
    ensures
        r@ == touchid_check(*status),
{
    match status {
        TouchIdSudoStatus::Configured => make(
            "touchid_sudo",
            CheckStatus::Green,
            "pam_tid.so is enabled for sudo".to_owned(),
            None,
        ),
        TouchIdSudoStatus::ReadError(e) => make(
            "touchid_sudo",
            CheckStatus::Yellow,
            concat("could not read PAM config: ", e.as_str()),
            None,
        ),
        _ => make(
            "touchid_sudo",
            CheckStatus::Yellow,
            "TouchID for sudo is not configured — sudo tools will require a terminal TTY".to_owned(),
            Some(
                "Add `auth sufficient pam_tid.so` as the first auth line in /etc/pam.d/sudo_local (create the file if needed)",
            ),
        ),
    }
}

/// The managed directory.
#[derive(Debug)]
pub enum DirState {
    /// It cannot be made; the text says why.
    NoDirectory(String),
    /// It cannot be looked at; the text says why.
    StatFailed(String),
    /// It cannot be written to; the text is its path.
    ReadOnly(String),
    /// It can be used; the text is its path.
    Ready(String),
}

/// The check of the managed directory.
pub open spec fn dir_check(state: DirState) -> CheckView {
    match state {
        DirState::NoDirectory(e) => fault(
            "managed_dir"@,
            CheckStatus::Red,
            "cannot bootstrap managed directory: "@ + e@,
            Some(
                "Check that the managed directory path is accessible and writable. Override with LSMCP_MANAGED_DIR."@,
            ),
        ),
        DirState::StatFailed(e) => fault(
            "managed_dir"@,
            CheckStatus::Red,
            "managed directory stat failed: "@ + e@,
            None,
        ),
        DirState::ReadOnly(root) => fault(
            "managed_dir"@,
            CheckStatus::Red,
            "managed directory is read-only: "@ + root@,
            Some("Check directory permissions (should be 700)"@),
        ),
        DirState::Ready(root) => green("managed_dir"@, "managed directory ready: "@ + root@),
    }
}

/// Checks the managed directory.
pub fn check_managed_dir(state: &DirState) -> (r: Check)
    ensures
        r@ == dir_check(*state),
{
    match state {
        DirState::NoDirectory(e) => make(
            "managed_dir",
            CheckStatus::Red,
            concat("cannot bootstrap managed directory: ", e.as_str()),
            Some(
                "Check that the managed directory path is accessible and writable. Override with LSMCP_MANAGED_DIR.",
            ),
        ),
        DirState::StatFailed(e) => make(
            "managed_dir",
            CheckStatus::Red,
            concat("managed directory stat failed: ", e.as_str()),
            None,
        ),
        DirState::ReadOnly(root) => make(
            "managed_dir",
            CheckStatus::Red,
            concat("managed directory is read-only: ", root.as_str()),
            Some("Check directory permissions (should be 700)"),
        ),
        DirState::Ready(root) => make(
            "managed_dir",
            CheckStatus::Green,
            concat("managed directory ready: ", root.as_str()),
            None,
        ),
    }
}

/// The check whether a rule set can be restored without locking the terminal out.
pub open spec fn terminal_flag_check(binary: Binary) -> CheckView {
    match binary {
        Binary::Missing(e) => fault(
            "restore_model_terminal_flag"@,
            CheckStatus::Red,
            "binary unavailable: "@ + e@,
            None,
        ),
        Binary::Found { path, version } => match version {
            VersionResult::Compatible(v) => green(
                "restore_model_terminal_flag"@,
                "restore-model supports "@ + RESTORE_MODEL_TERMINAL_GUARD_FLAG@ + " (LS "@ + v@ + " ≥ 6.3.3)"@,
            ),
            _ => fault(
                "restore_model_terminal_flag"@,
                CheckStatus::Red,
                "restore-model --preserve-terminal-access unavailable (version below 6.3.3) — model-surgery tools are disabled"@,
                Some("Upgrade Little Snitch to ≥ 6.3.3"@),
            ),
        },
    }
}

/// Checks whether a rule set can be restored without locking the terminal out.
pub fn check_restore_model_terminal_flag(binary: &Binary) -> (r: Check)
    ensures
        r@ == terminal_flag_check(*binary),
{
    match binary {
        Binary::Missing(e) => make(
            "restore_model_terminal_flag",
            CheckStatus::Red,
            concat("binary unavailable: ", e.as_str()),
            None,
        ),
        Binary::Found { path: _, version } => match version {
            VersionResult::Compatible(v) => {
                let mut message: String = concat(
                    "restore-model supports ",
                    RESTORE_MODEL_TERMINAL_GUARD_FLAG,
                );
                message.push_str(" (LS ");
                message.push_str(v.as_str());
                message.push_str(" ≥ 6.3.3)");
                make("restore_model_terminal_flag", CheckStatus::Green, message, None)
            },
            _ => make(
                "restore_model_terminal_flag",
                CheckStatus::Red,
                "restore-model --preserve-terminal-access unavailable (version below 6.3.3) — model-surgery tools are disabled".to_owned(),
                Some("Upgrade Little Snitch to ≥ 6.3.3"),
            ),
        },
    }
}

/// The meanings of some checks.
pub open spec fn checks_view(v: Seq<Check>) -> Seq<CheckView> {
    Seq::new(v.len(), |i: int| v[i]@)
}

/// Whether every check came out well.
pub open spec fn all_well(v: Seq<CheckView>) -> bool {
    forall|i: int| 0 <= i < v.len() ==> (#[trigger] v[i]).status == CheckStatus::Green
}

/// Whether every check came out well.
pub fn all_green(checks: &Vec<Check>) -> (r: bool)
    ensures
        r == all_well(checks_view(checks@)),
{
    for i in 0..checks.len()
        invariant
            forall|j: int| 0 <= j < i ==> (#[trigger] checks@[j]).status == CheckStatus::Green,
    {
        if checks[i].status != CheckStatus::Green {
            proof {
                assert(checks_view(checks@)[i as int].status != CheckStatus::Green);
            }
            return false;
        }
    }
    true
}

/// Runs the checks.
pub fn run(
    _args: DoctorArgs,
    binary: &Binary,
    probe: &Probe,
    touchid: &TouchIdSudoStatus,
    dir: &DirState,
) -> (r: Result<DoctorReport, String>)
    ensures
        r is Ok,
        checks_view(r->Ok_0.checks@) == seq![
            binary_check(*binary),
            cli_check(*probe),
            touchid_check(*touchid),
            dir_check(*dir),
            terminal_flag_check(*binary),
        ],
        r->Ok_0.ok == all_well(checks_view(r->Ok_0.checks@)),
{
    let mut checks: Vec<Check> = Vec::new();
    checks.push(check_binary(binary));
    checks.push(check_cli_authorized(probe));
    checks.push(check_touchid_sudo(touchid));
    checks.push(check_managed_dir(dir));
    checks.push(check_restore_model_terminal_flag(binary));
    let ok: bool = all_green(&checks);
    proof {
        assert(checks_view(checks@) =~= seq![
            binary_check(*binary),
            cli_check(*probe),
            touchid_check(*touchid),
            dir_check(*dir),
            terminal_flag_check(*binary),
        ]);
    }
    Ok(DoctorReport { ok, checks })
}

/// All is well exactly if the program is there in a version that will do, the command is
/// allowed and runs as root, `sudo` accepts Touch ID, and the managed directory is ready.
pub proof fn law_when_all_is_well(
    binary: Binary,
    probe: Probe,
    touchid: TouchIdSudoStatus,
    dir: DirState,
)
    ensures
        all_well(
            seq![
                binary_check(binary),
                cli_check(probe),
                touchid_check(touchid),
                dir_check(dir),
                terminal_flag_check(binary),
            ],
        ) <==> binary is Found && binary->version is Compatible && probe is Passed
            && touchid is Configured && dir is Ready,
{
    let all = seq![
        binary_check(binary),
        cli_check(probe),
        touchid_check(touchid),
        dir_check(dir),
        terminal_flag_check(binary),
    ];
    if all_well(all) {
        assert(all[0].status == CheckStatus::Green);
        assert(all[1].status == CheckStatus::Green);
        assert(all[2].status == CheckStatus::Green);
        assert(all[3].status == CheckStatus::Green);
    }
}

/// A check that came out well asks for nothing.
pub proof fn law_green_checks_ask_for_nothing(
    binary: Binary,
    probe: Probe,
    touchid: TouchIdSudoStatus,
    dir: DirState,
)
    ensures
        binary_check(binary).status == CheckStatus::Green ==> binary_check(
            binary,
        ).remediation is None,
        cli_check(probe).status == CheckStatus::Green ==> cli_check(probe).remediation is None,
        touchid_check(touchid).status == CheckStatus::Green ==> touchid_check(
            touchid,
        ).remediation is None,
        dir_check(dir).status == CheckStatus::Green ==> dir_check(dir).remediation is None,
        terminal_flag_check(binary).status == CheckStatus::Green ==> terminal_flag_check(
            binary,
        ).remediation is None,
{
}

/// What is in the way of everything is red, and what only stands in the way of some tools is
/// yellow.
pub proof fn law_colours(
    binary: Binary,
    probe: Probe,
    touchid: TouchIdSudoStatus,
    dir: DirState,
)
    ensures
        binary_check(binary).status == CheckStatus::Red <==> binary is Missing || binary->version
            is TooOld,
        binary_check(binary).status == CheckStatus::Yellow <==> binary is Found && binary->version
            is Unparseable,
        cli_check(probe).status == CheckStatus::Red <==> probe is NoBinary || (probe is Refused
            && probe->error is NotAuthorized),
        cli_check(probe).status == CheckStatus::Green <==> probe is Passed,
        touchid_check(touchid).status != CheckStatus::Red,
        touchid_check(touchid).status == CheckStatus::Green <==> touchid is Configured,
        dir_check(dir).status == CheckStatus::Red <==> !(dir is Ready),
        terminal_flag_check(binary).status == CheckStatus::Green <==> binary is Found
            && binary->version is Compatible,
        terminal_flag_check(binary).status != CheckStatus::Yellow,
{
}

} // verus!
