//! Waiting for `sudo` to become available, with instructions for setting it up.

use vstd::prelude::*;
use crate::safety::touchid::TouchIdSudoStatus;
use crate::text::{concat, decimal, texts, u64_to_string};

verus! {

/// Seconds between two polls.
pub const POLL_INTERVAL_SECS: u64 = 5;

/// Polls with a pause behind them, after which waiting ends.
pub const MAX_POLLS: u32 = 12;

/// Those polls and the one behind the last pause.
pub const ALL_POLLS: u32 = 13;

/// What the tool is given.
#[derive(Debug)]
pub struct WarmSudoArgs {}

/// How `sudo` can be set up.
#[derive(Debug)]
pub struct SetupInstructions {
    /// Touch ID for `sudo`, set up once.
    pub tier1_touchid: Vec<String>,
    /// A command that keeps `sudo` available as long as a terminal is open.
    pub tier3_keepalive: String,
}

/// What the tool returns.
#[derive(Debug)]
pub struct WarmSudoResult {
    /// Whether the process was running as root from the start.
    pub already_root: bool,
    /// Whether `sudo` accepts Touch ID.
    pub touchid_status: String,
    /// How `sudo` can be set up.
    pub instructions: SetupInstructions,
    /// Whether `sudo` is available.
    pub sudo_available: bool,
    /// How often `sudo` was polled; 0 if the process was running as root.
    pub polls_performed: u32,
    /// What this comes to.
    pub message: String,
}

/// The status as a word, with the reason behind it where it could not be read.
pub open spec fn status_word(status: TouchIdSudoStatus) -> Seq<char> {
    match status {
        TouchIdSudoStatus::Configured => "configured"@,
        TouchIdSudoStatus::NotConfigured => "not_configured"@,
        TouchIdSudoStatus::FileMissing => "pam_file_missing"@,
        TouchIdSudoStatus::ReadError(e) => "read_error: "@ + e@,
    }
}

/// The status as a word.
pub fn status_string(status: &TouchIdSudoStatus) -> (r: String)
    ensures
        r@ == status_word(*status),
{
    match status {
        TouchIdSudoStatus::Configured => "configured".to_owned(),
        TouchIdSudoStatus::NotConfigured => "not_configured".to_owned(),
        TouchIdSudoStatus::FileMissing => "pam_file_missing".to_owned(),
        TouchIdSudoStatus::ReadError(e) => concat("read_error: ", e.as_str()),
    }
}

/// How `sudo` can be set up.
pub fn setup_instructions() -> (r: SetupInstructions)
    ensures
        is_instructions(r),
{
    let mut steps: Vec<String> = Vec::new();
    steps.push("sudo cp /etc/pam.d/sudo_local.template /etc/pam.d/sudo_local".to_owned());
    steps.push("echo 'auth sufficient pam_tid.so' | sudo tee -a /etc/pam.d/sudo_local".to_owned());
    steps.push("# Then restart the MCP server with: sudo little-snitch-mcp".to_owned());
    proof {
        assert(texts(steps@) =~= touchid_steps());
    }
    SetupInstructions {
        tier1_touchid: steps,
        tier3_keepalive: "sudo -v && (while true; do sudo -n true; sleep 60; done) &".to_owned(),
    }
}

/// The steps that set up Touch ID for `sudo`.
pub open spec fn touchid_steps() -> Seq<Seq<char>> {
    seq![
        "sudo cp /etc/pam.d/sudo_local.template /etc/pam.d/sudo_local"@,
        "echo 'auth sufficient pam_tid.so' | sudo tee -a /etc/pam.d/sudo_local"@,
        "# Then restart the MCP server with: sudo little-snitch-mcp"@,
    ]
}

/// Whether these are the instructions.
pub open spec fn is_instructions(r: SetupInstructions) -> bool {
    texts(r.tier1_touchid@) == touchid_steps() && r.tier3_keepalive@
        == "sudo -v && (while true; do sudo -n true; sleep 60; done) &"@
}

/// Where waiting for `sudo` stands.
#[derive(Debug, Clone, Copy, PartialEq, Eq, Structural)]
pub enum Waiting {
    /// `sudo` was polled this often and was not available: ask again, after a pause
    /// unless this is the first time.
    Ask { failed: u32 },
    /// `sudo` is available, after this many polls.
    Available { polls: u32 },
    /// `sudo` did not become available.
    GaveUp,
}

impl Waiting {
    /// Where waiting stands after an answer. After the last pause `sudo` is polled once
    /// more.
    pub open spec fn after(self, available: bool) -> Waiting {
        match self {
            Waiting::Ask { failed } => if available {
                Waiting::Available {
                    polls: if failed < MAX_POLLS {
                        (failed + 1) as u32
                    } else {
                        ALL_POLLS
                    },
                }
            } else if failed < MAX_POLLS {
                Waiting::Ask { failed: (failed + 1) as u32 }
            } else {
                Waiting::GaveUp
            },
            other => other,
        }
    }

    /// Where waiting begins.
    pub fn start() -> (r: Waiting)
        ensures
            r == (Waiting::Ask { failed: 0 }),
    {
        Waiting::Ask { failed: 0 }
    }

    /// Where waiting stands after an answer.
    pub fn next(self, available: bool) -> (r: Waiting)
        ensures
            r == self.after(available),
    {
        match self {
            Waiting::Ask { failed } => if available {
                Waiting::Available {
                    polls: if failed < MAX_POLLS {
                        failed + 1
                    } else {
                        ALL_POLLS
                    },
                }
            } else if failed < MAX_POLLS {
                Waiting::Ask { failed: failed + 1 }
            } else {
                Waiting::GaveUp
            },
            other => other,
        }
    }
}

/// Where waiting stands after some answers.
pub open spec fn waited(answers: Seq<bool>) -> Waiting
    decreases answers.len(),
{
    if answers.len() == 0 {
        Waiting::Ask { failed: 0 }
    } else {
        waited(answers.drop_last()).after(answers.last())
    }
}

/// What the tool says of how waiting ended, after so many polls with a pause behind them.
pub open spec fn outcome_message(already_root: bool, available: bool, polls: u32) -> Seq<char> {
    if already_root {
        "MCP server is running as root — live-write tools are available."@
    } else if available {
        "sudo is now available — live-write tools are enabled for this session."@
    } else {
        "sudo is not yet available after "@ + decimal(polls as nat) + " polls ("@ + decimal(
            (polls * POLL_INTERVAL_SECS) as nat,
        ) + " s). Follow the setup instructions below, then invoke warm_sudo again."@
    }
}

/// Tells whether `sudo` is available. `waiting` is where waiting ended; it does not
/// matter where the process is running as root.
pub fn run(
    _args: WarmSudoArgs,
    already_root: bool,
    touchid: &TouchIdSudoStatus,
    waiting: Waiting,
) -> (r: Result<WarmSudoResult, String>)
    ensures
        r is Ok,
        ({
            let w = r->Ok_0;
            let polls: u32 = match waiting {
                Waiting::Available { polls } => polls,
                Waiting::Ask { failed } => failed,
                Waiting::GaveUp => ALL_POLLS,
            };
            &&& w.already_root == already_root
            &&& w.touchid_status@ == status_word(*touchid)
            &&& is_instructions(w.instructions)
            &&& w.sudo_available == (already_root || waiting is Available)
            &&& w.polls_performed == if already_root {
                0
            } else {
                polls
            }
            &&& w.message@ == outcome_message(
                already_root,
                waiting is Available,
                if polls < MAX_POLLS {
                    polls
                } else {
                    MAX_POLLS
                },
            )
        }),
{
    let touchid_status: String = status_string(touchid);
    let instructions: SetupInstructions = setup_instructions();
    if already_root {
        return Ok(
            WarmSudoResult {
                already_root: true,
                touchid_status,
                instructions,
                sudo_available: true,
                polls_performed: 0,
                message: "MCP server is running as root — live-write tools are available.".to_owned(),
            },
        );
    }
    let (sudo_available, polls): (bool, u32) = match waiting {
        Waiting::Available { polls } => (true, polls),
        Waiting::Ask { failed } => (false, failed),
        Waiting::GaveUp => (false, ALL_POLLS),
    };
    let message: String = if sudo_available {
        "sudo is now available — live-write tools are enabled for this session.".to_owned()
    } else {
        let paused: u32 = if polls < MAX_POLLS {
            polls
        } else {
            MAX_POLLS
        };
        let mut out: String = concat(
            "sudo is not yet available after ",
            u64_to_string(paused as u64).as_str(),
        );
        out.push_str(" polls (");
        out.push_str(u64_to_string(paused as u64 * POLL_INTERVAL_SECS).as_str());
        out.push_str(" s). Follow the setup instructions below, then invoke warm_sudo again.");
        out
    };
    Ok(
        WarmSudoResult {
            already_root: false,
            touchid_status,
            instructions,
            sudo_available,
            polls_performed: polls,
            message,
        },
    )
}

/// As long as every answer was no, waiting goes on until the last poll and the question
/// behind it, and then ends.
proof fn lemma_waited_in_vain(answers: Seq<bool>)
    requires
        forall|i: int| 0 <= i < answers.len() ==> !#[trigger] answers[i],
    ensures
        waited(answers) == if answers.len() <= MAX_POLLS {
            Waiting::Ask { failed: answers.len() as u32 }
        } else {
            Waiting::GaveUp
        },
    decreases answers.len(),
{
    if answers.len() > 0 {
        let before = answers.drop_last();
        assert forall|i: int| 0 <= i < before.len() implies !#[trigger] before[i] by {
            assert(before[i] == answers[i]);
        }
        lemma_waited_in_vain(before);
        assert(!answers.last());
    }
}

/// `sudo` is found available exactly if one of the polls says so; the count is that of the
/// polls up to then.
pub proof fn law_first_yes_decides(answers: Seq<bool>, k: int)
    requires
        0 <= k < answers.len(),
        answers[k],
        forall|i: int| 0 <= i < k ==> !#[trigger] answers[i],
    ensures
        k < ALL_POLLS ==> waited(answers) == (Waiting::Available { polls: (k + 1) as u32 }),
        k >= ALL_POLLS ==> waited(answers) == Waiting::GaveUp,
    decreases answers.len(),
{
    let before = answers.drop_last();
    if k == answers.len() - 1 {
        lemma_waited_in_vain(before);
    } else {
        law_first_yes_decides(before, k);
    }
}

/// Waiting ends: after all polls, nothing is asked again.
pub proof fn law_waiting_ends(answers: Seq<bool>)
    requires
        answers.len() >= ALL_POLLS,
    ensures
        !(waited(answers) is Ask),
{
    if exists|k: int| 0 <= k < answers.len() && #[trigger] answers[k] {
        let k = lemma_first_yes(answers);
        law_first_yes_decides(answers, k);
    } else {
        lemma_waited_in_vain(answers);
    }
}

proof fn lemma_first_yes(answers: Seq<bool>) -> (k: int)
    requires
        exists|k: int| 0 <= k < answers.len() && #[trigger] answers[k],
    ensures
        0 <= k < answers.len(),
        answers[k],
        forall|i: int| 0 <= i < k ==> !#[trigger] answers[i],
    decreases answers.len(),
{
    let before = answers.drop_last();
    if exists|j: int| 0 <= j < before.len() && #[trigger] before[j] {
        let k = lemma_first_yes(before);
        assert forall|i: int| 0 <= i < k implies !#[trigger] answers[i] by {
            assert(before[i] == answers[i]);
        }
        k
    } else {
        assert forall|i: int| 0 <= i < before.len() implies !#[trigger] answers[i] by {
            assert(before[i] == answers[i]);
        }
        answers.len() - 1
    }
}

} // verus!
