//! The command that puts another rule set in the place of the live one.

use vstd::prelude::*;
use crate::text::texts;
use crate::tools::backup_harness::words;

verus! {

/// The flag by which a restored rule set leaves the terminal its access.
pub const RESTORE_MODEL_TERMINAL_GUARD_FLAG: &'static str = "-t";

/// The arguments of the command that restores the rule set of a file. The flag that
/// leaves the terminal its access is always among them.
pub fn restore_command(path: &str) -> (r: Vec<String>)
    ensures
        texts(r@) == seq!["restore-model"@, RESTORE_MODEL_TERMINAL_GUARD_FLAG@, path@],
{
    words("restore-model", RESTORE_MODEL_TERMINAL_GUARD_FLAG, path)
}

} // verus!
