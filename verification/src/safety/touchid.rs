//! Whether `sudo` accepts Touch ID.

use vstd::prelude::*;
use crate::text::{
    begins_with, contains, lines, lines_of, occurs_in, starts_with, texts, trim, trimmed,
};

verus! {

/// Whether `sudo` accepts Touch ID.
#[derive(Debug)]
pub enum TouchIdSudoStatus {
    /// It does.
    Configured,
    /// It does not.
    NotConfigured,
    /// There is no local configuration of `sudo`.
    FileMissing,
    /// The configuration cannot be read; the text says why.
    ReadError(String),
}

/// What became of reading the local configuration of `sudo`.
#[derive(Debug)]
pub enum PamRead {
    /// There is no such file.
    Missing,
    /// The file cannot be read; the text says why.
    Failed(String),
    /// The file holds this text.
    Text(String),
}

/// Whether a line of the configuration names the Touch ID module, and is no comment.
pub open spec fn enables_touchid(line: Seq<char>) -> bool {
    !begins_with(trimmed(line), "#"@) && occurs_in(line, "pam_tid.so"@)
}

/// Whether a line of the configuration enables Touch ID.
pub open spec fn is_configured(text: Seq<char>) -> bool {
    exists|i: int|
        0 <= i < lines_of(text).len() && enables_touchid(#[trigger] lines_of(text)[i])
}

/// What the configuration comes to.
pub fn detect(read: PamRead) -> (r: TouchIdSudoStatus)
    ensures
        match read {
            PamRead::Missing => r is FileMissing,
            PamRead::Failed(e) => r matches TouchIdSudoStatus::ReadError(m) && m@ == e@,
            PamRead::Text(t) => if is_configured(t@) {
                r is Configured
            } else {
                r is NotConfigured
            },
        },
{
    let text: String = match read {
        PamRead::Missing => {
            return TouchIdSudoStatus::FileMissing;
        },
        PamRead::Failed(e) => {
            return TouchIdSudoStatus::ReadError(e);
        },
        PamRead::Text(t) => t,
    };
    let all: Vec<String> = lines(text.as_str());
    for i in 0..all.len()
        invariant
            read == PamRead::Text(text),
            texts(all@) == lines_of(text@),
            forall|j: int| 0 <= j < i ==> !enables_touchid(#[trigger] lines_of(text@)[j]),
    {
        let line: &str = all[i].as_str();
        proof {
            assert(lines_of(text@)[i as int] == line@);
        }
        if !starts_with(trim(line).as_str(), "#") && contains(line, "pam_tid.so") {
            return TouchIdSudoStatus::Configured;
        }
    }
    TouchIdSudoStatus::NotConfigured
}

/// A line switches Touch ID on just if it names the module and is no comment.
pub proof fn law_comments_switch_nothing_on(line: Seq<char>)
    ensures
        enables_touchid(line) <==> occurs_in(line, "pam_tid.so"@) && (trimmed(line).len() == 0
            || trimmed(line)[0] != '#'),
{
    reveal_strlit("#");
    let t = trimmed(line);
    if t.len() > 0 {
        assert(t.take(1) =~= seq![t[0]]);
        assert("#"@ =~= seq!['#']);
        if t[0] != '#' {
            assert(t.take(1)[0] != "#"@[0]);
        }
    }
}

/// One line that switches Touch ID on is enough, wherever it stands, and without one it is off.
pub proof fn law_one_line_is_enough(text: Seq<char>, i: int)
    ensures
        0 <= i < lines_of(text).len() && enables_touchid(lines_of(text)[i]) ==> is_configured(text),
        (forall|j: int|
            0 <= j < lines_of(text).len() ==> !enables_touchid(#[trigger] lines_of(text)[j]))
            ==> !is_configured(text),
{
}

} // verus!
