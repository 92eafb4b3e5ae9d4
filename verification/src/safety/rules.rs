//! Which rules may be changed without a stronger acknowledgement.

use vstd::prelude::*;
use crate::model::{Group, GroupView, Rule, RuleView};
use crate::text::{begins_with, concat, debug_form, law_begins_with, quoted, starts_with};

verus! {

/// What is to be done with a rule.
#[derive(Debug, Clone, Copy, PartialEq, Eq, Structural)]
pub enum Intent {
    Update,
    Remove,
}

impl Intent {
    /// The word that stands for it.
    pub open spec fn word(self) -> Seq<char> {
        match self {
            Intent::Update => "update"@,
            Intent::Remove => "remove"@,
        }
    }

    /// The word that stands for it.
    pub fn as_str(&self) -> (r: &'static str)
        ensures
            r@ == self.word(),
    {
        match self {
            Intent::Update => "update",
            Intent::Remove => "remove",
        }
    }
}

/// Whether a change of a rule is allowed, and why not.
#[derive(Debug)]
pub struct GuardResult {
    pub allowed: bool,
    pub reason: Option<String>,
    /// Whether a stronger acknowledgement would let the change through.
    pub requires_strong_ack: bool,
}

/// Whether a group comes with the system.
pub open spec fn is_builtin(g: GroupView) -> bool {
    g.any_kind() matches Some(k) && begins_with(k, "builtin"@)
}

/// Whether a group comes with the system.
pub fn group_is_builtin(g: &Group) -> (r: bool)
    ensures
        r == is_builtin(g@),
{
    match g.any_kind() {
        Some(k) => starts_with(k.as_str(), "builtin"),
        None => false,
    }
}

/// What stands against changing a rule, if anything: it is protected, it comes
/// from the factory, it is about trusted signatures, or its group comes with the
/// system.
pub open spec fn objection(r: RuleView, group: Option<GroupView>) -> Option<Seq<char>> {
    if r.protected == Some(true) {
        Some("rule is protected"@)
    } else if r.factory_id is Some {
        Some("rule has factoryID "@ + debug_form(r.factory_id->0))
    } else if r.requires_trusted_signature_for_any_process == Some(true) {
        Some("rule requires a trusted signature for any process"@)
    } else if group is Some && is_builtin(group->0) {
        Some("rule belongs to a builtin group"@)
    } else {
        None
    }
}

/// Why a change of a rule is refused.
pub open spec fn refusal(why: Seq<char>, intent: Intent) -> Seq<char> {
    why + "; "@ + intent.word() + " requires live_write_strong"@
}

/// Whether a rule in the given group may be changed without a stronger
/// acknowledgement.
pub fn guard(rule: &Rule, intent: Intent, group: Option<&Group>) -> (r: GuardResult)
    ensures
        ({
            let g = match group {
                Some(g) => Some(g@),
                None => None,
            };
            match objection(rule@, g) {
                None => r.allowed && r.reason is None && !r.requires_strong_ack,
                Some(why) => !r.allowed && r.reason is Some && r.reason->0@ == refusal(why, intent)
                    && r.requires_strong_ack,
            }
        }),
{
    let builtin: bool = match group {
        Some(g) => group_is_builtin(g),
        None => false,
    };
    let protected: bool = match rule.protected {
        Some(b) => b,
        None => false,
    };
    let trusted: bool = match rule.requires_trusted_signature_for_any_process {
        Some(b) => b,
        None => false,
    };
    let mut why: String = if protected {
        "rule is protected".to_owned()
    } else if let Some(id) = &rule.factory_id {
        concat("rule has factoryID ", quoted(id.as_str()).as_str())
    } else if trusted {
        "rule requires a trusted signature for any process".to_owned()
    } else if builtin {
        "rule belongs to a builtin group".to_owned()
    } else {
        return GuardResult { allowed: true, reason: None, requires_strong_ack: false };
    };
    why.push_str("; ");
    why.push_str(intent.as_str());
    why.push_str(" requires live_write_strong");
    GuardResult { allowed: false, reason: Some(why), requires_strong_ack: true }
}

/// A rule may be changed without more ado unless it is protected, comes from the factory, is
/// for every process with a trusted signature, or belongs to a group that comes with the
/// system; and then never.
pub proof fn law_which_rules_are_guarded(r: RuleView, group: Option<GroupView>)
    ensures
        objection(r, group) is Some <==> {
            ||| r.protected == Some(true)
            ||| r.factory_id is Some
            ||| r.requires_trusted_signature_for_any_process == Some(true)
            ||| group is Some && is_builtin(group->0)
        },
{
}

/// A group comes with the system just if its kind says so, or what older versions wrote for
/// the kind where there is none.
pub proof fn law_which_groups_are_builtin(g: GroupView, rest: Seq<char>)
    ensures
        g.kind == Some("builtin"@ + rest) ==> is_builtin(g),
        g.kind is None && g.kind_legacy == Some("builtin"@ + rest) ==> is_builtin(g),
        is_builtin(g) ==> {
            ||| g.kind is Some && begins_with(g.kind->0, "builtin"@)
            ||| g.kind is None && g.kind_legacy is Some && begins_with(
                g.kind_legacy->0,
                "builtin"@,
            )
        },
{
    law_begins_with("builtin"@ + rest, "builtin"@, rest);
}

} // verus!
