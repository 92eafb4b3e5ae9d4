//! Taking a rule out of the live rule set: the apply side of a proposed removal.

use vstd::prelude::*;
use crate::json::Json;
use crate::model::serial::{rule_json, rule_to_json};
use crate::model::{rules_view, Group, Model, ModelView, Rule};
use crate::safety::rules::{guard, objection, refusal, GuardResult, Intent};
use crate::safety::session::{law_issued_token, Session, SessionView};
use crate::safety::token::{context, ContextView, TokenError, VerifyContext};
use crate::text::{concat, decimal, u64_to_string};
use crate::tools::add_rule_to_live_model::added;
use crate::tools::backup_harness::{backup_of, run_with_backup, GuardedRun};
use crate::tools::prepare_live_model_change::{
    change_payload, diff_of, out_of_range, out_of_range_message, ChangeRequest, Diff, DiffView,
};
use crate::tools::update_rule_in_live_model::{find_group, group_of};

verus! {

/// What the tool is given.
#[derive(Debug)]
pub struct RemoveRuleFromLiveModelArgs {
    /// Position of the rule.
    pub index: usize,
    /// Confirmation token of the proposal.
    pub token: String,
}

/// What the tool returns.
#[derive(Debug)]
pub struct RemoveRuleFromLiveModelResult {
    /// The rule that was taken away.
    pub removed_rule: Json,
    /// Where the backup from before the change is.
    pub backup_path: String,
}

/// What can go wrong.
#[derive(Debug)]
pub enum RemoveRuleError {
    IndexOutOfRange { index: usize, total: usize },
    RequiresStrongAck { reason: String },
    Token(TokenError),
}

/// What a [`RemoveRuleError`] means.
#[verifier::ext_equal]
pub enum RemoveRuleErrorView {
    IndexOutOfRange { index: nat, total: nat },
    RequiresStrongAck { reason: Seq<char> },
    Token(TokenError),
}

impl View for RemoveRuleError {
    type V = RemoveRuleErrorView;

    open spec fn view(&self) -> RemoveRuleErrorView {
        match self {
            RemoveRuleError::IndexOutOfRange { index, total } => {
                RemoveRuleErrorView::IndexOutOfRange { index: *index as nat, total: *total as nat }
            },
            RemoveRuleError::RequiresStrongAck { reason } => {
                RemoveRuleErrorView::RequiresStrongAck { reason: reason@ }
            },
            RemoveRuleError::Token(e) => RemoveRuleErrorView::Token(*e),
        }
    }
}

impl RemoveRuleErrorView {
    /// What the error says.
    pub open spec fn says(self) -> Seq<char> {
        match self {
            RemoveRuleErrorView::IndexOutOfRange { index, total } => out_of_range(index, total),
            RemoveRuleErrorView::RequiresStrongAck { reason } => "rule mutation refused: "@ + reason
                + " (requires live_write_strong acknowledgement)"@,
            RemoveRuleErrorView::Token(e) => "token verify failed: "@ + e.says(),
        }
    }
}

impl RemoveRuleError {
    /// What the error says.
    pub fn message(&self) -> (r: String)
        ensures
            r@ == self@.says(),
    {
        match self {
            RemoveRuleError::IndexOutOfRange { index, total } => {
                out_of_range_message(*index, *total)
            },
            RemoveRuleError::RequiresStrongAck { reason } => {
                let mut out: String = concat("rule mutation refused: ", reason.as_str());
                out.push_str(" (requires live_write_strong acknowledgement)");
                out
            },
            RemoveRuleError::Token(e) => concat("token verify failed: ", e.message().as_str()),
        }
    }
}

/// What a token for taking away the rule at `index` is held against.
pub open spec fn remove_context(current: ModelView, index: nat) -> ContextView {
    context(
        "remove_rule_from_live_model"@,
        (DiffView::RemoveRule { index, rule: rule_json(current.rules[index as int]) }).sha256(),
        decimal(current.bundle_version as nat),
    )
}

/// The rule set without the rule at a position.
pub open spec fn removed(current: ModelView, index: int) -> ModelView {
    ModelView { rules: current.rules.remove(index), ..current }
}

/// Takes the rule at `index` away, unless it is one that needs a stronger
/// acknowledgement, if the token is accepted for this very removal.
pub fn apply_pure(
    current: Model,
    index: usize,
    token_str: String,
    session: &mut Session,
    now_unix_secs: u64,
) -> (r: Result<(Model, Rule), RemoveRuleError>)
    ensures
        ({
            let total = current@.rules.len();
            let rule = current@.rules[index as int];
            let why = objection(rule, group_of(current@, rule));
            let ctx = remove_context(current@, index as nat);
            if index >= total {
                &&& r is Err
                &&& r->Err_0@ == (RemoveRuleErrorView::IndexOutOfRange {
                    index: index as nat,
                    total,
                })
                &&& final(session)@ == old(session)@
            } else if why is Some {
                &&& r is Err
                &&& r->Err_0@ == (RemoveRuleErrorView::RequiresStrongAck {
                    reason: refusal(why->0, Intent::Remove),
                })
                &&& final(session)@ == old(session)@
            } else {
                &&& final(session)@ == old(session)@.after(token_str@, ctx, now_unix_secs as nat)
                &&& match old(session)@.verdict(token_str@, ctx, now_unix_secs as nat) {
                    Err(e) => r is Err && r->Err_0@ == RemoveRuleErrorView::Token(e),
                    Ok(_) => r is Ok && r->Ok_0.0@ == removed(current@, index as int) && r->Ok_0.1@
                        == rule,
                }
            }
        }),
{
    let mut current: Model = current;
    let total: usize = current.rules.len();
    if index >= total {
        return Err(RemoveRuleError::IndexOutOfRange { index, total });
    }
    let group: Option<&Group> = find_group(&current, &current.rules[index]);
    let verdict: GuardResult = guard(&current.rules[index], Intent::Remove, group);
    if !verdict.allowed {
        let reason: String = match verdict.reason {
            Some(s) => s,
            None => "rule mutation requires strong acknowledgement".to_owned(),
        };
        return Err(RemoveRuleError::RequiresStrongAck { reason });
    }
    let rule: Json = rule_to_json(&current.rules[index]);
    let sha: String = Diff::RemoveRule { index, rule }.sha256();
    let bundle_version: String = u64_to_string(current.bundle_version);
    let ctx: VerifyContext = VerifyContext {
        tool: "remove_rule_from_live_model",
        current_diff_sha256: sha.as_str(),
        current_bundle_version: bundle_version.as_str(),
    };
    match session.verify_at(token_str.as_str(), &ctx, now_unix_secs) {
        Ok(()) => {},
        Err(e) => {
            return Err(RemoveRuleError::Token(e));
        },
    }
    let ghost rules = current.rules@;
    let gone: Rule = current.rules.remove(index);
    proof {
        assert(rules_view(current.rules@) =~= rules_view(rules).remove(index as int));
    }
    Ok((current, gone))
}

/// What a removal comes to. `ran` is what became of putting the rule set in the place of the
/// live one, behind a backup.
pub fn finish_remove(rule: &Rule, ran: GuardedRun) -> (r: Result<
    RemoveRuleFromLiveModelResult,
    String,
>)
    ensures
        match backup_of(ran, "restore-model"@) {
            Err(e) => r is Err && r->Err_0@ == e,
            Ok(path) => r is Ok && r->Ok_0.removed_rule@ == rule_json(rule@)
                && r->Ok_0.backup_path@ == path,
        },
{
    match run_with_backup(ran, "restore-model") {
        Ok(backup_path) => Ok(
            RemoveRuleFromLiveModelResult { removed_rule: rule_to_json(rule), backup_path },
        ),
        Err(e) => Err(e),
    }
}

/// A proposed removal goes through: with the rule set as it was, the token of the
/// proposal is accepted until its time is over or it has been used.
pub proof fn law_prepared_removal_applies(
    s: SessionView,
    index: usize,
    current: ModelView,
    prepared: nat,
    now: nat,
)
    requires
        prepared <= u64::MAX,
        prepared <= now < prepared + crate::safety::token::DEFAULT_TTL_SECS,
        index < current.rules.len(),
    ensures
        ({
            let req = ChangeRequest::RemoveRule { index };
            let diff = diff_of(req, current, prepared);
            let token = s.token(change_payload(req, diff->Ok_0, current, prepared));
            &&& diff is Ok
            &&& !s.consumed.contains(token) ==> s.verdict(
                token,
                remove_context(current, index as nat),
                now,
            ) is Ok
        }),
{
    let req = ChangeRequest::RemoveRule { index };
    let diff = diff_of(req, current, prepared)->Ok_0;
    law_issued_token(
        s,
        change_payload(req, diff, current, prepared),
        remove_context(current, index as nat),
        now,
    );
}

/// Taking one rule away leaves the others as they were, in their order.
pub proof fn law_removal_keeps_other_rules(current: ModelView, index: int)
    requires
        0 <= index < current.rules.len(),
    ensures
        removed(current, index).rules == current.rules.take(index) + current.rules.skip(index + 1),
{
}

/// Adding a rule and taking it away again gives the rule set back.
pub proof fn law_removal_undoes_addition(current: ModelView, rule: crate::model::RuleView)
    ensures
        removed(
            added(current, rule),
            current.rules.len() as int,
        ) == current,
{
    assert(current.rules.push(rule).remove(current.rules.len() as int) =~= current.rules);
}

/// A removal takes away the one rule and changes nothing else.
pub proof fn law_removal_takes_away_one_rule(current: ModelView, index: int, i: int)
    requires
        0 <= index < current.rules.len(),
    ensures
        removed(current, index).rules.len() == current.rules.len() - 1,
        0 <= i < index ==> removed(current, index).rules[i] == current.rules[i],
        index < i < current.rules.len() ==> removed(current, index).rules[i - 1]
            == current.rules[i],
        removed(current, index).bundle_version == current.bundle_version,
        removed(current, index).factory_rule_set_version == current.factory_rule_set_version,
        removed(current, index).groups == current.groups,
        removed(current, index).disabled_domains_in_lists == current.disabled_domains_in_lists,
        removed(current, index).disabled_host_names_in_lists == current.disabled_host_names_in_lists,
        removed(current, index).disabled_ip_address_ranges_in_lists == current.disabled_ip_address_ranges_in_lists,
        removed(current, index).rest == current.rest,
{
}

} // verus!
