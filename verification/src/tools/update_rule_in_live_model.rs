//! Changing a rule of the live rule set: the apply side of a proposed change.

use vstd::prelude::*;
use crate::json::Json;
use crate::model::construct::{apply_partial_at, patched, RulePatch};
use crate::model::serial::{rule_json, rule_to_json};
use crate::model::{rules_view, Group, GroupView, Model, ModelView, Rule, RuleView};
use crate::safety::rules::{guard, objection, refusal, GuardResult, Intent};
use crate::safety::session::{law_issued_token, Session, SessionView};
use crate::safety::token::{context, ContextView, TokenError, VerifyContext};
use crate::text::{concat, decimal, u64_to_string};
use crate::tools::backup_harness::{backup_of, run_with_backup, GuardedRun};
use crate::tools::prepare_live_model_change::{
    change_payload, diff_of, out_of_range, out_of_range_message, ChangeRequest, Diff, DiffView,
};

verus! {

/// What the tool is given.
#[derive(Debug)]
pub struct UpdateRuleInLiveModelArgs {
    /// Position of the rule.
    pub index: usize,
    /// The fields to change.
    pub patch: Json,
    /// Confirmation token of the proposal.
    pub token: String,
}

/// What the tool returns.
#[derive(Debug)]
pub struct UpdateRuleInLiveModelResult {
    /// The rule after the change.
    pub rule: Json,
    /// Where the backup from before the change is.
    pub backup_path: String,
}

/// What can go wrong.
#[derive(Debug)]
pub enum UpdateRuleError {
    IndexOutOfRange { index: usize, total: usize },
    RequiresStrongAck { reason: String },
    BadJson(String),
    Token(TokenError),
}

/// What an [`UpdateRuleError`] means.
#[verifier::ext_equal]
pub enum UpdateRuleErrorView {
    IndexOutOfRange { index: nat, total: nat },
    RequiresStrongAck { reason: Seq<char> },
    BadJson(Seq<char>),
    Token(TokenError),
}

impl View for UpdateRuleError {
    type V = UpdateRuleErrorView;

    open spec fn view(&self) -> UpdateRuleErrorView {
        match self {
            UpdateRuleError::IndexOutOfRange { index, total } => {
                UpdateRuleErrorView::IndexOutOfRange { index: *index as nat, total: *total as nat }
            },
            UpdateRuleError::RequiresStrongAck { reason } => {
                UpdateRuleErrorView::RequiresStrongAck { reason: reason@ }
            },
            UpdateRuleError::BadJson(e) => UpdateRuleErrorView::BadJson(e@),
            UpdateRuleError::Token(e) => UpdateRuleErrorView::Token(*e),
        }
    }
}

impl UpdateRuleErrorView {
    /// What the error says.
    pub open spec fn says(self) -> Seq<char> {
        match self {
            UpdateRuleErrorView::IndexOutOfRange { index, total } => out_of_range(index, total),
            UpdateRuleErrorView::RequiresStrongAck { reason } => "rule mutation refused: "@ + reason
                + " (requires live_write_strong acknowledgement)"@,
            UpdateRuleErrorView::BadJson(e) => "invalid patch JSON: "@ + e,
            UpdateRuleErrorView::Token(e) => "token verify failed: "@ + e.says(),
        }
    }
}

impl UpdateRuleError {
    /// What the error says.
    pub fn message(&self) -> (r: String)
        ensures
            r@ == self@.says(),
    {
        match self {
            UpdateRuleError::IndexOutOfRange { index, total } => {
                out_of_range_message(*index, *total)
            },
            UpdateRuleError::RequiresStrongAck { reason } => {
                let mut out: String = concat("rule mutation refused: ", reason.as_str());
                out.push_str(" (requires live_write_strong acknowledgement)");
                out
            },
            UpdateRuleError::BadJson(e) => concat("invalid patch JSON: ", e.as_str()),
            UpdateRuleError::Token(e) => concat("token verify failed: ", e.message().as_str()),
        }
    }
}

/// The group that a rule is in.
pub open spec fn group_of(m: ModelView, r: RuleView) -> Option<GroupView> {
    match r.group {
        Some(id) => m.group(id),
        None => None,
    }
}

/// The group that a rule of the rule set is in.
pub fn find_group<'a>(m: &'a Model, r: &Rule) -> (g: Option<&'a Group>)
    ensures
        match g {
            Some(x) => group_of(m@, r@) == Some(x@),
            None => group_of(m@, r@) is None,
        },
{
    match &r.group {
        Some(id) => m.group(id.as_str()),
        None => None,
    }
}

/// What a token for changing the rule at `index` is held against.
pub open spec fn update_context(
    current: ModelView,
    index: nat,
    patch: RulePatch,
    now: nat,
) -> ContextView {
    let rule = current.rules[index as int];
    context(
        "update_rule_in_live_model"@,
        (DiffView::UpdateRule {
            index,
            before: rule_json(rule),
            after: rule_json(patched(rule, patch, now)),
        }).sha256(),
        decimal(current.bundle_version as nat),
    )
}

/// The rule set with another rule at a position.
pub open spec fn replaced(current: ModelView, index: int, rule: RuleView) -> ModelView {
    ModelView { rules: current.rules.update(index, rule), ..current }
}

/// Changes the rule at `index`, unless it is one that needs a stronger
/// acknowledgement, if the token is accepted for this very change. `now_unix_secs` is the
/// time of the proposal: a rule changed at another time is another rule.
pub fn apply_pure(
    current: Model,
    index: usize,
    patch: RulePatch,
    token_str: String,
    session: &mut Session,
    now_unix_secs: u64,
) -> (r: Result<(Model, Rule), UpdateRuleError>)
    ensures
        ({
            let total = current@.rules.len();
            let rule = current@.rules[index as int];
            let why = objection(rule, group_of(current@, rule));
            let ctx = update_context(current@, index as nat, patch, now_unix_secs as nat);
            if index >= total {
                &&& r is Err
                &&& r->Err_0@ == (UpdateRuleErrorView::IndexOutOfRange {
                    index: index as nat,
                    total,
                })
                &&& final(session)@ == old(session)@
            } else if why is Some {
                &&& r is Err
                &&& r->Err_0@ == (UpdateRuleErrorView::RequiresStrongAck {
                    reason: refusal(why->0, Intent::Update),
                })
                &&& final(session)@ == old(session)@
            } else {
                &&& final(session)@ == old(session)@.after(token_str@, ctx, now_unix_secs as nat)
                &&& match old(session)@.verdict(token_str@, ctx, now_unix_secs as nat) {
                    Err(e) => r is Err && r->Err_0@ == UpdateRuleErrorView::Token(e),
                    Ok(_) => r is Ok && r->Ok_0.1@ == patched(rule, patch, now_unix_secs as nat)
                        && r->Ok_0.0@ == replaced(current@, index as int, r->Ok_0.1@),
                }
            }
        }),
{
    let mut current: Model = current;
    let total: usize = current.rules.len();
    if index >= total {
        return Err(UpdateRuleError::IndexOutOfRange { index, total });
    }
    let group: Option<&Group> = find_group(&current, &current.rules[index]);
    let verdict: GuardResult = guard(&current.rules[index], Intent::Update, group);
    if !verdict.allowed {
        let reason: String = match verdict.reason {
            Some(s) => s,
            None => "rule mutation requires strong acknowledgement".to_owned(),
        };
        return Err(UpdateRuleError::RequiresStrongAck { reason });
    }
    let before: Json = rule_to_json(&current.rules[index]);
    let mut after_rule: Rule = current.rules[index].copy();
    apply_partial_at(&mut after_rule, patch, now_unix_secs);
    let after: Json = rule_to_json(&after_rule);
    let sha: String = Diff::UpdateRule { index, before, after }.sha256();
    let bundle_version: String = u64_to_string(current.bundle_version);
    let ctx: VerifyContext = VerifyContext {
        tool: "update_rule_in_live_model",
        current_diff_sha256: sha.as_str(),
        current_bundle_version: bundle_version.as_str(),
    };
    match session.verify_at(token_str.as_str(), &ctx, now_unix_secs) {
        Ok(()) => {},
        Err(e) => {
            return Err(UpdateRuleError::Token(e));
        },
    }
    let ghost rules = current.rules@;
    let copy: Rule = after_rule.copy();
    current.rules.set(index, copy);
    proof {
        assert(rules_view(current.rules@) =~= rules_view(rules).update(
            index as int,
            after_rule@,
        ));
    }
    Ok((current, after_rule))
}

/// What a change comes to. `ran` is what became of putting the rule set in the place of the
/// live one, behind a backup.
pub fn finish_update(rule: &Rule, ran: GuardedRun) -> (r: Result<
    UpdateRuleInLiveModelResult,
    String,
>)
    ensures
        match backup_of(ran, "restore-model"@) {
            Err(e) => r is Err && r->Err_0@ == e,
            Ok(path) => r is Ok && r->Ok_0.rule@ == rule_json(rule@)
                && r->Ok_0.backup_path@ == path,
        },
{
    match run_with_backup(ran, "restore-model") {
        Ok(backup_path) => Ok(
            UpdateRuleInLiveModelResult { rule: rule_to_json(rule), backup_path },
        ),
        Err(e) => Err(e),
    }
}

/// A proposed change goes through: with the rule set as it was, and the rule stamped with
/// the time of the proposal again, the token of the proposal is accepted unless it has been
/// used.
pub proof fn law_prepared_update_applies(
    s: SessionView,
    index: usize,
    patch: RulePatch,
    current: ModelView,
    now: nat,
)
    requires
        now <= u64::MAX,
        index < current.rules.len(),
    ensures
        ({
            let req = ChangeRequest::UpdateRule { index, patch: Ok(patch) };
            let diff = diff_of(req, current, now);
            let token = s.token(change_payload(req, diff->Ok_0, current, now));
            &&& diff is Ok
            &&& !s.consumed.contains(token) ==> s.verdict(
                token,
                update_context(current, index as nat, patch, now),
                now,
            ) is Ok
        }),
{
    let req = ChangeRequest::UpdateRule { index, patch: Ok(patch) };
    let diff = diff_of(req, current, now)->Ok_0;
    law_issued_token(
        s,
        change_payload(req, diff, current, now),
        update_context(current, index as nat, patch, now),
        now,
    );
}

/// Changing one rule leaves the others as they were, in their places.
pub proof fn law_update_keeps_other_rules(current: ModelView, index: int, rule: RuleView, other: int)
    requires
        0 <= index < current.rules.len(),
        0 <= other < current.rules.len(),
        other != index,
    ensures
        replaced(current, index, rule).rules.len() == current.rules.len(),
        replaced(current, index, rule).rules[other] == current.rules[other],
{
}

/// An update puts the new rule in the place of the old one and changes nothing else.
pub proof fn law_update_replaces_one_rule(current: ModelView, index: int, rule: RuleView)
    requires
        0 <= index < current.rules.len(),
    ensures
        replaced(current, index, rule).rules[index] == rule,
        replaced(current, index, rule).rules.take(index) == current.rules.take(index),
        replaced(current, index, rule).rules.skip(index + 1) == current.rules.skip(index + 1),
        replaced(current, index, rule).bundle_version == current.bundle_version,
        replaced(current, index, rule).factory_rule_set_version == current.factory_rule_set_version,
        replaced(current, index, rule).groups == current.groups,
        replaced(current, index, rule).disabled_domains_in_lists == current.disabled_domains_in_lists,
        replaced(current, index, rule).disabled_host_names_in_lists == current.disabled_host_names_in_lists,
        replaced(current, index, rule).disabled_ip_address_ranges_in_lists == current.disabled_ip_address_ranges_in_lists,
        replaced(current, index, rule).rest == current.rest,
{
}

/// The group of a rule is the one under the key that the rule names.
pub proof fn law_group_of_a_rule(m: ModelView, r: RuleView)
    ensures
        r.group is None ==> group_of(m, r) is None,
        r.group matches Some(id) ==> (group_of(m, r) is Some <==> m.groups.dom().contains(id)),
        group_of(m, r) matches Some(g) ==> r.group is Some && g == m.groups[r.group->0],
{
}

} // verus!
