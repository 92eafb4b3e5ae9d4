//! Adding a rule to the live rule set: the apply side of a proposed addition.

use vstd::prelude::*;
use crate::hash::collide;
use crate::json::{compact_text, Json};
use crate::model::construct::{
    construct_at, constructed, ConstructError, ConstructErrorView, NewRuleSpec,
};
use crate::model::serial::{rule_json, rule_to_json};
use crate::model::{rules_view, Model, ModelView, Rule, RuleView};
use crate::safety::session::{law_issued_token, Session, SessionView};
use crate::safety::token::{context, ContextView, TokenError, VerifyContext};
use crate::text::{concat, decimal, u64_to_string};
use crate::tools::backup_harness::{backup_of, run_with_backup, GuardedRun};
use crate::tools::prepare_live_model_change::{
    change_payload, diff_of, law_diffs_say_what_changes, law_tokens_are_for_one_change,
    ChangeRequest, Diff, DiffView,
};

verus! {

/// What the tool is given.
#[derive(Debug)]
pub struct AddRuleToLiveModelArgs {
    /// What the rule is to be: the one that was proposed.
    pub wanted: Json,
    /// Confirmation token of the proposal.
    pub token: String,
}

/// What the tool returns.
#[derive(Debug)]
pub struct AddRuleToLiveModelResult {
    /// The rule that was added.
    pub rule: Json,
    /// Where the backup from before the change is.
    pub backup_path: String,
}

/// What can go wrong.
#[derive(Debug)]
pub enum AddRuleError {
    Construction(ConstructError),
    Token(TokenError),
}

/// What an [`AddRuleError`] means.
#[verifier::ext_equal]
pub enum AddRuleErrorView {
    Construction(ConstructErrorView),
    Token(TokenError),
}

impl View for AddRuleError {
    type V = AddRuleErrorView;

    open spec fn view(&self) -> AddRuleErrorView {
        match self {
            AddRuleError::Construction(e) => AddRuleErrorView::Construction(e@),
            AddRuleError::Token(e) => AddRuleErrorView::Token(*e),
        }
    }
}

impl AddRuleErrorView {
    /// What the error says.
    pub open spec fn says(self) -> Seq<char> {
        match self {
            AddRuleErrorView::Construction(e) => "rule construction refused: "@ + e.says(),
            AddRuleErrorView::Token(e) => "token verify failed: "@ + e.says(),
        }
    }
}

impl AddRuleError {
    /// What the error says.
    pub fn message(&self) -> (r: String)
        ensures
            r@ == self@.says(),
    {
        match self {
            AddRuleError::Construction(e) => concat(
                "rule construction refused: ",
                e.message().as_str(),
            ),
            AddRuleError::Token(e) => concat("token verify failed: ", e.message().as_str()),
        }
    }
}

/// What a token for adding `rule` to `current` is held against.
pub open spec fn add_context(current: ModelView, rule: RuleView) -> ContextView {
    context(
        "add_rule_to_live_model"@,
        (DiffView::AddRule { rule: rule_json(rule) }).sha256(),
        decimal(current.bundle_version as nat),
    )
}

/// The rule set with one more rule at its end.
pub open spec fn added(current: ModelView, rule: RuleView) -> ModelView {
    ModelView { rules: current.rules.push(rule), ..current }
}

/// Makes the rule and adds it to the rule set, if the token is accepted for this
/// very addition. `now_unix_secs` is the time of the proposal: a rule made at
/// another time is another rule. A rule that is not made uses up no token.
pub fn apply_pure(
    current: Model,
    wanted: NewRuleSpec,
    path_exists: bool,
    token_str: String,
    session: &mut Session,
    now_unix_secs: u64,
) -> (r: Result<(Model, Rule), AddRuleError>)
    ensures
        match constructed(wanted, path_exists, now_unix_secs as nat) {
            Err(e) => r is Err && r->Err_0@ == AddRuleErrorView::Construction(e) && final(session)@
                == old(session)@,
            Ok(rule) => ({
                let ctx = add_context(current@, rule);
                &&& final(session)@ == old(session)@.after(token_str@, ctx, now_unix_secs as nat)
                &&& match old(session)@.verdict(token_str@, ctx, now_unix_secs as nat) {
                    Err(e) => r is Err && r->Err_0@ == AddRuleErrorView::Token(e),
                    Ok(_) => r is Ok && r->Ok_0.0@ == added(current@, rule) && r->Ok_0.1@ == rule,
                }
            }),
        },
{
    let mut current: Model = current;
    let rule: Rule = match construct_at(wanted, path_exists, now_unix_secs) {
        Ok(rule) => rule,
        Err(e) => {
            return Err(AddRuleError::Construction(e));
        },
    };
    let sha: String = Diff::AddRule { rule: rule_to_json(&rule) }.sha256();
    let bundle_version: String = u64_to_string(current.bundle_version);
    let ctx: VerifyContext = VerifyContext {
        tool: "add_rule_to_live_model",
        current_diff_sha256: sha.as_str(),
        current_bundle_version: bundle_version.as_str(),
    };
    match session.verify_at(token_str.as_str(), &ctx, now_unix_secs) {
        Ok(()) => {},
        Err(e) => {
            return Err(AddRuleError::Token(e));
        },
    }
    let ghost before = current.rules@;
    let copy: Rule = rule.copy();
    current.rules.push(copy);
    proof {
        assert(rules_view(current.rules@) =~= rules_view(before).push(rule@));
    }
    Ok((current, rule))
}

/// What an addition comes to. `ran` is what became of putting the rule set in the place of the
/// live one, behind a backup.
pub fn finish_add(rule: &Rule, ran: GuardedRun) -> (r: Result<
    AddRuleToLiveModelResult,
    String,
>)
    ensures
        match backup_of(ran, "restore-model"@) {
            Err(e) => r is Err && r->Err_0@ == e,
            Ok(path) => r is Ok && r->Ok_0.rule@ == rule_json(rule@)
                && r->Ok_0.backup_path@ == path,
        },
{
    match run_with_backup(ran, "restore-model") {
        Ok(backup_path) => Ok(
            AddRuleToLiveModelResult { rule: rule_to_json(rule), backup_path },
        ),
        Err(e) => Err(e),
    }
}

/// A proposed addition goes through: with the specification and the rule set as
/// they were, and the rule stamped with the time of the proposal again, the token of the
/// proposal is accepted unless it has been used.
pub proof fn law_prepared_addition_applies(
    s: SessionView,
    wanted: NewRuleSpec,
    path_exists: bool,
    current: ModelView,
    now: nat,
)
    requires
        now <= u64::MAX,
        constructed(wanted, path_exists, now) is Ok,
    ensures
        ({
            let req = ChangeRequest::AddRule { wanted: Ok(wanted), path_exists };
            let diff = diff_of(req, current, now);
            let rule = constructed(wanted, path_exists, now)->Ok_0;
            let token = s.token(change_payload(req, diff->Ok_0, current, now));
            &&& diff is Ok
            &&& !s.consumed.contains(token) ==> s.verdict(token, add_context(current, rule), now)
                is Ok
        }),
{
    let req = ChangeRequest::AddRule { wanted: Ok(wanted), path_exists };
    let diff = diff_of(req, current, now)->Ok_0;
    let rule = constructed(wanted, path_exists, now)->Ok_0;
    law_issued_token(
        s,
        change_payload(req, diff, current, now),
        add_context(current, rule),
        now,
    );
}

/// An added rule stands behind all the others, which stay as they are; nothing else changes.
pub proof fn law_addition_appends(current: ModelView, rule: RuleView)
    ensures
        added(current, rule).rules.len() == current.rules.len() + 1,
        added(current, rule).rules.last() == rule,
        added(current, rule).rules.drop_last() == current.rules,
        added(current, rule).bundle_version == current.bundle_version,
        added(current, rule).factory_rule_set_version == current.factory_rule_set_version,
        added(current, rule).groups == current.groups,
        added(current, rule).disabled_domains_in_lists == current.disabled_domains_in_lists,
        added(current, rule).disabled_host_names_in_lists == current.disabled_host_names_in_lists,
        added(current, rule).disabled_ip_address_ranges_in_lists == current.disabled_ip_address_ranges_in_lists,
        added(current, rule).rest == current.rest,
{
    assert(added(current, rule).rules.drop_last() =~= current.rules);
}

/// The rule that a token stands for is the one that was asked for: where the token of one
/// proposal is accepted for adding another rule, the two rules are written in the same way,
/// unless two different texts with the same SHA-256 have been found.
pub proof fn law_tokens_are_for_one_rule(
    s: SessionView,
    wanted: NewRuleSpec,
    path_exists: bool,
    other: RuleView,
    current: ModelView,
    prepared: nat,
    now: nat,
)
    requires
        prepared <= u64::MAX,
        constructed(wanted, path_exists, prepared) is Ok,
        (DiffView::AddRule {
            rule: rule_json(constructed(wanted, path_exists, prepared)->Ok_0),
        }).is_read_back(),
        (DiffView::AddRule { rule: rule_json(other) }).is_read_back(),
    ensures
        ({
            let req = ChangeRequest::AddRule { wanted: Ok(wanted), path_exists };
            let rule = constructed(wanted, path_exists, prepared)->Ok_0;
            let diff = diff_of(req, current, prepared)->Ok_0;
            let token = s.token(change_payload(req, diff, current, prepared));
            s.verdict(token, add_context(current, other), now) is Ok ==> rule_json(other)
                == rule_json(rule) || collide(
                compact_text((DiffView::AddRule { rule: rule_json(other) }).json()),
                compact_text(diff.json()),
            )
        }),
{
    let req = ChangeRequest::AddRule { wanted: Ok(wanted), path_exists };
    let diff = diff_of(req, current, prepared)->Ok_0;
    let another = DiffView::AddRule { rule: rule_json(other) };
    law_tokens_are_for_one_change(s, req, diff, another, current, current, prepared, now);
    law_diffs_say_what_changes(diff);
    law_diffs_say_what_changes(another);
}

} // verus!
