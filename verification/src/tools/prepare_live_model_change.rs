//! The dry-run side of every change of the live rule set.
//!
//! A change is proposed here and made by another tool. The proposal computes what
//! would change and issues a confirmation token that is bound to the tool that
//! will make the change, to the digest of the change and to the version of the
//! rule set. Nothing is changed.

use vstd::prelude::*;
use crate::hash::{collide, json_sha256, json_sha256_of, lemma_json_digests};
use crate::json::{compact_text, member, nests_within, reads_as, Json, JsonView};
use crate::model::construct::{
    apply_partial_at, construct_at, constructed, patched, ConstructError, ConstructErrorView,
    NewRuleSpec, RulePatch,
};
use crate::model::serial::{rule_json, rule_to_json};
use crate::model::{Model, ModelView, Rule};
use crate::safety::session::{law_issued_token, Session, SessionView};
use crate::safety::token::{
    context, payload, payload_for, PayloadView, TokenError, DEFAULT_TTL_SECS,
};
use crate::text::{concat, decimal, lemma_decimal_injective, u64_to_string};

verus! {

/// What the user wants to do.
///
/// A specification or a patch is what became of reading the JSON that the user
/// sent: the value, or what is wrong with the JSON.
#[derive(Debug)]
pub enum ChangeRequest {
    /// Make a new rule. `path_exists` says whether there is a file at the path
    /// that the specification names.
    AddRule { wanted: Result<NewRuleSpec, String>, path_exists: bool },
    /// Change fields of the rule at a position.
    UpdateRule { index: usize, patch: Result<RulePatch, String> },
    /// Take the rule at a position away.
    RemoveRule { index: usize },
    /// Fold a `.lsrules` file into the rule set.
    ApplyLsrulesFile { name: String },
    /// Switch a group of rules on.
    EnableRuleGroup { display_name: String },
    /// Switch a group of rules off.
    DisableRuleGroup { display_name: String },
}

/// What would change.
#[derive(Debug)]
pub enum Diff {
    AddRule { rule: Json },
    UpdateRule { index: usize, before: Json, after: Json },
    RemoveRule { index: usize, rule: Json },
    ApplyLsrulesFile { name: String },
    EnableRuleGroup { display_name: String },
    DisableRuleGroup { display_name: String },
}

/// What a [`Diff`] means.
#[verifier::ext_equal]
pub enum DiffView {
    AddRule { rule: JsonView },
    UpdateRule { index: nat, before: JsonView, after: JsonView },
    RemoveRule { index: nat, rule: JsonView },
    ApplyLsrulesFile { name: Seq<char> },
    EnableRuleGroup { display_name: Seq<char> },
    DisableRuleGroup { display_name: Seq<char> },
}

impl View for Diff {
    type V = DiffView;

    open spec fn view(&self) -> DiffView {
        match self {
            Diff::AddRule { rule } => DiffView::AddRule { rule: rule@ },
            Diff::UpdateRule { index, before, after } => DiffView::UpdateRule {
                index: *index as nat,
                before: before@,
                after: after@,
            },
            Diff::RemoveRule { index, rule } => DiffView::RemoveRule {
                index: *index as nat,
                rule: rule@,
            },
            Diff::ApplyLsrulesFile { name } => DiffView::ApplyLsrulesFile { name: name@ },
            Diff::EnableRuleGroup { display_name } => DiffView::EnableRuleGroup {
                display_name: display_name@,
            },
            Diff::DisableRuleGroup { display_name } => DiffView::DisableRuleGroup {
                display_name: display_name@,
            },
        }
    }
}

impl DiffView {
    /// The JSON form of a change: its kind and what belongs to it.
    pub open spec fn json(self) -> JsonView {
        let m = Map::<Seq<char>, JsonView>::empty();
        JsonView::Object(
            match self {
                DiffView::AddRule { rule } => m.insert(
                    "kind"@,
                    JsonView::Text("add_rule"@),
                ).insert("rule"@, rule),
                DiffView::UpdateRule { index, before, after } => m.insert(
                    "kind"@,
                    JsonView::Text("update_rule"@),
                ).insert("index"@, JsonView::Number(decimal(index))).insert(
                    "before"@,
                    before,
                ).insert("after"@, after),
                DiffView::RemoveRule { index, rule } => m.insert(
                    "kind"@,
                    JsonView::Text("remove_rule"@),
                ).insert("index"@, JsonView::Number(decimal(index))).insert("rule"@, rule),
                DiffView::ApplyLsrulesFile { name } => m.insert(
                    "kind"@,
                    JsonView::Text("apply_lsrules_file"@),
                ).insert("name"@, JsonView::Text(name)),
                DiffView::EnableRuleGroup { display_name } => m.insert(
                    "kind"@,
                    JsonView::Text("enable_rule_group"@),
                ).insert("display_name"@, JsonView::Text(display_name)),
                DiffView::DisableRuleGroup { display_name } => m.insert(
                    "kind"@,
                    JsonView::Text("disable_rule_group"@),
                ).insert("display_name"@, JsonView::Text(display_name)),
            },
        )
    }

    /// The digest of a change.
    pub open spec fn sha256(self) -> Seq<char> {
        json_sha256(self.json())
    }

    /// Whether the text that the digest is made of is read back as the change.
    pub open spec fn is_read_back(self) -> bool {
        reads_as(compact_text(self.json()), self.json())
    }
}

impl Diff {
    /// The JSON form of a change: its kind and what belongs to it.
    pub fn to_json(&self) -> (r: Json)
        ensures
            r@ == self@.json(),
    {
        let mut doc: Json = Json::object();
        match self {
            Diff::AddRule { rule } => {
                doc.insert("kind".to_owned(), Json::text("add_rule"));
                doc.insert("rule".to_owned(), rule.copy());
            },
            Diff::UpdateRule { index, before, after } => {
                doc.insert("kind".to_owned(), Json::text("update_rule"));
                doc.insert("index".to_owned(), Json::number(*index as u64));
                doc.insert("before".to_owned(), before.copy());
                doc.insert("after".to_owned(), after.copy());
            },
            Diff::RemoveRule { index, rule } => {
                doc.insert("kind".to_owned(), Json::text("remove_rule"));
                doc.insert("index".to_owned(), Json::number(*index as u64));
                doc.insert("rule".to_owned(), rule.copy());
            },
            Diff::ApplyLsrulesFile { name } => {
                doc.insert("kind".to_owned(), Json::text("apply_lsrules_file"));
                doc.insert("name".to_owned(), Json::text(name.as_str()));
            },
            Diff::EnableRuleGroup { display_name } => {
                doc.insert("kind".to_owned(), Json::text("enable_rule_group"));
                doc.insert("display_name".to_owned(), Json::text(display_name.as_str()));
            },
            Diff::DisableRuleGroup { display_name } => {
                doc.insert("kind".to_owned(), Json::text("disable_rule_group"));
                doc.insert("display_name".to_owned(), Json::text(display_name.as_str()));
            },
        }
        doc
    }

    /// The digest of a change.
    pub fn sha256(&self) -> (r: String)
        ensures
            r@ == self@.sha256(),
            nests_within(self@.json(), 127) ==> self@.is_read_back(),
    {
        json_sha256_of(&self.to_json())
    }
}

/// What can go wrong before a token is issued.
#[derive(Debug)]
pub enum PrepareError {
    InvalidChange(String),
    IndexOutOfRange { index: usize, total: usize },
    Construction(ConstructError),
    BadJson(String),
}

/// What a [`PrepareError`] means.
#[verifier::ext_equal]
pub enum PrepareErrorView {
    InvalidChange(Seq<char>),
    IndexOutOfRange { index: nat, total: nat },
    Construction(ConstructErrorView),
    BadJson(Seq<char>),
}

impl View for PrepareError {
    type V = PrepareErrorView;

    open spec fn view(&self) -> PrepareErrorView {
        match self {
            PrepareError::InvalidChange(e) => PrepareErrorView::InvalidChange(e@),
            PrepareError::IndexOutOfRange { index, total } => PrepareErrorView::IndexOutOfRange {
                index: *index as nat,
                total: *total as nat,
            },
            PrepareError::Construction(e) => PrepareErrorView::Construction(e@),
            PrepareError::BadJson(e) => PrepareErrorView::BadJson(e@),
        }
    }
}

/// That there is no rule at a position.
pub open spec fn out_of_range(index: nat, total: nat) -> Seq<char> {
    "rule index "@ + decimal(index) + " out of range (model has "@ + decimal(total) + ")"@
}

/// That there is no rule at a position.
pub fn out_of_range_message(index: usize, total: usize) -> (r: String)
    ensures
        r@ == out_of_range(index as nat, total as nat),
{
    let mut out: String = concat("rule index ", u64_to_string(index as u64).as_str());
    out.push_str(" out of range (model has ");
    out.push_str(u64_to_string(total as u64).as_str());
    out.push_str(")");
    out
}

impl PrepareErrorView {
    /// What the error says.
    pub open spec fn says(self) -> Seq<char> {
        match self {
            PrepareErrorView::InvalidChange(e) => "invalid change: "@ + e,
            PrepareErrorView::IndexOutOfRange { index, total } => out_of_range(index, total),
            PrepareErrorView::Construction(e) => "rule construction refused: "@ + e.says(),
            PrepareErrorView::BadJson(e) => "invalid spec/patch JSON: "@ + e,
        }
    }
}

impl PrepareError {
    /// What the error says.
    pub fn message(&self) -> (r: String)
        ensures
            r@ == self@.says(),
    {
        match self {
            PrepareError::InvalidChange(e) => concat("invalid change: ", e.as_str()),
            PrepareError::IndexOutOfRange { index, total } => out_of_range_message(*index, *total),
            PrepareError::Construction(e) => concat(
                "rule construction refused: ",
                e.message().as_str(),
            ),
            PrepareError::BadJson(e) => concat("invalid spec/patch JSON: ", e.as_str()),
        }
    }
}

/// The tool that will make the change.
pub open spec fn tool_of(req: ChangeRequest) -> Seq<char> {
    match req {
        ChangeRequest::AddRule { .. } => "add_rule_to_live_model"@,
        ChangeRequest::UpdateRule { .. } => "update_rule_in_live_model"@,
        ChangeRequest::RemoveRule { .. } => "remove_rule_from_live_model"@,
        ChangeRequest::ApplyLsrulesFile { .. } => "apply_lsrules_file_to_live_model"@,
        ChangeRequest::EnableRuleGroup { .. } => "enable_rule_group"@,
        ChangeRequest::DisableRuleGroup { .. } => "disable_rule_group"@,
    }
}

/// The tool that will make the change.
pub fn tool_name_for(req: &ChangeRequest) -> (r: &'static str)
    ensures
        r@ == tool_of(*req),
{
    match req {
        ChangeRequest::AddRule { .. } => "add_rule_to_live_model",
        ChangeRequest::UpdateRule { .. } => "update_rule_in_live_model",
        ChangeRequest::RemoveRule { .. } => "remove_rule_from_live_model",
        ChangeRequest::ApplyLsrulesFile { .. } => "apply_lsrules_file_to_live_model",
        ChangeRequest::EnableRuleGroup { .. } => "enable_rule_group",
        ChangeRequest::DisableRuleGroup { .. } => "disable_rule_group",
    }
}

/// What the change is about: the operation, and the position or the name.
pub open spec fn target_of(req: ChangeRequest) -> JsonView {
    let m = Map::<Seq<char>, JsonView>::empty();
    JsonView::Object(
        match req {
            ChangeRequest::AddRule { .. } => m.insert("op"@, JsonView::Text("add_rule"@)),
            ChangeRequest::UpdateRule { index, .. } => m.insert(
                "op"@,
                JsonView::Text("update_rule"@),
            ).insert("index"@, JsonView::Number(decimal(index as nat))),
            ChangeRequest::RemoveRule { index } => m.insert(
                "op"@,
                JsonView::Text("remove_rule"@),
            ).insert("index"@, JsonView::Number(decimal(index as nat))),
            ChangeRequest::ApplyLsrulesFile { name } => m.insert(
                "op"@,
                JsonView::Text("apply_lsrules_file"@),
            ).insert("name"@, JsonView::Text(name@)),
            ChangeRequest::EnableRuleGroup { display_name } => m.insert(
                "op"@,
                JsonView::Text("enable_rule_group"@),
            ).insert("display_name"@, JsonView::Text(display_name@)),
            ChangeRequest::DisableRuleGroup { display_name } => m.insert(
                "op"@,
                JsonView::Text("disable_rule_group"@),
            ).insert("display_name"@, JsonView::Text(display_name@)),
        },
    )
}

/// What the change is about: the operation, and the position or the name.
pub fn compute_target(req: &ChangeRequest) -> (r: Json)
    ensures
        r@ == target_of(*req),
{
    let mut doc: Json = Json::object();
    match req {
        ChangeRequest::AddRule { .. } => {
            doc.insert("op".to_owned(), Json::text("add_rule"));
        },
        ChangeRequest::UpdateRule { index, .. } => {
            doc.insert("op".to_owned(), Json::text("update_rule"));
            doc.insert("index".to_owned(), Json::number(*index as u64));
        },
        ChangeRequest::RemoveRule { index } => {
            doc.insert("op".to_owned(), Json::text("remove_rule"));
            doc.insert("index".to_owned(), Json::number(*index as u64));
        },
        ChangeRequest::ApplyLsrulesFile { name } => {
            doc.insert("op".to_owned(), Json::text("apply_lsrules_file"));
            doc.insert("name".to_owned(), Json::text(name.as_str()));
        },
        ChangeRequest::EnableRuleGroup { display_name } => {
            doc.insert("op".to_owned(), Json::text("enable_rule_group"));
            doc.insert("display_name".to_owned(), Json::text(display_name.as_str()));
        },
        ChangeRequest::DisableRuleGroup { display_name } => {
            doc.insert("op".to_owned(), Json::text("disable_rule_group"));
            doc.insert("display_name".to_owned(), Json::text(display_name.as_str()));
        },
    }
    doc
}

/// What would change in `current` at the time `now`, or why nothing can.
pub open spec fn diff_of(req: ChangeRequest, current: ModelView, now: nat) -> Result<
    DiffView,
    PrepareErrorView,
> {
    let total = current.rules.len();
    match req {
        ChangeRequest::AddRule { wanted: Err(e), .. } => Err(PrepareErrorView::BadJson(e@)),
        ChangeRequest::AddRule { wanted: Ok(w), path_exists } => match constructed(
            w,
            path_exists,
            now,
        ) {
            Err(e) => Err(PrepareErrorView::Construction(e)),
            Ok(rule) => Ok(DiffView::AddRule { rule: rule_json(rule) }),
        },
        ChangeRequest::UpdateRule { index, patch } => if index >= total {
            Err(PrepareErrorView::IndexOutOfRange { index: index as nat, total })
        } else {
            match patch {
                Err(e) => Err(PrepareErrorView::BadJson(e@)),
                Ok(p) => Ok(
                    DiffView::UpdateRule {
                        index: index as nat,
                        before: rule_json(current.rules[index as int]),
                        after: rule_json(patched(current.rules[index as int], p, now)),
                    },
                ),
            }
        },
        ChangeRequest::RemoveRule { index } => if index >= total {
            Err(PrepareErrorView::IndexOutOfRange { index: index as nat, total })
        } else {
            Ok(
                DiffView::RemoveRule {
                    index: index as nat,
                    rule: rule_json(current.rules[index as int]),
                },
            )
        },
        ChangeRequest::ApplyLsrulesFile { name } => Ok(DiffView::ApplyLsrulesFile { name: name@ }),
        ChangeRequest::EnableRuleGroup { display_name } => Ok(
            DiffView::EnableRuleGroup { display_name: display_name@ },
        ),
        ChangeRequest::DisableRuleGroup { display_name } => Ok(
            DiffView::DisableRuleGroup { display_name: display_name@ },
        ),
    }
}

/// What would change in `current` at the time `now_unix_secs`, or why nothing can.
pub fn compute_diff(req: ChangeRequest, current: &Model, now_unix_secs: u64) -> (r: Result<
    Diff,
    PrepareError,
>)
    ensures
        match r {
            Ok(d) => diff_of(req, current@, now_unix_secs as nat) == Ok::<
                DiffView,
                PrepareErrorView,
            >(d@),
            Err(e) => diff_of(req, current@, now_unix_secs as nat) == Err::<
                DiffView,
                PrepareErrorView,
            >(e@),
        },
{
    let total: usize = current.rules.len();
    match req {
        ChangeRequest::AddRule { wanted, path_exists } => {
            let wanted: NewRuleSpec = match wanted {
                Ok(w) => w,
                Err(e) => {
                    return Err(PrepareError::BadJson(e));
                },
            };
            match construct_at(wanted, path_exists, now_unix_secs) {
                Ok(rule) => Ok(Diff::AddRule { rule: rule_to_json(&rule) }),
                Err(e) => Err(PrepareError::Construction(e)),
            }
        },
        ChangeRequest::UpdateRule { index, patch } => {
            if index >= total {
                return Err(PrepareError::IndexOutOfRange { index, total });
            }
            let patch: RulePatch = match patch {
                Ok(p) => p,
                Err(e) => {
                    return Err(PrepareError::BadJson(e));
                },
            };
            let before: Json = rule_to_json(&current.rules[index]);
            let mut after_rule: Rule = current.rules[index].copy();
            apply_partial_at(&mut after_rule, patch, now_unix_secs);
            let after: Json = rule_to_json(&after_rule);
            Ok(Diff::UpdateRule { index, before, after })
        },
        ChangeRequest::RemoveRule { index } => {
            if index >= total {
                return Err(PrepareError::IndexOutOfRange { index, total });
            }
            Ok(Diff::RemoveRule { index, rule: rule_to_json(&current.rules[index]) })
        },
        ChangeRequest::ApplyLsrulesFile { name } => Ok(Diff::ApplyLsrulesFile { name }),
        ChangeRequest::EnableRuleGroup { display_name } => Ok(
            Diff::EnableRuleGroup { display_name },
        ),
        ChangeRequest::DisableRuleGroup { display_name } => Ok(
            Diff::DisableRuleGroup { display_name },
        ),
    }
}

/// What the tool is given.
#[derive(Debug)]
pub struct PrepareLiveModelChangeArgs {
    /// The proposed change.
    pub proposed_change: ChangeRequest,
}

/// What the tool returns.
#[derive(Debug)]
pub struct PrepareResult {
    /// Confirmation token for the tool that makes the change.
    pub token: String,
    /// What would change.
    pub diff: Diff,
    /// How long the token is good for.
    pub expires_in_seconds: u64,
}

/// What the token for a change is bound to.
pub open spec fn change_payload(
    req: ChangeRequest,
    diff: DiffView,
    current: ModelView,
    now: nat,
) -> PayloadView {
    payload_for(
        tool_of(req),
        target_of(req),
        diff.sha256(),
        decimal(current.bundle_version as nat),
        now,
        DEFAULT_TTL_SECS as nat,
    )
}

/// Proposes a change: computes what would change and issues a token bound to it.
pub fn prepare_pure(
    req: ChangeRequest,
    current: &Model,
    session: &Session,
    now_unix_secs: u64,
) -> (r: Result<PrepareResult, PrepareError>)
    ensures
        match diff_of(req, current@, now_unix_secs as nat) {
            Err(e) => r is Err && r->Err_0@ == e,
            Ok(diff) => r is Ok && ({
                let p = r->Ok_0;
                &&& p.diff@ == diff
                &&& p.token@ == session@.token(
                    change_payload(req, diff, current@, now_unix_secs as nat),
                )
                &&& p.expires_in_seconds == DEFAULT_TTL_SECS
            }),
        },
{
    let target: Json = compute_target(&req);
    let tool: &'static str = tool_name_for(&req);
    let diff: Diff = match compute_diff(req, current, now_unix_secs) {
        Ok(d) => d,
        Err(e) => {
            return Err(e);
        },
    };
    let sha: String = diff.sha256();
    let token: String = session.issue(
        &payload(
            tool,
            &target,
            sha.as_str(),
            u64_to_string(current.bundle_version).as_str(),
            now_unix_secs,
            DEFAULT_TTL_SECS,
        ),
    );
    Ok(PrepareResult { token, diff, expires_in_seconds: DEFAULT_TTL_SECS })
}

/// A token for one change is refused for another, and for a rule set of another version,
/// with the error that says so; for another change, unless two different texts with the same
/// SHA-256 have been found.
pub proof fn law_tokens_are_for_one_change(
    s: SessionView,
    req: ChangeRequest,
    diff: DiffView,
    other: DiffView,
    current: ModelView,
    later: ModelView,
    prepared: nat,
    now: nat,
)
    requires
        prepared <= u64::MAX,
        diff.is_read_back(),
        other.is_read_back(),
    ensures
        ({
            let verdict = s.verdict(
                s.token(change_payload(req, diff, current, prepared)),
                context(tool_of(req), other.sha256(), decimal(later.bundle_version as nat)),
                now,
            );
            &&& later.bundle_version != current.bundle_version ==> verdict == Err::<
                (),
                TokenError,
            >(TokenError::SchemaDrift)
            &&& later.bundle_version == current.bundle_version && other.json() != diff.json()
                ==> verdict == Err::<(), TokenError>(TokenError::DiffDrift) || collide(
                compact_text(other.json()),
                compact_text(diff.json()),
            )
        }),
{
    if later.bundle_version != current.bundle_version && decimal(later.bundle_version as nat)
        == decimal(current.bundle_version as nat) {
        lemma_decimal_injective(later.bundle_version as nat, current.bundle_version as nat);
    }
    if other.json() != diff.json() {
        lemma_json_digests(other.json(), diff.json());
    }
    law_issued_token(
        s,
        change_payload(req, diff, current, prepared),
        context(tool_of(req), other.sha256(), decimal(later.bundle_version as nat)),
        now,
    );
}

/// What would change stands in the JSON form of a proposal, so that two proposals with the same
/// form are the same.
pub proof fn law_diffs_say_what_changes(diff: DiffView)
    ensures
        ({
            let j = diff.json();
            let kind = member(j, "kind"@);
            match diff {
                DiffView::AddRule { rule } => kind == Some(JsonView::Text("add_rule"@)) && member(
                    j,
                    "rule"@,
                ) == Some(rule),
                DiffView::UpdateRule { index, before, after } => {
                    &&& kind == Some(JsonView::Text("update_rule"@))
                    &&& member(j, "index"@) == Some(JsonView::Number(decimal(index)))
                    &&& member(j, "before"@) == Some(before)
                    &&& member(j, "after"@) == Some(after)
                },
                DiffView::RemoveRule { index, rule } => {
                    &&& kind == Some(JsonView::Text("remove_rule"@))
                    &&& member(j, "index"@) == Some(JsonView::Number(decimal(index)))
                    &&& member(j, "rule"@) == Some(rule)
                },
                DiffView::ApplyLsrulesFile { name } => kind == Some(
                    JsonView::Text("apply_lsrules_file"@),
                ) && member(j, "name"@) == Some(JsonView::Text(name)),
                DiffView::EnableRuleGroup { display_name } => kind == Some(
                    JsonView::Text("enable_rule_group"@),
                ) && member(j, "display_name"@) == Some(JsonView::Text(display_name)),
                DiffView::DisableRuleGroup { display_name } => kind == Some(
                    JsonView::Text("disable_rule_group"@),
                ) && member(j, "display_name"@) == Some(JsonView::Text(display_name)),
            }
        }),
{
    reveal_strlit("kind");
    reveal_strlit("rule");
    reveal_strlit("index");
    reveal_strlit("before");
    reveal_strlit("after");
    reveal_strlit("name");
    reveal_strlit("display_name");
    assert("kind"@[0] == 'k' && "rule"@[0] == 'r' && "name"@[0] == 'n');
    assert("index"@.len() == 5 && "before"@.len() == 6 && "display_name"@.len() == 12);
    assert("index"@[0] == 'i' && "after"@[0] == 'a');
}

/// A proposal to change or to remove a rule is about the rule at the position that is named,
/// as it is now, and is made just if there is one; a rule that is to be changed is shown as it
/// is and as it would be.
pub proof fn law_proposals_are_about_the_rule(
    index: usize,
    patch: RulePatch,
    current: ModelView,
    now: nat,
)
    ensures
        ({
            let update = diff_of(
                ChangeRequest::UpdateRule { index, patch: Ok(patch) },
                current,
                now,
            );
            let remove = diff_of(ChangeRequest::RemoveRule { index }, current, now);
            let rule = current.rules[index as int];
            &&& update is Ok <==> index < current.rules.len()
            &&& remove is Ok <==> index < current.rules.len()
            &&& update matches Ok(diff) ==> {
                &&& diff is UpdateRule
                &&& diff->UpdateRule_index == index
                &&& diff->before == rule_json(rule)
                &&& diff->after == rule_json(patched(rule, patch, now))
            }
            &&& remove matches Ok(diff) ==> {
                &&& diff is RemoveRule
                &&& diff->RemoveRule_index == index
                &&& diff->RemoveRule_rule == rule_json(rule)
            }
        }),
{
}

/// What a token is about names what is done and, where there is one, the position, the file or
/// the group; and it is issued for the tool that does it.
pub proof fn law_targets_name_the_change(req: ChangeRequest)
    ensures
        ({
            let j = target_of(req);
            let op = member(j, "op"@);
            match req {
                ChangeRequest::AddRule { .. } => {
                    &&& tool_of(req) == "add_rule_to_live_model"@
                    &&& op == Some(JsonView::Text("add_rule"@))
                },
                ChangeRequest::UpdateRule { index, .. } => {
                    &&& tool_of(req) == "update_rule_in_live_model"@
                    &&& op == Some(JsonView::Text("update_rule"@))
                    &&& member(j, "index"@) == Some(JsonView::Number(decimal(index as nat)))
                },
                ChangeRequest::RemoveRule { index } => {
                    &&& tool_of(req) == "remove_rule_from_live_model"@
                    &&& op == Some(JsonView::Text("remove_rule"@))
                    &&& member(j, "index"@) == Some(JsonView::Number(decimal(index as nat)))
                },
                ChangeRequest::ApplyLsrulesFile { name } => {
                    &&& tool_of(req) == "apply_lsrules_file_to_live_model"@
                    &&& op == Some(JsonView::Text("apply_lsrules_file"@))
                    &&& member(j, "name"@) == Some(JsonView::Text(name@))
                },
                ChangeRequest::EnableRuleGroup { display_name } => {
                    &&& tool_of(req) == "enable_rule_group"@
                    &&& op == Some(JsonView::Text("enable_rule_group"@))
                    &&& member(j, "display_name"@) == Some(JsonView::Text(display_name@))
                },
                ChangeRequest::DisableRuleGroup { display_name } => {
                    &&& tool_of(req) == "disable_rule_group"@
                    &&& op == Some(JsonView::Text("disable_rule_group"@))
                    &&& member(j, "display_name"@) == Some(JsonView::Text(display_name@))
                },
            }
        }),
{
    reveal_strlit("op");
    reveal_strlit("index");
    reveal_strlit("name");
    reveal_strlit("display_name");
    assert("op"@.len() == 2 && "index"@.len() == 5 && "name"@.len() == 4);
    assert("display_name"@.len() == 12);
}

} // verus!
