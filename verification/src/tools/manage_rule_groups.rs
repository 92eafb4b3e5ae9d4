//! Switching groups of rules on and off.

use vstd::prelude::*;
use crate::cli::{exported, load_model, CliRun};
use crate::hash::{collide, sha256_hex, sha256_hex_of};
use crate::json::{Json, JsonView};
use crate::model::{has_distinct_keys, Group, Model};
use crate::safety::gate::{pass, refused, session_after};
use crate::safety::resolver::{
    group_shown_name, is_a_name, law_a_name_is_resolved_to_itself, resolve_group, resolved,
    shown_name, ResolveResult, ResolvedView,
};
use crate::safety::rules::{group_is_builtin, is_builtin};
use crate::safety::session::{law_issued_token, Session, SessionView};
use crate::safety::token::{
    context, payload, payload_for, ContextView, PayloadView, TokenError, VerifyContext,
    DEFAULT_TTL_SECS,
};
use crate::text::{
    concat, debug_form, lemma_between, quoted, quoted_list, str_eq, texts, write_quoted_list,
};
use crate::tools::backup_harness::{backup_of, run_with_backup, words, GuardedRun};

verus! {

/// What stands for the version in the tokens of these tools: switching a group does
/// not touch the rule set's own version.
pub const BUNDLE_VERSION: &'static str = "rule-groups";

/// What is hashed for switching a group on.
pub open spec fn enabling(name: Seq<char>) -> Seq<char> {
    "{\"action\":\"enable_rule_group\",\"resolved_name\":\""@ + name + "\"}"@
}

/// The digest of switching a group on.
pub open spec fn enabling_sha(name: Seq<char>) -> Seq<char> {
    sha256_hex(enabling(name))
}

/// The digest of switching a group on.
pub fn enable_sha(resolved_name: &str) -> (r: String)
    ensures
        r@ == enabling_sha(resolved_name@),
{
    let mut s: String = concat(
        "{\"action\":\"enable_rule_group\",\"resolved_name\":\"",
        resolved_name,
    );
    s.push_str("\"}");
    sha256_hex_of(s.as_str())
}

/// What is hashed for switching a group off.
pub open spec fn disabling(name: Seq<char>) -> Seq<char> {
    "{\"action\":\"disable_rule_group\",\"resolved_name\":\""@ + name + "\"}"@
}

/// The digest of switching a group off.
pub open spec fn disabling_sha(name: Seq<char>) -> Seq<char> {
    sha256_hex(disabling(name))
}

/// The digest of switching a group off.
pub fn disable_sha(resolved_name: &str) -> (r: String)
    ensures
        r@ == disabling_sha(resolved_name@),
{
    let mut s: String = concat(
        "{\"action\":\"disable_rule_group\",\"resolved_name\":\"",
        resolved_name,
    );
    s.push_str("\"}");
    sha256_hex_of(s.as_str())
}

/// The name that a group is switched by, or that there is no such group.
pub open spec fn display_name(input: Seq<char>, groups: Seq<(String, Group)>) -> Result<
    Seq<char>,
    Seq<char>,
> {
    match resolved(input, groups) {
        ResolvedView::Verified(n) => Ok(n),
        ResolvedView::BestEffort(n) => Ok(n),
        ResolvedView::NotFound { candidates } => Err(
            "group "@ + debug_form(input) + " not found; known groups: "@ + quoted_list(candidates),
        ),
    }
}

/// The name that a group is switched by, or that there is no such group.
pub fn resolve_to_display_name(input: &str, model: &Model) -> (r: Result<String, String>)
    ensures
        match r {
            Ok(n) => display_name(input@, model.groups@) == Ok::<Seq<char>, Seq<char>>(n@),
            Err(e) => display_name(input@, model.groups@) == Err::<Seq<char>, Seq<char>>(e@),
        },
{
    match resolve_group(input, model) {
        ResolveResult::Verified(n) => Ok(n),
        ResolveResult::BestEffort(n) => Ok(n),
        ResolveResult::NotFound { candidates } => {
            let mut out: String = concat("group ", quoted(input).as_str());
            out.push_str(" not found; known groups: ");
            out.push_str(write_quoted_list(&candidates).as_str());
            Err(out)
        },
    }
}

/// Whether a group that is shown under this name comes with the system.
pub open spec fn has_builtin(name: Seq<char>, groups: Seq<(String, Group)>) -> bool {
    exists|i: int| 0 <= i < groups.len() && is_builtin_named(#[trigger] groups[i], name)
}

/// Whether a group is shown under this name and comes with the system.
pub open spec fn is_builtin_named(pair: (String, Group), name: Seq<char>) -> bool {
    shown_name(pair.0@, Some(pair.1@)) == name && is_builtin(pair.1@)
}

/// Whether a group that is shown under this name comes with the system.
pub fn is_builtin_group(resolved_name: &str, model: &Model) -> (r: bool)
    ensures
        r == has_builtin(resolved_name@, model.groups@),
{
    for i in 0..model.groups.len()
        invariant
            forall|j: int|
                0 <= j < i ==> !is_builtin_named(#[trigger] model.groups@[j], resolved_name@),
    {
        let shown: String = group_shown_name(model.groups[i].0.as_str(), Some(&model.groups[i].1));
        if group_is_builtin(&model.groups[i].1) && str_eq(shown.as_str(), resolved_name) {
            proof {
                assert(is_builtin_named(model.groups@[i as int], resolved_name@));
            }
            return true;
        }
    }
    false
}

/// What a token is about: the name of the group.
pub open spec fn group_target(name: Seq<char>) -> JsonView {
    JsonView::Object(Map::empty().insert("resolved_name"@, JsonView::Text(name)))
}

fn target_of(name: &str) -> (r: Json)
    ensures
        r@ == group_target(name@),
{
    let mut doc: Json = Json::object();
    doc.insert("resolved_name".to_owned(), Json::text(name));
    doc
}

/// What a token for switching a group on is bound to.
pub open spec fn enable_payload(name: Seq<char>, now: nat) -> PayloadView {
    payload_for(
        "enable_rule_group"@,
        group_target(name),
        enabling_sha(name),
        BUNDLE_VERSION@,
        now,
        DEFAULT_TTL_SECS as nat,
    )
}

/// What a token for switching a group on is held against.
pub open spec fn enable_context(name: Seq<char>) -> ContextView {
    context("enable_rule_group"@, enabling_sha(name), BUNDLE_VERSION@)
}

/// What proposing to switch a group on is given.
#[derive(Debug)]
pub struct PrepareEnableRuleGroupArgs {
    /// Name, kind or key of the group.
    pub input: String,
}

/// What proposing to switch a group on returns.
#[derive(Debug)]
pub struct PrepareEnableRuleGroupResult {
    pub token: String,
    /// The name that the group is switched by.
    pub resolved_name: String,
    pub diff_summary: String,
}

/// Whether a proposal to switch a group on is what the input calls for.
pub open spec fn is_enable_proposal(
    r: Result<PrepareEnableRuleGroupResult, String>,
    s: SessionView,
    input: Seq<char>,
    groups: Seq<(String, Group)>,
    now: nat,
) -> bool {
    match display_name(input, groups) {
        Err(e) => r is Err && r->Err_0@ == e,
        Ok(name) => r is Ok && ({
            let p = r->Ok_0;
            &&& p.token@ == s.token(enable_payload(name, now))
            &&& p.resolved_name@ == name
            &&& p.diff_summary@ == "enable rule group \""@ + name + "\""@
        }),
    }
}

/// Proposes to switch a group of the rule set on.
pub fn prepare_enable_with_model(
    session: &Session,
    input: &str,
    model: &Model,
    now_unix_secs: u64,
) -> (r: Result<PrepareEnableRuleGroupResult, String>)
    ensures
        is_enable_proposal(r, session@, input@, model.groups@, now_unix_secs as nat),
{
    let resolved_name: String = match resolve_to_display_name(input, model) {
        Ok(n) => n,
        Err(e) => {
            return Err(e);
        },
    };
    let sha: String = enable_sha(resolved_name.as_str());
    let token: String = session.issue(
        &payload(
            "enable_rule_group",
            &target_of(resolved_name.as_str()),
            sha.as_str(),
            BUNDLE_VERSION,
            now_unix_secs,
            DEFAULT_TTL_SECS,
        ),
    );
    let mut diff_summary: String = concat("enable rule group \"", resolved_name.as_str());
    diff_summary.push_str("\"");
    Ok(PrepareEnableRuleGroupResult { token, resolved_name, diff_summary })
}

/// Proposes to switch a group of the live rule set on.
pub fn prepare_enable(
    session: &Session,
    args: PrepareEnableRuleGroupArgs,
    export: CliRun,
    now_unix_secs: u64,
) -> (r: Result<PrepareEnableRuleGroupResult, String>)
    ensures
        if args.input@.len() == 0 {
            r is Err && r->Err_0@ == "input must not be empty"@
        } else {
            match exported(export, "export-model JSON invalid"@) {
                Ok(v) => exists|m: Model| #[trigger]
                    m@ == v && has_distinct_keys(m.groups@) && is_enable_proposal(
                        r,
                        session@,
                        args.input@,
                        m.groups@,
                        now_unix_secs as nat,
                    ),
                Err(e) => r is Err && r->Err_0@ == e,
            }
        },
{
    if args.input.as_str().is_empty() {
        return Err("input must not be empty".to_owned());
    }
    match load_model(export, "export-model JSON invalid") {
        Ok(m) => prepare_enable_with_model(session, args.input.as_str(), &m, now_unix_secs),
        Err(e) => Err(e),
    }
}

/// What switching a group on is given.
#[derive(Debug)]
pub struct EnableRuleGroupArgs {
    /// The name that the proposal returned.
    pub resolved_name: String,
    /// Confirmation token of the proposal.
    pub token: String,
}

/// What switching a group on returns.
#[derive(Debug)]
pub struct EnableRuleGroupResult {
    pub resolved_name: String,
    pub enabled: bool,
    pub backup_path: String,
}

/// Asks to switch a group on. If it may be done, the arguments of the command come
/// back that does it; it is to be run behind a backup.
pub fn enable(
    session: &mut Session,
    args: &EnableRuleGroupArgs,
    live_write: Result<(), String>,
    now_unix_secs: u64,
) -> (r: Result<Vec<String>, String>)
    ensures
        ({
            let ctx = enable_context(args.resolved_name@);
            if args.resolved_name@.len() == 0 {
                &&& r is Err
                &&& r->Err_0@ == "resolved_name must not be empty"@
                &&& final(session)@ == old(session)@
            } else {
                &&& final(session)@ == session_after(
                    old(session)@,
                    live_write,
                    args.token@,
                    ctx,
                    now_unix_secs as nat,
                )
                &&& match refused(
                    old(session)@,
                    live_write,
                    args.token@,
                    ctx,
                    now_unix_secs as nat,
                    ""@,
                ) {
                    Some(e) => r is Err && r->Err_0@ == e,
                    None => r is Ok && texts(r->Ok_0@) == seq![
                        "rulegroup"@,
                        "-e"@,
                        args.resolved_name@,
                    ],
                }
            }
        }),
{
    if args.resolved_name.as_str().is_empty() {
        return Err("resolved_name must not be empty".to_owned());
    }
    let sha: String = enable_sha(args.resolved_name.as_str());
    let ctx: VerifyContext = VerifyContext {
        tool: "enable_rule_group",
        current_diff_sha256: sha.as_str(),
        current_bundle_version: BUNDLE_VERSION,
    };
    if let Some(e) = pass(session, live_write, args.token.as_str(), &ctx, now_unix_secs, "") {
        return Err(e);
    }
    Ok(words("rulegroup", "-e", args.resolved_name.as_str()))
}

/// What switching a group on comes to. `ran` is what became of running the command
/// behind a backup.
pub fn finish_enable(args: EnableRuleGroupArgs, ran: GuardedRun) -> (r: Result<
    EnableRuleGroupResult,
    String,
>)
    ensures
        match backup_of(ran, "rulegroup -e"@) {
            Err(e) => r is Err && r->Err_0@ == e,
            Ok(path) => r is Ok && r->Ok_0.resolved_name@ == args.resolved_name@ && r->Ok_0.enabled
                && r->Ok_0.backup_path@ == path,
        },
{
    match run_with_backup(ran, "rulegroup -e") {
        Ok(backup_path) => Ok(
            EnableRuleGroupResult { resolved_name: args.resolved_name, enabled: true, backup_path },
        ),
        Err(e) => Err(e),
    }
}

/// What a token for switching a group off is bound to.
pub open spec fn disable_payload(name: Seq<char>, now: nat) -> PayloadView {
    payload_for(
        "disable_rule_group"@,
        group_target(name),
        disabling_sha(name),
        BUNDLE_VERSION@,
        now,
        DEFAULT_TTL_SECS as nat,
    )
}

/// What a token for switching a group off is held against.
pub open spec fn disable_context(name: Seq<char>) -> ContextView {
    context("disable_rule_group"@, disabling_sha(name), BUNDLE_VERSION@)
}

/// What proposing to switch a group off is given.
#[derive(Debug)]
pub struct PrepareDisableRuleGroupArgs {
    /// Name, kind or key of the group.
    pub input: String,
    /// Whether it is understood that the group comes with the system. Needed for
    /// such a group.
    pub acknowledge_builtin: Option<bool>,
}

/// What proposing to switch a group off returns.
#[derive(Debug)]
pub struct PrepareDisableRuleGroupResult {
    pub token: String,
    /// The name that the group is switched by.
    pub resolved_name: String,
    pub diff_summary: String,
    /// Whether the group comes with the system.
    pub is_builtin: bool,
}

/// That a group comes with the system.
pub open spec fn needs_acknowledgement(name: Seq<char>) -> Seq<char> {
    "group "@ + debug_form(name)
        + " is a builtin subscription — disabling it affects macOS/iCloud system-level rules. Set acknowledge_builtin: true to confirm."@
}

/// Whether a proposal to switch a group off is what the input calls for.
pub open spec fn is_disable_proposal(
    r: Result<PrepareDisableRuleGroupResult, String>,
    s: SessionView,
    input: Seq<char>,
    acknowledge_builtin: Option<bool>,
    groups: Seq<(String, Group)>,
    now: nat,
) -> bool {
    match display_name(input, groups) {
        Err(e) => r is Err && r->Err_0@ == e,
        Ok(name) => if has_builtin(name, groups) && acknowledge_builtin != Some(true) {
            r is Err && r->Err_0@ == needs_acknowledgement(name)
        } else {
            &&& r is Ok
            &&& r->Ok_0.token@ == s.token(disable_payload(name, now))
            &&& r->Ok_0.resolved_name@ == name
            &&& r->Ok_0.is_builtin == has_builtin(name, groups)
            &&& r->Ok_0.diff_summary@ == "disable rule group \""@ + name + "\""@ + (
            if has_builtin(name, groups) {
                " [builtin — acknowledged]"@
            } else {
                ""@
            })
        },
    }
}

/// Proposes to switch a group of the rule set off.
pub fn prepare_disable_with_model(
    session: &Session,
    input: &str,
    acknowledge_builtin: Option<bool>,
    model: &Model,
    now_unix_secs: u64,
) -> (r: Result<PrepareDisableRuleGroupResult, String>)
    ensures
        is_disable_proposal(
            r,
            session@,
            input@,
            acknowledge_builtin,
            model.groups@,
            now_unix_secs as nat,
        ),
{
    let resolved_name: String = match resolve_to_display_name(input, model) {
        Ok(n) => n,
        Err(e) => {
            return Err(e);
        },
    };
    let builtin: bool = is_builtin_group(resolved_name.as_str(), model);
    let acknowledged: bool = match acknowledge_builtin {
        Some(b) => b,
        None => false,
    };
    if builtin && !acknowledged {
        let mut out: String = concat("group ", quoted(resolved_name.as_str()).as_str());
        out.push_str(
            " is a builtin subscription — disabling it affects macOS/iCloud system-level rules. Set acknowledge_builtin: true to confirm.",
        );
        return Err(out);
    }
    let sha: String = disable_sha(resolved_name.as_str());
    let token: String = session.issue(
        &payload(
            "disable_rule_group",
            &target_of(resolved_name.as_str()),
            sha.as_str(),
            BUNDLE_VERSION,
            now_unix_secs,
            DEFAULT_TTL_SECS,
        ),
    );
    let mut diff_summary: String = concat("disable rule group \"", resolved_name.as_str());
    diff_summary.push_str("\"");
    diff_summary.push_str(
        if builtin {
            " [builtin — acknowledged]"
        } else {
            ""
        },
    );
    Ok(PrepareDisableRuleGroupResult { token, resolved_name, diff_summary, is_builtin: builtin })
}

/// Proposes to switch a group of the live rule set off.
pub fn prepare_disable(
    session: &Session,
    args: PrepareDisableRuleGroupArgs,
    export: CliRun,
    now_unix_secs: u64,
) -> (r: Result<PrepareDisableRuleGroupResult, String>)
    ensures
        if args.input@.len() == 0 {
            r is Err && r->Err_0@ == "input must not be empty"@
        } else {
            match exported(export, "export-model JSON invalid"@) {
                Ok(v) => exists|m: Model| #[trigger]
                    m@ == v && has_distinct_keys(m.groups@) && is_disable_proposal(
                        r,
                        session@,
                        args.input@,
                        args.acknowledge_builtin,
                        m.groups@,
                        now_unix_secs as nat,
                    ),
                Err(e) => r is Err && r->Err_0@ == e,
            }
        },
{
    if args.input.as_str().is_empty() {
        return Err("input must not be empty".to_owned());
    }
    match load_model(export, "export-model JSON invalid") {
        Ok(m) => prepare_disable_with_model(
            session,
            args.input.as_str(),
            args.acknowledge_builtin,
            &m,
            now_unix_secs,
        ),
        Err(e) => Err(e),
    }
}

/// What switching a group off is given.
#[derive(Debug)]
pub struct DisableRuleGroupArgs {
    /// The name that the proposal returned.
    pub resolved_name: String,
    /// Confirmation token of the proposal.
    pub token: String,
}

/// What switching a group off returns.
#[derive(Debug)]
pub struct DisableRuleGroupResult {
    pub resolved_name: String,
    pub disabled: bool,
    pub backup_path: String,
}

/// Asks to switch a group off. If it may be done, the arguments of the command come
/// back that does it; it is to be run behind a backup.
pub fn disable(
    session: &mut Session,
    args: &DisableRuleGroupArgs,
    live_write: Result<(), String>,
    now_unix_secs: u64,
) -> (r: Result<Vec<String>, String>)
    ensures
        ({
            let ctx = disable_context(args.resolved_name@);
            if args.resolved_name@.len() == 0 {
                &&& r is Err
                &&& r->Err_0@ == "resolved_name must not be empty"@
                &&& final(session)@ == old(session)@
            } else {
                &&& final(session)@ == session_after(
                    old(session)@,
                    live_write,
                    args.token@,
                    ctx,
                    now_unix_secs as nat,
                )
                &&& match refused(
                    old(session)@,
                    live_write,
                    args.token@,
                    ctx,
                    now_unix_secs as nat,
                    ""@,
                ) {
                    Some(e) => r is Err && r->Err_0@ == e,
                    None => r is Ok && texts(r->Ok_0@) == seq![
                        "rulegroup"@,
                        "-d"@,
                        args.resolved_name@,
                    ],
                }
            }
        }),
{
    if args.resolved_name.as_str().is_empty() {
        return Err("resolved_name must not be empty".to_owned());
    }
    let sha: String = disable_sha(args.resolved_name.as_str());
    let ctx: VerifyContext = VerifyContext {
        tool: "disable_rule_group",
        current_diff_sha256: sha.as_str(),
        current_bundle_version: BUNDLE_VERSION,
    };
    if let Some(e) = pass(session, live_write, args.token.as_str(), &ctx, now_unix_secs, "") {
        return Err(e);
    }
    Ok(words("rulegroup", "-d", args.resolved_name.as_str()))
}

/// What switching a group off comes to. `ran` is what became of running the command
/// behind a backup.
pub fn finish_disable(args: DisableRuleGroupArgs, ran: GuardedRun) -> (r: Result<
    DisableRuleGroupResult,
    String,
>)
    ensures
        match backup_of(ran, "rulegroup -d"@) {
            Err(e) => r is Err && r->Err_0@ == e,
            Ok(path) => r is Ok && r->Ok_0.resolved_name@ == args.resolved_name@ && r->Ok_0.disabled
                && r->Ok_0.backup_path@ == path,
        },
{
    match run_with_backup(ran, "rulegroup -d") {
        Ok(backup_path) => Ok(
            DisableRuleGroupResult { resolved_name: args.resolved_name, disabled: true, backup_path },
        ),
        Err(e) => Err(e),
    }
}

/// A token for switching a group on is never accepted for switching one off, nor the
/// other way round.
pub proof fn law_tokens_are_for_one_direction(
    s: SessionView,
    name: Seq<char>,
    other: Seq<char>,
    prepared: nat,
    now: nat,
)
    requires
        prepared <= u64::MAX,
    ensures
        s.verdict(s.token(enable_payload(name, prepared)), disable_context(other), now) is Err,
        s.verdict(s.token(disable_payload(name, prepared)), enable_context(other), now) is Err,
{
    reveal_strlit("enable_rule_group");
    reveal_strlit("disable_rule_group");
    assert("enable_rule_group"@.len() == 17);
    assert("disable_rule_group"@.len() == 18);
    law_issued_token(s, enable_payload(name, prepared), disable_context(other), now);
    law_issued_token(s, disable_payload(name, prepared), enable_context(other), now);
}

/// A token for one group is refused for another, with the error that says so, unless two
/// different texts with the same SHA-256 have been found.
pub proof fn law_tokens_are_for_one_group(
    s: SessionView,
    name: Seq<char>,
    other: Seq<char>,
    prepared: nat,
    now: nat,
)
    requires
        prepared <= u64::MAX,
        other != name,
    ensures
        s.verdict(s.token(enable_payload(name, prepared)), enable_context(other), now) == Err::<
            (),
            TokenError,
        >(TokenError::DiffDrift) || collide(enabling(name), enabling(other)),
        s.verdict(s.token(disable_payload(name, prepared)), disable_context(other), now) == Err::<
            (),
            TokenError,
        >(TokenError::DiffDrift) || collide(disabling(name), disabling(other)),
{
    if enabling(name) == enabling(other) {
        lemma_between(
            "{\"action\":\"enable_rule_group\",\"resolved_name\":\""@,
            name,
            other,
            "\"}"@,
        );
    }
    if disabling(name) == disabling(other) {
        lemma_between(
            "{\"action\":\"disable_rule_group\",\"resolved_name\":\""@,
            name,
            other,
            "\"}"@,
        );
    }
    law_issued_token(s, enable_payload(name, prepared), enable_context(other), now);
    law_issued_token(s, disable_payload(name, prepared), disable_context(other), now);
}

/// A proposed switch goes through: the token of the proposal is accepted for the name
/// it returned until its time is over or it has been used.
pub proof fn law_prepared_switch_applies(s: SessionView, name: Seq<char>, prepared: nat, now: nat)
    requires
        prepared <= u64::MAX,
        prepared <= now < prepared + DEFAULT_TTL_SECS,
    ensures
        !s.consumed.contains(s.token(enable_payload(name, prepared))) ==> s.verdict(
            s.token(enable_payload(name, prepared)),
            enable_context(name),
            now,
        ) is Ok,
        !s.consumed.contains(s.token(disable_payload(name, prepared))) ==> s.verdict(
            s.token(disable_payload(name, prepared)),
            disable_context(name),
            now,
        ) is Ok,
{
    law_issued_token(s, enable_payload(name, prepared), enable_context(name), now);
    law_issued_token(s, disable_payload(name, prepared), disable_context(name), now);
}

/// A group that comes with the system is not switched off unless that is acknowledged; any
/// other group is, without more ado.
pub proof fn law_builtin_groups_need_acknowledgement(
    r: Result<PrepareDisableRuleGroupResult, String>,
    s: SessionView,
    input: Seq<char>,
    acknowledge_builtin: Option<bool>,
    groups: Seq<(String, Group)>,
    now: nat,
    name: Seq<char>,
    i: int,
)
    requires
        is_disable_proposal(r, s, input, acknowledge_builtin, groups, now),
        display_name(input, groups) == Ok::<Seq<char>, Seq<char>>(name),
    ensures
        0 <= i < groups.len() && shown_name(groups[i].0@, Some(groups[i].1@)) == name && is_builtin(
            groups[i].1@,
        ) && acknowledge_builtin != Some(true) ==> r is Err,
        acknowledge_builtin == Some(true) ==> r is Ok,
        (forall|j: int|
            0 <= j < groups.len() ==> shown_name((#[trigger] groups[j]).0@, Some(groups[j].1@))
                != name || !is_builtin(groups[j].1@)) ==> r is Ok && !r->Ok_0.is_builtin,
{
    if 0 <= i < groups.len() && shown_name(groups[i].0@, Some(groups[i].1@)) == name && is_builtin(
        groups[i].1@,
    ) {
        assert(is_builtin_named(groups[i], name));
    }
}

/// A group is called by the name that what was asked for stands for, and a proposal is refused
/// just if it stands for none.
pub proof fn law_the_group_that_was_asked_for(input: Seq<char>, groups: Seq<(String, Group)>)
    ensures
        display_name(input, groups) is Err <==> resolved(input, groups) is NotFound,
        resolved(input, groups) matches ResolvedView::Verified(n) ==> display_name(input, groups)
            == Ok::<Seq<char>, Seq<char>>(n),
        is_a_name(groups, input) ==> display_name(input, groups) == Ok::<Seq<char>, Seq<char>>(
            input,
        ),
{
    if is_a_name(groups, input) {
        law_a_name_is_resolved_to_itself(input, groups);
    }
}

} // verus!
