//! Updating the groups of rules that come with Little Snitch.

use vstd::prelude::*;
use crate::hash::{collide, sha256_hex, sha256_hex_of};
use crate::json::{Json, JsonView};
use crate::safety::gate::{pass, refused, session_after};
use crate::safety::session::{law_issued_token, Session, SessionView};
use crate::safety::token::{
    context, payload, payload_for, ContextView, PayloadView, TokenError, VerifyContext,
    DEFAULT_TTL_SECS,
};
use crate::text::{concat, debug_form, lemma_between, opt_text, quoted, str_eq, texts};
use crate::tools::backup_harness::{backup_of, run_with_backup, GuardedRun};

verus! {

/// What stands for the version in the tokens of this tool.
pub const BUNDLE_VERSION: &'static str = "factory-rule-groups";

/// Which groups are updated.
#[derive(Debug, Clone, Copy, PartialEq, Eq, Structural)]
pub enum Scope {
    All,
    Apple,
    ThirdParty,
}

impl Scope {
    /// The word that stands for the scope.
    pub open spec fn word(self) -> Seq<char> {
        match self {
            Scope::All => "all"@,
            Scope::Apple => "apple"@,
            Scope::ThirdParty => "third-party"@,
        }
    }

    /// The word that stands for the scope.
    pub fn as_str(&self) -> (r: &'static str)
        ensures
            r@ == self.word(),
    {
        match self {
            Scope::All => "all",
            Scope::Apple => "apple",
            Scope::ThirdParty => "third-party",
        }
    }

    /// What is proposed.
    pub open spec fn summary(self) -> Seq<char> {
        match self {
            Scope::All => "update all factory rule groups"@,
            Scope::Apple => "update Apple factory rule groups only (`-a`)"@,
            Scope::ThirdParty => "update third-party factory rule groups only (`-t`)"@,
        }
    }

    /// The arguments of the command.
    pub open spec fn command(self) -> Seq<Seq<char>> {
        match self {
            Scope::All => seq!["update-rule-groups"@],
            Scope::Apple => seq!["update-rule-groups"@, "-a"@],
            Scope::ThirdParty => seq!["update-rule-groups"@, "-t"@],
        }
    }
}

/// What is hashed for an update.
pub open spec fn updating(word: Seq<char>) -> Seq<char> {
    "{\"action\":\"update_factory_rule_groups\",\"scope\":\""@ + word + "\"}"@
}

/// The digest of an update.
pub open spec fn updating_sha(word: Seq<char>) -> Seq<char> {
    sha256_hex(updating(word))
}

/// The digest of an update; without a word, of all groups.
pub fn update_sha(scope: Option<&str>) -> (r: String)
    ensures
        r@ == updating_sha(
            match scope {
                Some(s) => s@,
                None => "all"@,
            },
        ),
{
    let word: &str = match scope {
        Some(s) => s,
        None => "all",
    };
    let mut s: String = concat(
        "{\"action\":\"update_factory_rule_groups\",\"scope\":\"",
        word,
    );
    s.push_str("\"}");
    sha256_hex_of(s.as_str())
}

/// The scope that a word stands for, or that it stands for none; without a word, all
/// groups.
pub open spec fn scope_of(word: Option<Seq<char>>) -> Result<Scope, Seq<char>> {
    match word {
        None => Ok(Scope::All),
        Some(w) => if w == "all"@ {
            Ok(Scope::All)
        } else if w == "apple"@ {
            Ok(Scope::Apple)
        } else if w == "third-party"@ {
            Ok(Scope::ThirdParty)
        } else {
            Err(
                "invalid scope "@ + debug_form(w)
                    + ": must be \"apple\", \"third-party\", or \"all\" (or omit)"@,
            )
        },
    }
}

/// The scope that a word stands for, or that it stands for none; without a word, all
/// groups.
pub fn validate_scope(word: &Option<String>) -> (r: Result<Scope, String>)
    ensures
        match r {
            Ok(s) => scope_of(opt_text(*word)) == Ok::<Scope, Seq<char>>(s),
            Err(e) => scope_of(opt_text(*word)) == Err::<Scope, Seq<char>>(e@),
        },
{
    match word {
        None => Ok(Scope::All),
        Some(w) => if str_eq(w.as_str(), "all") {
            Ok(Scope::All)
        } else if str_eq(w.as_str(), "apple") {
            Ok(Scope::Apple)
        } else if str_eq(w.as_str(), "third-party") {
            Ok(Scope::ThirdParty)
        } else {
            let mut out: String = concat("invalid scope ", quoted(w.as_str()).as_str());
            out.push_str(": must be \"apple\", \"third-party\", or \"all\" (or omit)");
            Err(out)
        },
    }
}

/// What a token for an update is bound to.
pub open spec fn update_payload(scope: Scope, now: nat) -> PayloadView {
    payload_for(
        "update_factory_rule_groups"@,
        JsonView::Object(Map::empty().insert("scope"@, JsonView::Text(scope.word()))),
        updating_sha(scope.word()),
        BUNDLE_VERSION@,
        now,
        DEFAULT_TTL_SECS as nat,
    )
}

/// What a token for an update is held against.
pub open spec fn update_context(scope: Scope) -> ContextView {
    context("update_factory_rule_groups"@, updating_sha(scope.word()), BUNDLE_VERSION@)
}

/// What proposing an update is given.
#[derive(Debug)]
pub struct PrepareUpdateFactoryRuleGroupsArgs {
    /// `apple`, `third-party` or `all`; all groups if it is left out.
    pub scope: Option<String>,
}

/// What proposing an update returns.
#[derive(Debug)]
pub struct PrepareUpdateFactoryRuleGroupsResult {
    pub token: String,
    pub diff_summary: String,
    pub scope: String,
}

/// Proposes an update.
pub fn prepare_update(
    session: &Session,
    args: PrepareUpdateFactoryRuleGroupsArgs,
    now_unix_secs: u64,
) -> (r: Result<PrepareUpdateFactoryRuleGroupsResult, String>)
    ensures
        match scope_of(opt_text(args.scope)) {
            Err(e) => r is Err && r->Err_0@ == e,
            Ok(scope) => r is Ok && ({
                let p = r->Ok_0;
                &&& p.token@ == session@.token(update_payload(scope, now_unix_secs as nat))
                &&& p.diff_summary@ == scope.summary()
                &&& p.scope@ == scope.word()
            }),
        },
{
    let scope: Scope = match validate_scope(&args.scope) {
        Ok(s) => s,
        Err(e) => {
            return Err(e);
        },
    };
    let sha: String = update_sha(Some(scope.as_str()));
    let mut target: Json = Json::object();
    target.insert("scope".to_owned(), Json::text(scope.as_str()));
    let token: String = session.issue(
        &payload(
            "update_factory_rule_groups",
            &target,
            sha.as_str(),
            BUNDLE_VERSION,
            now_unix_secs,
            DEFAULT_TTL_SECS,
        ),
    );
    let summary: &str = match scope {
        Scope::All => "update all factory rule groups",
        Scope::Apple => "update Apple factory rule groups only (`-a`)",
        Scope::ThirdParty => "update third-party factory rule groups only (`-t`)",
    };
    Ok(
        PrepareUpdateFactoryRuleGroupsResult {
            token,
            diff_summary: summary.to_owned(),
            scope: scope.as_str().to_owned(),
        },
    )
}

/// What an update is given.
#[derive(Debug)]
pub struct UpdateFactoryRuleGroupsArgs {
    /// `apple`, `third-party` or `all`; all groups if it is left out.
    pub scope: Option<String>,
    /// Confirmation token of the proposal.
    pub token: String,
}

/// What an update returns.
#[derive(Debug)]
pub struct UpdateFactoryRuleGroupsResult {
    pub scope: String,
    pub updated: bool,
    pub backup_path: String,
}

/// Asks for an update. If it may be done, the scope and the arguments of the command
/// come back that does it; it is to be run behind a backup.
pub fn update(
    session: &mut Session,
    args: &UpdateFactoryRuleGroupsArgs,
    live_write: Result<(), String>,
    now_unix_secs: u64,
) -> (r: Result<(Scope, Vec<String>), String>)
    ensures
        match scope_of(opt_text(args.scope)) {
            Err(e) => r is Err && r->Err_0@ == e && final(session)@ == old(session)@,
            Ok(scope) => ({
                let ctx = update_context(scope);
                &&& final(session)@ == session_after(
                    old(session)@,
                    live_write,
                    args.token@,
                    ctx,
                    now_unix_secs as nat,
                )
                &&& match refused(
                    old(session)@,
                    live_write,
                    args.token@,
                    ctx,
                    now_unix_secs as nat,
                    ""@,
                ) {
                    Some(e) => r is Err && r->Err_0@ == e,
                    None => r is Ok && r->Ok_0.0 == scope && texts(r->Ok_0.1@) == scope.command(),
                }
            }),
        },
{
    let scope: Scope = match validate_scope(&args.scope) {
        Ok(s) => s,
        Err(e) => {
            return Err(e);
        },
    };
    let sha: String = update_sha(Some(scope.as_str()));
    let ctx: VerifyContext = VerifyContext {
        tool: "update_factory_rule_groups",
        current_diff_sha256: sha.as_str(),
        current_bundle_version: BUNDLE_VERSION,
    };
    if let Some(e) = pass(session, live_write, args.token.as_str(), &ctx, now_unix_secs, "") {
        return Err(e);
    }
    let mut out: Vec<String> = Vec::new();
    out.push("update-rule-groups".to_owned());
    match scope {
        Scope::All => {},
        Scope::Apple => {
            out.push("-a".to_owned());
        },
        Scope::ThirdParty => {
            out.push("-t".to_owned());
        },
    }
    proof {
        assert(texts(out@) =~= scope.command());
    }
    Ok((scope, out))
}

/// What an update comes to. `ran` is what became of running the command behind a
/// backup.
pub fn finish_update(scope: Scope, ran: GuardedRun) -> (r: Result<
    UpdateFactoryRuleGroupsResult,
    String,
>)
    ensures
        match backup_of(ran, "update-rule-groups"@) {
            Err(e) => r is Err && r->Err_0@ == e,
            Ok(path) => r is Ok && r->Ok_0.scope@ == scope.word() && r->Ok_0.updated
                && r->Ok_0.backup_path@ == path,
        },
{
    match run_with_backup(ran, "update-rule-groups") {
        Ok(backup_path) => Ok(
            UpdateFactoryRuleGroupsResult {
                scope: scope.as_str().to_owned(),
                updated: true,
                backup_path,
            },
        ),
        Err(e) => Err(e),
    }
}

/// A proposed update goes through for its own scope.
pub proof fn law_prepared_update_applies(s: SessionView, scope: Scope, prepared: nat, now: nat)
    requires
        prepared <= u64::MAX,
        prepared <= now < prepared + DEFAULT_TTL_SECS,
        !s.consumed.contains(s.token(update_payload(scope, prepared))),
    ensures
        s.verdict(s.token(update_payload(scope, prepared)), update_context(scope), now) is Ok,
{
    law_issued_token(s, update_payload(scope, prepared), update_context(scope), now);
}

/// A token for one scope is refused for another, with the error that says so, unless two
/// different texts with the same SHA-256 have been found.
pub proof fn law_tokens_are_for_one_scope(
    s: SessionView,
    scope: Scope,
    other: Scope,
    prepared: nat,
    now: nat,
)
    requires
        prepared <= u64::MAX,
        other != scope,
    ensures
        s.verdict(s.token(update_payload(scope, prepared)), update_context(other), now) == Err::<
            (),
            TokenError,
        >(TokenError::DiffDrift) || collide(updating(scope.word()), updating(other.word())),
{
    reveal_strlit("all");
    reveal_strlit("apple");
    reveal_strlit("third-party");
    assert(scope.word().len() != other.word().len());
    if updating(scope.word()) == updating(other.word()) {
        lemma_between(
            "{\"action\":\"update_factory_rule_groups\",\"scope\":\""@,
            scope.word(),
            other.word(),
            "\"}"@,
        );
    }
    law_issued_token(s, update_payload(scope, prepared), update_context(other), now);
}

/// Each word stands for its scope, and its scope for a command of its own: only the groups of
/// Apple with `-a`, only the others with `-t`, and all of them with neither. What is no word of
/// a scope is refused, and without a word all groups are meant.
pub proof fn law_scopes_and_commands(word: Option<Seq<char>>)
    ensures
        word is None ==> scope_of(word) == Ok::<Scope, Seq<char>>(Scope::All),
        scope_of(word) is Err <==> word is Some && word->0 != "all"@ && word->0 != "apple"@
            && word->0 != "third-party"@,
        scope_of(word) matches Ok(scope) ==> {
            &&& word is Some ==> scope.word() == word->0
            &&& scope.command()[0] == "update-rule-groups"@
            &&& scope.command().contains("-a"@) <==> word == Some("apple"@)
            &&& scope.command().contains("-t"@) <==> word == Some("third-party"@)
            &&& scope.command().len() == 1 <==> (word is None || word == Some("all"@))
        },
{
    reveal_strlit("update-rule-groups");
    reveal_strlit("-a");
    reveal_strlit("-t");
    reveal_strlit("all");
    reveal_strlit("apple");
    reveal_strlit("third-party");
    assert("-a"@[1] == 'a' && "-t"@[1] == 't' && "update-rule-groups"@.len() == 18);
    assert("-a"@.len() == 2 && "-t"@.len() == 2);
    assert("all"@.len() == 3 && "apple"@.len() == 5 && "third-party"@.len() == 11);
    if let Ok(scope) = scope_of(word) {
        let c = scope.command();
        if scope != Scope::All {
            assert(c[1] == c[1]);
            assert(c.contains(c[1]));
        }
    }
}

} // verus!
