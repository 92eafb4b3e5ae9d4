//! Switching profiles on and off.

use vstd::prelude::*;
use crate::cli::{output_of, printed, CliRun};
use crate::grouping::is_listed;
use crate::hash::{collide, sha256_hex, sha256_hex_of};
use crate::json::{items_of, json_parsed, jsons, member, parse, text_of, Json, JsonView};
use crate::safety::gate::{pass, refused, session_after};
use crate::safety::session::{law_issued_token, Session, SessionView};
use crate::safety::token::{
    context, payload, payload_for, ContextView, PayloadView, TokenError, VerifyContext,
    DEFAULT_TTL_SECS,
};
use crate::text::{
    concat, debug_form, lemma_between, quoted, quoted_list, texts, write_quoted_list,
};
use crate::tools::backup_harness::{backup_of, run_with_backup, words, GuardedRun};

verus! {

/// What stands for the version in the tokens of these tools.
pub const BUNDLE_VERSION: &'static str = "profiles";

/// What is hashed for switching a profile on.
pub open spec fn activating(name: Seq<char>) -> Seq<char> {
    "{\"action\":\"activate_profile\",\"name\":\""@ + name + "\"}"@
}

/// The digest of switching a profile on.
pub open spec fn activating_sha(name: Seq<char>) -> Seq<char> {
    sha256_hex(activating(name))
}

/// The digest of switching a profile on.
pub fn activate_sha(name: &str) -> (r: String)
    ensures
        r@ == activating_sha(name@),
{
    let mut s: String = concat("{\"action\":\"activate_profile\",\"name\":\"", name);
    s.push_str("\"}");
    sha256_hex_of(s.as_str())
}

/// The digest of switching all profiles off.
pub open spec fn deactivating_sha() -> Seq<char> {
    sha256_hex("{\"action\":\"deactivate_all_profiles\"}"@)
}

/// The digest of switching all profiles off.
pub fn deactivate_sha() -> (r: String)
    ensures
        r@ == deactivating_sha(),
{
    sha256_hex_of("{\"action\":\"deactivate_all_profiles\"}")
}

/// What proposing to switch a profile on is given.
#[derive(Debug)]
pub struct PrepareActivateProfileArgs {
    /// Name of the profile.
    pub name: String,
}

/// What proposing to switch a profile on returns.
#[derive(Debug)]
pub struct PrepareActivateProfileResult {
    pub token: String,
    pub diff_summary: String,
    pub name: String,
}

/// What a token for switching a profile on is bound to.
pub open spec fn activate_payload(name: Seq<char>, now: nat) -> PayloadView {
    payload_for(
        "activate_profile"@,
        JsonView::Object(Map::empty().insert("name"@, JsonView::Text(name))),
        activating_sha(name),
        BUNDLE_VERSION@,
        now,
        DEFAULT_TTL_SECS as nat,
    )
}

/// What a token for switching a profile on is held against.
pub open spec fn activate_context(name: Seq<char>) -> ContextView {
    context("activate_profile"@, activating_sha(name), BUNDLE_VERSION@)
}

/// Proposes to switch a profile on.
pub fn prepare_activate(
    session: &Session,
    args: PrepareActivateProfileArgs,
    now_unix_secs: u64,
) -> (r: Result<PrepareActivateProfileResult, String>)
    ensures
        if args.name@.len() == 0 {
            r is Err && r->Err_0@ == "name must not be empty"@
        } else {
            &&& r is Ok
            &&& r->Ok_0.token@ == session@.token(
                activate_payload(args.name@, now_unix_secs as nat),
            )
            &&& r->Ok_0.diff_summary@ == "activate profile \""@ + args.name@ + "\""@
            &&& r->Ok_0.name@ == args.name@
        },
{
    if args.name.as_str().is_empty() {
        return Err("name must not be empty".to_owned());
    }
    let sha: String = activate_sha(args.name.as_str());
    let mut target: Json = Json::object();
    target.insert("name".to_owned(), Json::text(args.name.as_str()));
    let token: String = session.issue(
        &payload(
            "activate_profile",
            &target,
            sha.as_str(),
            BUNDLE_VERSION,
            now_unix_secs,
            DEFAULT_TTL_SECS,
        ),
    );
    let mut diff_summary: String = concat("activate profile \"", args.name.as_str());
    diff_summary.push_str("\"");
    Ok(PrepareActivateProfileResult { token, diff_summary, name: args.name })
}

/// What switching a profile on is given.
#[derive(Debug)]
pub struct ActivateProfileArgs {
    /// Name of the profile.
    pub name: String,
    /// Confirmation token of the proposal.
    pub token: String,
}

/// What switching a profile on returns.
#[derive(Debug)]
pub struct ActivateProfileResult {
    pub name: String,
    pub activated: bool,
    pub backup_path: String,
}

/// The name of a profile, if it has one.
pub open spec fn profile_name(p: JsonView) -> Option<Seq<char>> {
    text_of(member(p, "name"@))
}

/// The names of some profiles, in their order.
pub open spec fn profile_names(v: Seq<JsonView>) -> Seq<Seq<char>>
    decreases v.len(),
{
    if v.len() == 0 {
        Seq::empty()
    } else {
        let before = profile_names(v.drop_last());
        match profile_name(v.last()) {
            Some(n) => before.push(n),
            None => before,
        }
    }
}

fn find_names(v: &Vec<Json>) -> (r: Vec<String>)
    ensures
        texts(r@) == profile_names(jsons(v@)),
{
    let mut out: Vec<String> = Vec::new();
    let ghost all = jsons(v@);
    proof {
        assert(texts(out@) =~= profile_names(all.take(0)));
    }
    for i in 0..v.len()
        invariant
            all == jsons(v@),
            texts(out@) == profile_names(all.take(i as int)),
    {
        let ghost prior = out@;
        proof {
            assert(all.take(i + 1).drop_last() == all.take(i as int));
            assert(all.take(i + 1).last() == v@[i as int]@);
        }
        if let Some(n) = v[i].text_member("name") {
            out.push(n.clone());
            proof {
                assert(texts(out@) =~= texts(prior).push(n@));
            }
        }
    }
    proof {
        assert(all.take(all.len() as int) == all);
    }
    out
}

/// Why there is no such profile, if there is none. `export` is what became of
/// exporting the rule set.
pub open spec fn missing_profile(name: Seq<char>, export: CliRun) -> Option<Seq<char>> {
    match printed(export, "export-model"@) {
        Err(e) => Some(e),
        Ok(text) => match json_parsed(text) {
            Err(e) => Some("export-model returned invalid JSON: "@ + e),
            Ok(doc) => match items_of(member(doc, "profiles"@)) {
                None => Some("model has no profiles array"@),
                Some(profiles) => if profile_names(profiles).contains(name) {
                    None
                } else {
                    Some(
                        "profile "@ + debug_form(name) + " not found; available profiles: "@
                            + quoted_list(profile_names(profiles)),
                    )
                },
            },
        },
    }
}

/// Whether there is such a profile. `export` is what became of exporting the rule
/// set.
pub fn validate_profile_exists(name: &str, export: CliRun) -> (r: Result<(), String>)
    ensures
        match r {
            Ok(_) => missing_profile(name@, export) is None,
            Err(e) => missing_profile(name@, export) == Some(e@),
        },
{
    let text: String = match output_of(export, "export-model") {
        Ok(s) => s,
        Err(e) => {
            return Err(e);
        },
    };
    let doc: Json = match parse(text.as_str()) {
        Ok(d) => d,
        Err(e) => {
            return Err(concat("export-model returned invalid JSON: ", e.as_str()));
        },
    };
    let names: Vec<String> = match doc.array_member("profiles") {
        Some(v) => find_names(v),
        None => {
            return Err("model has no profiles array".to_owned());
        },
    };
    if is_listed(&names, name) {
        Ok(())
    } else {
        let mut out: String = concat("profile ", quoted(name).as_str());
        out.push_str(" not found; available profiles: ");
        out.push_str(write_quoted_list(&names).as_str());
        Err(out)
    }
}

/// Asks to switch a profile on. If it may be done, the profile is to be looked for in
/// the rule set next.
pub fn activate(
    session: &mut Session,
    args: &ActivateProfileArgs,
    live_write: Result<(), String>,
    now_unix_secs: u64,
) -> (r: Result<(), String>)
    ensures
        ({
            let ctx = activate_context(args.name@);
            if args.name@.len() == 0 {
                &&& r is Err
                &&& r->Err_0@ == "name must not be empty"@
                &&& final(session)@ == old(session)@
            } else {
                &&& final(session)@ == session_after(
                    old(session)@,
                    live_write,
                    args.token@,
                    ctx,
                    now_unix_secs as nat,
                )
                &&& match refused(
                    old(session)@,
                    live_write,
                    args.token@,
                    ctx,
                    now_unix_secs as nat,
                    ""@,
                ) {
                    Some(e) => r is Err && r->Err_0@ == e,
                    None => r is Ok,
                }
            }
        }),
{
    if args.name.as_str().is_empty() {
        return Err("name must not be empty".to_owned());
    }
    let sha: String = activate_sha(args.name.as_str());
    let ctx: VerifyContext = VerifyContext {
        tool: "activate_profile",
        current_diff_sha256: sha.as_str(),
        current_bundle_version: BUNDLE_VERSION,
    };
    match pass(session, live_write, args.token.as_str(), &ctx, now_unix_secs, "") {
        Some(e) => Err(e),
        None => Ok(()),
    }
}

/// The arguments of the command that switches a profile on, once it may be done, if
/// there is such a profile. The command is to be run behind a backup.
pub fn activation_command(name: &str, export: CliRun) -> (r: Result<Vec<String>, String>)
    ensures
        match missing_profile(name@, export) {
            Some(e) => r is Err && r->Err_0@ == e,
            None => r is Ok && texts(r->Ok_0@) == seq!["profile"@, "-a"@, name@],
        },
{
    match validate_profile_exists(name, export) {
        Ok(()) => Ok(words("profile", "-a", name)),
        Err(e) => Err(e),
    }
}

/// What switching a profile on comes to. `ran` is what became of running the command
/// behind a backup.
pub fn finish_activate(args: ActivateProfileArgs, ran: GuardedRun) -> (r: Result<
    ActivateProfileResult,
    String,
>)
    ensures
        match backup_of(ran, "profile -a"@) {
            Err(e) => r is Err && r->Err_0@ == e,
            Ok(path) => r is Ok && r->Ok_0.name@ == args.name@ && r->Ok_0.activated
                && r->Ok_0.backup_path@ == path,
        },
{
    match run_with_backup(ran, "profile -a") {
        Ok(backup_path) => Ok(
            ActivateProfileResult { name: args.name, activated: true, backup_path },
        ),
        Err(e) => Err(e),
    }
}

/// What proposing to switch all profiles off is given.
#[derive(Debug)]
pub struct PrepareDeactivateAllProfilesArgs {}

/// What proposing to switch all profiles off returns.
#[derive(Debug)]
pub struct PrepareDeactivateAllProfilesResult {
    pub token: String,
    pub diff_summary: String,
}

/// What a token for switching all profiles off is bound to.
pub open spec fn deactivate_payload(now: nat) -> PayloadView {
    payload_for(
        "deactivate_all_profiles"@,
        JsonView::Object(Map::empty().insert("action"@, JsonView::Text("deactivate_all"@))),
        deactivating_sha(),
        BUNDLE_VERSION@,
        now,
        DEFAULT_TTL_SECS as nat,
    )
}

/// What a token for switching all profiles off is held against.
pub open spec fn deactivate_context() -> ContextView {
    context("deactivate_all_profiles"@, deactivating_sha(), BUNDLE_VERSION@)
}

/// Proposes to switch all profiles off.
pub fn prepare_deactivate(
    session: &Session,
    args: PrepareDeactivateAllProfilesArgs,
    now_unix_secs: u64,
) -> (r: Result<PrepareDeactivateAllProfilesResult, String>)
    ensures
        r is Ok,
        r->Ok_0.token@ == session@.token(deactivate_payload(now_unix_secs as nat)),
        r->Ok_0.diff_summary@ == "deactivate all profiles (profile -d)"@,
{
    let sha: String = deactivate_sha();
    let mut target: Json = Json::object();
    target.insert("action".to_owned(), Json::text("deactivate_all"));
    let token: String = session.issue(
        &payload(
            "deactivate_all_profiles",
            &target,
            sha.as_str(),
            BUNDLE_VERSION,
            now_unix_secs,
            DEFAULT_TTL_SECS,
        ),
    );
    Ok(
        PrepareDeactivateAllProfilesResult {
            token,
            diff_summary: "deactivate all profiles (profile -d)".to_owned(),
        },
    )
}

/// What switching all profiles off is given.
#[derive(Debug)]
pub struct DeactivateAllProfilesArgs {
    /// Confirmation token of the proposal.
    pub token: String,
}

/// What switching all profiles off returns.
#[derive(Debug)]
pub struct DeactivateAllProfilesResult {
    pub deactivated: bool,
    pub backup_path: String,
}

/// Asks to switch all profiles off. If it may be done, the arguments of the command
/// come back that does it; it is to be run behind a backup.
pub fn deactivate_all(
    session: &mut Session,
    args: &DeactivateAllProfilesArgs,
    live_write: Result<(), String>,
    now_unix_secs: u64,
) -> (r: Result<Vec<String>, String>)
    ensures
        final(session)@ == session_after(
            old(session)@,
            live_write,
            args.token@,
            deactivate_context(),
            now_unix_secs as nat,
        ),
        match refused(
            old(session)@,
            live_write,
            args.token@,
            deactivate_context(),
            now_unix_secs as nat,
            ""@,
        ) {
            Some(e) => r is Err && r->Err_0@ == e,
            None => r is Ok && texts(r->Ok_0@) == seq!["profile"@, "-d"@],
        },
{
    let sha: String = deactivate_sha();
    let ctx: VerifyContext = VerifyContext {
        tool: "deactivate_all_profiles",
        current_diff_sha256: sha.as_str(),
        current_bundle_version: BUNDLE_VERSION,
    };
    if let Some(e) = pass(session, live_write, args.token.as_str(), &ctx, now_unix_secs, "") {
        return Err(e);
    }
    let mut out: Vec<String> = Vec::new();
    out.push("profile".to_owned());
    out.push("-d".to_owned());
    proof {
        assert(texts(out@) =~= seq!["profile"@, "-d"@]);
    }
    Ok(out)
}

/// What switching all profiles off comes to. `ran` is what became of running the
/// command behind a backup.
pub fn finish_deactivate_all(ran: GuardedRun) -> (r: Result<DeactivateAllProfilesResult, String>)
    ensures
        match backup_of(ran, "profile -d"@) {
            Err(e) => r is Err && r->Err_0@ == e,
            Ok(path) => r is Ok && r->Ok_0.deactivated && r->Ok_0.backup_path@ == path,
        },
{
    match run_with_backup(ran, "profile -d") {
        Ok(backup_path) => Ok(DeactivateAllProfilesResult { deactivated: true, backup_path }),
        Err(e) => Err(e),
    }
}

/// A token for switching a profile on is never accepted for switching all off, nor the
/// other way round.
pub proof fn law_tokens_are_for_one_direction(
    s: SessionView,
    name: Seq<char>,
    prepared: nat,
    now: nat,
)
    requires
        prepared <= u64::MAX,
    ensures
        s.verdict(s.token(activate_payload(name, prepared)), deactivate_context(), now) is Err,
        s.verdict(s.token(deactivate_payload(prepared)), activate_context(name), now) is Err,
{
    reveal_strlit("activate_profile");
    reveal_strlit("deactivate_all_profiles");
    assert("activate_profile"@.len() == 16);
    assert("deactivate_all_profiles"@.len() == 23);
    law_issued_token(s, activate_payload(name, prepared), deactivate_context(), now);
    law_issued_token(s, deactivate_payload(prepared), activate_context(name), now);
}

/// A token for one profile is refused for another, with the error that says so, unless two
/// different texts with the same SHA-256 have been found.
pub proof fn law_tokens_are_for_one_profile(
    s: SessionView,
    name: Seq<char>,
    other: Seq<char>,
    prepared: nat,
    now: nat,
)
    requires
        prepared <= u64::MAX,
        other != name,
    ensures
        s.verdict(s.token(activate_payload(name, prepared)), activate_context(other), now) == Err::<
            (),
            TokenError,
        >(TokenError::DiffDrift) || collide(activating(name), activating(other)),
{
    if activating(name) == activating(other) {
        lemma_between("{\"action\":\"activate_profile\",\"name\":\""@, name, other, "\"}"@);
    }
    law_issued_token(s, activate_payload(name, prepared), activate_context(other), now);
}

/// A proposed switch goes through: the token of the proposal is accepted until its time
/// is over or it has been used.
pub proof fn law_prepared_switch_applies(s: SessionView, name: Seq<char>, prepared: nat, now: nat)
    requires
        prepared <= u64::MAX,
        prepared <= now < prepared + DEFAULT_TTL_SECS,
    ensures
        !s.consumed.contains(s.token(activate_payload(name, prepared))) ==> s.verdict(
            s.token(activate_payload(name, prepared)),
            activate_context(name),
            now,
        ) is Ok,
        !s.consumed.contains(s.token(deactivate_payload(prepared))) ==> s.verdict(
            s.token(deactivate_payload(prepared)),
            deactivate_context(),
            now,
        ) is Ok,
{
    law_issued_token(s, activate_payload(name, prepared), activate_context(name), now);
    law_issued_token(s, deactivate_payload(prepared), deactivate_context(), now);
}

/// The names of the profiles are just those that profiles have.
pub proof fn law_profile_names(v: Seq<JsonView>, name: Seq<char>)
    ensures
        profile_names(v).contains(name) <==> exists|i: int|
            0 <= i < v.len() && member(#[trigger] v[i], "name"@) == Some(JsonView::Text(name)),
    decreases v.len(),
{
    if v.len() == 0 {
        assert(profile_names(v).len() == 0);
    } else {
        let w = v.drop_last();
        law_profile_names(w, name);
        let (before, now) = (profile_names(w), profile_names(v));
        if exists|i: int|
            0 <= i < v.len() && member(#[trigger] v[i], "name"@) == Some(JsonView::Text(name)) {
            let i = choose|i: int|
                0 <= i < v.len() && member(#[trigger] v[i], "name"@) == Some(JsonView::Text(name));
            if i < w.len() {
                assert(w[i] == v[i]);
                let k = choose|k: int| 0 <= k < before.len() && before[k] == name;
                assert(now[k] == name);
            } else {
                assert(now[before.len() as int] == name);
            }
        }
        if now.contains(name) {
            let k = choose|k: int| 0 <= k < now.len() && now[k] == name;
            if k < before.len() {
                assert(before[k] == name);
                let i = choose|i: int|
                    0 <= i < w.len() && member(#[trigger] w[i], "name"@) == Some(
                        JsonView::Text(name),
                    );
                assert(v[i] == w[i]);
            } else {
                assert(member(v[v.len() - 1], "name"@) == Some(JsonView::Text(name)));
            }
        }
    }
}

/// A profile can be switched on just if the rule set has a profile of that name.
pub proof fn law_only_profiles_that_are_there(
    name: Seq<char>,
    output: String,
    profiles: Seq<JsonView>,
)
    requires
        json_parsed(output@) is Ok,
        member(json_parsed(output@)->Ok_0, "profiles"@) == Some(JsonView::Array(profiles)),
    ensures
        missing_profile(name, CliRun::Output(output)) is None <==> exists|i: int|
            0 <= i < profiles.len() && member(#[trigger] profiles[i], "name"@) == Some(
                JsonView::Text(name),
            ),
{
    law_profile_names(profiles, name);
}

} // verus!
