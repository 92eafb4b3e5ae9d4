//! Writing and removing preferences.

use vstd::prelude::*;
use crate::hash::{collide, json_sha256, json_sha256_of, lemma_json_digests};
use crate::json::{
    compact_text, member, nests_within, pretty_text, reads_as, to_pretty_text, to_text, Json,
    JsonView,
};
use crate::safety::gate::{pass, refused, session_after};
use crate::safety::prefs::{require_writable, unwritable, PreferencePolicy};
use crate::safety::session::{law_issued_token, Session, SessionView};
use crate::safety::token::{
    context, payload, payload_for, ContextView, PayloadView, TokenError, VerifyContext,
    DEFAULT_TTL_SECS,
};
use crate::text::{concat, texts};
use crate::tools::backup_harness::{backup_of, run_with_backup, words, GuardedRun};

verus! {

/// What stands for the version in the tokens of these tools: preferences have none.
pub const PREFS_BUNDLE_VERSION: &'static str = "preferences";

/// Whether the text that the digest of a change is made of is read back as the change.
pub open spec fn is_read_back(change: JsonView) -> bool {
    reads_as(compact_text(change), change)
}

/// What a write comes to.
pub open spec fn write_change(key: Seq<char>, value: JsonView) -> JsonView {
    JsonView::Object(
        Map::empty().insert("action"@, JsonView::Text("write"@)).insert(
            "key"@,
            JsonView::Text(key),
        ).insert("value"@, value),
    )
}

/// The digest of a write.
pub fn compute_write_sha(key: &str, value: &Json) -> (r: String)
    ensures
        r@ == json_sha256(write_change(key@, value@)),
        nests_within(write_change(key@, value@), 127) ==> is_read_back(write_change(key@, value@)),
{
    let mut doc: Json = Json::object();
    doc.insert("action".to_owned(), Json::text("write"));
    doc.insert("key".to_owned(), Json::text(key));
    doc.insert("value".to_owned(), value.copy());
    json_sha256_of(&doc)
}

/// What a removal comes to.
pub open spec fn remove_change(key: Seq<char>) -> JsonView {
    JsonView::Object(
        Map::empty().insert("action"@, JsonView::Text("remove"@)).insert(
            "key"@,
            JsonView::Text(key),
        ),
    )
}

/// The digest of a removal.
pub fn compute_remove_sha(key: &str) -> (r: String)
    ensures
        r@ == json_sha256(remove_change(key@)),
        is_read_back(remove_change(key@)),
{
    proof {
        reveal_with_fuel(nests_within, 2);
        assert(nests_within(remove_change(key@), 127));
    }
    let mut doc: Json = Json::object();
    doc.insert("action".to_owned(), Json::text("remove"));
    doc.insert("key".to_owned(), Json::text(key));
    json_sha256_of(&doc)
}

/// A value as the command takes it: a text as it stands, a truth value and a number in
/// their own notation, everything else as JSON.
pub open spec fn cli_arg(v: JsonView) -> Seq<char> {
    match v {
        JsonView::Bool(true) => "true"@,
        JsonView::Bool(false) => "false"@,
        JsonView::Text(s) => s,
        JsonView::Number(n) => n,
        other => compact_text(other),
    }
}

/// A value as the command takes it.
pub fn json_value_to_cli_arg(v: &Json) -> (r: String)
    ensures
        r@ == cli_arg(v@),
{
    match v {
        Json::Bool(b) => if *b {
            "true".to_owned()
        } else {
            "false".to_owned()
        },
        Json::Text(s) => s.clone(),
        Json::Number(n) => n.to_text(),
        other => to_text(other),
    }
}

/// What a token is about: the key.
pub open spec fn key_target(key: Seq<char>) -> JsonView {
    JsonView::Object(Map::empty().insert("key"@, JsonView::Text(key)))
}

fn target_of(key: &str) -> (r: Json)
    ensures
        r@ == key_target(key@),
{
    let mut doc: Json = Json::object();
    doc.insert("key".to_owned(), Json::text(key));
    doc
}

/// What a token for a write is bound to.
pub open spec fn write_payload(key: Seq<char>, value: JsonView, now: nat) -> PayloadView {
    payload_for(
        "write_preference"@,
        key_target(key),
        json_sha256(write_change(key, value)),
        PREFS_BUNDLE_VERSION@,
        now,
        DEFAULT_TTL_SECS as nat,
    )
}

/// What a token for a write is held against.
pub open spec fn write_context(key: Seq<char>, value: JsonView) -> ContextView {
    context("write_preference"@, json_sha256(write_change(key, value)), PREFS_BUNDLE_VERSION@)
}

/// What a token for a removal is bound to.
pub open spec fn remove_payload(key: Seq<char>, now: nat) -> PayloadView {
    payload_for(
        "remove_preference"@,
        key_target(key),
        json_sha256(remove_change(key)),
        PREFS_BUNDLE_VERSION@,
        now,
        DEFAULT_TTL_SECS as nat,
    )
}

/// What a token for a removal is held against.
pub open spec fn remove_context(key: Seq<char>) -> ContextView {
    context("remove_preference"@, json_sha256(remove_change(key)), PREFS_BUNDLE_VERSION@)
}

/// What proposing a write is given.
#[derive(Debug)]
pub struct PrepareWritePreferenceArgs {
    pub key: String,
    pub value: Json,
}

/// What proposing a write returns.
#[derive(Debug)]
pub struct PrepareWritePreferenceResult {
    pub token: String,
    pub diff_summary: String,
    pub key: String,
    pub value: Json,
}

/// Proposes to write a preference.
pub fn prepare_write(
    session: &Session,
    args: PrepareWritePreferenceArgs,
    policy: &PreferencePolicy,
    now_unix_secs: u64,
) -> (r: Result<PrepareWritePreferenceResult, String>)
    ensures
        match unwritable(*policy, args.key@) {
            Some(e) => r is Err && r->Err_0@ == e,
            None => r is Ok && ({
                let p = r->Ok_0;
                &&& p.token@ == session@.token(
                    write_payload(args.key@, args.value@, now_unix_secs as nat),
                )
                &&& p.diff_summary@ == "write globalDefaults[\""@ + args.key@
                    + "\"]\n  new value: "@ + pretty_text(args.value@)
                &&& p.key@ == args.key@
                &&& p.value@ == args.value@
            }),
        },
{
    if let Some(e) = require_writable(policy, args.key.as_str()) {
        return Err(e);
    }
    let sha: String = compute_write_sha(args.key.as_str(), &args.value);
    let token: String = session.issue(
        &payload(
            "write_preference",
            &target_of(args.key.as_str()),
            sha.as_str(),
            PREFS_BUNDLE_VERSION,
            now_unix_secs,
            DEFAULT_TTL_SECS,
        ),
    );
    let mut diff_summary: String = concat("write globalDefaults[\"", args.key.as_str());
    diff_summary.push_str("\"]\n  new value: ");
    diff_summary.push_str(to_pretty_text(&args.value).as_str());
    Ok(PrepareWritePreferenceResult { token, diff_summary, key: args.key, value: args.value })
}

/// What a write is given.
#[derive(Debug)]
pub struct WritePreferenceArgs {
    pub key: String,
    pub value: Json,
    /// Confirmation token of the proposal.
    pub token: String,
}

/// What a write returns.
#[derive(Debug)]
pub struct WritePreferenceResult {
    pub key: String,
    pub value: Json,
    pub written: bool,
}

/// Asks to write a preference. If it may be done, the arguments of the command come
/// back that does it; it is to be run behind a backup.
pub fn write(
    session: &mut Session,
    args: &WritePreferenceArgs,
    policy: &PreferencePolicy,
    live_write: Result<(), String>,
    now_unix_secs: u64,
) -> (r: Result<Vec<String>, String>)
    ensures
        match unwritable(*policy, args.key@) {
            Some(e) => r is Err && r->Err_0@ == e && final(session)@ == old(session)@,
            None => ({
                let ctx = write_context(args.key@, args.value@);
                &&& final(session)@ == session_after(
                    old(session)@,
                    live_write,
                    args.token@,
                    ctx,
                    now_unix_secs as nat,
                )
                &&& match refused(
                    old(session)@,
                    live_write,
                    args.token@,
                    ctx,
                    now_unix_secs as nat,
                    "token verification failed: "@,
                ) {
                    Some(e) => r is Err && r->Err_0@ == e,
                    None => r is Ok && texts(r->Ok_0@) == seq![
                        "write-preference"@,
                        args.key@,
                        cli_arg(args.value@),
                    ],
                }
            }),
        },
{
    if let Some(e) = require_writable(policy, args.key.as_str()) {
        return Err(e);
    }
    let sha: String = compute_write_sha(args.key.as_str(), &args.value);
    let ctx: VerifyContext = VerifyContext {
        tool: "write_preference",
        current_diff_sha256: sha.as_str(),
        current_bundle_version: PREFS_BUNDLE_VERSION,
    };
    if let Some(e) = pass(
        session,
        live_write,
        args.token.as_str(),
        &ctx,
        now_unix_secs,
        "token verification failed: ",
    ) {
        return Err(e);
    }
    let value: String = json_value_to_cli_arg(&args.value);
    Ok(words("write-preference", args.key.as_str(), value.as_str()))
}

/// What a write comes to. `ran` is what became of running the command behind a backup.
pub fn finish_write(args: WritePreferenceArgs, ran: GuardedRun) -> (r: Result<
    WritePreferenceResult,
    String,
>)
    ensures
        match backup_of(ran, "write-preference"@) {
            Err(e) => r is Err && r->Err_0@ == e,
            Ok(_) => r is Ok && r->Ok_0.key@ == args.key@ && r->Ok_0.value@ == args.value@
                && r->Ok_0.written,
        },
{
    match run_with_backup(ran, "write-preference") {
        Ok(_) => Ok(WritePreferenceResult { key: args.key, value: args.value, written: true }),
        Err(e) => Err(e),
    }
}

/// What proposing a removal is given.
#[derive(Debug)]
pub struct PrepareRemovePreferenceArgs {
    pub key: String,
}

/// What proposing a removal returns.
#[derive(Debug)]
pub struct PrepareRemovePreferenceResult {
    pub token: String,
    pub diff_summary: String,
    pub key: String,
}

/// Proposes to remove a preference.
pub fn prepare_remove(
    session: &Session,
    args: PrepareRemovePreferenceArgs,
    policy: &PreferencePolicy,
    now_unix_secs: u64,
) -> (r: Result<PrepareRemovePreferenceResult, String>)
    ensures
        match unwritable(*policy, args.key@) {
            Some(e) => r is Err && r->Err_0@ == e,
            None => r is Ok && ({
                let p = r->Ok_0;
                &&& p.token@ == session@.token(remove_payload(args.key@, now_unix_secs as nat))
                &&& p.diff_summary@ == "remove globalDefaults[\""@ + args.key@ + "\"]"@
                &&& p.key@ == args.key@
            }),
        },
{
    if let Some(e) = require_writable(policy, args.key.as_str()) {
        return Err(e);
    }
    let sha: String = compute_remove_sha(args.key.as_str());
    let token: String = session.issue(
        &payload(
            "remove_preference",
            &target_of(args.key.as_str()),
            sha.as_str(),
            PREFS_BUNDLE_VERSION,
            now_unix_secs,
            DEFAULT_TTL_SECS,
        ),
    );
    let mut diff_summary: String = concat("remove globalDefaults[\"", args.key.as_str());
    diff_summary.push_str("\"]");
    Ok(PrepareRemovePreferenceResult { token, diff_summary, key: args.key })
}

/// What a removal is given.
#[derive(Debug)]
pub struct RemovePreferenceArgs {
    pub key: String,
    /// Confirmation token of the proposal.
    pub token: String,
}

/// What a removal returns.
#[derive(Debug)]
pub struct RemovePreferenceResult {
    pub key: String,
    pub removed: bool,
}

/// Asks to remove a preference. If it may be done, the arguments of the command come
/// back that does it; it is to be run behind a backup.
pub fn remove(
    session: &mut Session,
    args: &RemovePreferenceArgs,
    policy: &PreferencePolicy,
    live_write: Result<(), String>,
    now_unix_secs: u64,
) -> (r: Result<Vec<String>, String>)
    ensures
        match unwritable(*policy, args.key@) {
            Some(e) => r is Err && r->Err_0@ == e && final(session)@ == old(session)@,
            None => ({
                let ctx = remove_context(args.key@);
                &&& final(session)@ == session_after(
                    old(session)@,
                    live_write,
                    args.token@,
                    ctx,
                    now_unix_secs as nat,
                )
                &&& match refused(
                    old(session)@,
                    live_write,
                    args.token@,
                    ctx,
                    now_unix_secs as nat,
                    "token verification failed: "@,
                ) {
                    Some(e) => r is Err && r->Err_0@ == e,
                    None => r is Ok && texts(r->Ok_0@) == seq![
                        "write-preference"@,
                        "-r"@,
                        args.key@,
                    ],
                }
            }),
        },
{
    if let Some(e) = require_writable(policy, args.key.as_str()) {
        return Err(e);
    }
    let sha: String = compute_remove_sha(args.key.as_str());
    let ctx: VerifyContext = VerifyContext {
        tool: "remove_preference",
        current_diff_sha256: sha.as_str(),
        current_bundle_version: PREFS_BUNDLE_VERSION,
    };
    if let Some(e) = pass(
        session,
        live_write,
        args.token.as_str(),
        &ctx,
        now_unix_secs,
        "token verification failed: ",
    ) {
        return Err(e);
    }
    Ok(words("write-preference", "-r", args.key.as_str()))
}

/// What a removal comes to. `ran` is what became of running the command behind a backup.
pub fn finish_remove(args: RemovePreferenceArgs, ran: GuardedRun) -> (r: Result<
    RemovePreferenceResult,
    String,
>)
    ensures
        match backup_of(ran, "write-preference -r"@) {
            Err(e) => r is Err && r->Err_0@ == e,
            Ok(_) => r is Ok && r->Ok_0.key@ == args.key@ && r->Ok_0.removed,
        },
{
    match run_with_backup(ran, "write-preference -r") {
        Ok(_) => Ok(RemovePreferenceResult { key: args.key, removed: true }),
        Err(e) => Err(e),
    }
}

/// A proposed change goes through: the token of the proposal is accepted for the same
/// key and value until its time is over or it has been used.
pub proof fn law_prepared_change_applies(
    s: SessionView,
    key: Seq<char>,
    value: JsonView,
    prepared: nat,
    now: nat,
)
    requires
        prepared <= u64::MAX,
        prepared <= now < prepared + DEFAULT_TTL_SECS,
    ensures
        !s.consumed.contains(s.token(write_payload(key, value, prepared))) ==> s.verdict(
            s.token(write_payload(key, value, prepared)),
            write_context(key, value),
            now,
        ) is Ok,
        !s.consumed.contains(s.token(remove_payload(key, prepared))) ==> s.verdict(
            s.token(remove_payload(key, prepared)),
            remove_context(key),
            now,
        ) is Ok,
{
    law_issued_token(s, write_payload(key, value, prepared), write_context(key, value), now);
    law_issued_token(s, remove_payload(key, prepared), remove_context(key), now);
}

/// A token for a write is never accepted for a removal, nor the other way round.
pub proof fn law_tokens_are_for_one_direction(
    s: SessionView,
    key: Seq<char>,
    value: JsonView,
    other: Seq<char>,
    prepared: nat,
    now: nat,
)
    requires
        prepared <= u64::MAX,
    ensures
        s.verdict(s.token(write_payload(key, value, prepared)), remove_context(other), now) is Err,
        s.verdict(s.token(remove_payload(key, prepared)), write_context(other, value), now) is Err,
{
    reveal_strlit("write_preference");
    reveal_strlit("remove_preference");
    assert("write_preference"@.len() == 16);
    assert("remove_preference"@.len() == 17);
    law_issued_token(s, write_payload(key, value, prepared), remove_context(other), now);
    law_issued_token(s, remove_payload(key, prepared), write_context(other, value), now);
}

/// A token for one key and value is refused for another key or another value, with the error
/// that says so, unless two different texts with the same SHA-256 have been found.
pub proof fn law_tokens_are_for_one_change(
    s: SessionView,
    key: Seq<char>,
    value: JsonView,
    other: Seq<char>,
    other_value: JsonView,
    prepared: nat,
    now: nat,
)
    requires
        prepared <= u64::MAX,
        is_read_back(write_change(key, value)),
        is_read_back(write_change(other, other_value)),
        is_read_back(remove_change(key)),
        is_read_back(remove_change(other)),
    ensures
        other != key || other_value != value ==> s.verdict(
            s.token(write_payload(key, value, prepared)),
            write_context(other, other_value),
            now,
        ) == Err::<(), TokenError>(TokenError::DiffDrift) || collide(
            compact_text(write_change(other, other_value)),
            compact_text(write_change(key, value)),
        ),
        other != key ==> s.verdict(
            s.token(remove_payload(key, prepared)),
            remove_context(other),
            now,
        ) == Err::<(), TokenError>(TokenError::DiffDrift) || collide(
            compact_text(remove_change(other)),
            compact_text(remove_change(key)),
        ),
{
    reveal_strlit("key");
    reveal_strlit("value");
    assert("key"@.len() != "value"@.len());
    let (a, b) = (write_change(key, value), write_change(other, other_value));
    let (c, d) = (remove_change(key), remove_change(other));
    assert(a->Object_0["key"@] == JsonView::Text(key));
    assert(b->Object_0["key"@] == JsonView::Text(other));
    assert(a->Object_0["value"@] == value);
    assert(b->Object_0["value"@] == other_value);
    assert(c->Object_0["key"@] == JsonView::Text(key));
    assert(d->Object_0["key"@] == JsonView::Text(other));
    if other != key || other_value != value {
        lemma_json_digests(b, a);
    }
    if other != key {
        lemma_json_digests(d, c);
    }
    law_issued_token(s, write_payload(key, value, prepared), write_context(other, other_value), now);
    law_issued_token(s, remove_payload(key, prepared), remove_context(other), now);
}

/// A change names what is done, the key and, where one is written, the value.
pub proof fn law_changes_say_what_is_done(key: Seq<char>, value: JsonView)
    ensures
        ({
            let (w, r) = (write_change(key, value), remove_change(key));
            &&& member(w, "action"@) == Some(JsonView::Text("write"@))
            &&& member(w, "key"@) == Some(JsonView::Text(key))
            &&& member(w, "value"@) == Some(value)
            &&& member(r, "action"@) == Some(JsonView::Text("remove"@))
            &&& member(r, "key"@) == Some(JsonView::Text(key))
            &&& member(r, "value"@) is None
        }),
{
    reveal_strlit("action");
    reveal_strlit("key");
    reveal_strlit("value");
    assert("action"@.len() == 6 && "key"@.len() == 3 && "value"@.len() == 5);
}

/// A value is handed to the command as it is written: a text as it stands, a number and a truth
/// value in their notation, and everything else as JSON.
pub proof fn law_how_values_are_handed_over(v: JsonView)
    ensures
        v matches JsonView::Text(s) ==> cli_arg(v) == s,
        v matches JsonView::Number(n) ==> cli_arg(v) == n,
        v == JsonView::Bool(true) ==> cli_arg(v) == "true"@,
        v == JsonView::Bool(false) ==> cli_arg(v) == "false"@,
        v is Null || v is Array || v is Object ==> cli_arg(v) == compact_text(v),
{
}

} // verus!
