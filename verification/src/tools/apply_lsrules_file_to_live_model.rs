//! Folding a `.lsrules` file into the live rule set.
//!
//! A `.lsrules` document is translated to rules, which are appended to the rule
//! set in one go. The document's rules leave out dates, origin and user; the
//! translation fills these in. The lists `denied-remote-domains`,
//! `denied-remote-hosts` and `denied-remote-addresses` stand for one deny rule
//! per entry, for any process.

use vstd::prelude::*;
use crate::hash::{collide, json_sha256, json_sha256_of, lemma_json_digests};
use crate::json::{
    bool_of, compact_text, items_of, json_parsed_bytes, jsons, lemma_array_view, member,
    members_view, nests_within, parse_bytes, reads_as, text_of, to_text, Json, JsonView,
};
use crate::managed_dir::{lsrules_file, lsrules_path, path_debug_form, quoted_path, FileRead};
use crate::model::read::{action_named, parse_action};
use crate::model::serial::{
    law_rule_json_has_every_field, model_json, model_to_json, rule_json,
};
use crate::model::{
    opt_strings, rules_view, Action, Direction, Model, ModelView, Origin, Priority, Rule, RuleView,
    StringOrVec, StringsView,
};
use crate::safety::session::{law_issued_token, Session, SessionView};
use crate::safety::token::{
    context, payload, payload_for, PayloadView, TokenError, VerifyContext, DEFAULT_TTL_SECS,
};
use crate::text::{concat, debug_form, decimal, opt_text, quoted, str_eq, texts, u64_to_string};
use crate::time_fmt::{format_iso8601_utc, iso8601};

verus! {

/// The three lists of denied remotes.
#[derive(Debug, Clone, Copy, PartialEq, Eq, Structural)]
pub enum DeniedRemoteKind {
    Domains,
    Hosts,
    Addresses,
}

/// A rule that allows everything to the user `uid`, made at `now`: what the
/// translation starts from.
pub open spec fn blank(uid: u32, now: Seq<char>) -> RuleView {
    RuleView {
        action: Action::Allow,
        creation_date: now,
        modification_date: now,
        origin: "frontend"@,
        uid: Some(uid),
        process: None,
        requires_trusted_signature_for_any_process: None,
        remote: None,
        remote_domains: None,
        remote_hosts: None,
        remote_addresses: None,
        direction: None,
        priority: None,
        protocol: None,
        ports: None,
        via: None,
        notes: None,
        group: None,
        factory_id: None,
        factory_help_text: None,
        protected: None,
        last_used: None,
        use_count: None,
        approved: None,
        hidden: None,
        owner: None,
        extra: Map::empty(),
    }
}

/// A rule that allows everything to the user `uid`, made at `now`.
pub fn blank_rule(uid: u32, now: &str) -> (r: Rule)
    ensures
        r@ == blank(uid, now@),
{
    let extra: Vec<(String, Json)> = Vec::new();
    proof {
        assert(members_view(extra@) =~= Map::empty());
    }
    Rule {
        action: Action::Allow,
        creation_date: now.to_owned(),
        modification_date: now.to_owned(),
        origin: Origin::frontend(),
        uid: Some(uid),
        process: None,
        requires_trusted_signature_for_any_process: None,
        remote: None,
        remote_domains: None,
        remote_hosts: None,
        remote_addresses: None,
        direction: None,
        priority: None,
        protocol: None,
        ports: None,
        via: None,
        notes: None,
        group: None,
        factory_id: None,
        factory_help_text: None,
        protected: None,
        last_used: None,
        use_count: None,
        approved: None,
        hidden: None,
        owner: None,
        extra,
    }
}

/// The rule that denies one remote to every process.
pub open spec fn deny(entry: Seq<char>, kind: DeniedRemoteKind, uid: u32, now: Seq<char>) -> RuleView {
    let one = Some(StringsView::One(entry));
    RuleView {
        action: Action::Deny,
        process: Some("any"@),
        remote_domains: if kind == DeniedRemoteKind::Domains {
            one
        } else {
            None
        },
        remote_hosts: if kind == DeniedRemoteKind::Hosts {
            one
        } else {
            None
        },
        remote_addresses: if kind == DeniedRemoteKind::Addresses {
            one
        } else {
            None
        },
        ..blank(uid, now)
    }
}

/// The rule that denies one remote to every process.
pub fn make_deny_rule(entry: &str, kind: DeniedRemoteKind, uid: u32, now: &str) -> (r: Rule)
    ensures
        r@ == deny(entry@, kind, uid, now@),
{
    let mut r: Rule = blank_rule(uid, now);
    r.action = Action::Deny;
    r.process = Some("any".to_owned());
    let single: StringOrVec = StringOrVec::One(entry.to_owned());
    match kind {
        DeniedRemoteKind::Domains => {
            r.remote_domains = Some(single);
        },
        DeniedRemoteKind::Hosts => {
            r.remote_hosts = Some(single);
        },
        DeniedRemoteKind::Addresses => {
            r.remote_addresses = Some(single);
        },
    }
    r
}

/// Where the rule at position `idx` stands in the document.
pub open spec fn place(idx: nat) -> Seq<char> {
    "rules["@ + decimal(idx) + "]"@
}

fn place_of(idx: usize) -> (r: String)
    ensures
        r@ == place(idx as nat),
{
    let mut out: String = concat("rules[", u64_to_string(idx as u64).as_str());
    out.push_str("]");
    out
}

/// Whether every value is a text.
pub open spec fn all_texts(items: Seq<JsonView>) -> bool {
    forall|i: int| 0 <= i < items.len() ==> (#[trigger] items[i]) is Text
}

/// The texts that some values are.
pub open spec fn as_texts(items: Seq<JsonView>) -> Seq<Seq<char>> {
    Seq::new(items.len(), |i: int| items[i]->Text_0)
}

/// One text, or a list of texts. A list of one text is that text.
pub open spec fn string_or_vec(v: JsonView, field: Seq<char>, idx: nat) -> Result<
    StringsView,
    Seq<char>,
> {
    match v {
        JsonView::Text(s) => Ok(StringsView::One(s)),
        JsonView::Array(items) => if !all_texts(items) {
            Err(place(idx) + "."@ + field + "[*] must be a string"@)
        } else if items.len() == 1 {
            Ok(StringsView::One(items[0]->Text_0))
        } else {
            Ok(StringsView::Many(as_texts(items)))
        },
        _ => Err(place(idx) + "."@ + field + " must be a string or array of strings"@),
    }
}

/// One text, or a list of texts. A list of one text is that text.
pub fn parse_string_or_vec(v: &Json, field: &str, idx: usize) -> (r: Result<StringOrVec, String>)
    ensures
        match r {
            Ok(s) => string_or_vec(v@, field@, idx as nat) == Ok::<StringsView, Seq<char>>(s@),
            Err(e) => string_or_vec(v@, field@, idx as nat) == Err::<StringsView, Seq<char>>(e@),
        },
{
    broadcast use lemma_array_view;

    if let Some(s) = v.as_str() {
        return Ok(StringOrVec::One(s.clone()));
    }
    let mut at: String = place_of(idx);
    at.push_str(".");
    at.push_str(field);
    match v.as_array() {
        Some(arr) => {
            let mut out: Vec<String> = Vec::new();
            for i in 0..arr.len()
                invariant
                    v@ == JsonView::Array(jsons(arr@)),
                    at@ == place(idx as nat) + "."@ + field@,
                    out.len() == i,
                    forall|j: int|
                        0 <= j < i ==> (#[trigger] jsons(arr@)[j]) == JsonView::Text(out@[j]@),
            {
                match arr[i].as_str() {
                    Some(s) => {
                        proof {
                            assert(jsons(arr@)[i as int] == JsonView::Text(s@));
                        }
                        out.push(s.clone());
                    },
                    None => {
                        proof {
                            assert(!(jsons(arr@)[i as int] is Text));
                        }
                        at.push_str("[*] must be a string");
                        return Err(at);
                    },
                }
            }
            proof {
                assert(as_texts(jsons(arr@)) =~= texts(out@));
            }
            if out.len() == 1 {
                proof {
                    assert(jsons(arr@)[0] == JsonView::Text(out@[0]@));
                }
                Ok(StringOrVec::One(out[0].clone()))
            } else {
                Ok(StringOrVec::Many(out))
            }
        },
        None => {
            at.push_str(" must be a string or array of strings");
            Err(at)
        },
    }
}

/// The field of a rule that holds one text or a list of texts, where it is there.
pub open spec fn strings_field(raw: JsonView, field: Seq<char>, idx: nat) -> Result<
    Option<StringsView>,
    Seq<char>,
> {
    match member(raw, field) {
        None => Ok(None),
        Some(v) => match string_or_vec(v, field, idx) {
            Ok(s) => Ok(Some(s)),
            Err(e) => Err(e),
        },
    }
}

fn read_strings_field(raw: &Json, field: &str, idx: usize) -> (r: Result<
    Option<StringOrVec>,
    String,
>)
    ensures
        match r {
            Ok(s) => strings_field(raw@, field@, idx as nat) == Ok::<
                Option<StringsView>,
                Seq<char>,
            >(opt_strings(s)),
            Err(e) => strings_field(raw@, field@, idx as nat) == Err::<
                Option<StringsView>,
                Seq<char>,
            >(e@),
        },
{
    match raw.get(field) {
        None => Ok(None),
        Some(v) => match parse_string_or_vec(v, field, idx) {
            Ok(s) => Ok(Some(s)),
            Err(e) => Err(e),
        },
    }
}

/// The direction of a rule. The one that stands for itself, outgoing, is left
/// out.
pub open spec fn direction_field(raw: JsonView, idx: nat) -> Result<Option<Direction>, Seq<char>> {
    match text_of(member(raw, "direction"@)) {
        None => Ok(None),
        Some(d) => if d == "incoming"@ {
            Ok(Some(Direction::Incoming))
        } else if d == "outgoing"@ {
            Ok(None)
        } else if d == "both"@ {
            Ok(Some(Direction::Both))
        } else {
            Err(place(idx) + ".direction "@ + debug_form(d) + " unrecognized"@)
        },
    }
}

fn read_direction(raw: &Json, idx: usize) -> (r: Result<Option<Direction>, String>)
    ensures
        match r {
            Ok(d) => direction_field(raw@, idx as nat) == Ok::<Option<Direction>, Seq<char>>(d),
            Err(e) => direction_field(raw@, idx as nat) == Err::<Option<Direction>, Seq<char>>(e@),
        },
{
    match raw.text_member("direction") {
        None => Ok(None),
        Some(d) => if str_eq(d.as_str(), "incoming") {
            Ok(Some(Direction::Incoming))
        } else if str_eq(d.as_str(), "outgoing") {
            Ok(None)
        } else if str_eq(d.as_str(), "both") {
            Ok(Some(Direction::Both))
        } else {
            let mut e: String = place_of(idx);
            e.push_str(".direction ");
            e.push_str(quoted(d.as_str()).as_str());
            e.push_str(" unrecognized");
            Err(e)
        },
    }
}

/// The tier of a rule. The one that stands for itself, regular, is left out.
pub open spec fn priority_field(raw: JsonView, idx: nat) -> Result<Option<Priority>, Seq<char>> {
    match text_of(member(raw, "priority"@)) {
        None => Ok(None),
        Some(p) => if p == "high"@ {
            Ok(Some(Priority::High))
        } else if p == "regular"@ {
            Ok(None)
        } else {
            Err(
                place(idx) + ".priority "@ + debug_form(p)
                    + " unrecognized (expected high|regular)"@,
            )
        },
    }
}

fn read_priority(raw: &Json, idx: usize) -> (r: Result<Option<Priority>, String>)
    ensures
        match r {
            Ok(d) => priority_field(raw@, idx as nat) == Ok::<Option<Priority>, Seq<char>>(d),
            Err(e) => priority_field(raw@, idx as nat) == Err::<Option<Priority>, Seq<char>>(e@),
        },
{
    match raw.text_member("priority") {
        None => Ok(None),
        Some(d) => if str_eq(d.as_str(), "high") {
            Ok(Some(Priority::High))
        } else if str_eq(d.as_str(), "regular") {
            Ok(None)
        } else {
            let mut e: String = place_of(idx);
            e.push_str(".priority ");
            e.push_str(quoted(d.as_str()).as_str());
            e.push_str(" unrecognized (expected high|regular)");
            Err(e)
        },
    }
}

fn read_text(raw: &Json, field: &str) -> (r: Option<String>)
    ensures
        opt_text(r) == text_of(member(raw@, field@)),
{
    match raw.text_member(field) {
        Some(s) => Some(s.clone()),
        None => None,
    }
}

/// The rule that an entry of the document's `rules` stands for, or what is wrong
/// with the entry.
pub open spec fn rule_of(raw: JsonView, idx: nat, uid: u32, now: Seq<char>) -> Result<
    RuleView,
    Seq<char>,
> {
    let action = text_of(member(raw, "action"@));
    let process = text_of(member(raw, "process"@));
    let domains = strings_field(raw, "remote-domains"@, idx);
    let hosts = strings_field(raw, "remote-hosts"@, idx);
    let addresses = strings_field(raw, "remote-addresses"@, idx);
    let direction = direction_field(raw, idx);
    let priority = priority_field(raw, idx);
    if !(raw is Object) {
        Err(place(idx) + " must be an object"@)
    } else if action is None {
        Err(place(idx) + ".action is required"@)
    } else if action_named(action->0) is None {
        Err(place(idx) + ".action "@ + debug_form(action->0) + " is not one of allow|deny|ask"@)
    } else if domains is Err {
        Err(domains->Err_0)
    } else if hosts is Err {
        Err(hosts->Err_0)
    } else if addresses is Err {
        Err(addresses->Err_0)
    } else if direction is Err {
        Err(direction->Err_0)
    } else if priority is Err {
        Err(priority->Err_0)
    } else {
        Ok(
            RuleView {
                action: action_named(action->0)->0,
                process,
                requires_trusted_signature_for_any_process: if process is None && bool_of(
                    member(raw, "requiresTrustedSignatureForAnyProcess"@),
                ) == Some(true) {
                    Some(true)
                } else {
                    None
                },
                remote: text_of(member(raw, "remote"@)),
                remote_domains: domains->Ok_0,
                remote_hosts: hosts->Ok_0,
                remote_addresses: addresses->Ok_0,
                direction: direction->Ok_0,
                priority: priority->Ok_0,
                protocol: text_of(member(raw, "protocol"@)),
                ports: text_of(member(raw, "ports"@)),
                via: text_of(member(raw, "via"@)),
                notes: text_of(member(raw, "notes"@)),
                ..blank(uid, now)
            },
        )
    }
}

/// The rule that an entry of the document's `rules` stands for, or what is wrong
/// with the entry.
pub fn translate_one_rule(raw: &Json, idx: usize, uid: u32, now: &str) -> (r: Result<Rule, String>)
    ensures
        match r {
            Ok(rule) => rule_of(raw@, idx as nat, uid, now@) == Ok::<RuleView, Seq<char>>(rule@),
            Err(e) => rule_of(raw@, idx as nat, uid, now@) == Err::<RuleView, Seq<char>>(e@),
        },
        r matches Ok(rule) ==> {
            &&& opt_text(rule.process) == text_of(member(raw@, "process"@))
            &&& opt_text(rule.remote) == text_of(member(raw@, "remote"@))
            &&& opt_text(rule.protocol) == text_of(member(raw@, "protocol"@))
            &&& opt_text(rule.ports) == text_of(member(raw@, "ports"@))
            &&& opt_text(rule.via) == text_of(member(raw@, "via"@))
            &&& opt_text(rule.notes) == text_of(member(raw@, "notes"@))
        },
{
    if !raw.is_object() {
        return Err(concat(place_of(idx).as_str(), " must be an object"));
    }
    let mut r: Rule = blank_rule(uid, now);
    let action: &String = match raw.text_member("action") {
        Some(s) => s,
        None => {
            return Err(concat(place_of(idx).as_str(), ".action is required"));
        },
    };
    match parse_action(action.as_str()) {
        Some(a) => {
            r.action = a;
        },
        None => {
            let mut e: String = place_of(idx);
            e.push_str(".action ");
            e.push_str(quoted(action.as_str()).as_str());
            e.push_str(" is not one of allow|deny|ask");
            return Err(e);
        },
    }
    r.process = read_text(raw, "process");
    if r.process.is_none() {
        let trusted: Option<bool> = match raw.get("requiresTrustedSignatureForAnyProcess") {
            Some(v) => v.as_bool(),
            None => None,
        };
        if let Some(true) = trusted {
            r.requires_trusted_signature_for_any_process = Some(true);
        }
    }
    r.remote = read_text(raw, "remote");
    r.remote_domains = match read_strings_field(raw, "remote-domains", idx) {
        Ok(s) => s,
        Err(e) => {
            return Err(e);
        },
    };
    r.remote_hosts = match read_strings_field(raw, "remote-hosts", idx) {
        Ok(s) => s,
        Err(e) => {
            return Err(e);
        },
    };
    r.remote_addresses = match read_strings_field(raw, "remote-addresses", idx) {
        Ok(s) => s,
        Err(e) => {
            return Err(e);
        },
    };
    r.direction = match read_direction(raw, idx) {
        Ok(d) => d,
        Err(e) => {
            return Err(e);
        },
    };
    r.priority = match read_priority(raw, idx) {
        Ok(p) => p,
        Err(e) => {
            return Err(e);
        },
    };
    r.protocol = read_text(raw, "protocol");
    r.ports = read_text(raw, "ports");
    r.via = read_text(raw, "via");
    r.notes = read_text(raw, "notes");
    Ok(r)
}

/// The rules of the first `n` entries, or what is wrong with the first bad one.
pub open spec fn rules_of(items: Seq<JsonView>, n: nat, uid: u32, now: Seq<char>) -> Result<
    Seq<RuleView>,
    Seq<char>,
>
    decreases n,
{
    if n == 0 {
        Ok(Seq::empty())
    } else {
        match rules_of(items, (n - 1) as nat, uid, now) {
            Err(e) => Err(e),
            Ok(before) => match rule_of(items[n - 1], (n - 1) as nat, uid, now) {
                Err(e) => Err(e),
                Ok(r) => Ok(before.push(r)),
            },
        }
    }
}

/// The deny rules of the first `n` entries of a list of remotes, or what is wrong
/// with the first entry that is no text.
pub open spec fn denied_of(
    field: Seq<char>,
    items: Seq<JsonView>,
    n: nat,
    kind: DeniedRemoteKind,
    uid: u32,
    now: Seq<char>,
) -> Result<Seq<RuleView>, Seq<char>>
    decreases n,
{
    if n == 0 {
        Ok(Seq::empty())
    } else {
        match denied_of(field, items, (n - 1) as nat, kind, uid, now) {
            Err(e) => Err(e),
            Ok(before) => match items[n - 1] {
                JsonView::Text(s) => Ok(before.push(deny(s, kind, uid, now))),
                other => Err(field + "[*] must be a string, got "@ + compact_text(other)),
            },
        }
    }
}

/// The items of a member that is an array; no items where it is none.
pub open spec fn listed(doc: JsonView, field: Seq<char>) -> Seq<JsonView> {
    match items_of(member(doc, field)) {
        Some(items) => items,
        None => Seq::empty(),
    }
}

/// The deny rules of one of the document's lists of remotes.
pub open spec fn shorthand(
    doc: JsonView,
    field: Seq<char>,
    kind: DeniedRemoteKind,
    uid: u32,
    now: Seq<char>,
) -> Result<Seq<RuleView>, Seq<char>> {
    let items = listed(doc, field);
    denied_of(field, items, items.len(), kind, uid, now)
}

/// The rules that a document stands for, those of `rules` first and then those of
/// the lists of domains, hosts and addresses; or the first thing wrong with it.
pub open spec fn translation(doc: JsonView, uid: u32, now_unix_secs: nat) -> Result<
    Seq<RuleView>,
    Seq<char>,
> {
    let now = iso8601(now_unix_secs);
    let items = listed(doc, "rules"@);
    let rules = rules_of(items, items.len(), uid, now);
    let domains = shorthand(doc, "denied-remote-domains"@, DeniedRemoteKind::Domains, uid, now);
    let hosts = shorthand(doc, "denied-remote-hosts"@, DeniedRemoteKind::Hosts, uid, now);
    let addresses = shorthand(
        doc,
        "denied-remote-addresses"@,
        DeniedRemoteKind::Addresses,
        uid,
        now,
    );
    if rules is Err {
        rules
    } else if domains is Err {
        domains
    } else if hosts is Err {
        hosts
    } else if addresses is Err {
        addresses
    } else {
        Ok(rules->Ok_0 + domains->Ok_0 + hosts->Ok_0 + addresses->Ok_0)
    }
}

/// What can go wrong.
#[derive(Debug)]
pub enum ApplyLsrulesError {
    /// There is no such file.
    FileNotFound(String),
    /// The file cannot be read.
    ReadFailed { path: String, source: String },
    /// The file does not hold JSON.
    InvalidJson { path: String, source: String },
    /// The document cannot be translated.
    Translation(String),
    /// The token is refused.
    Token(TokenError),
}

/// What an [`ApplyLsrulesError`] means.
#[verifier::ext_equal]
pub enum ApplyLsrulesErrorView {
    FileNotFound(Seq<char>),
    ReadFailed { path: Seq<char>, source: Seq<char> },
    InvalidJson { path: Seq<char>, source: Seq<char> },
    Translation(Seq<char>),
    Token(TokenError),
}

impl View for ApplyLsrulesError {
    type V = ApplyLsrulesErrorView;

    open spec fn view(&self) -> ApplyLsrulesErrorView {
        match self {
            ApplyLsrulesError::FileNotFound(p) => ApplyLsrulesErrorView::FileNotFound(p@),
            ApplyLsrulesError::ReadFailed { path, source } => ApplyLsrulesErrorView::ReadFailed {
                path: path@,
                source: source@,
            },
            ApplyLsrulesError::InvalidJson { path, source } => ApplyLsrulesErrorView::InvalidJson {
                path: path@,
                source: source@,
            },
            ApplyLsrulesError::Translation(e) => ApplyLsrulesErrorView::Translation(e@),
            ApplyLsrulesError::Token(e) => ApplyLsrulesErrorView::Token(*e),
        }
    }
}

impl ApplyLsrulesErrorView {
    /// What the error says.
    pub open spec fn says(self) -> Seq<char> {
        match self {
            ApplyLsrulesErrorView::FileNotFound(p) => "FILE_NOT_FOUND: "@ + path_debug_form(p),
            ApplyLsrulesErrorView::ReadFailed { path, source } => "READ_FAILED: cannot read "@
                + path_debug_form(path) + ": "@ + source,
            ApplyLsrulesErrorView::InvalidJson { path, source } => "INVALID_LSRULES_JSON: "@
                + path_debug_form(path) + ": "@ + source,
            ApplyLsrulesErrorView::Translation(e) => "TRANSLATION_FAILED: "@ + e,
            ApplyLsrulesErrorView::Token(e) => "token verify failed: "@ + e.says(),
        }
    }
}

impl ApplyLsrulesError {
    /// What the error says.
    pub fn message(&self) -> (r: String)
        ensures
            r@ == self@.says(),
    {
        match self {
            ApplyLsrulesError::FileNotFound(p) => concat(
                "FILE_NOT_FOUND: ",
                quoted_path(p.as_str()).as_str(),
            ),
            ApplyLsrulesError::ReadFailed { path, source } => {
                let mut out: String = concat(
                    "READ_FAILED: cannot read ",
                    quoted_path(path.as_str()).as_str(),
                );
                out.push_str(": ");
                out.push_str(source.as_str());
                out
            },
            ApplyLsrulesError::InvalidJson { path, source } => {
                let mut out: String = concat(
                    "INVALID_LSRULES_JSON: ",
                    quoted_path(path.as_str()).as_str(),
                );
                out.push_str(": ");
                out.push_str(source.as_str());
                out
            },
            ApplyLsrulesError::Translation(e) => concat("TRANSLATION_FAILED: ", e.as_str()),
            ApplyLsrulesError::Token(e) => concat("token verify failed: ", e.message().as_str()),
        }
    }
}

fn push_shorthand(
    out: &mut Vec<Rule>,
    doc: &Json,
    field: &str,
    kind: DeniedRemoteKind,
    uid: u32,
    now: &str,
) -> (r: Result<(), String>)
    ensures
        match r {
            Ok(()) => shorthand(doc@, field@, kind, uid, now@) is Ok && rules_view(final(out)@)
                == rules_view(old(out)@) + shorthand(doc@, field@, kind, uid, now@)->Ok_0,
            Err(e) => shorthand(doc@, field@, kind, uid, now@) == Err::<Seq<RuleView>, Seq<char>>(
                e@,
            ),
        },
{
    let ghost before = rules_view(out@);
    match doc.array_member(field) {
        Some(arr) => {
            let ghost items = jsons(arr@);
            proof {
                assert(rules_view(out@) =~= before + Seq::empty());
            }
            for i in 0..arr.len()
                invariant
                    items == jsons(arr@),
                    items == listed(doc@, field@),
                    denied_of(field@, items, i as nat, kind, uid, now@) is Ok,
                    rules_view(out@) == before + denied_of(
                        field@,
                        items,
                        i as nat,
                        kind,
                        uid,
                        now@,
                    )->Ok_0,
                    before == rules_view(old(out)@),
            {
                proof {
                    assert(items[i as int] == arr@[i as int]@);
                }
                match arr[i].as_str() {
                    Some(s) => {
                        let ghost prior = out@;
                        let rule: Rule = make_deny_rule(s.as_str(), kind, uid, now);
                        out.push(rule);
                        proof {
                            assert(rules_view(out@) =~= rules_view(prior).push(rule@));
                            assert(rules_view(out@) =~= before + denied_of(
                                field@,
                                items,
                                (i + 1) as nat,
                                kind,
                                uid,
                                now@,
                            )->Ok_0);
                        }
                    },
                    None => {
                        let mut e: String = concat(field, "[*] must be a string, got ");
                        e.push_str(to_text(&arr[i]).as_str());
                        proof {
                            lemma_denied_error(
                                field@,
                                items,
                                (i + 1) as nat,
                                items.len(),
                                kind,
                                uid,
                                now@,
                            );
                        }
                        return Err(e);
                    },
                }
            }
            Ok(())
        },
        None => {
            proof {
                assert(rules_view(out@) =~= before + Seq::empty());
            }
            Ok(())
        },
    }
}

/// The first bad entry decides.
proof fn lemma_denied_error(
    field: Seq<char>,
    items: Seq<JsonView>,
    n: nat,
    m: nat,
    kind: DeniedRemoteKind,
    uid: u32,
    now: Seq<char>,
)
    requires
        n <= m,
        denied_of(field, items, n, kind, uid, now) is Err,
    ensures
        denied_of(field, items, m, kind, uid, now) == denied_of(field, items, n, kind, uid, now),
    decreases m,
{
    if n < m {
        lemma_denied_error(field, items, n, (m - 1) as nat, kind, uid, now);
    }
}

/// The first bad entry decides.
proof fn lemma_rules_error(items: Seq<JsonView>, n: nat, m: nat, uid: u32, now: Seq<char>)
    requires
        n <= m,
        rules_of(items, n, uid, now) is Err,
    ensures
        rules_of(items, m, uid, now) == rules_of(items, n, uid, now),
    decreases m,
{
    if n < m {
        lemma_rules_error(items, n, (m - 1) as nat, uid, now);
    }
}

/// Translates a document to rules for the user `uid`, made at `now_unix_secs`.
pub fn translate(doc: &Json, uid: u32, now_unix_secs: u64) -> (r: Result<
    Vec<Rule>,
    ApplyLsrulesError,
>)
    ensures
        match r {
            Ok(rules) => translation(doc@, uid, now_unix_secs as nat) == Ok::<
                Seq<RuleView>,
                Seq<char>,
            >(rules_view(rules@)),
            Err(e) => translation(doc@, uid, now_unix_secs as nat) is Err && e@
                == ApplyLsrulesErrorView::Translation(
                translation(doc@, uid, now_unix_secs as nat)->Err_0,
            ),
        },
{
    let mut out: Vec<Rule> = Vec::new();
    let now: String = format_iso8601_utc(now_unix_secs);
    let ghost items = listed(doc@, "rules"@);
    proof {
        assert(rules_view(out@) =~= Seq::empty());
    }
    if let Some(arr) = doc.array_member("rules") {
        for i in 0..arr.len()
            invariant
                items == jsons(arr@),
                items == listed(doc@, "rules"@),
                now@ == iso8601(now_unix_secs as nat),
                rules_of(items, i as nat, uid, now@) == Ok::<Seq<RuleView>, Seq<char>>(
                    rules_view(out@),
                ),
        {
            proof {
                assert(items[i as int] == arr@[i as int]@);
            }
            match translate_one_rule(&arr[i], i, uid, now.as_str()) {
                Ok(rule) => {
                    let ghost prior = out@;
                    out.push(rule);
                    proof {
                        assert(rules_view(out@) =~= rules_view(prior).push(rule@));
                    }
                },
                Err(e) => {
                    proof {
                        lemma_rules_error(items, (i + 1) as nat, items.len(), uid, now@);
                    }
                    return Err(ApplyLsrulesError::Translation(e));
                },
            }
        }
    }
    let ghost rules = rules_view(out@);
    match push_shorthand(
        &mut out,
        doc,
        "denied-remote-domains",
        DeniedRemoteKind::Domains,
        uid,
        now.as_str(),
    ) {
        Ok(()) => {},
        Err(e) => {
            return Err(ApplyLsrulesError::Translation(e));
        },
    }
    match push_shorthand(
        &mut out,
        doc,
        "denied-remote-hosts",
        DeniedRemoteKind::Hosts,
        uid,
        now.as_str(),
    ) {
        Ok(()) => {},
        Err(e) => {
            return Err(ApplyLsrulesError::Translation(e));
        },
    }
    match push_shorthand(
        &mut out,
        doc,
        "denied-remote-addresses",
        DeniedRemoteKind::Addresses,
        uid,
        now.as_str(),
    ) {
        Ok(()) => {},
        Err(e) => {
            return Err(ApplyLsrulesError::Translation(e));
        },
    }
    Ok(out)
}

/// The rule set with more rules behind its own; everything else as it was.
pub open spec fn folded(current: ModelView, new_rules: Seq<RuleView>) -> ModelView {
    ModelView { rules: current.rules + new_rules, ..current }
}

/// Appends rules to the rule set.
pub fn fold_into_model(current: Model, new_rules: Vec<Rule>) -> (r: Model)
    ensures
        r@ == folded(current@, rules_view(new_rules@)),
{
    let mut current: Model = current;
    let mut new_rules: Vec<Rule> = new_rules;
    let ghost (a, b) = (current.rules@, new_rules@);
    current.rules.append(&mut new_rules);
    proof {
        assert(rules_view(a + b) =~= rules_view(a) + rules_view(b));
    }
    current
}

/// The digest of a rule set's JSON form.
pub open spec fn model_sha256(m: ModelView) -> Seq<char> {
    json_sha256(model_json(m))
}

/// Whether the text that a rule set's digest is made of is read back as its JSON form.
pub open spec fn is_read_back(m: ModelView) -> bool {
    reads_as(compact_text(model_json(m)), model_json(m))
}

/// The digest of a rule set's JSON form.
pub fn canonical_model_sha256(m: &Model) -> (r: String)
    ensures
        r@ == model_sha256(m@),
        nests_within(model_json(m@), 127) ==> is_read_back(m@),
{
    json_sha256_of(&model_to_json(m))
}

/// The document in a file, or why there is none.
pub open spec fn document(path: Seq<char>, file: FileRead) -> Result<
    JsonView,
    ApplyLsrulesErrorView,
> {
    match file {
        FileRead::Missing => Err(ApplyLsrulesErrorView::FileNotFound(path)),
        FileRead::Failed(e) => Err(ApplyLsrulesErrorView::ReadFailed { path, source: e@ }),
        FileRead::Bytes(b) => match json_parsed_bytes(b@) {
            Ok(doc) => Ok(doc),
            Err(e) => Err(ApplyLsrulesErrorView::InvalidJson { path, source: e }),
        },
    }
}

/// Reads the document out of what became of reading the file at `path`.
pub fn read_lsrules(path: &str, file: &FileRead) -> (r: Result<Json, ApplyLsrulesError>)
    ensures
        match r {
            Ok(doc) => document(path@, *file) == Ok::<JsonView, ApplyLsrulesErrorView>(doc@),
            Err(e) => document(path@, *file) == Err::<JsonView, ApplyLsrulesErrorView>(e@),
        },
{
    match file {
        FileRead::Missing => Err(ApplyLsrulesError::FileNotFound(path.to_owned())),
        FileRead::Failed(e) => Err(
            ApplyLsrulesError::ReadFailed { path: path.to_owned(), source: e.clone() },
        ),
        FileRead::Bytes(b) => match parse_bytes(b.as_slice()) {
            Ok(doc) => Ok(doc),
            Err(e) => Err(ApplyLsrulesError::InvalidJson { path: path.to_owned(), source: e }),
        },
    }
}

/// The file below the managed directory that holds the rule file `file_name`.
pub fn resolve_lsrules_path(managed_root: &str, file_name: &str) -> (r: String)
    ensures
        r@ == lsrules_path(managed_root@, file_name@),
{
    lsrules_file(managed_root, file_name)
}

/// The rules that the file adds, or why it adds none.
pub open spec fn rules_to_add(
    managed_root: Seq<char>,
    file_name: Seq<char>,
    file: FileRead,
    uid: u32,
    now: nat,
) -> Result<Seq<RuleView>, ApplyLsrulesErrorView> {
    match document(lsrules_path(managed_root, file_name), file) {
        Err(e) => Err(e),
        Ok(doc) => match translation(doc, uid, now) {
            Err(e) => Err(ApplyLsrulesErrorView::Translation(e)),
            Ok(rules) => Ok(rules),
        },
    }
}

fn read_rules_to_add(
    managed_root: &str,
    file_name: &str,
    file: &FileRead,
    uid: u32,
    now: u64,
) -> (r: Result<Vec<Rule>, ApplyLsrulesError>)
    ensures
        match r {
            Ok(rules) => rules_to_add(managed_root@, file_name@, *file, uid, now as nat) == Ok::<
                Seq<RuleView>,
                ApplyLsrulesErrorView,
            >(rules_view(rules@)),
            Err(e) => rules_to_add(managed_root@, file_name@, *file, uid, now as nat) == Err::<
                Seq<RuleView>,
                ApplyLsrulesErrorView,
            >(e@),
        },
{
    let path: String = resolve_lsrules_path(managed_root, file_name);
    match read_lsrules(path.as_str(), file) {
        Err(e) => Err(e),
        Ok(doc) => translate(&doc, uid, now),
    }
}

/// The name that the tool's tokens are issued for.
pub open spec fn tool() -> Seq<char> {
    "apply_lsrules_file_to_live_model"@
}

/// What a token for this change is about.
pub open spec fn target(file_name: Seq<char>, count: nat) -> JsonView {
    JsonView::Object(
        Map::empty().insert(
            "op"@,
            JsonView::Text("apply_lsrules_file_to_live_model"@),
        ).insert("file_name"@, JsonView::Text(file_name)).insert(
            "rules_to_add"@,
            JsonView::Number(decimal(count)),
        ),
    )
}

/// What the token for folding `rules` into `current` is bound to.
pub open spec fn change_payload(
    file_name: Seq<char>,
    current: ModelView,
    rules: Seq<RuleView>,
    now: nat,
) -> PayloadView {
    payload_for(
        tool(),
        target(file_name, rules.len()),
        model_sha256(folded(current, rules)),
        decimal(current.bundle_version as nat),
        now,
        DEFAULT_TTL_SECS as nat,
    )
}

/// Tool input, apply side.
#[derive(Debug)]
pub struct ApplyLsrulesFileArgs {
    /// Name of the file below `rules/`, without its extension.
    pub file_name: String,
    /// Confirmation token of the prepare side.
    pub token: String,
}

/// Tool input, prepare side.
#[derive(Debug)]
pub struct PrepareApplyLsrulesFileArgs {
    pub file_name: String,
}

/// What the prepare side returns.
#[derive(Debug)]
pub struct PrepareApplyLsrulesResult {
    pub token: String,
    /// How many rules would be added.
    pub rules_to_add: usize,
    /// Digest of the rule set as it would be.
    pub diff_sha256: String,
    pub expires_in_seconds: u64,
}

/// Proposes to fold the file into `current`: nothing changes, and the token that
/// comes back is bound to the rule set as it would be. `file` is what became of
/// reading the file.
pub fn prepare_pure(
    session: &Session,
    file_name: &str,
    managed_root: &str,
    file: &FileRead,
    current: &Model,
    uid: u32,
    now_unix_secs: u64,
) -> (r: Result<PrepareApplyLsrulesResult, ApplyLsrulesError>)
    ensures
        match rules_to_add(managed_root@, file_name@, *file, uid, now_unix_secs as nat) {
            Err(e) => r is Err && r->Err_0@ == e,
            Ok(rules) => r is Ok && ({
                let p = r->Ok_0;
                &&& p.token@ == session@.token(
                    change_payload(file_name@, current@, rules, now_unix_secs as nat),
                )
                &&& p.rules_to_add == rules.len()
                &&& p.diff_sha256@ == model_sha256(folded(current@, rules))
                &&& p.expires_in_seconds == DEFAULT_TTL_SECS
            }),
        },
{
    let new_rules: Vec<Rule> = match read_rules_to_add(
        managed_root,
        file_name,
        file,
        uid,
        now_unix_secs,
    ) {
        Ok(rules) => rules,
        Err(e) => {
            return Err(e);
        },
    };
    let count: usize = new_rules.len();
    let folded_model: Model = fold_into_model(current.copy(), new_rules);
    let diff_sha256: String = canonical_model_sha256(&folded_model);
    let mut about: Json = Json::object();
    about.insert("op".to_owned(), Json::text("apply_lsrules_file_to_live_model"));
    about.insert("file_name".to_owned(), Json::text(file_name));
    about.insert("rules_to_add".to_owned(), Json::number(count as u64));
    let token: String = session.issue(
        &payload(
            "apply_lsrules_file_to_live_model",
            &about,
            diff_sha256.as_str(),
            u64_to_string(current.bundle_version).as_str(),
            now_unix_secs,
            DEFAULT_TTL_SECS,
        ),
    );
    Ok(
        PrepareApplyLsrulesResult {
            token,
            rules_to_add: count,
            diff_sha256,
            expires_in_seconds: DEFAULT_TTL_SECS,
        },
    )
}

/// Folds the file into `current`, if the token is accepted for the rule set as it
/// then is. `file` is what became of reading the file. `now_unix_secs` is the time of the
/// proposal, which `safety::token::proposal_time` reads from the token.
pub fn apply_pure(
    file_name: &str,
    token_str: String,
    managed_root: &str,
    file: &FileRead,
    current: &Model,
    session: &mut Session,
    uid: u32,
    now_unix_secs: u64,
) -> (r: Result<Model, ApplyLsrulesError>)
    ensures
        match rules_to_add(managed_root@, file_name@, *file, uid, now_unix_secs as nat) {
            Err(e) => r is Err && r->Err_0@ == e && final(session)@ == old(session)@,
            Ok(rules) => ({
                let ctx = context(
                    tool(),
                    model_sha256(folded(current@, rules)),
                    decimal(current.bundle_version as nat),
                );
                &&& final(session)@ == old(session)@.after(token_str@, ctx, now_unix_secs as nat)
                &&& match old(session)@.verdict(token_str@, ctx, now_unix_secs as nat) {
                    Err(e) => r is Err && r->Err_0@ == ApplyLsrulesErrorView::Token(e),
                    Ok(_) => r is Ok && r->Ok_0@ == folded(current@, rules),
                }
            }),
        },
{
    let new_rules: Vec<Rule> = match read_rules_to_add(
        managed_root,
        file_name,
        file,
        uid,
        now_unix_secs,
    ) {
        Ok(rules) => rules,
        Err(e) => {
            return Err(e);
        },
    };
    let folded_model: Model = fold_into_model(current.copy(), new_rules);
    let diff_sha256: String = canonical_model_sha256(&folded_model);
    let bundle_version: String = u64_to_string(current.bundle_version);
    let ctx: VerifyContext = VerifyContext {
        tool: "apply_lsrules_file_to_live_model",
        current_diff_sha256: diff_sha256.as_str(),
        current_bundle_version: bundle_version.as_str(),
    };
    match session.verify_at(token_str.as_str(), &ctx, now_unix_secs) {
        Ok(()) => Ok(folded_model),
        Err(e) => Err(ApplyLsrulesError::Token(e)),
    }
}

/// A translated document has one rule for each entry of `rules` and one for each
/// entry of the lists of remotes.
pub proof fn law_translation_count(doc: JsonView, uid: u32, now: nat)
    requires
        translation(doc, uid, now) is Ok,
    ensures
        translation(doc, uid, now)->Ok_0.len() == listed(doc, "rules"@).len() + listed(
            doc,
            "denied-remote-domains"@,
        ).len() + listed(doc, "denied-remote-hosts"@).len() + listed(
            doc,
            "denied-remote-addresses"@,
        ).len(),
{
    let t = iso8601(now);
    let items = listed(doc, "rules"@);
    lemma_rules_len(items, items.len(), uid, t);
    let d = listed(doc, "denied-remote-domains"@);
    lemma_denied_len("denied-remote-domains"@, d, d.len(), DeniedRemoteKind::Domains, uid, t);
    let h = listed(doc, "denied-remote-hosts"@);
    lemma_denied_len("denied-remote-hosts"@, h, h.len(), DeniedRemoteKind::Hosts, uid, t);
    let a = listed(doc, "denied-remote-addresses"@);
    lemma_denied_len("denied-remote-addresses"@, a, a.len(), DeniedRemoteKind::Addresses, uid, t);
}

proof fn lemma_rules_len(items: Seq<JsonView>, n: nat, uid: u32, now: Seq<char>)
    ensures
        rules_of(items, n, uid, now) matches Ok(rules) ==> rules.len() == n,
    decreases n,
{
    if n > 0 {
        lemma_rules_len(items, (n - 1) as nat, uid, now);
    }
}

proof fn lemma_denied_len(
    field: Seq<char>,
    items: Seq<JsonView>,
    n: nat,
    kind: DeniedRemoteKind,
    uid: u32,
    now: Seq<char>,
)
    ensures
        denied_of(field, items, n, kind, uid, now) matches Ok(rules) ==> rules.len() == n,
    decreases n,
{
    if n > 0 {
        lemma_denied_len(field, items, (n - 1) as nat, kind, uid, now);
    }
}

/// Folding keeps the rules that are there, in their places, and changes nothing
/// but the rules.
pub proof fn law_folding_appends(current: ModelView, new_rules: Seq<RuleView>)
    ensures
        folded(current, new_rules).rules.take(current.rules.len() as int) == current.rules,
        folded(current, new_rules).rules.skip(current.rules.len() as int) == new_rules,
        folded(current, new_rules).groups == current.groups,
        folded(current, new_rules).bundle_version == current.bundle_version,
        folded(current, new_rules).factory_rule_set_version == current.factory_rule_set_version,
        folded(current, new_rules).disabled_domains_in_lists == current.disabled_domains_in_lists,
        folded(current, new_rules).disabled_host_names_in_lists
            == current.disabled_host_names_in_lists,
        folded(current, new_rules).disabled_ip_address_ranges_in_lists
            == current.disabled_ip_address_ranges_in_lists,
        folded(current, new_rules).rest == current.rest,
{
}

/// A proposed change goes through: with the file and the rule set as they were, and the
/// rules stamped with the time of the proposal again, the token of the proposal is accepted
/// unless it has been used.
pub proof fn law_prepared_change_applies(
    s: SessionView,
    managed_root: Seq<char>,
    file_name: Seq<char>,
    file: FileRead,
    current: ModelView,
    uid: u32,
    now: nat,
)
    requires
        now <= u64::MAX,
        rules_to_add(managed_root, file_name, file, uid, now) is Ok,
    ensures
        ({
            let rules = rules_to_add(managed_root, file_name, file, uid, now)->Ok_0;
            let token = s.token(change_payload(file_name, current, rules, now));
            let ctx = context(
                tool(),
                model_sha256(folded(current, rules)),
                decimal(current.bundle_version as nat),
            );
            !s.consumed.contains(token) ==> s.verdict(token, ctx, now) is Ok
        }),
{
    let rules = rules_to_add(managed_root, file_name, file, uid, now)->Ok_0;
    law_issued_token(
        s,
        change_payload(file_name, current, rules, now),
        context(
            tool(),
            model_sha256(folded(current, rules)),
            decimal(current.bundle_version as nat),
        ),
        now,
    );
}

/// When the file has come to hold other rules since the proposal, so that the rule set would
/// be another one, the token of the proposal is refused with the error that says so, unless
/// two different texts with the same SHA-256 have been found.
pub proof fn law_changed_file_is_refused(
    s: SessionView,
    file_name: Seq<char>,
    current: ModelView,
    rules: Seq<RuleView>,
    changed: Seq<RuleView>,
    prepared: nat,
    now: nat,
)
    requires
        prepared <= u64::MAX,
        is_read_back(folded(current, rules)),
        is_read_back(folded(current, changed)),
        model_json(folded(current, changed)) != model_json(folded(current, rules)),
    ensures
        s.verdict(
            s.token(change_payload(file_name, current, rules, prepared)),
            context(
                tool(),
                model_sha256(folded(current, changed)),
                decimal(current.bundle_version as nat),
            ),
            now,
        ) == Err::<(), TokenError>(TokenError::DiffDrift) || collide(
            compact_text(model_json(folded(current, changed))),
            compact_text(model_json(folded(current, rules))),
        ),
{
    lemma_json_digests(
        model_json(folded(current, changed)),
        model_json(folded(current, rules)),
    );
    law_issued_token(
        s,
        change_payload(file_name, current, rules, prepared),
        context(
            tool(),
            model_sha256(folded(current, changed)),
            decimal(current.bundle_version as nat),
        ),
        now,
    );
}

/// Whether the texts of a rule's list are those of a value: one text, or one after the other
/// those of an array.
pub open spec fn lists(strings: Option<StringsView>, v: Option<JsonView>) -> bool {
    match v {
        None => strings is None,
        Some(JsonView::Text(t)) => strings == Some(StringsView::One(t)),
        Some(JsonView::Array(a)) => strings is Some && strings->0.all().len() == a.len() && forall|
            i: int,
        |
            0 <= i < a.len() ==> #[trigger] a[i] == JsonView::Text(strings->0.all()[i]),
        Some(_) => false,
    }
}

/// Whether a value can be a list of texts: it is a text, or an array of nothing but texts.
pub open spec fn can_be_listed(v: Option<JsonView>) -> bool {
    match v {
        None => true,
        Some(JsonView::Text(_)) => true,
        Some(JsonView::Array(a)) => forall|i: int|
            0 <= i < a.len() ==> (#[trigger] a[i]) is Text,
        Some(_) => false,
    }
}

proof fn lemma_action_named(word: Seq<char>)
    ensures
        action_named(word) == Some(Action::Allow) <==> word == "allow"@,
        action_named(word) == Some(Action::Deny) <==> word == "deny"@,
        action_named(word) == Some(Action::Ask) <==> word == "ask"@,
{
    reveal_strlit("allow");
    reveal_strlit("deny");
    reveal_strlit("ask");
    assert("allow"@.len() == 5 && "deny"@.len() == 4 && "ask"@.len() == 3);
}

proof fn lemma_direction_field(raw: JsonView, idx: nat)
    requires
        direction_field(raw, idx) is Ok,
    ensures
        direction_field(raw, idx)->Ok_0 == Some(Direction::Incoming) <==> member(
            raw,
            "direction"@,
        ) == Some(JsonView::Text("incoming"@)),
        direction_field(raw, idx)->Ok_0 == Some(Direction::Both) <==> member(raw, "direction"@)
            == Some(JsonView::Text("both"@)),
        direction_field(raw, idx)->Ok_0 != Some(Direction::Outgoing),
{
    reveal_strlit("incoming");
    reveal_strlit("outgoing");
    reveal_strlit("both");
    assert("incoming"@[0] == 'i' && "outgoing"@[0] == 'o' && "both"@[0] == 'b');
}

proof fn lemma_priority_field(raw: JsonView, idx: nat)
    requires
        priority_field(raw, idx) is Ok,
    ensures
        priority_field(raw, idx)->Ok_0 == Some(Priority::High) <==> member(raw, "priority"@) == Some(
            JsonView::Text("high"@),
        ),
        priority_field(raw, idx)->Ok_0 != Some(Priority::Regular),
{
}

proof fn lemma_strings_field(raw: JsonView, field: Seq<char>, idx: nat)
    requires
        strings_field(raw, field, idx) is Ok,
    ensures
        lists(strings_field(raw, field, idx)->Ok_0, member(raw, field)),
{
}

/// A translated rule says what its entry says: each text of the entry stands in the field of
/// its name, and a field is set only if the entry says so. Only the outgoing direction and the
/// regular tier, which go without saying, are left out. Date, origin and user are filled in.
pub proof fn law_rule_says_what_its_entry_says(raw: JsonView, idx: nat, uid: u32, now: Seq<char>)
    requires
        rule_of(raw, idx, uid, now) is Ok,
    ensures
        ({
            let rule = rule_of(raw, idx, uid, now)->Ok_0;
            &&& raw is Object
            &&& rule.action is Allow <==> member(raw, "action"@) == Some(JsonView::Text("allow"@))
            &&& rule.action is Deny <==> member(raw, "action"@) == Some(JsonView::Text("deny"@))
            &&& rule.action is Ask <==> member(raw, "action"@) == Some(JsonView::Text("ask"@))
            &&& member(raw, "process"@) matches Some(JsonView::Text(t)) ==> rule.process == Some(t)
            &&& rule.process matches Some(t) ==> member(raw, "process"@) == Some(JsonView::Text(t))
            &&& member(raw, "remote"@) matches Some(JsonView::Text(t)) ==> rule.remote == Some(t)
            &&& rule.remote matches Some(t) ==> member(raw, "remote"@) == Some(JsonView::Text(t))
            &&& member(raw, "protocol"@) matches Some(JsonView::Text(t)) ==> rule.protocol == Some(t)
            &&& rule.protocol matches Some(t) ==> member(raw, "protocol"@) == Some(JsonView::Text(t))
            &&& member(raw, "ports"@) matches Some(JsonView::Text(t)) ==> rule.ports == Some(t)
            &&& rule.ports matches Some(t) ==> member(raw, "ports"@) == Some(JsonView::Text(t))
            &&& member(raw, "via"@) matches Some(JsonView::Text(t)) ==> rule.via == Some(t)
            &&& rule.via matches Some(t) ==> member(raw, "via"@) == Some(JsonView::Text(t))
            &&& member(raw, "notes"@) matches Some(JsonView::Text(t)) ==> rule.notes == Some(t)
            &&& rule.notes matches Some(t) ==> member(raw, "notes"@) == Some(JsonView::Text(t))
            &&& lists(rule.remote_domains, member(raw, "remote-domains"@))
            &&& lists(rule.remote_hosts, member(raw, "remote-hosts"@))
            &&& lists(rule.remote_addresses, member(raw, "remote-addresses"@))
            &&& rule.direction == Some(Direction::Incoming) <==> member(raw, "direction"@) == Some(
                JsonView::Text("incoming"@),
            )
            &&& rule.direction == Some(Direction::Both) <==> member(raw, "direction"@) == Some(
                JsonView::Text("both"@),
            )
            &&& rule.direction != Some(Direction::Outgoing)
            &&& rule.priority == Some(Priority::High) <==> member(raw, "priority"@) == Some(
                JsonView::Text("high"@),
            )
            &&& rule.priority != Some(Priority::Regular)
            &&& rule.requires_trusted_signature_for_any_process == Some(true)
                <==> rule.process is None && member(raw, "requiresTrustedSignatureForAnyProcess"@)
                == Some(JsonView::Bool(true))
            &&& rule.requires_trusted_signature_for_any_process != Some(false)
            &&& rule.uid == Some(uid)
            &&& rule.creation_date == now
            &&& rule.modification_date == now
            &&& rule.origin == "frontend"@
            &&& rule.group is None
            &&& rule.factory_id is None
            &&& rule.factory_help_text is None
            &&& rule.protected is None
            &&& rule.last_used is None
            &&& rule.use_count is None
            &&& rule.approved is None
            &&& rule.hidden is None
            &&& rule.owner is None
            &&& rule.extra.dom().is_empty()
        }),
{
    lemma_action_named(text_of(member(raw, "action"@))->0);
    lemma_direction_field(raw, idx);
    lemma_priority_field(raw, idx);
    lemma_strings_field(raw, "remote-domains"@, idx);
    lemma_strings_field(raw, "remote-hosts"@, idx);
    lemma_strings_field(raw, "remote-addresses"@, idx);
}

/// An entry is translated just if it is an object with one of the three actions, its lists are
/// texts or arrays of texts, and its direction and its tier, where they are texts, are known.
pub proof fn law_which_entries_are_translated(raw: JsonView, idx: nat, uid: u32, now: Seq<char>)
    ensures
        rule_of(raw, idx, uid, now) is Ok <==> {
            &&& raw is Object
            &&& {
                ||| member(raw, "action"@) == Some(JsonView::Text("allow"@))
                ||| member(raw, "action"@) == Some(JsonView::Text("deny"@))
                ||| member(raw, "action"@) == Some(JsonView::Text("ask"@))
            }
            &&& can_be_listed(member(raw, "remote-domains"@))
            &&& can_be_listed(member(raw, "remote-hosts"@))
            &&& can_be_listed(member(raw, "remote-addresses"@))
            &&& member(raw, "direction"@) matches Some(JsonView::Text(t)) ==> t == "incoming"@ || t
                == "outgoing"@ || t == "both"@
            &&& member(raw, "priority"@) matches Some(JsonView::Text(t)) ==> t == "high"@ || t
                == "regular"@
        },
{
}

proof fn lemma_rules_each(items: Seq<JsonView>, n: nat, uid: u32, now: Seq<char>, i: int)
    requires
        rules_of(items, n, uid, now) is Ok,
        0 <= i < n,
    ensures
        rule_of(items[i], i as nat, uid, now) == Ok::<RuleView, Seq<char>>(
            rules_of(items, n, uid, now)->Ok_0[i],
        ),
    decreases n,
{
    lemma_rules_len(items, (n - 1) as nat, uid, now);
    if i < n - 1 {
        lemma_rules_each(items, (n - 1) as nat, uid, now, i);
    }
}

proof fn lemma_denied_each(
    field: Seq<char>,
    items: Seq<JsonView>,
    n: nat,
    kind: DeniedRemoteKind,
    uid: u32,
    now: Seq<char>,
    i: int,
)
    requires
        denied_of(field, items, n, kind, uid, now) is Ok,
        0 <= i < n,
    ensures
        items[i] is Text,
        denied_of(field, items, n, kind, uid, now)->Ok_0[i] == deny(
            items[i]->Text_0,
            kind,
            uid,
            now,
        ),
    decreases n,
{
    lemma_denied_len(field, items, (n - 1) as nat, kind, uid, now);
    if i < n - 1 {
        lemma_denied_each(field, items, (n - 1) as nat, kind, uid, now, i);
    }
}

/// Every entry of a document's `rules` is there among the translated rules, in its place, and
/// as what it says.
pub proof fn law_every_entry_is_translated(
    doc: JsonView,
    entries: Seq<JsonView>,
    uid: u32,
    now: nat,
    i: int,
)
    requires
        translation(doc, uid, now) is Ok,
        member(doc, "rules"@) == Some(JsonView::Array(entries)),
        0 <= i < entries.len(),
    ensures
        i < translation(doc, uid, now)->Ok_0.len(),
        rule_of(entries[i], i as nat, uid, iso8601(now)) == Ok::<RuleView, Seq<char>>(
            translation(doc, uid, now)->Ok_0[i],
        ),
{
    let t = iso8601(now);
    lemma_rules_each(entries, entries.len(), uid, t, i);
    lemma_rules_len(entries, entries.len(), uid, t);
}

/// In the rule set a translated rule is written as in the document: under each key that an
/// entry has a text under, the same text stands again, but for what goes without saying.
pub proof fn law_translated_rule_is_written_as_its_entry(
    raw: JsonView,
    idx: nat,
    uid: u32,
    now: Seq<char>,
)
    requires
        rule_of(raw, idx, uid, now) is Ok,
    ensures
        ({
            let j = rule_json(rule_of(raw, idx, uid, now)->Ok_0);
            &&& member(j, "action"@) == member(raw, "action"@)
            &&& text_of(member(j, "process"@)) == text_of(member(raw, "process"@))
            &&& text_of(member(j, "remote"@)) == text_of(member(raw, "remote"@))
            &&& text_of(member(j, "protocol"@)) == text_of(member(raw, "protocol"@))
            &&& text_of(member(j, "ports"@)) == text_of(member(raw, "ports"@))
            &&& text_of(member(j, "via"@)) == text_of(member(raw, "via"@))
            &&& text_of(member(j, "notes"@)) == text_of(member(raw, "notes"@))
            &&& member(j, "remote-domains"@) is Some <==> member(raw, "remote-domains"@) is Some
            &&& member(j, "remote-hosts"@) is Some <==> member(raw, "remote-hosts"@) is Some
            &&& member(j, "remote-addresses"@) is Some <==> member(raw, "remote-addresses"@) is Some
            &&& member(raw, "direction"@) != Some(JsonView::Text("outgoing"@)) ==> text_of(
                member(j, "direction"@),
            ) == text_of(member(raw, "direction"@))
            &&& member(raw, "priority"@) != Some(JsonView::Text("regular"@)) ==> text_of(
                member(j, "priority"@),
            ) == text_of(member(raw, "priority"@))
        }),
{
    law_rule_says_what_its_entry_says(raw, idx, uid, now);
    law_rule_json_has_every_field(rule_of(raw, idx, uid, now)->Ok_0);
}

/// Whether a rule does nothing but deny every process the remotes in its one list.
pub open spec fn only_denies(r: RuleView, uid: u32, now: Seq<char>) -> bool {
    &&& r.action is Deny
    &&& r.process == Some("any"@)
    &&& r.uid == Some(uid)
    &&& r.creation_date == now
    &&& r.modification_date == now
    &&& r.origin == "frontend"@
    &&& r.requires_trusted_signature_for_any_process is None
    &&& r.remote is None
    &&& r.direction is None
    &&& r.priority is None
    &&& r.protocol is None
    &&& r.ports is None
    &&& r.via is None
    &&& r.notes is None
    &&& r.group is None
    &&& r.extra.dom().is_empty()
}

/// Every entry of a document's lists of denied remotes is there among the translated rules,
/// behind those of `rules`, as a rule that denies just that remote to every process: first
/// the domains, then the hosts, then the addresses.
pub proof fn law_every_denied_remote_is_translated(
    doc: JsonView,
    entries: Seq<JsonView>,
    domains: Seq<JsonView>,
    hosts: Seq<JsonView>,
    addresses: Seq<JsonView>,
    uid: u32,
    now: nat,
    i: int,
)
    requires
        translation(doc, uid, now) is Ok,
        member(doc, "rules"@) == Some(JsonView::Array(entries)),
        member(doc, "denied-remote-domains"@) == Some(JsonView::Array(domains)),
        member(doc, "denied-remote-hosts"@) == Some(JsonView::Array(hosts)),
        member(doc, "denied-remote-addresses"@) == Some(JsonView::Array(addresses)),
    ensures
        ({
            let rules = translation(doc, uid, now)->Ok_0;
            let (a, b, c) = (
                entries.len() as int,
                entries.len() + domains.len(),
                entries.len() + domains.len() + hosts.len(),
            );
            &&& rules.len() == c + addresses.len()
            &&& 0 <= i < domains.len() ==> {
                &&& only_denies(rules[a + i], uid, iso8601(now))
                &&& lists(rules[a + i].remote_domains, Some(domains[i]))
                &&& rules[a + i].remote_hosts is None && rules[a + i].remote_addresses is None
            }
            &&& 0 <= i < hosts.len() ==> {
                &&& only_denies(rules[b + i], uid, iso8601(now))
                &&& lists(rules[b + i].remote_hosts, Some(hosts[i]))
                &&& rules[b + i].remote_domains is None && rules[b + i].remote_addresses is None
            }
            &&& 0 <= i < addresses.len() ==> {
                &&& only_denies(rules[c + i], uid, iso8601(now))
                &&& lists(rules[c + i].remote_addresses, Some(addresses[i]))
                &&& rules[c + i].remote_domains is None && rules[c + i].remote_hosts is None
            }
        }),
{
    let t = iso8601(now);
    let (d, h, a) = (
        "denied-remote-domains"@,
        "denied-remote-hosts"@,
        "denied-remote-addresses"@,
    );
    lemma_rules_len(entries, entries.len(), uid, t);
    lemma_denied_len(d, domains, domains.len(), DeniedRemoteKind::Domains, uid, t);
    lemma_denied_len(h, hosts, hosts.len(), DeniedRemoteKind::Hosts, uid, t);
    lemma_denied_len(a, addresses, addresses.len(), DeniedRemoteKind::Addresses, uid, t);
    if 0 <= i < domains.len() {
        lemma_denied_each(d, domains, domains.len(), DeniedRemoteKind::Domains, uid, t, i);
    }
    if 0 <= i < hosts.len() {
        lemma_denied_each(h, hosts, hosts.len(), DeniedRemoteKind::Hosts, uid, t, i);
    }
    if 0 <= i < addresses.len() {
        lemma_denied_each(a, addresses, addresses.len(), DeniedRemoteKind::Addresses, uid, t, i);
    }
}

proof fn lemma_rules_ok(items: Seq<JsonView>, n: nat, uid: u32, now: Seq<char>)
    requires
        forall|i: int| 0 <= i < n ==> rule_of(#[trigger] items[i], i as nat, uid, now) is Ok,
    ensures
        rules_of(items, n, uid, now) is Ok,
    decreases n,
{
    if n > 0 {
        lemma_rules_ok(items, (n - 1) as nat, uid, now);
        assert(rule_of(items[n - 1], (n - 1) as nat, uid, now) is Ok);
    }
}

proof fn lemma_denied_ok(
    field: Seq<char>,
    items: Seq<JsonView>,
    n: nat,
    kind: DeniedRemoteKind,
    uid: u32,
    now: Seq<char>,
)
    requires
        forall|i: int| 0 <= i < n ==> (#[trigger] items[i]) is Text,
    ensures
        denied_of(field, items, n, kind, uid, now) is Ok,
    decreases n,
{
    if n > 0 {
        lemma_denied_ok(field, items, (n - 1) as nat, kind, uid, now);
        assert(items[n - 1] is Text);
    }
}

/// A document whose entries can all be translated, and whose lists hold nothing but texts, is
/// translated. A list that is not there, or is no array, has no entries.
pub proof fn law_good_documents_are_translated(doc: JsonView, uid: u32, now: nat)
    requires
        member(doc, "rules"@) matches Some(JsonView::Array(v)) ==> forall|i: int|
            0 <= i < v.len() ==> rule_of(#[trigger] v[i], i as nat, uid, iso8601(now)) is Ok,
        member(doc, "denied-remote-domains"@) is Some ==> can_be_listed(
            member(doc, "denied-remote-domains"@),
        ),
        member(doc, "denied-remote-hosts"@) is Some ==> can_be_listed(
            member(doc, "denied-remote-hosts"@),
        ),
        member(doc, "denied-remote-addresses"@) is Some ==> can_be_listed(
            member(doc, "denied-remote-addresses"@),
        ),
    ensures
        translation(doc, uid, now) is Ok,
{
    let t = iso8601(now);
    let r = listed(doc, "rules"@);
    lemma_rules_ok(r, r.len(), uid, t);
    let d = listed(doc, "denied-remote-domains"@);
    lemma_denied_ok("denied-remote-domains"@, d, d.len(), DeniedRemoteKind::Domains, uid, t);
    let h = listed(doc, "denied-remote-hosts"@);
    lemma_denied_ok("denied-remote-hosts"@, h, h.len(), DeniedRemoteKind::Hosts, uid, t);
    let a = listed(doc, "denied-remote-addresses"@);
    lemma_denied_ok("denied-remote-addresses"@, a, a.len(), DeniedRemoteKind::Addresses, uid, t);
}

/// The rules that are added are those of the file: there are some just if the file is there,
/// can be read, holds JSON and can be translated.
pub proof fn law_the_rules_are_the_files(
    managed_root: Seq<char>,
    file_name: Seq<char>,
    file: FileRead,
    uid: u32,
    now: nat,
)
    ensures
        rules_to_add(managed_root, file_name, file, uid, now) is Ok <==> file is Bytes
            && json_parsed_bytes(file->Bytes_0@) is Ok && translation(
            json_parsed_bytes(file->Bytes_0@)->Ok_0,
            uid,
            now,
        ) is Ok,
        rules_to_add(managed_root, file_name, file, uid, now) matches Ok(rules) ==> translation(
            json_parsed_bytes(file->Bytes_0@)->Ok_0,
            uid,
            now,
        ) == Ok::<Seq<RuleView>, Seq<char>>(rules),
{
}

} // verus!
