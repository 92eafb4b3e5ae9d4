//! New rules from what a user asks for, and partial changes of rules.

use vstd::prelude::*;
use crate::json::{member, members_view, text_of, Json, JsonView};
use crate::model::serial::{law_rule_json_has_every_field, rule_json};
use crate::model::{
    opt_strings, Action, Direction, Origin, Priority, Rule, RuleView, StringOrVec, StringsView,
};
use crate::text::{concat, debug_form, opt_text, quoted, texts};
use crate::time_fmt::{format_iso8601_utc, iso8601};

verus! {

/// Which processes a new rule is for.
#[derive(Debug)]
pub enum ProcessMatcher {
    /// Every process.
    Any,
    /// The executable at this path.
    Path(String),
}

/// Which remotes a new rule is for.
#[derive(Debug)]
pub enum Remote {
    /// Every remote.
    Any,
    /// These domains and what is below them.
    Domains(Vec<String>),
    /// These hosts.
    Hosts(Vec<String>),
    /// These addresses and ranges of addresses.
    Addresses(Vec<String>),
}

/// What a user asks for in a new rule.
#[derive(Debug)]
pub struct NewRuleSpec {
    pub action: Action,
    pub process: ProcessMatcher,
    pub remote: Remote,
    pub uid: u32,
    pub direction: Option<Direction>,
    pub priority: Option<Priority>,
    pub protocol: Option<String>,
    pub ports: Option<String>,
    pub via: Option<String>,
    pub notes: Option<String>,
    pub group: Option<String>,
}

/// Why a rule is not made.
#[derive(Debug)]
pub enum ConstructError {
    /// There is no file at the process's path.
    PathNotFound(String),
    /// The rule would allow every process every remote.
    BlanketAllow,
}

/// What a [`ConstructError`] means.
#[verifier::ext_equal]
pub enum ConstructErrorView {
    PathNotFound(Seq<char>),
    BlanketAllow,
}

impl View for ConstructError {
    type V = ConstructErrorView;

    open spec fn view(&self) -> ConstructErrorView {
        match self {
            ConstructError::PathNotFound(p) => ConstructErrorView::PathNotFound(p@),
            ConstructError::BlanketAllow => ConstructErrorView::BlanketAllow,
        }
    }
}

impl ConstructErrorView {
    /// What the error says.
    pub open spec fn says(self) -> Seq<char> {
        match self {
            ConstructErrorView::PathNotFound(p) => "process path does not exist: "@ + debug_form(p),
            ConstructErrorView::BlanketAllow =>
                "refusing a rule that allows any process to reach any remote"@,
        }
    }
}

impl ConstructError {
    /// What the error says.
    pub fn message(&self) -> (r: String)
        ensures
            r@ == self@.says(),
    {
        match self {
            ConstructError::PathNotFound(p) => concat(
                "process path does not exist: ",
                quoted(p.as_str()).as_str(),
            ),
            ConstructError::BlanketAllow => {
                "refusing a rule that allows any process to reach any remote".to_owned()
            },
        }
    }
}

/// A list of texts as a rule holds it: a list of one text is that text.
pub open spec fn listed_strings(v: Seq<Seq<char>>) -> StringsView {
    if v.len() == 1 {
        StringsView::One(v[0])
    } else {
        StringsView::Many(v)
    }
}

fn to_strings(v: Vec<String>) -> (r: StringOrVec)
    ensures
        r@ == listed_strings(texts(v@)),
{
    if v.len() == 1 {
        StringOrVec::One(v[0].clone())
    } else {
        StringOrVec::Many(v)
    }
}

/// Whether the specification asks for a rule that allows every process every
/// remote.
pub open spec fn is_blanket_allow(wanted: NewRuleSpec) -> bool {
    wanted.action == Action::Allow && wanted.process is Any && wanted.remote is Any
}

/// Whether the rule is refused for want of the process's file.
pub open spec fn is_path_missing(wanted: NewRuleSpec, path_exists: bool) -> bool {
    wanted.process is Path && !path_exists
}

/// The rule that a specification asks for, made at `now`. The default direction
/// and the default tier are left out.
pub open spec fn new_rule(wanted: NewRuleSpec, now: nat) -> RuleView {
    RuleView {
        action: wanted.action,
        creation_date: iso8601(now),
        modification_date: iso8601(now),
        origin: "frontend"@,
        uid: Some(wanted.uid),
        process: match wanted.process {
            ProcessMatcher::Any => Some("any"@),
            ProcessMatcher::Path(p) => Some(p@),
        },
        requires_trusted_signature_for_any_process: None,
        remote: match wanted.remote {
            Remote::Any => Some("any"@),
            _ => None,
        },
        remote_domains: match wanted.remote {
            Remote::Domains(v) => Some(listed_strings(texts(v@))),
            _ => None,
        },
        remote_hosts: match wanted.remote {
            Remote::Hosts(v) => Some(listed_strings(texts(v@))),
            _ => None,
        },
        remote_addresses: match wanted.remote {
            Remote::Addresses(v) => Some(listed_strings(texts(v@))),
            _ => None,
        },
        direction: if wanted.direction == Some(Direction::Outgoing) {
            None
        } else {
            wanted.direction
        },
        priority: if wanted.priority == Some(Priority::Regular) {
            None
        } else {
            wanted.priority
        },
        protocol: opt_text(wanted.protocol),
        ports: opt_text(wanted.ports),
        via: opt_text(wanted.via),
        notes: opt_text(wanted.notes),
        group: opt_text(wanted.group),
        factory_id: None,
        factory_help_text: None,
        protected: None,
        last_used: None,
        use_count: None,
        approved: None,
        hidden: None,
        owner: None,
        extra: Map::empty(),
    }
}

/// The rule that a specification asks for, or why it is not made.
pub open spec fn constructed(wanted: NewRuleSpec, path_exists: bool, now: nat) -> Result<
    RuleView,
    ConstructErrorView,
> {
    if is_blanket_allow(wanted) {
        Err(ConstructErrorView::BlanketAllow)
    } else if is_path_missing(wanted, path_exists) {
        Err(ConstructErrorView::PathNotFound(wanted.process->Path_0@))
    } else {
        Ok(new_rule(wanted, now))
    }
}

/// Makes the rule that a specification asks for, at the time `now_unix_secs`. A
/// rule for every process and every remote is made only if it does not allow. A
/// rule for a path is made only if there is a file; `path_exists` says so.
pub fn construct_at(wanted: NewRuleSpec, path_exists: bool, now_unix_secs: u64) -> (r: Result<
    Rule,
    ConstructError,
>)
    ensures
        match r {
            Ok(rule) => constructed(wanted, path_exists, now_unix_secs as nat) == Ok::<
                RuleView,
                ConstructErrorView,
            >(rule@),
            Err(e) => constructed(wanted, path_exists, now_unix_secs as nat) == Err::<
                RuleView,
                ConstructErrorView,
            >(e@),
        },
        r matches Ok(rule) ==> {
            &&& rule.action == wanted.action
            &&& rule.uid == Some(wanted.uid)
            &&& wanted.priority == Some(Priority::High) <==> rule.priority == Some(Priority::High)
            &&& wanted.direction == Some(Direction::Incoming) <==> rule.direction == Some(
                Direction::Incoming,
            )
            &&& wanted.direction == Some(Direction::Both) <==> rule.direction == Some(
                Direction::Both,
            )
            &&& rule.protocol == wanted.protocol
            &&& rule.ports == wanted.ports
            &&& rule.via == wanted.via
            &&& rule.notes == wanted.notes
            &&& rule.group == wanted.group
        },
{
    if let (Action::Allow, ProcessMatcher::Any, Remote::Any) = (
        wanted.action,
        &wanted.process,
        &wanted.remote,
    ) {
        return Err(ConstructError::BlanketAllow);
    }
    let now: String = format_iso8601_utc(now_unix_secs);
    let process: String = match wanted.process {
        ProcessMatcher::Any => "any".to_owned(),
        ProcessMatcher::Path(p) => {
            if !path_exists {
                return Err(ConstructError::PathNotFound(p));
            }
            p
        },
    };
    let mut remote: Option<String> = None;
    let mut remote_domains: Option<StringOrVec> = None;
    let mut remote_hosts: Option<StringOrVec> = None;
    let mut remote_addresses: Option<StringOrVec> = None;
    match wanted.remote {
        Remote::Any => {
            remote = Some("any".to_owned());
        },
        Remote::Domains(v) => {
            remote_domains = Some(to_strings(v));
        },
        Remote::Hosts(v) => {
            remote_hosts = Some(to_strings(v));
        },
        Remote::Addresses(v) => {
            remote_addresses = Some(to_strings(v));
        },
    }
    let extra: Vec<(String, Json)> = Vec::new();
    proof {
        assert(members_view(extra@) =~= Map::empty());
    }
    Ok(
        Rule {
            action: wanted.action,
            creation_date: now.clone(),
            modification_date: now,
            origin: Origin::frontend(),
            uid: Some(wanted.uid),
            process: Some(process),
            requires_trusted_signature_for_any_process: None,
            remote,
            remote_domains,
            remote_hosts,
            remote_addresses,
            direction: match wanted.direction {
                Some(Direction::Outgoing) => None,
                d => d,
            },
            priority: match wanted.priority {
                Some(Priority::Regular) => None,
                p => p,
            },
            protocol: wanted.protocol,
            ports: wanted.ports,
            via: wanted.via,
            notes: wanted.notes,
            group: wanted.group,
            factory_id: None,
            factory_help_text: None,
            protected: None,
            last_used: None,
            use_count: None,
            approved: None,
            hidden: None,
            owner: None,
            extra,
        },
    )
}

/// Whether a rule holds just these texts, one by one. A list of one text is held as that text.
pub open spec fn holds(list: Option<StringsView>, v: Seq<String>) -> bool {
    &&& list matches Some(strings) && match strings {
        StringsView::One(s) => v.len() == 1 && s == v[0]@,
        StringsView::Many(m) => v.len() != 1 && m.len() == v.len() && forall|i: int|
            0 <= i < v.len() ==> #[trigger] m[i] == v[i]@,
    }
}

/// A rule is what was asked for. Every field that the specification sets is in the rule with
/// that value, the list that its remote names is there and no other, and nothing else is set.
/// Only the outgoing direction and the regular tier, which go without saying, are left out.
pub proof fn law_new_rule_is_what_was_asked_for(wanted: NewRuleSpec, path_exists: bool, now: nat)
    requires
        constructed(wanted, path_exists, now) is Ok,
    ensures
        ({
            let rule = constructed(wanted, path_exists, now)->Ok_0;
            &&& rule.action == wanted.action
            &&& rule.uid == Some(wanted.uid)
            &&& wanted.process matches ProcessMatcher::Path(p) ==> rule.process == Some(p@)
            &&& wanted.process is Any ==> rule.process == Some("any"@)
            &&& wanted.remote is Any <==> rule.remote is Some
            &&& wanted.remote is Any ==> rule.remote == Some("any"@)
            &&& wanted.remote is Domains <==> rule.remote_domains is Some
            &&& wanted.remote matches Remote::Domains(v) ==> holds(rule.remote_domains, v@)
            &&& wanted.remote is Hosts <==> rule.remote_hosts is Some
            &&& wanted.remote matches Remote::Hosts(v) ==> holds(rule.remote_hosts, v@)
            &&& wanted.remote is Addresses <==> rule.remote_addresses is Some
            &&& wanted.remote matches Remote::Addresses(v) ==> holds(rule.remote_addresses, v@)
            &&& wanted.direction == Some(Direction::Incoming) <==> rule.direction == Some(
                Direction::Incoming,
            )
            &&& wanted.direction == Some(Direction::Both) <==> rule.direction == Some(
                Direction::Both,
            )
            &&& rule.direction != Some(Direction::Outgoing)
            &&& wanted.priority == Some(Priority::High) <==> rule.priority == Some(Priority::High)
            &&& rule.priority != Some(Priority::Regular)
            &&& wanted.protocol is Some <==> rule.protocol is Some
            &&& wanted.protocol matches Some(s) ==> rule.protocol == Some(s@)
            &&& wanted.ports is Some <==> rule.ports is Some
            &&& wanted.ports matches Some(s) ==> rule.ports == Some(s@)
            &&& wanted.via is Some <==> rule.via is Some
            &&& wanted.via matches Some(s) ==> rule.via == Some(s@)
            &&& wanted.notes is Some <==> rule.notes is Some
            &&& wanted.notes matches Some(s) ==> rule.notes == Some(s@)
            &&& wanted.group is Some <==> rule.group is Some
            &&& wanted.group matches Some(s) ==> rule.group == Some(s@)
            &&& rule.creation_date == iso8601(now)
            &&& rule.modification_date == rule.creation_date
            &&& rule.origin == "frontend"@
            &&& rule.requires_trusted_signature_for_any_process is None
            &&& rule.factory_id is None
            &&& rule.factory_help_text is None
            &&& rule.protected is None
            &&& rule.last_used is None
            &&& rule.use_count is None
            &&& rule.approved is None
            &&& rule.hidden is None
            &&& rule.owner is None
            &&& rule.extra.dom().is_empty()
        }),
{
}

/// In the rule set a new rule is written with what was asked for: each value stands under its
/// key, and a key that nothing was asked for under is not there.
pub proof fn law_new_rule_is_written_as_asked_for(wanted: NewRuleSpec, path_exists: bool, now: nat)
    requires
        constructed(wanted, path_exists, now) is Ok,
    ensures
        ({
            let j = rule_json(constructed(wanted, path_exists, now)->Ok_0);
            &&& wanted.action is Allow ==> member(j, "action"@) == Some(JsonView::Text("allow"@))
            &&& wanted.action is Deny ==> member(j, "action"@) == Some(JsonView::Text("deny"@))
            &&& wanted.action is Ask ==> member(j, "action"@) == Some(JsonView::Text("ask"@))
            &&& member(j, "direction"@) == (match wanted.direction {
                Some(Direction::Incoming) => Some(JsonView::Text("incoming"@)),
                Some(Direction::Both) => Some(JsonView::Text("both"@)),
                _ => None,
            })
            &&& member(j, "priority"@) == (match wanted.priority {
                Some(Priority::High) => Some(JsonView::Text("high"@)),
                _ => None,
            })
            &&& text_of(member(j, "protocol"@)) == opt_text(wanted.protocol)
            &&& text_of(member(j, "ports"@)) == opt_text(wanted.ports)
            &&& text_of(member(j, "via"@)) == opt_text(wanted.via)
            &&& text_of(member(j, "notes"@)) == opt_text(wanted.notes)
            &&& text_of(member(j, "group"@)) == opt_text(wanted.group)
            &&& member(j, "remote"@) is Some <==> wanted.remote is Any
            &&& member(j, "remote-domains"@) is Some <==> wanted.remote is Domains
            &&& member(j, "remote-hosts"@) is Some <==> wanted.remote is Hosts
            &&& member(j, "remote-addresses"@) is Some <==> wanted.remote is Addresses
            &&& wanted.process matches ProcessMatcher::Path(p) ==> member(j, "process"@) == Some(
                JsonView::Text(p@),
            )
        }),
{
    law_rule_json_has_every_field(constructed(wanted, path_exists, now)->Ok_0);
}

/// Only two things stand in the way of a new rule: that it would allow every process every
/// remote, and that there is no file at the path of its process. The first is said first.
pub proof fn law_when_a_rule_is_refused(wanted: NewRuleSpec, path_exists: bool, now: nat)
    ensures
        constructed(wanted, path_exists, now) == Err::<RuleView, ConstructErrorView>(
            ConstructErrorView::BlanketAllow,
        ) <==> wanted.action is Allow && wanted.process is Any && wanted.remote is Any,
        constructed(wanted, path_exists, now) matches Err(ConstructErrorView::PathNotFound(p)) ==>
            !path_exists && wanted.process is Path && p == wanted.process->Path_0@,
        wanted.process is Path && !path_exists ==> constructed(wanted, path_exists, now) is Err,
        wanted.process is Path && path_exists ==> constructed(wanted, path_exists, now) is Ok,
{
}

/// Two different wishes make two different rules: where the rules are the same, so is all that
/// was asked for, but for what goes without saying.
pub proof fn law_new_rules_lose_nothing(
    a: NewRuleSpec,
    b: NewRuleSpec,
    path_exists: bool,
    now: nat,
)
    requires
        constructed(a, path_exists, now) is Ok,
        constructed(a, path_exists, now) == constructed(b, path_exists, now),
    ensures
        a.action == b.action,
        a.uid == b.uid,
        a.direction == b.direction || (a.direction != Some(Direction::Incoming) && a.direction
            != Some(Direction::Both) && b.direction != Some(Direction::Incoming) && b.direction
            != Some(Direction::Both)),
        a.priority == Some(Priority::High) <==> b.priority == Some(Priority::High),
        opt_text(a.protocol) == opt_text(b.protocol),
        opt_text(a.ports) == opt_text(b.ports),
        opt_text(a.via) == opt_text(b.via),
        opt_text(a.notes) == opt_text(b.notes),
        opt_text(a.group) == opt_text(b.group),
        a.remote is Any <==> b.remote is Any,
        a.remote matches Remote::Domains(v) ==> (b.remote matches Remote::Domains(w) && texts(v@)
            == texts(w@)),
        a.remote matches Remote::Hosts(v) ==> (b.remote matches Remote::Hosts(w) && texts(v@)
            == texts(w@)),
        a.remote matches Remote::Addresses(v) ==> (b.remote matches Remote::Addresses(w) && texts(
            v@,
        ) == texts(w@)),
{
    match (a.remote, b.remote) {
        (Remote::Domains(v), Remote::Domains(w)) => {
            lemma_listed_strings(texts(v@), texts(w@));
        },
        (Remote::Hosts(v), Remote::Hosts(w)) => {
            lemma_listed_strings(texts(v@), texts(w@));
        },
        (Remote::Addresses(v), Remote::Addresses(w)) => {
            lemma_listed_strings(texts(v@), texts(w@));
        },
        _ => {},
    }
}

proof fn lemma_listed_strings(v: Seq<Seq<char>>, w: Seq<Seq<char>>)
    requires
        listed_strings(v) == listed_strings(w),
    ensures
        v == w,
{
    if v.len() == 1 {
        assert(v =~= w);
    }
}

/// A partial change of a rule: the fields that are set take the place of the
/// rule's. It holds only fields that are the user's to change.
#[derive(Debug)]
pub struct RulePatch {
    pub action: Option<Action>,
    pub process: Option<String>,
    pub remote: Option<String>,
    pub remote_domains: Option<StringOrVec>,
    pub remote_hosts: Option<StringOrVec>,
    pub remote_addresses: Option<StringOrVec>,
    pub direction: Option<Direction>,
    pub priority: Option<Priority>,
    pub protocol: Option<String>,
    pub ports: Option<String>,
    pub via: Option<String>,
    pub notes: Option<String>,
    pub group: Option<String>,
}

impl Default for RulePatch {
    /// The change that sets no field.
    fn default() -> (r: RulePatch)
        ensures
            r == empty_patch(),
    {
        RulePatch {
            action: None,
            process: None,
            remote: None,
            remote_domains: None,
            remote_hosts: None,
            remote_addresses: None,
            direction: None,
            priority: None,
            protocol: None,
            ports: None,
            via: None,
            notes: None,
            group: None,
        }
    }
}

/// The change that sets no field.
pub open spec fn empty_patch() -> RulePatch {
    RulePatch {
        action: None,
        process: None,
        remote: None,
        remote_domains: None,
        remote_hosts: None,
        remote_addresses: None,
        direction: None,
        priority: None,
        protocol: None,
        ports: None,
        via: None,
        notes: None,
        group: None,
    }
}

/// The new value of a field where the change sets it, the old one otherwise.
pub open spec fn or_else<T>(new: Option<T>, old_value: Option<T>) -> Option<T> {
    if new is Some {
        new
    } else {
        old_value
    }
}

/// A rule after a partial change at `now`.
pub open spec fn patched(r: RuleView, p: RulePatch, now: nat) -> RuleView {
    RuleView {
        action: if p.action is Some {
            p.action->0
        } else {
            r.action
        },
        modification_date: iso8601(now),
        process: or_else(opt_text(p.process), r.process),
        remote: or_else(opt_text(p.remote), r.remote),
        remote_domains: or_else(opt_strings(p.remote_domains), r.remote_domains),
        remote_hosts: or_else(opt_strings(p.remote_hosts), r.remote_hosts),
        remote_addresses: or_else(opt_strings(p.remote_addresses), r.remote_addresses),
        direction: or_else(p.direction, r.direction),
        priority: or_else(p.priority, r.priority),
        protocol: or_else(opt_text(p.protocol), r.protocol),
        ports: or_else(opt_text(p.ports), r.ports),
        via: or_else(opt_text(p.via), r.via),
        notes: or_else(opt_text(p.notes), r.notes),
        group: or_else(opt_text(p.group), r.group),
        ..r
    }
}

fn set_if_some<T>(field: &mut Option<T>, new: Option<T>)
    ensures
        *final(field) == or_else(new, *old(field)),
{
    if new.is_some() {
        *field = new;
    }
}

/// Changes the fields of a rule that the change sets, and the date of its last
/// modification.
pub fn apply_partial_at(rule: &mut Rule, patch: RulePatch, now_unix_secs: u64)
    ensures
        final(rule)@ == patched(old(rule)@, patch, now_unix_secs as nat),
{
    if let Some(a) = patch.action {
        rule.action = a;
    }
    set_if_some(&mut rule.process, patch.process);
    set_if_some(&mut rule.remote, patch.remote);
    set_if_some(&mut rule.remote_domains, patch.remote_domains);
    set_if_some(&mut rule.remote_hosts, patch.remote_hosts);
    set_if_some(&mut rule.remote_addresses, patch.remote_addresses);
    set_if_some(&mut rule.direction, patch.direction);
    set_if_some(&mut rule.priority, patch.priority);
    set_if_some(&mut rule.protocol, patch.protocol);
    set_if_some(&mut rule.ports, patch.ports);
    set_if_some(&mut rule.via, patch.via);
    set_if_some(&mut rule.notes, patch.notes);
    set_if_some(&mut rule.group, patch.group);
    rule.modification_date = format_iso8601_utc(now_unix_secs);
}

/// A partial change leaves alone what is not the user's to change, whatever it
/// sets.
pub proof fn law_patch_keeps_managed_fields(r: RuleView, p: RulePatch, now: nat)
    ensures
        patched(r, p, now).creation_date == r.creation_date,
        patched(r, p, now).origin == r.origin,
        patched(r, p, now).uid == r.uid,
        patched(r, p, now).factory_id == r.factory_id,
        patched(r, p, now).factory_help_text == r.factory_help_text,
        patched(r, p, now).protected == r.protected,
        patched(r, p, now).requires_trusted_signature_for_any_process
            == r.requires_trusted_signature_for_any_process,
        patched(r, p, now).last_used == r.last_used,
        patched(r, p, now).use_count == r.use_count,
        patched(r, p, now).approved == r.approved,
        patched(r, p, now).hidden == r.hidden,
        patched(r, p, now).owner == r.owner,
        patched(r, p, now).extra == r.extra,
{
}

/// A change that sets nothing only dates the rule anew.
pub proof fn law_empty_patch(r: RuleView, now: nat)
    ensures
        patched(r, empty_patch(), now) == (RuleView { modification_date: iso8601(now), ..r }),
{
}

/// Making the same change twice at the same time is making it once.
pub proof fn law_patch_is_idempotent(r: RuleView, p: RulePatch, now: nat)
    ensures
        patched(patched(r, p, now), p, now) == patched(r, p, now),
{
}

/// A change takes effect: what it sets stands in the rule afterwards, and what it does not set
/// stays as it was.
pub proof fn law_patch_takes_effect(r: RuleView, p: RulePatch, now: nat)
    ensures
        ({
            let after = patched(r, p, now);
            &&& after.modification_date == iso8601(now)
            &&& after.action == (match p.action {
                Some(a) => a,
                None => r.action,
            })
            &&& after.process == (match p.process {
                Some(x) => Some(x@),
                None => r.process,
            })
            &&& after.remote == (match p.remote {
                Some(x) => Some(x@),
                None => r.remote,
            })
            &&& after.remote_domains == (match p.remote_domains {
                Some(x) => Some(x@),
                None => r.remote_domains,
            })
            &&& after.remote_hosts == (match p.remote_hosts {
                Some(x) => Some(x@),
                None => r.remote_hosts,
            })
            &&& after.remote_addresses == (match p.remote_addresses {
                Some(x) => Some(x@),
                None => r.remote_addresses,
            })
            &&& after.direction == (match p.direction {
                Some(x) => Some(x),
                None => r.direction,
            })
            &&& after.priority == (match p.priority {
                Some(x) => Some(x),
                None => r.priority,
            })
            &&& after.protocol == (match p.protocol {
                Some(x) => Some(x@),
                None => r.protocol,
            })
            &&& after.ports == (match p.ports {
                Some(x) => Some(x@),
                None => r.ports,
            })
            &&& after.via == (match p.via {
                Some(x) => Some(x@),
                None => r.via,
            })
            &&& after.notes == (match p.notes {
                Some(x) => Some(x@),
                None => r.notes,
            })
            &&& after.group == (match p.group {
                Some(x) => Some(x@),
                None => r.group,
            })
        }),
{
}

} // verus!
