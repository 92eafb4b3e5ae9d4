//! The rule set of Little Snitch: rules, groups and the overlay lists.

use vstd::prelude::*;
use crate::assoc::{find_key, last_position, lemma_last_position};
use crate::json::{jsons, lemma_members_push, members_view, Json, JsonView};
use crate::text::{copy_opt, copy_strings, opt_text, str_eq, texts};

pub mod construct;
pub mod read;
pub mod serial;

verus! {

/// What a rule does with a connection.
#[derive(Debug, Clone, Copy, PartialEq, Eq, Structural)]
pub enum Action {
    Allow,
    Deny,
    Ask,
}

/// Which way a connection goes.
#[derive(Debug, Clone, Copy, PartialEq, Eq, Structural)]
pub enum Direction {
    Incoming,
    Outgoing,
    Both,
}

/// The tier that a rule is looked at in.
#[derive(Debug, Clone, Copy, PartialEq, Eq, Structural)]
pub enum Priority {
    High,
    Regular,
}

impl Action {
    /// The word that stands for the action.
    pub open spec fn word(self) -> Seq<char> {
        match self {
            Action::Allow => "allow"@,
            Action::Deny => "deny"@,
            Action::Ask => "ask"@,
        }
    }

    /// The word that stands for the action.
    pub fn as_str(&self) -> (r: &'static str)
        ensures
            r@ == self.word(),
    {
        match self {
            Action::Allow => "allow",
            Action::Deny => "deny",
            Action::Ask => "ask",
        }
    }
}

impl Direction {
    /// The word that stands for the direction.
    pub open spec fn word(self) -> Seq<char> {
        match self {
            Direction::Incoming => "incoming"@,
            Direction::Outgoing => "outgoing"@,
            Direction::Both => "both"@,
        }
    }

    /// The word that stands for the direction.
    pub fn as_str(&self) -> (r: &'static str)
        ensures
            r@ == self.word(),
    {
        match self {
            Direction::Incoming => "incoming",
            Direction::Outgoing => "outgoing",
            Direction::Both => "both",
        }
    }
}

impl Priority {
    /// The word that stands for the tier.
    pub open spec fn word(self) -> Seq<char> {
        match self {
            Priority::High => "high"@,
            Priority::Regular => "regular"@,
        }
    }

    /// The word that stands for the tier.
    pub fn as_str(&self) -> (r: &'static str)
        ensures
            r@ == self.word(),
    {
        match self {
            Priority::High => "high",
            Priority::Regular => "regular",
        }
    }
}

/// Who made a rule.
#[derive(Debug, PartialEq)]
pub struct Origin(pub String);

impl Origin {
    /// The origin of the rules that a user makes.
    pub const FRONTEND: &'static str = "frontend";

    /// The origin of the rules that a user makes.
    pub fn frontend() -> (r: Origin)
        ensures
            r.0@ == "frontend"@,
    {
        Origin("frontend".to_owned())
    }
}

/// One text or a list of texts.
#[derive(Debug, PartialEq)]
pub enum StringOrVec {
    One(String),
    Many(Vec<String>),
}

/// What a [`StringOrVec`] means.
#[verifier::ext_equal]
pub enum StringsView {
    One(Seq<char>),
    Many(Seq<Seq<char>>),
}

impl View for StringOrVec {
    type V = StringsView;

    open spec fn view(&self) -> StringsView {
        match self {
            StringOrVec::One(s) => StringsView::One(s@),
            StringOrVec::Many(v) => StringsView::Many(texts(v@)),
        }
    }
}

impl StringsView {
    /// The texts, whether one or many.
    pub open spec fn all(self) -> Seq<Seq<char>> {
        match self {
            StringsView::One(s) => seq![s],
            StringsView::Many(v) => v,
        }
    }
}

impl StringOrVec {
    /// The number of texts.
    pub fn len(&self) -> (r: usize)
        ensures
            r == self@.all().len(),
    {
        match self {
            StringOrVec::One(_) => 1,
            StringOrVec::Many(v) => v.len(),
        }
    }

    /// The text at position `i`.
    pub fn item(&self, i: usize) -> (r: &String)
        requires
            i < self@.all().len(),
        ensures
            r@ == self@.all()[i as int],
    {
        match self {
            StringOrVec::One(s) => s,
            StringOrVec::Many(v) => &v[i],
        }
    }

    /// The texts as a list.
    pub fn to_list(&self) -> (r: Vec<String>)
        ensures
            texts(r@) == self@.all(),
    {
        match self {
            StringOrVec::One(s) => {
                let mut out: Vec<String> = Vec::new();
                out.push(s.clone());
                proof {
                    assert(texts(out@) =~= self@.all());
                }
                out
            },
            StringOrVec::Many(v) => copy_strings(v),
        }
    }

    /// Whether `s` is among the texts.
    pub fn contains(&self, s: &str) -> (r: bool)
        ensures
            r == self@.all().contains(s@),
    {
        let n: usize = self.len();
        for i in 0..n
            invariant
                n == self@.all().len(),
                forall|j: int| 0 <= j < i ==> self@.all()[j] != s@,
        {
            if str_eq(self.item(i).as_str(), s) {
                return true;
            }
        }
        false
    }

    /// A copy.
    pub fn copy(&self) -> (r: StringOrVec)
        ensures
            r@ == self@,
    {
        match self {
            StringOrVec::One(s) => StringOrVec::One(s.clone()),
            StringOrVec::Many(v) => StringOrVec::Many(copy_strings(v)),
        }
    }
}

/// What an optional [`StringOrVec`] means.
pub open spec fn opt_strings(o: Option<StringOrVec>) -> Option<StringsView> {
    match o {
        Some(s) => Some(s@),
        None => None,
    }
}

/// A copy of an optional [`StringOrVec`].
pub fn copy_opt_strings(o: &Option<StringOrVec>) -> (r: Option<StringOrVec>)
    ensures
        opt_strings(r) == opt_strings(*o),
{
    match o {
        Some(s) => Some(s.copy()),
        None => None,
    }
}

/// A copy of the members of an object.
pub fn copy_members(v: &Vec<(String, Json)>) -> (r: Vec<(String, Json)>)
    ensures
        members_view(r@) == members_view(v@),
{
    let mut out: Vec<(String, Json)> = Vec::new();
    for i in 0..v.len()
        invariant
            members_view(out@) == members_view(v@.take(i as int)),
    {
        let value: Json = v[i].1.copy();
        proof {
            assert(v@.take(i + 1) == v@.take(i as int).push(v@[i as int]));
            lemma_members_push(v@.take(i as int), v@[i as int].0, v@[i as int].1);
            lemma_members_push(out@, v@[i as int].0, value);
        }
        out.push((v[i].0.clone(), value));
    }
    proof {
        assert(v@.take(v@.len() as int) == v@);
    }
    out
}

/// A copy of a list of values.
pub fn copy_jsons(v: &Vec<Json>) -> (r: Vec<Json>)
    ensures
        jsons(r@) == jsons(v@),
{
    let mut out: Vec<Json> = Vec::new();
    for i in 0..v.len()
        invariant
            out.len() == i,
            forall|j: int| 0 <= j < i ==> out@[j]@ == (#[trigger] v@[j])@,
    {
        out.push(v[i].copy());
    }
    proof {
        assert(jsons(out@) =~= jsons(v@));
    }
    out
}

/// A rule.
#[derive(Debug, PartialEq)]
pub struct Rule {
    pub action: Action,
    pub creation_date: String,
    pub modification_date: String,
    pub origin: Origin,
    pub uid: Option<u32>,
    pub process: Option<String>,
    pub requires_trusted_signature_for_any_process: Option<bool>,
    pub remote: Option<String>,
    pub remote_domains: Option<StringOrVec>,
    pub remote_hosts: Option<StringOrVec>,
    pub remote_addresses: Option<StringOrVec>,
    pub direction: Option<Direction>,
    pub priority: Option<Priority>,
    pub protocol: Option<String>,
    pub ports: Option<String>,
    pub via: Option<String>,
    pub notes: Option<String>,
    pub group: Option<String>,
    pub factory_id: Option<String>,
    pub factory_help_text: Option<String>,
    pub protected: Option<bool>,
    pub last_used: Option<String>,
    pub use_count: Option<u64>,
    pub approved: Option<bool>,
    pub hidden: Option<bool>,
    pub owner: Option<String>,
    pub extra: Vec<(String, Json)>,
}

/// What a [`Rule`] means.
#[verifier::ext_equal]
pub struct RuleView {
    pub action: Action,
    pub creation_date: Seq<char>,
    pub modification_date: Seq<char>,
    pub origin: Seq<char>,
    pub uid: Option<u32>,
    pub process: Option<Seq<char>>,
    pub requires_trusted_signature_for_any_process: Option<bool>,
    pub remote: Option<Seq<char>>,
    pub remote_domains: Option<StringsView>,
    pub remote_hosts: Option<StringsView>,
    pub remote_addresses: Option<StringsView>,
    pub direction: Option<Direction>,
    pub priority: Option<Priority>,
    pub protocol: Option<Seq<char>>,
    pub ports: Option<Seq<char>>,
    pub via: Option<Seq<char>>,
    pub notes: Option<Seq<char>>,
    pub group: Option<Seq<char>>,
    pub factory_id: Option<Seq<char>>,
    pub factory_help_text: Option<Seq<char>>,
    pub protected: Option<bool>,
    pub last_used: Option<Seq<char>>,
    pub use_count: Option<u64>,
    pub approved: Option<bool>,
    pub hidden: Option<bool>,
    pub owner: Option<Seq<char>>,
    pub extra: Map<Seq<char>, JsonView>,
}

impl View for Rule {
    type V = RuleView;

    open spec fn view(&self) -> RuleView {
        RuleView {
            action: self.action,
            creation_date: self.creation_date@,
            modification_date: self.modification_date@,
            origin: self.origin.0@,
            uid: self.uid,
            process: opt_text(self.process),
            requires_trusted_signature_for_any_process: self.requires_trusted_signature_for_any_process,
            remote: opt_text(self.remote),
            remote_domains: opt_strings(self.remote_domains),
            remote_hosts: opt_strings(self.remote_hosts),
            remote_addresses: opt_strings(self.remote_addresses),
            direction: self.direction,
            priority: self.priority,
            protocol: opt_text(self.protocol),
            ports: opt_text(self.ports),
            via: opt_text(self.via),
            notes: opt_text(self.notes),
            group: opt_text(self.group),
            factory_id: opt_text(self.factory_id),
            factory_help_text: opt_text(self.factory_help_text),
            protected: self.protected,
            last_used: opt_text(self.last_used),
            use_count: self.use_count,
            approved: self.approved,
            hidden: self.hidden,
            owner: opt_text(self.owner),
            extra: members_view(self.extra@),
        }
    }
}

impl Rule {
    /// A copy of the rule.
    pub fn copy(&self) -> (r: Rule)
        ensures
            r@ == self@,
    {
        Rule {
            action: self.action,
            creation_date: self.creation_date.clone(),
            modification_date: self.modification_date.clone(),
            origin: Origin(self.origin.0.clone()),
            uid: self.uid,
            process: copy_opt(&self.process),
            requires_trusted_signature_for_any_process: self.requires_trusted_signature_for_any_process,
            remote: copy_opt(&self.remote),
            remote_domains: copy_opt_strings(&self.remote_domains),
            remote_hosts: copy_opt_strings(&self.remote_hosts),
            remote_addresses: copy_opt_strings(&self.remote_addresses),
            direction: self.direction,
            priority: self.priority,
            protocol: copy_opt(&self.protocol),
            ports: copy_opt(&self.ports),
            via: copy_opt(&self.via),
            notes: copy_opt(&self.notes),
            group: copy_opt(&self.group),
            factory_id: copy_opt(&self.factory_id),
            factory_help_text: copy_opt(&self.factory_help_text),
            protected: self.protected,
            last_used: copy_opt(&self.last_used),
            use_count: self.use_count,
            approved: self.approved,
            hidden: self.hidden,
            owner: copy_opt(&self.owner),
            extra: copy_members(&self.extra),
        }
    }
}

/// The views of several rules.
pub open spec fn rules_view(v: Seq<Rule>) -> Seq<RuleView> {
    Seq::new(v.len(), |i: int| v[i]@)
}

/// A copy of a list of rules.
pub fn copy_rules(v: &Vec<Rule>) -> (r: Vec<Rule>)
    ensures
        rules_view(r@) == rules_view(v@),
{
    let mut out: Vec<Rule> = Vec::new();
    for i in 0..v.len()
        invariant
            out.len() == i,
            forall|j: int| 0 <= j < i ==> out@[j]@ == (#[trigger] v@[j])@,
    {
        out.push(v[i].copy());
    }
    proof {
        assert(rules_view(out@) =~= rules_view(v@));
    }
    out
}

/// A group of rules.
#[derive(Debug, PartialEq)]
pub struct Group {
    pub name: Option<String>,
    pub kind: Option<String>,
    pub kind_legacy: Option<String>,
    pub is_active: Option<bool>,
    pub update_interval: Option<u64>,
    pub last_update_invalid_domains_count: Option<u64>,
    pub extra: Vec<(String, Json)>,
}

/// What a [`Group`] means.
#[verifier::ext_equal]
pub struct GroupView {
    pub name: Option<Seq<char>>,
    pub kind: Option<Seq<char>>,
    pub kind_legacy: Option<Seq<char>>,
    pub is_active: Option<bool>,
    pub update_interval: Option<u64>,
    pub last_update_invalid_domains_count: Option<u64>,
    pub extra: Map<Seq<char>, JsonView>,
}

impl View for Group {
    type V = GroupView;

    open spec fn view(&self) -> GroupView {
        GroupView {
            name: opt_text(self.name),
            kind: opt_text(self.kind),
            kind_legacy: opt_text(self.kind_legacy),
            is_active: self.is_active,
            update_interval: self.update_interval,
            last_update_invalid_domains_count: self.last_update_invalid_domains_count,
            extra: members_view(self.extra@),
        }
    }
}

impl GroupView {
    /// The kind of the group, or what older versions wrote for it.
    pub open spec fn any_kind(self) -> Option<Seq<char>> {
        if self.kind is Some {
            self.kind
        } else {
            self.kind_legacy
        }
    }
}

impl Group {
    /// The kind of the group, or what older versions wrote for it.
    pub fn any_kind(&self) -> (r: Option<&String>)
        ensures
            match r {
                Some(k) => self@.any_kind() == Some(k@),
                None => self@.any_kind() is None,
            },
    {
        match &self.kind {
            Some(k) => Some(k),
            None => match &self.kind_legacy {
                Some(k) => Some(k),
                None => None,
            },
        }
    }

    /// A copy of the group.
    pub fn copy(&self) -> (r: Group)
        ensures
            r@ == self@,
    {
        Group {
            name: copy_opt(&self.name),
            kind: copy_opt(&self.kind),
            kind_legacy: copy_opt(&self.kind_legacy),
            is_active: self.is_active,
            update_interval: self.update_interval,
            last_update_invalid_domains_count: self.last_update_invalid_domains_count,
            extra: copy_members(&self.extra),
        }
    }
}

/// What a list of named groups means.
pub open spec fn groups_view(v: Seq<(String, Group)>) -> Map<Seq<char>, GroupView> {
    Map::new(
        |k: Seq<char>| 0 <= last_position(v, k),
        |k: Seq<char>| v[last_position(v, k)].1@,
    )
}

/// Whether no key stands twice.
pub open spec fn has_distinct_keys(v: Seq<(String, Group)>) -> bool {
    forall|i: int, j: int|
        0 <= i < j < v.len() ==> (#[trigger] v[i]).0@ != (#[trigger] v[j]).0@
}

proof fn lemma_groups_push(v: Seq<(String, Group)>, key: String, value: Group)
    ensures
        groups_view(v.push((key, value))) == groups_view(v).insert(key@, value@),
{
    broadcast use lemma_last_position;

    let w = v.push((key, value));
    assert(w.drop_last() == v);
    assert(groups_view(w) =~= groups_view(v).insert(key@, value@));
}

/// The whole rule set. `rest` holds the members that no tool reads.
#[derive(Debug, PartialEq)]
pub struct Model {
    pub bundle_version: u64,
    pub factory_rule_set_version: u64,
    pub rules: Vec<Rule>,
    pub groups: Vec<(String, Group)>,
    pub disabled_domains_in_lists: Vec<Json>,
    pub disabled_host_names_in_lists: Vec<Json>,
    pub disabled_ip_address_ranges_in_lists: Vec<Json>,
    pub rest: Vec<(String, Json)>,
}

/// What a [`Model`] means.
#[verifier::ext_equal]
pub struct ModelView {
    pub bundle_version: u64,
    pub factory_rule_set_version: u64,
    pub rules: Seq<RuleView>,
    pub groups: Map<Seq<char>, GroupView>,
    pub disabled_domains_in_lists: Seq<JsonView>,
    pub disabled_host_names_in_lists: Seq<JsonView>,
    pub disabled_ip_address_ranges_in_lists: Seq<JsonView>,
    pub rest: Map<Seq<char>, JsonView>,
}

impl View for Model {
    type V = ModelView;

    open spec fn view(&self) -> ModelView {
        ModelView {
            bundle_version: self.bundle_version,
            factory_rule_set_version: self.factory_rule_set_version,
            rules: rules_view(self.rules@),
            groups: groups_view(self.groups@),
            disabled_domains_in_lists: jsons(self.disabled_domains_in_lists@),
            disabled_host_names_in_lists: jsons(self.disabled_host_names_in_lists@),
            disabled_ip_address_ranges_in_lists: jsons(self.disabled_ip_address_ranges_in_lists@),
            rest: members_view(self.rest@),
        }
    }
}

impl ModelView {
    /// The group under `id`.
    pub open spec fn group(self, id: Seq<char>) -> Option<GroupView> {
        if self.groups.dom().contains(id) {
            Some(self.groups[id])
        } else {
            None
        }
    }
}

impl Model {
    /// The group under `id`.
    pub fn group(&self, id: &str) -> (r: Option<&Group>)
        ensures
            match r {
                Some(g) => self@.group(id@) == Some(g@),
                None => self@.group(id@) is None,
            },
    {
        match find_key(&self.groups, id) {
            Some(i) => Some(&self.groups[i].1),
            None => None,
        }
    }

    /// A copy of the rule set.
    pub fn copy(&self) -> (r: Model)
        ensures
            r@ == self@,
    {
        let mut groups: Vec<(String, Group)> = Vec::new();
        for i in 0..self.groups.len()
            invariant
                groups_view(groups@) == groups_view(self.groups@.take(i as int)),
        {
            let value: Group = self.groups[i].1.copy();
            proof {
                let v = self.groups@;
                assert(v.take(i + 1) == v.take(i as int).push(v[i as int]));
                lemma_groups_push(v.take(i as int), v[i as int].0, v[i as int].1);
                lemma_groups_push(groups@, v[i as int].0, value);
            }
            groups.push((self.groups[i].0.clone(), value));
        }
        proof {
            assert(self.groups@.take(self.groups@.len() as int) == self.groups@);
        }
        Model {
            bundle_version: self.bundle_version,
            factory_rule_set_version: self.factory_rule_set_version,
            rules: copy_rules(&self.rules),
            groups,
            disabled_domains_in_lists: copy_jsons(&self.disabled_domains_in_lists),
            disabled_host_names_in_lists: copy_jsons(&self.disabled_host_names_in_lists),
            disabled_ip_address_ranges_in_lists: copy_jsons(
                &self.disabled_ip_address_ranges_in_lists,
            ),
            rest: copy_members(&self.rest),
        }
    }
}

} // verus!
