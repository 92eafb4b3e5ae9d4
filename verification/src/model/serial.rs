//! The JSON form of rules, groups and the whole rule set. A field that is not
//! set is left out.

use vstd::prelude::*;
use crate::assoc::{last_position, lemma_last_position};
use crate::json::{
    jsons, lemma_array_view, lemma_object_view, member, members_view, Json, JsonView,
};
use crate::model::{
    copy_jsons, copy_members, groups_view, opt_strings, Group, GroupView, Model, ModelView, Rule,
    RuleView, StringOrVec, StringsView,
};
use crate::text::{decimal, opt_text, texts};

verus! {

/// The members of an object with one more, if there is a value for it.
pub open spec fn put(
    m: Map<Seq<char>, JsonView>,
    key: Seq<char>,
    value: Option<JsonView>,
) -> Map<Seq<char>, JsonView> {
    match value {
        Some(v) => m.insert(key, v),
        None => m,
    }
}

/// The JSON form of an optional text.
pub open spec fn text_json(o: Option<Seq<char>>) -> Option<JsonView> {
    match o {
        Some(s) => Some(JsonView::Text(s)),
        None => None,
    }
}

/// The JSON form of an optional truth value.
pub open spec fn bool_json(o: Option<bool>) -> Option<JsonView> {
    match o {
        Some(b) => Some(JsonView::Bool(b)),
        None => None,
    }
}

/// The JSON form of an optional number.
pub open spec fn number_json(o: Option<u64>) -> Option<JsonView> {
    match o {
        Some(n) => Some(JsonView::Number(decimal(n as nat))),
        None => None,
    }
}

/// The JSON form of one text or a list of texts.
pub open spec fn strings_json(o: Option<StringsView>) -> Option<JsonView> {
    match o {
        Some(StringsView::One(s)) => Some(JsonView::Text(s)),
        Some(StringsView::Many(v)) => Some(
            JsonView::Array(Seq::new(v.len(), |i: int| JsonView::Text(v[i]))),
        ),
        None => None,
    }
}

/// Sets a member.
fn put_json(doc: &mut Json, key: &str, value: Json)
    requires
        old(doc)@ is Object,
    ensures
        final(doc)@ == JsonView::Object(put(old(doc)@->Object_0, key@, Some(value@))),
{
    doc.insert(key.to_owned(), value);
}

fn put_text(doc: &mut Json, key: &str, value: &Option<String>)
    requires
        old(doc)@ is Object,
    ensures
        final(doc)@ == JsonView::Object(
            put(old(doc)@->Object_0, key@, text_json(opt_text(*value))),
        ),
{
    if let Some(s) = value {
        doc.insert(key.to_owned(), Json::Text(s.clone()));
    }
}

fn put_bool(doc: &mut Json, key: &str, value: Option<bool>)
    requires
        old(doc)@ is Object,
    ensures
        final(doc)@ == JsonView::Object(put(old(doc)@->Object_0, key@, bool_json(value))),
{
    if let Some(b) = value {
        doc.insert(key.to_owned(), Json::Bool(b));
    }
}

fn put_number(doc: &mut Json, key: &str, value: Option<u64>)
    requires
        old(doc)@ is Object,
    ensures
        final(doc)@ == JsonView::Object(put(old(doc)@->Object_0, key@, number_json(value))),
{
    if let Some(n) = value {
        doc.insert(key.to_owned(), Json::number(n));
    }
}

fn put_strings(doc: &mut Json, key: &str, value: &Option<StringOrVec>)
    requires
        old(doc)@ is Object,
    ensures
        final(doc)@ == JsonView::Object(
            put(old(doc)@->Object_0, key@, strings_json(opt_strings(*value))),
        ),
{
    match value {
        Some(StringOrVec::One(s)) => {
            doc.insert(key.to_owned(), Json::Text(s.clone()));
        },
        Some(StringOrVec::Many(v)) => {
            let mut out: Vec<Json> = Vec::new();
            for i in 0..v.len()
                invariant
                    out.len() == i,
                    forall|j: int|
                        0 <= j < i ==> out@[j]@ == JsonView::Text((#[trigger] v@[j])@),
            {
                out.push(Json::Text(v[i].clone()));
            }
            proof {
                broadcast use lemma_array_view;

                assert(jsons(out@) =~= Seq::new(
                    texts(v@).len(),
                    |i: int| JsonView::Text(texts(v@)[i]),
                ));
            }
            doc.insert(key.to_owned(), Json::Array(out));
        },
        None => {},
    }
}

/// The JSON form of a rule. A member that the rule carries along without reading
/// it stands beside the others; a field of the rule takes its place.
pub open spec fn rule_json(r: RuleView) -> JsonView {
    let m = r.extra;
    let m = put(m, "action"@, Some(JsonView::Text(r.action.word())));
    let m = put(m, "creationDate"@, Some(JsonView::Text(r.creation_date)));
    let m = put(m, "modificationDate"@, Some(JsonView::Text(r.modification_date)));
    let m = put(m, "origin"@, Some(JsonView::Text(r.origin)));
    let m = put(
        m,
        "uid"@,
        match r.uid {
            Some(n) => Some(JsonView::Number(decimal(n as nat))),
            None => None,
        },
    );
    let m = put(m, "process"@, text_json(r.process));
    let m = put(
        m,
        "requiresTrustedSignatureForAnyProcess"@,
        bool_json(r.requires_trusted_signature_for_any_process),
    );
    let m = put(m, "remote"@, text_json(r.remote));
    let m = put(m, "remote-domains"@, strings_json(r.remote_domains));
    let m = put(m, "remote-hosts"@, strings_json(r.remote_hosts));
    let m = put(m, "remote-addresses"@, strings_json(r.remote_addresses));
    let m = put(
        m,
        "direction"@,
        match r.direction {
            Some(d) => Some(JsonView::Text(d.word())),
            None => None,
        },
    );
    let m = put(
        m,
        "priority"@,
        match r.priority {
            Some(d) => Some(JsonView::Text(d.word())),
            None => None,
        },
    );
    let m = put(m, "protocol"@, text_json(r.protocol));
    let m = put(m, "ports"@, text_json(r.ports));
    let m = put(m, "via"@, text_json(r.via));
    let m = put(m, "notes"@, text_json(r.notes));
    let m = put(m, "group"@, text_json(r.group));
    let m = put(m, "factoryID"@, text_json(r.factory_id));
    let m = put(m, "factoryHelpText"@, text_json(r.factory_help_text));
    let m = put(m, "protected"@, bool_json(r.protected));
    let m = put(m, "lastUsed"@, text_json(r.last_used));
    let m = put(m, "useCount"@, number_json(r.use_count));
    let m = put(m, "approved"@, bool_json(r.approved));
    let m = put(m, "hidden"@, bool_json(r.hidden));
    let m = put(m, "owner"@, text_json(r.owner));
    JsonView::Object(m)
}

/// The JSON form of a rule.
pub fn rule_to_json(r: &Rule) -> (doc: Json)
    ensures
        doc@ == rule_json(r@),
{
    let mut doc: Json = Json::Object(copy_members(&r.extra));
    proof {
        broadcast use lemma_object_view;

    }
    put_json(&mut doc, "action", Json::text(r.action.as_str()));
    put_json(&mut doc, "creationDate", Json::Text(r.creation_date.clone()));
    put_json(&mut doc, "modificationDate", Json::Text(r.modification_date.clone()));
    put_json(&mut doc, "origin", Json::Text(r.origin.0.clone()));
    if let Some(n) = r.uid {
        put_json(&mut doc, "uid", Json::number(n as u64));
    }
    put_text(&mut doc, "process", &r.process);
    put_bool(
        &mut doc,
        "requiresTrustedSignatureForAnyProcess",
        r.requires_trusted_signature_for_any_process,
    );
    put_text(&mut doc, "remote", &r.remote);
    put_strings(&mut doc, "remote-domains", &r.remote_domains);
    put_strings(&mut doc, "remote-hosts", &r.remote_hosts);
    put_strings(&mut doc, "remote-addresses", &r.remote_addresses);
    if let Some(d) = r.direction {
        put_json(&mut doc, "direction", Json::text(d.as_str()));
    }
    if let Some(d) = r.priority {
        put_json(&mut doc, "priority", Json::text(d.as_str()));
    }
    put_text(&mut doc, "protocol", &r.protocol);
    put_text(&mut doc, "ports", &r.ports);
    put_text(&mut doc, "via", &r.via);
    put_text(&mut doc, "notes", &r.notes);
    put_text(&mut doc, "group", &r.group);
    put_text(&mut doc, "factoryID", &r.factory_id);
    put_text(&mut doc, "factoryHelpText", &r.factory_help_text);
    put_bool(&mut doc, "protected", r.protected);
    put_text(&mut doc, "lastUsed", &r.last_used);
    put_number(&mut doc, "useCount", r.use_count);
    put_bool(&mut doc, "approved", r.approved);
    put_bool(&mut doc, "hidden", r.hidden);
    put_text(&mut doc, "owner", &r.owner);
    doc
}

/// The JSON form of a group.
pub open spec fn group_json(g: GroupView) -> JsonView {
    let m = g.extra;
    let m = put(m, "name"@, text_json(g.name));
    let m = put(m, "kind"@, text_json(g.kind));
    let m = put(m, "kindLegacy"@, text_json(g.kind_legacy));
    let m = put(m, "isActive"@, bool_json(g.is_active));
    let m = put(m, "updateInterval"@, number_json(g.update_interval));
    let m = put(
        m,
        "lastUpdateInvalidDomainsCount"@,
        number_json(g.last_update_invalid_domains_count),
    );
    JsonView::Object(m)
}

/// The JSON form of a group.
pub fn group_to_json(g: &Group) -> (doc: Json)
    ensures
        doc@ == group_json(g@),
{
    let mut doc: Json = Json::Object(copy_members(&g.extra));
    proof {
        broadcast use lemma_object_view;

    }
    put_text(&mut doc, "name", &g.name);
    put_text(&mut doc, "kind", &g.kind);
    put_text(&mut doc, "kindLegacy", &g.kind_legacy);
    put_bool(&mut doc, "isActive", g.is_active);
    put_number(&mut doc, "updateInterval", g.update_interval);
    put_number(
        &mut doc,
        "lastUpdateInvalidDomainsCount",
        g.last_update_invalid_domains_count,
    );
    doc
}

/// The JSON form of the groups, under their names.
pub open spec fn groups_json(m: Map<Seq<char>, GroupView>) -> JsonView {
    JsonView::Object(m.map_values(|g: GroupView| group_json(g)))
}

/// The JSON form of the rule set.
pub open spec fn model_json(v: ModelView) -> JsonView {
    let m = v.rest;
    let m = put(m, "bundleVersion"@, number_json(Some(v.bundle_version)));
    let m = put(m, "factoryRuleSetVersion"@, number_json(Some(v.factory_rule_set_version)));
    let m = put(
        m,
        "rules"@,
        Some(JsonView::Array(Seq::new(v.rules.len(), |i: int| rule_json(v.rules[i])))),
    );
    let m = put(m, "groups"@, Some(groups_json(v.groups)));
    let m = put(
        m,
        "disabledDomainsInLists"@,
        Some(JsonView::Array(v.disabled_domains_in_lists)),
    );
    let m = put(
        m,
        "disabledHostNamesInLists"@,
        Some(JsonView::Array(v.disabled_host_names_in_lists)),
    );
    let m = put(
        m,
        "disabledIPAddressRangesInLists"@,
        Some(JsonView::Array(v.disabled_ip_address_ranges_in_lists)),
    );
    JsonView::Object(m)
}

/// The JSON form of the rule set.
pub fn model_to_json(v: &Model) -> (doc: Json)
    ensures
        doc@ == model_json(v@),
{
    broadcast use {lemma_array_view, lemma_object_view};

    let mut doc: Json = Json::Object(copy_members(&v.rest));
    put_number(&mut doc, "bundleVersion", Some(v.bundle_version));
    put_number(&mut doc, "factoryRuleSetVersion", Some(v.factory_rule_set_version));
    let mut rules: Vec<Json> = Vec::new();
    for i in 0..v.rules.len()
        invariant
            rules.len() == i,
            forall|j: int| 0 <= j < i ==> rules@[j]@ == rule_json((#[trigger] v.rules@[j])@),
    {
        rules.push(rule_to_json(&v.rules[i]));
    }
    proof {
        assert(jsons(rules@) =~= Seq::new(v@.rules.len(), |i: int| rule_json(v@.rules[i])));
    }
    put_json(&mut doc, "rules", Json::Array(rules));
    let mut groups: Vec<(String, Json)> = Vec::new();
    for i in 0..v.groups.len()
        invariant
            groups.len() == i,
            forall|j: int| 0 <= j < i ==> groups@[j].0@ == (#[trigger] v.groups@[j]).0@,
            forall|j: int|
                0 <= j < i ==> groups@[j].1@ == group_json((#[trigger] v.groups@[j]).1@),
    {
        groups.push((v.groups[i].0.clone(), group_to_json(&v.groups[i].1)));
    }
    proof {
        lemma_groups_json(v.groups@, groups@);
    }
    put_json(&mut doc, "groups", Json::Object(groups));
    put_json(
        &mut doc,
        "disabledDomainsInLists",
        Json::Array(copy_jsons(&v.disabled_domains_in_lists)),
    );
    put_json(
        &mut doc,
        "disabledHostNamesInLists",
        Json::Array(copy_jsons(&v.disabled_host_names_in_lists)),
    );
    put_json(
        &mut doc,
        "disabledIPAddressRangesInLists",
        Json::Array(copy_jsons(&v.disabled_ip_address_ranges_in_lists)),
    );
    doc
}

proof fn lemma_same_positions<A, B>(a: Seq<(String, A)>, b: Seq<(String, B)>, key: Seq<char>)
    requires
        a.len() == b.len(),
        forall|j: int| 0 <= j < a.len() ==> b[j].0@ == (#[trigger] a[j]).0@,
    ensures
        last_position(a, key) == last_position(b, key),
    decreases a.len(),
{
    if a.len() > 0 {
        assert(b[a.len() - 1].0@ == a[a.len() - 1].0@);
        let (x, y) = (a.drop_last(), b.drop_last());
        assert forall|j: int| 0 <= j < x.len() implies y[j].0@ == (#[trigger] x[j]).0@ by {
            assert(b[j].0@ == a[j].0@);
        }
        lemma_same_positions(x, y, key);
    }
}

proof fn lemma_groups_json(v: Seq<(String, Group)>, w: Seq<(String, Json)>)
    requires
        v.len() == w.len(),
        forall|j: int| 0 <= j < v.len() ==> w[j].0@ == (#[trigger] v[j]).0@,
        forall|j: int| 0 <= j < v.len() ==> w[j].1@ == group_json((#[trigger] v[j]).1@),
    ensures
        JsonView::Object(members_view(w)) == groups_json(groups_view(v)),
{
    broadcast use lemma_last_position;

    let m = groups_view(v).map_values(|g: GroupView| group_json(g));
    assert forall|k: Seq<char>| #[trigger] members_view(w).dom().contains(k)
        <==> m.dom().contains(k) by {
        lemma_same_positions(v, w, k);
    }
    assert forall|k: Seq<char>| #[trigger] m.dom().contains(k) implies members_view(w)[k]
        == m[k] by {
        lemma_same_positions(v, w, k);
        let p = last_position(v, k);
        assert(w[p].1@ == group_json(v[p].1@));
    }
    assert(members_view(w) =~= m);
}

/// The members that the fields of a rule are written as, in their order.
spec fn rule_members(r: RuleView) -> Seq<(Seq<char>, Option<JsonView>)> {
    seq![
        ("action"@, Some(JsonView::Text(r.action.word()))),
        ("creationDate"@, Some(JsonView::Text(r.creation_date))),
        ("modificationDate"@, Some(JsonView::Text(r.modification_date))),
        ("origin"@, Some(JsonView::Text(r.origin))),
        (
            "uid"@,
            match r.uid {
                Some(n) => Some(JsonView::Number(decimal(n as nat))),
                None => None,
            },
        ),
        ("process"@, text_json(r.process)),
        (
            "requiresTrustedSignatureForAnyProcess"@,
            bool_json(r.requires_trusted_signature_for_any_process),
        ),
        ("remote"@, text_json(r.remote)),
        ("remote-domains"@, strings_json(r.remote_domains)),
        ("remote-hosts"@, strings_json(r.remote_hosts)),
        ("remote-addresses"@, strings_json(r.remote_addresses)),
        (
            "direction"@,
            match r.direction {
                Some(d) => Some(JsonView::Text(d.word())),
                None => None,
            },
        ),
        (
            "priority"@,
            match r.priority {
                Some(d) => Some(JsonView::Text(d.word())),
                None => None,
            },
        ),
        ("protocol"@, text_json(r.protocol)),
        ("ports"@, text_json(r.ports)),
        ("via"@, text_json(r.via)),
        ("notes"@, text_json(r.notes)),
        ("group"@, text_json(r.group)),
        ("factoryID"@, text_json(r.factory_id)),
        ("factoryHelpText"@, text_json(r.factory_help_text)),
        ("protected"@, bool_json(r.protected)),
        ("lastUsed"@, text_json(r.last_used)),
        ("useCount"@, number_json(r.use_count)),
        ("approved"@, bool_json(r.approved)),
        ("hidden"@, bool_json(r.hidden)),
        ("owner"@, text_json(r.owner)),
    ]
}

/// Some members with the first `n` of `v` put to them.
spec fn with_members(
    m: Map<Seq<char>, JsonView>,
    v: Seq<(Seq<char>, Option<JsonView>)>,
    n: nat,
) -> Map<Seq<char>, JsonView>
    decreases n,
{
    if n == 0 {
        m
    } else {
        put(with_members(m, v, (n - 1) as nat), v[n - 1].0, v[n - 1].1)
    }
}

/// A member whose key is put once is there with its value.
proof fn lemma_with_members(
    m: Map<Seq<char>, JsonView>,
    v: Seq<(Seq<char>, Option<JsonView>)>,
    n: nat,
    i: int,
)
    requires
        forall|j: int| 0 <= j < n && j != i ==> (#[trigger] v[j]).0 != v[i].0,
    ensures
        member(JsonView::Object(with_members(m, v, n)), v[i].0) == (if 0 <= i < n && v[i].1 is Some {
            v[i].1
        } else {
            member(JsonView::Object(m), v[i].0)
        }),
    decreases n,
{
    if n > 0 {
        lemma_with_members(m, v, (n - 1) as nat, i);
        assert(n - 1 != i ==> v[n - 1].0 != v[i].0);
    }
}

/// Where a text stands among the keys of a rule. Its length and its third character tell.
#[verifier::opaque]
spec fn rank(s: Seq<char>) -> int {
    let c = s[2];
    if s.len() == 6 {
        if c == 't' {
            0
        } else if c == 'i' {
            3
        } else if c == 'm' {
            7
        } else {
            24
        }
    } else if s.len() == 12 {
        if c == 'e' {
            1
        } else {
            9
        }
    } else if s.len() == 16 {
        if c == 'd' {
            2
        } else {
            10
        }
    } else if s.len() == 3 {
        if c == 'd' {
            4
        } else {
            15
        }
    } else if s.len() == 7 {
        5
    } else if s.len() == 37 {
        6
    } else if s.len() == 14 {
        8
    } else if s.len() == 9 {
        if c == 'r' {
            11
        } else if c == 'c' {
            18
        } else {
            20
        }
    } else if s.len() == 8 {
        if c == 'i' {
            12
        } else if c == 'o' {
            13
        } else if c == 's' {
            21
        } else if c == 'e' {
            22
        } else {
            23
        }
    } else if s.len() == 5 {
        if c == 'r' {
            14
        } else if c == 't' {
            16
        } else if c == 'o' {
            17
        } else {
            25
        }
    } else if s.len() == 15 {
        19
    } else {
        -1
    }
}

/// No two fields of a rule are written under the same key.
proof fn lemma_ranks(r: RuleView)
    ensures
        rule_members(r).len() == 26,
        forall|i: int| 0 <= i < 26 ==> rank((#[trigger] rule_members(r)[i]).0) == i,
{
    reveal(rank);
    reveal_strlit("action");
    reveal_strlit("creationDate");
    reveal_strlit("modificationDate");
    reveal_strlit("origin");
    reveal_strlit("uid");
    reveal_strlit("process");
    reveal_strlit("requiresTrustedSignatureForAnyProcess");
    reveal_strlit("remote");
    reveal_strlit("remote-domains");
    reveal_strlit("remote-hosts");
    reveal_strlit("remote-addresses");
    reveal_strlit("direction");
    reveal_strlit("priority");
    reveal_strlit("protocol");
    reveal_strlit("ports");
    reveal_strlit("via");
    reveal_strlit("notes");
    reveal_strlit("group");
    reveal_strlit("factoryID");
    reveal_strlit("factoryHelpText");
    reveal_strlit("protected");
    reveal_strlit("lastUsed");
    reveal_strlit("useCount");
    reveal_strlit("approved");
    reveal_strlit("hidden");
    reveal_strlit("owner");
    assert(rank(rule_members(r)[0].0) == 0);
    assert(rank(rule_members(r)[1].0) == 1);
    assert(rank(rule_members(r)[2].0) == 2);
    assert(rank(rule_members(r)[3].0) == 3);
    assert(rank(rule_members(r)[4].0) == 4);
    assert(rank(rule_members(r)[5].0) == 5);
    assert(rank(rule_members(r)[6].0) == 6);
    assert(rank(rule_members(r)[7].0) == 7);
    assert(rank(rule_members(r)[8].0) == 8);
    assert(rank(rule_members(r)[9].0) == 9);
    assert(rank(rule_members(r)[10].0) == 10);
    assert(rank(rule_members(r)[11].0) == 11);
    assert(rank(rule_members(r)[12].0) == 12);
    assert(rank(rule_members(r)[13].0) == 13);
    assert(rank(rule_members(r)[14].0) == 14);
    assert(rank(rule_members(r)[15].0) == 15);
    assert(rank(rule_members(r)[16].0) == 16);
    assert(rank(rule_members(r)[17].0) == 17);
    assert(rank(rule_members(r)[18].0) == 18);
    assert(rank(rule_members(r)[19].0) == 19);
    assert(rank(rule_members(r)[20].0) == 20);
    assert(rank(rule_members(r)[21].0) == 21);
    assert(rank(rule_members(r)[22].0) == 22);
    assert(rank(rule_members(r)[23].0) == 23);
    assert(rank(rule_members(r)[24].0) == 24);
    assert(rank(rule_members(r)[25].0) == 25);
}

/// Each field of a rule stands in its JSON form under its own key, and one that is not set
/// has no member there but one that the rule carries along.
pub proof fn law_rule_json_has_every_field(r: RuleView)
    ensures
        ({
            let j = rule_json(r);
            let carried = JsonView::Object(r.extra);
            &&& member(j, "action"@) == Some(JsonView::Text(r.action.word()))
            &&& member(j, "creationDate"@) == Some(JsonView::Text(r.creation_date))
            &&& member(j, "modificationDate"@) == Some(JsonView::Text(r.modification_date))
            &&& member(j, "origin"@) == Some(JsonView::Text(r.origin))
            &&& member(j, "uid"@) == (match r.uid {
                Some(x) => Some(JsonView::Number(decimal(x as nat))),
                None => member(carried, "uid"@),
            })
            &&& member(j, "process"@) == (match r.process {
                Some(x) => Some(JsonView::Text(x)),
                None => member(carried, "process"@),
            })
            &&& member(j, "requiresTrustedSignatureForAnyProcess"@) == (match r.requires_trusted_signature_for_any_process {
                Some(x) => Some(JsonView::Bool(x)),
                None => member(carried, "requiresTrustedSignatureForAnyProcess"@),
            })
            &&& member(j, "remote"@) == (match r.remote {
                Some(x) => Some(JsonView::Text(x)),
                None => member(carried, "remote"@),
            })
            &&& member(j, "remote-domains"@) == (match r.remote_domains {
                Some(x) => strings_json(Some(x)),
                None => member(carried, "remote-domains"@),
            })
            &&& member(j, "remote-hosts"@) == (match r.remote_hosts {
                Some(x) => strings_json(Some(x)),
                None => member(carried, "remote-hosts"@),
            })
            &&& member(j, "remote-addresses"@) == (match r.remote_addresses {
                Some(x) => strings_json(Some(x)),
                None => member(carried, "remote-addresses"@),
            })
            &&& member(j, "direction"@) == (match r.direction {
                Some(x) => Some(JsonView::Text(x.word())),
                None => member(carried, "direction"@),
            })
            &&& member(j, "priority"@) == (match r.priority {
                Some(x) => Some(JsonView::Text(x.word())),
                None => member(carried, "priority"@),
            })
            &&& member(j, "protocol"@) == (match r.protocol {
                Some(x) => Some(JsonView::Text(x)),
                None => member(carried, "protocol"@),
            })
            &&& member(j, "ports"@) == (match r.ports {
                Some(x) => Some(JsonView::Text(x)),
                None => member(carried, "ports"@),
            })
            &&& member(j, "via"@) == (match r.via {
                Some(x) => Some(JsonView::Text(x)),
                None => member(carried, "via"@),
            })
            &&& member(j, "notes"@) == (match r.notes {
                Some(x) => Some(JsonView::Text(x)),
                None => member(carried, "notes"@),
            })
            &&& member(j, "group"@) == (match r.group {
                Some(x) => Some(JsonView::Text(x)),
                None => member(carried, "group"@),
            })
            &&& member(j, "factoryID"@) == (match r.factory_id {
                Some(x) => Some(JsonView::Text(x)),
                None => member(carried, "factoryID"@),
            })
            &&& member(j, "factoryHelpText"@) == (match r.factory_help_text {
                Some(x) => Some(JsonView::Text(x)),
                None => member(carried, "factoryHelpText"@),
            })
            &&& member(j, "protected"@) == (match r.protected {
                Some(x) => Some(JsonView::Bool(x)),
                None => member(carried, "protected"@),
            })
            &&& member(j, "lastUsed"@) == (match r.last_used {
                Some(x) => Some(JsonView::Text(x)),
                None => member(carried, "lastUsed"@),
            })
            &&& member(j, "useCount"@) == (match r.use_count {
                Some(x) => Some(JsonView::Number(decimal(x as nat))),
                None => member(carried, "useCount"@),
            })
            &&& member(j, "approved"@) == (match r.approved {
                Some(x) => Some(JsonView::Bool(x)),
                None => member(carried, "approved"@),
            })
            &&& member(j, "hidden"@) == (match r.hidden {
                Some(x) => Some(JsonView::Bool(x)),
                None => member(carried, "hidden"@),
            })
            &&& member(j, "owner"@) == (match r.owner {
                Some(x) => Some(JsonView::Text(x)),
                None => member(carried, "owner"@),
            })
        }),
{
    let v = rule_members(r);
    lemma_ranks(r);
    assert(rule_json(r) == JsonView::Object(with_members(r.extra, v, 26))) by {
        reveal_with_fuel(with_members, 27);
    }
    assert forall|i: int| 0 <= i < 26 implies member(rule_json(r), (#[trigger] v[i]).0) == (
    if v[i].1 is Some {
        v[i].1
    } else {
        member(JsonView::Object(r.extra), v[i].0)
    }) by {
        lemma_with_members(r.extra, v, 26, i);
    }
    assert(v[0].0 == "action"@);
    assert(v[1].0 == "creationDate"@);
    assert(v[2].0 == "modificationDate"@);
    assert(v[3].0 == "origin"@);
    assert(v[4].0 == "uid"@);
    assert(v[5].0 == "process"@);
    assert(v[6].0 == "requiresTrustedSignatureForAnyProcess"@);
    assert(v[7].0 == "remote"@);
    assert(v[8].0 == "remote-domains"@);
    assert(v[9].0 == "remote-hosts"@);
    assert(v[10].0 == "remote-addresses"@);
    assert(v[11].0 == "direction"@);
    assert(v[12].0 == "priority"@);
    assert(v[13].0 == "protocol"@);
    assert(v[14].0 == "ports"@);
    assert(v[15].0 == "via"@);
    assert(v[16].0 == "notes"@);
    assert(v[17].0 == "group"@);
    assert(v[18].0 == "factoryID"@);
    assert(v[19].0 == "factoryHelpText"@);
    assert(v[20].0 == "protected"@);
    assert(v[21].0 == "lastUsed"@);
    assert(v[22].0 == "useCount"@);
    assert(v[23].0 == "approved"@);
    assert(v[24].0 == "hidden"@);
    assert(v[25].0 == "owner"@);
}

/// Each field of a group stands in its JSON form under its own key, and one that is not set
/// has no member there but one that the group carries along.
pub proof fn law_group_json_has_every_field(g: GroupView)
    ensures
        ({
            let j = group_json(g);
            let carried = JsonView::Object(g.extra);
            &&& member(j, "name"@) == (match g.name {
                Some(x) => Some(JsonView::Text(x)),
                None => member(carried, "name"@),
            })
            &&& member(j, "kind"@) == (match g.kind {
                Some(x) => Some(JsonView::Text(x)),
                None => member(carried, "kind"@),
            })
            &&& member(j, "kindLegacy"@) == (match g.kind_legacy {
                Some(x) => Some(JsonView::Text(x)),
                None => member(carried, "kindLegacy"@),
            })
            &&& member(j, "isActive"@) == (match g.is_active {
                Some(x) => Some(JsonView::Bool(x)),
                None => member(carried, "isActive"@),
            })
            &&& member(j, "updateInterval"@) == (match g.update_interval {
                Some(x) => Some(JsonView::Number(decimal(x as nat))),
                None => member(carried, "updateInterval"@),
            })
            &&& member(j, "lastUpdateInvalidDomainsCount"@) == (match g.last_update_invalid_domains_count {
                Some(x) => Some(JsonView::Number(decimal(x as nat))),
                None => member(carried, "lastUpdateInvalidDomainsCount"@),
            })
        }),
{
    reveal_strlit("name");
    reveal_strlit("kind");
    reveal_strlit("kindLegacy");
    reveal_strlit("isActive");
    reveal_strlit("updateInterval");
    reveal_strlit("lastUpdateInvalidDomainsCount");
    assert("name"@[0] == 'n' && "kind"@[0] == 'k');
    assert("name"@.len() == 4 && "kind"@.len() == 4 && "kindLegacy"@.len() == 10);
    assert("isActive"@.len() == 8 && "updateInterval"@.len() == 14);
    assert("lastUpdateInvalidDomainsCount"@.len() == 29);
}

/// Everything in a rule set stands in its JSON form under its own key: the versions, the rules
/// in their order, the groups under their keys, and the three lists.
pub proof fn law_model_json_has_everything(v: ModelView)
    ensures
        ({
            let j = model_json(v);
            &&& member(j, "bundleVersion"@) == Some(
                JsonView::Number(decimal(v.bundle_version as nat)),
            )
            &&& member(j, "factoryRuleSetVersion"@) == Some(
                JsonView::Number(decimal(v.factory_rule_set_version as nat)),
            )
            &&& member(j, "rules"@) matches Some(JsonView::Array(rules)) && rules.len()
                == v.rules.len() && forall|i: int|
                0 <= i < rules.len() ==> #[trigger] rules[i] == rule_json(v.rules[i])
            &&& member(j, "groups"@) matches Some(JsonView::Object(groups)) && groups.dom()
                == v.groups.dom() && forall|id: Seq<char>| #[trigger]
                groups.dom().contains(id) ==> groups[id] == group_json(v.groups[id])
            &&& member(j, "disabledDomainsInLists"@) == Some(
                JsonView::Array(v.disabled_domains_in_lists),
            )
            &&& member(j, "disabledHostNamesInLists"@) == Some(
                JsonView::Array(v.disabled_host_names_in_lists),
            )
            &&& member(j, "disabledIPAddressRangesInLists"@) == Some(
                JsonView::Array(v.disabled_ip_address_ranges_in_lists),
            )
        }),
{
    reveal_strlit("bundleVersion");
    reveal_strlit("factoryRuleSetVersion");
    reveal_strlit("rules");
    reveal_strlit("groups");
    reveal_strlit("disabledDomainsInLists");
    reveal_strlit("disabledHostNamesInLists");
    reveal_strlit("disabledIPAddressRangesInLists");
    assert("bundleVersion"@.len() == 13);
    assert("factoryRuleSetVersion"@.len() == 21);
    assert("rules"@.len() == 5);
    assert("groups"@.len() == 6);
    assert("disabledDomainsInLists"@.len() == 22);
    assert("disabledHostNamesInLists"@.len() == 24);
    assert("disabledIPAddressRangesInLists"@.len() == 30);
    let groups = member(model_json(v), "groups"@)->0->Object_0;
    assert(groups.dom() =~= v.groups.dom());
}

} // verus!
