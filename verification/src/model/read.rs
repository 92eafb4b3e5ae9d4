//! Reading rules, groups and the whole rule set from their JSON form. What is not read
//! is carried along.

use vstd::prelude::*;
use crate::assoc::{find_key, last_position, lemma_last_position};
use crate::json::{
    bool_of, items_of, jsons, lemma_array_view, lemma_members_push, lemma_object_view, member,
    members_view, text_of, Json, JsonView,
};
use crate::model::serial::{
    bool_json, group_json, groups_json, model_json, number_json, put, rule_json, strings_json,
    text_json,
};
use crate::model::{
    copy_jsons, groups_view, has_distinct_keys, opt_strings, rules_view, Action, Direction, Group,
    GroupView, Model, ModelView,
    Origin, Priority, Rule, RuleView, StringOrVec, StringsView,
};
use crate::text::{
    concat, decimal, lemma_parse_decimal, opt_text, parse_number, parsed_number, str_eq, texts,
    u64_to_string,
};

verus! {

/// The action that a word stands for.
pub open spec fn action_named(word: Seq<char>) -> Option<Action> {
    if word == "allow"@ {
        Some(Action::Allow)
    } else if word == "deny"@ {
        Some(Action::Deny)
    } else if word == "ask"@ {
        Some(Action::Ask)
    } else {
        None
    }
}

/// The action that a word stands for.
pub fn parse_action(word: &str) -> (r: Option<Action>)
    ensures
        r == action_named(word@),
{
    if str_eq(word, "allow") {
        Some(Action::Allow)
    } else if str_eq(word, "deny") {
        Some(Action::Deny)
    } else if str_eq(word, "ask") {
        Some(Action::Ask)
    } else {
        None
    }
}

/// The number that a value is, if it is one.
pub open spec fn number_of(v: Option<JsonView>) -> Option<u64> {
    match v {
        Some(JsonView::Number(t)) => match parsed_number(t, u64::MAX as nat) {
            Some(n) => if decimal(n) == t {
                Some(n as u64)
            } else {
                None
            },
            None => None,
        },
        _ => None,
    }
}

/// The number that a value is, if it is one of at most 32 bits.
pub open spec fn small_number_of(v: Option<JsonView>) -> Option<u32> {
    match number_of(v) {
        Some(n) => if n <= u32::MAX {
            Some(n as u32)
        } else {
            None
        },
        None => None,
    }
}

/// Whether every value is a text.
pub open spec fn are_texts(v: Seq<JsonView>) -> bool {
    forall|i: int| 0 <= i < v.len() ==> (#[trigger] v[i]) is Text
}

/// One text or a list of texts, if a value is that.
pub open spec fn strings_of(v: Option<JsonView>) -> Option<StringsView> {
    match v {
        Some(JsonView::Text(s)) => Some(StringsView::One(s)),
        Some(JsonView::Array(a)) => if are_texts(a) {
            Some(StringsView::Many(Seq::new(a.len(), |i: int| a[i]->Text_0)))
        } else {
            None
        },
        _ => None,
    }
}

/// The direction that a value names, if it names one.
pub open spec fn direction_of(v: Option<JsonView>) -> Option<Direction> {
    if text_of(v) == Some("incoming"@) {
        Some(Direction::Incoming)
    } else if text_of(v) == Some("outgoing"@) {
        Some(Direction::Outgoing)
    } else if text_of(v) == Some("both"@) {
        Some(Direction::Both)
    } else {
        None
    }
}

/// The tier that a value names, if it names one.
pub open spec fn priority_of(v: Option<JsonView>) -> Option<Priority> {
    if text_of(v) == Some("high"@) {
        Some(Priority::High)
    } else if text_of(v) == Some("regular"@) {
        Some(Priority::Regular)
    } else {
        None
    }
}

/// What a member has to be.
#[derive(Debug, Clone, Copy, PartialEq, Eq, Structural)]
pub enum Shape {
    Text,
    OptText,
    OptBool,
    Number,
    OptNumber,
    OptSmallNumber,
    OptStrings,
    Action,
    OptDirection,
    OptPriority,
    Array,
    Object,
}

/// Whether a member is what it has to be. One that may be left out may be `null` too.
pub open spec fn has_shape(v: Option<JsonView>, shape: Shape) -> bool {
    let absent = v is None || v == Some(JsonView::Null);
    match shape {
        Shape::Text => text_of(v) is Some,
        Shape::OptText => absent || text_of(v) is Some,
        Shape::OptBool => absent || v->0 is Bool,
        Shape::Number => number_of(v) is Some,
        Shape::OptNumber => absent || number_of(v) is Some,
        Shape::OptSmallNumber => absent || small_number_of(v) is Some,
        Shape::OptStrings => absent || strings_of(v) is Some,
        Shape::Action => text_of(v) is Some && action_named(text_of(v)->0) is Some,
        Shape::OptDirection => absent || direction_of(v) is Some,
        Shape::OptPriority => absent || priority_of(v) is Some,
        Shape::Array => items_of(v) is Some,
        Shape::Object => v is Some && v->0 is Object,
    }
}

fn opt_text_in(j: &Json, key: &str) -> (r: Option<String>)
    ensures
        opt_text(r) == text_of(member(j@, key@)),
{
    match j.text_member(key) {
        Some(s) => Some(s.clone()),
        None => None,
    }
}

fn text_in(j: &Json, key: &str) -> (r: String)
    requires
        text_of(member(j@, key@)) is Some,
    ensures
        r@ == text_of(member(j@, key@))->0,
{
    match j.text_member(key) {
        Some(s) => s.clone(),
        None => String::new(),
    }
}

fn action_in(j: &Json, key: &str) -> (r: Action)
    requires
        has_shape(member(j@, key@), Shape::Action),
    ensures
        r == action_named(text_of(member(j@, key@))->0)->0,
{
    match parse_action(text_in(j, key).as_str()) {
        Some(a) => a,
        None => Action::Ask,
    }
}

fn bool_in(j: &Json, key: &str) -> (r: Option<bool>)
    ensures
        r == bool_of(member(j@, key@)),
{
    match j.get(key) {
        Some(v) => v.as_bool(),
        None => None,
    }
}

fn number_in(j: &Json, key: &str) -> (r: Option<u64>)
    ensures
        r == number_of(member(j@, key@)),
{
    match j.get(key) {
        Some(Json::Number(n)) => {
            let t: String = n.to_text();
            match parse_number(t.as_str(), u64::MAX) {
                Some(k) => if str_eq(u64_to_string(k).as_str(), t.as_str()) {
                    Some(k)
                } else {
                    None
                },
                None => None,
            }
        },
        _ => None,
    }
}

fn small_number_in(j: &Json, key: &str) -> (r: Option<u32>)
    ensures
        r == small_number_of(member(j@, key@)),
{
    match number_in(j, key) {
        Some(n) => if n <= u32::MAX as u64 {
            Some(n as u32)
        } else {
            None
        },
        None => None,
    }
}

fn copy_texts(v: &Vec<Json>) -> (r: Option<Vec<String>>)
    ensures
        match r {
            Some(t) => are_texts(jsons(v@)) && texts(t@) == Seq::new(
                v@.len(),
                |i: int| jsons(v@)[i]->Text_0,
            ),
            None => !are_texts(jsons(v@)),
        },
{
    let mut out: Vec<String> = Vec::new();
    let ghost a = jsons(v@);
    for i in 0..v.len()
        invariant
            a == jsons(v@),
            out.len() == i,
            forall|k: int| 0 <= k < i ==> (#[trigger] a[k]) is Text && out@[k]@ == a[k]->Text_0,
    {
        match &v[i] {
            Json::Text(s) => {
                out.push(s.clone());
            },
            _ => {
                proof {
                    assert(!(a[i as int] is Text));
                }
                return None;
            },
        }
    }
    proof {
        assert(texts(out@) =~= Seq::new(a.len(), |i: int| a[i]->Text_0));
    }
    Some(out)
}

fn strings_in(j: &Json, key: &str) -> (r: Option<StringOrVec>)
    ensures
        opt_strings(r) == strings_of(member(j@, key@)),
{
    broadcast use lemma_array_view;

    match j.get(key) {
        Some(Json::Text(s)) => Some(StringOrVec::One(s.clone())),
        Some(Json::Array(v)) => match copy_texts(v) {
            Some(t) => Some(StringOrVec::Many(t)),
            None => None,
        },
        _ => None,
    }
}

fn direction_in(j: &Json, key: &str) -> (r: Option<Direction>)
    ensures
        r == direction_of(member(j@, key@)),
{
    match j.text_member(key) {
        Some(s) => if str_eq(s.as_str(), "incoming") {
            Some(Direction::Incoming)
        } else if str_eq(s.as_str(), "outgoing") {
            Some(Direction::Outgoing)
        } else if str_eq(s.as_str(), "both") {
            Some(Direction::Both)
        } else {
            None
        },
        None => None,
    }
}

fn priority_in(j: &Json, key: &str) -> (r: Option<Priority>)
    ensures
        r == priority_of(member(j@, key@)),
{
    match j.text_member(key) {
        Some(s) => if str_eq(s.as_str(), "high") {
            Some(Priority::High)
        } else if str_eq(s.as_str(), "regular") {
            Some(Priority::Regular)
        } else {
            None
        },
        None => None,
    }
}

fn is_absent(j: &Json, key: &str) -> (r: bool)
    ensures
        r == (member(j@, key@) is None || member(j@, key@) == Some(JsonView::Null)),
{
    match j.get(key) {
        None => true,
        Some(Json::Null) => true,
        _ => false,
    }
}

fn fits(j: &Json, key: &str, shape: Shape) -> (r: bool)
    ensures
        r == has_shape(member(j@, key@), shape),
{
    let absent: bool = is_absent(j, key);
    match shape {
        Shape::Text => j.text_member(key).is_some(),
        Shape::OptText => absent || j.text_member(key).is_some(),
        Shape::OptBool => absent || bool_in(j, key).is_some(),
        Shape::Number => number_in(j, key).is_some(),
        Shape::OptNumber => absent || number_in(j, key).is_some(),
        Shape::OptSmallNumber => absent || small_number_in(j, key).is_some(),
        Shape::OptStrings => absent || strings_in(j, key).is_some(),
        Shape::Action => match j.text_member(key) {
            Some(s) => parse_action(s.as_str()).is_some(),
            None => false,
        },
        Shape::OptDirection => absent || direction_in(j, key).is_some(),
        Shape::OptPriority => absent || priority_in(j, key).is_some(),
        Shape::Array => j.array_member(key).is_some(),
        Shape::Object => match j.get(key) {
            Some(v) => v.is_object(),
            None => false,
        },
    }
}

/// The first member that is not what it has to be.
pub open spec fn misfit(j: JsonView, shapes: Seq<(Seq<char>, Shape)>) -> Option<Seq<char>>
    decreases shapes.len(),
{
    if shapes.len() == 0 {
        None
    } else {
        match misfit(j, shapes.drop_last()) {
            Some(key) => Some(key),
            None => if has_shape(member(j, shapes.last().0), shapes.last().1) {
                None
            } else {
                Some(shapes.last().0)
            },
        }
    }
}

proof fn lemma_no_misfit(j: JsonView, shapes: Seq<(Seq<char>, Shape)>)
    requires
        misfit(j, shapes) is None,
    ensures
        forall|i: int|
            0 <= i < shapes.len() ==> has_shape(
                member(j, (#[trigger] shapes[i]).0),
                shapes[i].1,
            ),
    decreases shapes.len(),
{
    if shapes.len() > 0 {
        let k = shapes.drop_last();
        lemma_no_misfit(j, k);
        assert forall|i: int| 0 <= i < shapes.len() implies has_shape(
            member(j, (#[trigger] shapes[i]).0),
            shapes[i].1,
        ) by {
            if i < k.len() {
                assert(k[i] == shapes[i]);
            }
        }
    }
}

/// The names and shapes of some members.
pub open spec fn table(v: Seq<(&'static str, Shape)>) -> Seq<(Seq<char>, Shape)> {
    Seq::new(v.len(), |i: int| (v[i].0@, v[i].1))
}

fn find_misfit(j: &Json, t: &Vec<(&'static str, Shape)>) -> (r: Option<&'static str>)
    ensures
        match r {
            Some(key) => misfit(j@, table(t@)) == Some(key@),
            None => misfit(j@, table(t@)) is None,
        },
{
    let ghost shapes = table(t@);
    proof {
        assert(shapes.take(0) == Seq::<(Seq<char>, Shape)>::empty());
    }
    for i in 0..t.len()
        invariant
            shapes == table(t@),
            misfit(j@, shapes.take(i as int)) is None,
    {
        let (key, shape): (&'static str, Shape) = t[i];
        proof {
            assert(shapes.take(i + 1).drop_last() == shapes.take(i as int));
            assert(shapes.take(i + 1).last() == (key@, shape));
        }
        if !fits(j, key, shape) {
            proof {
                lemma_misfit_stays(j@, shapes, i + 1);
            }
            return Some(key);
        }
    }
    proof {
        assert(shapes.take(shapes.len() as int) == shapes);
    }
    None
}

proof fn lemma_misfit_stays(j: JsonView, shapes: Seq<(Seq<char>, Shape)>, n: int)
    requires
        0 <= n <= shapes.len(),
        misfit(j, shapes.take(n)) is Some,
    ensures
        misfit(j, shapes) == misfit(j, shapes.take(n)),
    decreases shapes.len() - n,
{
    if n < shapes.len() {
        assert(shapes.take(n + 1).drop_last() == shapes.take(n));
        lemma_misfit_stays(j, shapes, n + 1);
    } else {
        assert(shapes.take(n) == shapes);
    }
}

/// That a member is not what it has to be.
pub open spec fn bad_field(key: Seq<char>) -> Seq<char> {
    "missing or invalid field `"@ + key + "`"@
}

fn write_bad_field(key: &str) -> (r: String)
    ensures
        r@ == bad_field(key@),
{
    let mut out: String = concat("missing or invalid field `", key);
    out.push_str("`");
    out
}

/// Whether a name is one of some members.
pub open spec fn is_named(key: Seq<char>, shapes: Seq<(Seq<char>, Shape)>) -> bool {
    exists|i: int| 0 <= i < shapes.len() && (#[trigger] shapes[i]).0 == key
}

/// The members of an object that are not read.
pub open spec fn unread(j: JsonView, shapes: Seq<(Seq<char>, Shape)>) -> Map<Seq<char>, JsonView> {
    unread_of(
        if j is Object {
            j->Object_0
        } else {
            Map::empty()
        },
        shapes,
    )
}

/// The members that are not read.
pub open spec fn unread_of(m: Map<Seq<char>, JsonView>, shapes: Seq<(Seq<char>, Shape)>) -> Map<
    Seq<char>,
    JsonView,
> {
    Map::new(|k: Seq<char>| m.dom().contains(k) && !is_named(k, shapes), |k: Seq<char>| m[k])
}

fn names(t: &Vec<(&'static str, Shape)>, key: &str) -> (r: bool)
    ensures
        r == is_named(key@, table(t@)),
{
    for i in 0..t.len()
        invariant
            forall|k: int| 0 <= k < i ==> (#[trigger] table(t@)[k]).0 != key@,
    {
        if str_eq(t[i].0, key) {
            proof {
                assert(table(t@)[i as int].0 == key@);
            }
            return true;
        }
        proof {
            assert(table(t@)[i as int].0 != key@);
        }
    }
    false
}

fn copy_unread(j: &Json, t: &Vec<(&'static str, Shape)>) -> (r: Vec<(String, Json)>)
    ensures
        members_view(r@) == unread(j@, table(t@)),
{
    broadcast use lemma_object_view;

    let mut out: Vec<(String, Json)> = Vec::new();
    let ghost shapes = table(t@);
    proof {
        assert(members_view(out@) =~= Map::empty());
    }
    match j {
        Json::Object(v) => {
            proof {
                assert(v@.take(0) =~= Seq::empty());
                assert(members_view(v@.take(0)) =~= Map::empty());
                assert(unread_of(members_view(v@.take(0)), shapes) =~= Map::empty());
            }
            for i in 0..v.len()
                invariant
                    shapes == table(t@),
                    members_view(out@) == unread_of(members_view(v@.take(i as int)), shapes),
            {
                let ghost m = members_view(v@.take(i as int));
                proof {
                    assert(v@.take(i + 1) =~= v@.take(i as int).push(v@[i as int]));
                    lemma_members_push(v@.take(i as int), v@[i as int].0, v@[i as int].1);
                }
                let listed: bool = names(t, v[i].0.as_str());
                if !listed {
                    let value: Json = v[i].1.copy();
                    proof {
                        lemma_members_push(out@, v@[i as int].0, value);
                    }
                    out.push((v[i].0.clone(), value));
                }
                proof {
                    assert(members_view(out@) =~= unread_of(
                        m.insert(v@[i as int].0@, v@[i as int].1@),
                        shapes,
                    ));
                }
            }
            proof {
                assert(v@.take(v@.len() as int) == v@);
            }
        },
        _ => {
            proof {
                assert(unread(j@, shapes) =~= Map::empty());
            }
        },
    }
    out
}

/// Whether none of some members is there and `null`.
pub open spec fn has_no_null(j: JsonView, shapes: Seq<(Seq<char>, Shape)>) -> bool {
    forall|i: int|
        0 <= i < shapes.len() ==> member(j, (#[trigger] shapes[i]).0) != Some(JsonView::Null)
}

/// How a member is written that was read.
pub open spec fn rewritten(v: Option<JsonView>, shape: Shape) -> Option<JsonView> {
    match shape {
        Shape::Text => Some(JsonView::Text(text_of(v)->0)),
        Shape::OptText => text_json(text_of(v)),
        Shape::OptBool => bool_json(bool_of(v)),
        Shape::Number => number_json(Some(number_of(v)->0)),
        Shape::OptNumber => number_json(number_of(v)),
        Shape::OptSmallNumber => match small_number_of(v) {
            Some(n) => Some(JsonView::Number(decimal(n as nat))),
            None => None,
        },
        Shape::OptStrings => strings_json(strings_of(v)),
        Shape::Action => Some(JsonView::Text(action_named(text_of(v)->0)->0.word())),
        Shape::OptDirection => match direction_of(v) {
            Some(d) => Some(JsonView::Text(d.word())),
            None => None,
        },
        Shape::OptPriority => match priority_of(v) {
            Some(p) => Some(JsonView::Text(p.word())),
            None => None,
        },
        Shape::Array | Shape::Object => v,
    }
}

/// A member is written as it was read.
proof fn lemma_rewritten(v: Option<JsonView>, shape: Shape)
    requires
        has_shape(v, shape),
        v != Some(JsonView::Null),
    ensures
        rewritten(v, shape) == v,
{
    if let Some(JsonView::Array(a)) = v {
        if are_texts(a) {
            let t = Seq::new(a.len(), |i: int| a[i]->Text_0);
            assert(Seq::new(t.len(), |i: int| JsonView::Text(t[i])) =~= a);
        }
    }
}

/// What is not read of an object, with the first `n` of the members that are written over it.
spec fn rebuilt(j: JsonView, shapes: Seq<(Seq<char>, Shape)>, n: nat) -> Map<Seq<char>, JsonView>
    decreases n,
{
    if n == 0 {
        unread(j, shapes)
    } else {
        let (key, shape) = shapes[n - 1];
        put(rebuilt(j, shapes, (n - 1) as nat), key, rewritten(member(j, key), shape))
    }
}

/// Nothing is written that was not there, and everything that is not read or was written is
/// there again.
proof fn lemma_rebuilt(j: JsonView, shapes: Seq<(Seq<char>, Shape)>, n: nat)
    requires
        n <= shapes.len(),
        j is Object,
        misfit(j, shapes) is None,
        has_no_null(j, shapes),
    ensures
        ({
            let (m, o) = (rebuilt(j, shapes, n), j->Object_0);
            &&& forall|k: Seq<char>| #[trigger]
                m.dom().contains(k) ==> o.dom().contains(k) && m[k] == o[k]
            &&& forall|k: Seq<char>| #[trigger]
                o.dom().contains(k) && !is_named(k, shapes) ==> m.dom().contains(k)
            &&& forall|i: int|
                0 <= i < n && o.dom().contains((#[trigger] shapes[i]).0) ==> m.dom().contains(
                    shapes[i].0,
                )
        }),
    decreases n,
{
    if n > 0 {
        let before = (n - 1) as nat;
        let (key, shape) = shapes[before as int];
        lemma_rebuilt(j, shapes, before);
        lemma_no_misfit(j, shapes);
        lemma_rewritten(member(j, key), shape);
        assert(rebuilt(j, shapes, n) == put(rebuilt(j, shapes, before), key, member(j, key)));
    }
}

/// An object that is read is written again as it was.
proof fn lemma_all_rebuilt(j: JsonView, shapes: Seq<(Seq<char>, Shape)>)
    requires
        j is Object,
        misfit(j, shapes) is None,
        has_no_null(j, shapes),
    ensures
        rebuilt(j, shapes, shapes.len()) == j->Object_0,
{
    let m = rebuilt(j, shapes, shapes.len());
    lemma_rebuilt(j, shapes, shapes.len());
    assert forall|k: Seq<char>| j->Object_0.dom().contains(k) implies m.dom().contains(k) by {
        if is_named(k, shapes) {
            let i = choose|i: int| 0 <= i < shapes.len() && (#[trigger] shapes[i]).0 == k;
            assert(j->Object_0.dom().contains(shapes[i].0));
        }
    }
    assert(m =~= j->Object_0);
}

/// The members that a rule reads.
pub open spec fn rule_shapes() -> Seq<(Seq<char>, Shape)> {
    seq![
        ("action"@, Shape::Action),
        ("creationDate"@, Shape::Text),
        ("modificationDate"@, Shape::Text),
        ("origin"@, Shape::Text),
        ("uid"@, Shape::OptSmallNumber),
        ("process"@, Shape::OptText),
        ("requiresTrustedSignatureForAnyProcess"@, Shape::OptBool),
        ("remote"@, Shape::OptText),
        ("remote-domains"@, Shape::OptStrings),
        ("remote-hosts"@, Shape::OptStrings),
        ("remote-addresses"@, Shape::OptStrings),
        ("direction"@, Shape::OptDirection),
        ("priority"@, Shape::OptPriority),
        ("protocol"@, Shape::OptText),
        ("ports"@, Shape::OptText),
        ("via"@, Shape::OptText),
        ("notes"@, Shape::OptText),
        ("group"@, Shape::OptText),
        ("factoryID"@, Shape::OptText),
        ("factoryHelpText"@, Shape::OptText),
        ("protected"@, Shape::OptBool),
        ("lastUsed"@, Shape::OptText),
        ("useCount"@, Shape::OptNumber),
        ("approved"@, Shape::OptBool),
        ("hidden"@, Shape::OptBool),
        ("owner"@, Shape::OptText),
    ]
}

fn rule_table() -> (r: Vec<(&'static str, Shape)>)
    ensures
        table(r@) == rule_shapes(),
{
    let mut v: Vec<(&'static str, Shape)> = Vec::new();
    v.push(("action", Shape::Action));
    v.push(("creationDate", Shape::Text));
    v.push(("modificationDate", Shape::Text));
    v.push(("origin", Shape::Text));
    v.push(("uid", Shape::OptSmallNumber));
    v.push(("process", Shape::OptText));
    v.push(("requiresTrustedSignatureForAnyProcess", Shape::OptBool));
    v.push(("remote", Shape::OptText));
    v.push(("remote-domains", Shape::OptStrings));
    v.push(("remote-hosts", Shape::OptStrings));
    v.push(("remote-addresses", Shape::OptStrings));
    v.push(("direction", Shape::OptDirection));
    v.push(("priority", Shape::OptPriority));
    v.push(("protocol", Shape::OptText));
    v.push(("ports", Shape::OptText));
    v.push(("via", Shape::OptText));
    v.push(("notes", Shape::OptText));
    v.push(("group", Shape::OptText));
    v.push(("factoryID", Shape::OptText));
    v.push(("factoryHelpText", Shape::OptText));
    v.push(("protected", Shape::OptBool));
    v.push(("lastUsed", Shape::OptText));
    v.push(("useCount", Shape::OptNumber));
    v.push(("approved", Shape::OptBool));
    v.push(("hidden", Shape::OptBool));
    v.push(("owner", Shape::OptText));
    proof {
        assert(table(v@) =~= rule_shapes());
    }
    v
}

/// The rule that a value is read as.
pub open spec fn rule_read(j: JsonView) -> RuleView {
    RuleView {
        action: action_named(text_of(member(j, "action"@))->0)->0,
        creation_date: text_of(member(j, "creationDate"@))->0,
        modification_date: text_of(member(j, "modificationDate"@))->0,
        origin: text_of(member(j, "origin"@))->0,
        uid: small_number_of(member(j, "uid"@)),
        process: text_of(member(j, "process"@)),
        requires_trusted_signature_for_any_process: bool_of(
            member(j, "requiresTrustedSignatureForAnyProcess"@),
        ),
        remote: text_of(member(j, "remote"@)),
        remote_domains: strings_of(member(j, "remote-domains"@)),
        remote_hosts: strings_of(member(j, "remote-hosts"@)),
        remote_addresses: strings_of(member(j, "remote-addresses"@)),
        direction: direction_of(member(j, "direction"@)),
        priority: priority_of(member(j, "priority"@)),
        protocol: text_of(member(j, "protocol"@)),
        ports: text_of(member(j, "ports"@)),
        via: text_of(member(j, "via"@)),
        notes: text_of(member(j, "notes"@)),
        group: text_of(member(j, "group"@)),
        factory_id: text_of(member(j, "factoryID"@)),
        factory_help_text: text_of(member(j, "factoryHelpText"@)),
        protected: bool_of(member(j, "protected"@)),
        last_used: text_of(member(j, "lastUsed"@)),
        use_count: number_of(member(j, "useCount"@)),
        approved: bool_of(member(j, "approved"@)),
        hidden: bool_of(member(j, "hidden"@)),
        owner: text_of(member(j, "owner"@)),
        extra: unread(j, rule_shapes()),
    }
}

/// The rule that a value is, or what is wrong with the value.
pub open spec fn rule_in(j: JsonView) -> Result<RuleView, Seq<char>> {
    match misfit(j, rule_shapes()) {
        Some(key) => Err(bad_field(key)),
        None => Ok(rule_read(j)),
    }
}

/// The rule that a value is, or what is wrong with the value.
pub fn read_rule(j: &Json) -> (r: Result<Rule, String>)
    ensures
        match rule_in(j@) {
            Ok(v) => r is Ok && r->Ok_0@ == v,
            Err(e) => r is Err && r->Err_0@ == e,
        },
{
    let t: Vec<(&'static str, Shape)> = rule_table();
    if let Some(key) = find_misfit(j, &t) {
        return Err(write_bad_field(key));
    }
    proof {
        lemma_no_misfit(j@, rule_shapes());
        assert(rule_shapes()[0] == ("action"@, Shape::Action));
        assert(rule_shapes()[1] == ("creationDate"@, Shape::Text));
        assert(rule_shapes()[2] == ("modificationDate"@, Shape::Text));
        assert(rule_shapes()[3] == ("origin"@, Shape::Text));
    }
    let r: Rule = Rule {
        action: action_in(j, "action"),
        creation_date: text_in(j, "creationDate"),
        modification_date: text_in(j, "modificationDate"),
        origin: Origin(text_in(j, "origin")),
        uid: small_number_in(j, "uid"),
        process: opt_text_in(j, "process"),
        requires_trusted_signature_for_any_process: bool_in(
            j,
            "requiresTrustedSignatureForAnyProcess",
        ),
        remote: opt_text_in(j, "remote"),
        remote_domains: strings_in(j, "remote-domains"),
        remote_hosts: strings_in(j, "remote-hosts"),
        remote_addresses: strings_in(j, "remote-addresses"),
        direction: direction_in(j, "direction"),
        priority: priority_in(j, "priority"),
        protocol: opt_text_in(j, "protocol"),
        ports: opt_text_in(j, "ports"),
        via: opt_text_in(j, "via"),
        notes: opt_text_in(j, "notes"),
        group: opt_text_in(j, "group"),
        factory_id: opt_text_in(j, "factoryID"),
        factory_help_text: opt_text_in(j, "factoryHelpText"),
        protected: bool_in(j, "protected"),
        last_used: opt_text_in(j, "lastUsed"),
        use_count: number_in(j, "useCount"),
        approved: bool_in(j, "approved"),
        hidden: bool_in(j, "hidden"),
        owner: opt_text_in(j, "owner"),
        extra: copy_unread(j, &t),
    };
    proof {
        assert(r@ == rule_read(j@));
    }
    Ok(r)
}

/// The members that a group reads.
pub open spec fn group_shapes() -> Seq<(Seq<char>, Shape)> {
    seq![
        ("name"@, Shape::OptText),
        ("kind"@, Shape::OptText),
        ("kindLegacy"@, Shape::OptText),
        ("isActive"@, Shape::OptBool),
        ("updateInterval"@, Shape::OptNumber),
        ("lastUpdateInvalidDomainsCount"@, Shape::OptNumber),
    ]
}

fn group_table() -> (r: Vec<(&'static str, Shape)>)
    ensures
        table(r@) == group_shapes(),
{
    let mut v: Vec<(&'static str, Shape)> = Vec::new();
    v.push(("name", Shape::OptText));
    v.push(("kind", Shape::OptText));
    v.push(("kindLegacy", Shape::OptText));
    v.push(("isActive", Shape::OptBool));
    v.push(("updateInterval", Shape::OptNumber));
    v.push(("lastUpdateInvalidDomainsCount", Shape::OptNumber));
    proof {
        assert(table(v@) =~= group_shapes());
    }
    v
}

/// The group that a value is read as.
pub open spec fn group_read(j: JsonView) -> GroupView {
    GroupView {
        name: text_of(member(j, "name"@)),
        kind: text_of(member(j, "kind"@)),
        kind_legacy: text_of(member(j, "kindLegacy"@)),
        is_active: bool_of(member(j, "isActive"@)),
        update_interval: number_of(member(j, "updateInterval"@)),
        last_update_invalid_domains_count: number_of(member(j, "lastUpdateInvalidDomainsCount"@)),
        extra: unread(j, group_shapes()),
    }
}

/// The group that a value is, or what is wrong with the value.
pub open spec fn group_in(j: JsonView) -> Result<GroupView, Seq<char>> {
    if !(j is Object) {
        Err("not an object"@)
    } else {
        match misfit(j, group_shapes()) {
            Some(key) => Err(bad_field(key)),
            None => Ok(group_read(j)),
        }
    }
}

/// The group that a value is, or what is wrong with the value.
pub fn read_group(j: &Json) -> (r: Result<Group, String>)
    ensures
        match group_in(j@) {
            Ok(v) => r is Ok && r->Ok_0@ == v,
            Err(e) => r is Err && r->Err_0@ == e,
        },
{
    if !j.is_object() {
        return Err("not an object".to_owned());
    }
    let t: Vec<(&'static str, Shape)> = group_table();
    if let Some(key) = find_misfit(j, &t) {
        return Err(write_bad_field(key));
    }
    let g: Group = Group {
        name: opt_text_in(j, "name"),
        kind: opt_text_in(j, "kind"),
        kind_legacy: opt_text_in(j, "kindLegacy"),
        is_active: bool_in(j, "isActive"),
        update_interval: number_in(j, "updateInterval"),
        last_update_invalid_domains_count: number_in(j, "lastUpdateInvalidDomainsCount"),
        extra: copy_unread(j, &t),
    };
    proof {
        assert(g@ == group_read(j@));
    }
    Ok(g)
}

/// The members that a rule set reads.
pub open spec fn model_shapes() -> Seq<(Seq<char>, Shape)> {
    seq![
        ("bundleVersion"@, Shape::Number),
        ("factoryRuleSetVersion"@, Shape::Number),
        ("rules"@, Shape::Array),
        ("groups"@, Shape::Object),
        ("disabledDomainsInLists"@, Shape::Array),
        ("disabledHostNamesInLists"@, Shape::Array),
        ("disabledIPAddressRangesInLists"@, Shape::Array),
    ]
}

fn model_table() -> (r: Vec<(&'static str, Shape)>)
    ensures
        table(r@) == model_shapes(),
{
    let mut v: Vec<(&'static str, Shape)> = Vec::new();
    v.push(("bundleVersion", Shape::Number));
    v.push(("factoryRuleSetVersion", Shape::Number));
    v.push(("rules", Shape::Array));
    v.push(("groups", Shape::Object));
    v.push(("disabledDomainsInLists", Shape::Array));
    v.push(("disabledHostNamesInLists", Shape::Array));
    v.push(("disabledIPAddressRangesInLists", Shape::Array));
    proof {
        assert(table(v@) =~= model_shapes());
    }
    v
}

/// The rules that values are, or what is wrong with the first that is none.
pub open spec fn rules_in(v: Seq<JsonView>) -> Result<Seq<RuleView>, Seq<char>>
    decreases v.len(),
{
    if v.len() == 0 {
        Ok(Seq::empty())
    } else {
        match rules_in(v.drop_last()) {
            Err(e) => Err(e),
            Ok(before) => match rule_in(v.last()) {
                Err(e) => Err("rules["@ + decimal((v.len() - 1) as nat) + "]: "@ + e),
                Ok(r) => Ok(before.push(r)),
            },
        }
    }
}

proof fn lemma_rules_error(v: Seq<JsonView>, n: int)
    requires
        0 <= n <= v.len(),
        rules_in(v.take(n)) is Err,
    ensures
        rules_in(v) == rules_in(v.take(n)),
    decreases v.len() - n,
{
    if n < v.len() {
        assert(v.take(n + 1).drop_last() == v.take(n));
        lemma_rules_error(v, n + 1);
    } else {
        assert(v.take(n) == v);
    }
}

fn read_rules(v: &Vec<Json>) -> (r: Result<Vec<Rule>, String>)
    ensures
        match rules_in(jsons(v@)) {
            Ok(s) => r is Ok && rules_view(r->Ok_0@) == s,
            Err(e) => r is Err && r->Err_0@ == e,
        },
{
    let ghost all = jsons(v@);
    let mut out: Vec<Rule> = Vec::new();
    proof {
        assert(all.take(0) =~= Seq::empty());
        assert(rules_view(out@) =~= Seq::empty());
    }
    for i in 0..v.len()
        invariant
            all == jsons(v@),
            rules_in(all.take(i as int)) == Ok::<Seq<RuleView>, Seq<char>>(rules_view(out@)),
    {
        proof {
            assert(all.take(i + 1).drop_last() == all.take(i as int));
            assert(all.take(i + 1).last() == v@[i as int]@);
        }
        match read_rule(&v[i]) {
            Ok(rule) => {
                let ghost before = out@;
                out.push(rule);
                proof {
                    assert(rules_view(out@) =~= rules_view(before).push(rule@));
                }
            },
            Err(e) => {
                let mut m: String = concat("rules[", u64_to_string(i as u64).as_str());
                m.push_str("]: ");
                m.push_str(e.as_str());
                proof {
                    lemma_rules_error(all, i + 1);
                }
                return Err(m);
            },
        }
    }
    proof {
        assert(all.take(all.len() as int) == all);
    }
    Ok(out)
}

/// Whether every member of an object is a group.
pub open spec fn are_groups(m: Map<Seq<char>, JsonView>) -> bool {
    forall|k: Seq<char>| #[trigger] m.dom().contains(k) ==> group_in(m[k]) is Ok
}

/// The groups that the members of an object are.
pub open spec fn groups_read(m: Map<Seq<char>, JsonView>) -> Map<Seq<char>, GroupView> {
    m.map_values(|j: JsonView| group_in(j)->Ok_0)
}

/// Whether a pair is a key and the group under it.
spec fn is_read(m: Map<Seq<char>, JsonView>, pair: (String, Group)) -> bool {
    &&& m.dom().contains(pair.0@)
    &&& group_in(m[pair.0@]) is Ok
    &&& group_in(m[pair.0@])->Ok_0 == pair.1@
}

/// The groups that the members of an object are, each key once.
fn read_groups(j: &Json) -> (r: Option<Vec<(String, Group)>>)
    requires
        j@ is Object,
    ensures
        match r {
            Some(v) => are_groups(j@->Object_0) && groups_view(v@) == groups_read(j@->Object_0)
                && has_distinct_keys(v@),
            None => !are_groups(j@->Object_0),
        },
{
    broadcast use {lemma_object_view, lemma_last_position};

    let mut out: Vec<(String, Group)> = Vec::new();
    let ghost m = j@->Object_0;
    match j {
        Json::Object(v) => {
            for i in 0..v.len()
                invariant
                    j@ == JsonView::Object(m),
                    m == members_view(v@),
                    has_distinct_keys(out@),
                    forall|k: int| 0 <= k < out.len() ==> is_read(m, #[trigger] out@[k]),
                    forall|k: int| 0 <= k < i ==> last_position(out@, (#[trigger] v@[k]).0@) >= 0,
            {
                broadcast use {lemma_object_view, lemma_last_position};

                let key: &String = &v[i].0;
                if find_key(&out, key.as_str()).is_none() {
                    let member: &Json = match j.get(key.as_str()) {
                        Some(x) => x,
                        None => {
                            return None;
                        },
                    };
                    match read_group(member) {
                        Ok(g) => {
                            let ghost before = out@;
                            out.push((key.clone(), g));
                            proof {
                                lemma_group_added(before, out@, m);
                                assert forall|k: int| 0 <= k < i + 1 implies last_position(
                                    out@,
                                    (#[trigger] v@[k]).0@,
                                ) >= 0 by {
                                    if k == i {
                                        assert(out@[before.len() as int].0@ == v@[k].0@);
                                    } else {
                                        let p = last_position(before, v@[k].0@);
                                        assert(out@[p] == before[p]);
                                    }
                                }
                            }
                        },
                        Err(_) => {
                            return None;
                        },
                    }
                }
            }
            proof {
                assert forall|k: Seq<char>| #[trigger] m.dom().contains(k) implies group_in(
                    m[k],
                ) is Ok && last_position(out@, k) >= 0 by {
                    let p = last_position(v@, k);
                    assert(last_position(out@, v@[p].0@) >= 0);
                    assert(is_read(m, out@[last_position(out@, k)]));
                }
                assert forall|k: Seq<char>| last_position(out@, k) >= 0 implies m.dom().contains(
                    k,
                ) && out@[last_position(out@, k)].1@ == group_in(m[k])->Ok_0 by {
                    assert(is_read(m, out@[last_position(out@, k)]));
                }
                assert(groups_view(out@) =~= groups_read(m));
            }
        },
        _ => {},
    }
    Some(out)
}

proof fn lemma_group_added(
    before: Seq<(String, Group)>,
    after: Seq<(String, Group)>,
    m: Map<Seq<char>, JsonView>,
)
    requires
        has_distinct_keys(before),
        after.len() == before.len() + 1,
        forall|k: int| 0 <= k < before.len() ==> after[k] == #[trigger] before[k],
        last_position(before, after.last().0@) == -1,
        forall|k: int| 0 <= k < before.len() ==> is_read(m, #[trigger] before[k]),
        is_read(m, after.last()),
    ensures
        has_distinct_keys(after),
        forall|k: int| 0 <= k < after.len() ==> is_read(m, #[trigger] after[k]),
{
    broadcast use lemma_last_position;

    assert forall|i: int, j: int| 0 <= i < j < after.len() implies (#[trigger] after[i]).0@ != (
    #[trigger] after[j]).0@ by {
        assert(after[i] == before[i]);
        if j < before.len() {
            assert(after[j] == before[j]);
        }
    }
    assert forall|k: int| 0 <= k < after.len() implies is_read(m, #[trigger] after[k]) by {
        if k < before.len() {
            assert(after[k] == before[k]);
        }
    }
}

/// The rule set that a value is, or what is wrong with the value.
pub open spec fn model_in(j: JsonView) -> Result<ModelView, Seq<char>> {
    match misfit(j, model_shapes()) {
        Some(key) => Err(bad_field(key)),
        None => match rules_in(items_of(member(j, "rules"@))->0) {
            Err(e) => Err(e),
            Ok(rules) => {
                let groups = member(j, "groups"@)->0->Object_0;
                if !are_groups(groups) {
                    Err(bad_field("groups"@))
                } else {
                    Ok(
                        ModelView {
                            bundle_version: number_of(member(j, "bundleVersion"@))->0,
                            factory_rule_set_version: number_of(
                                member(j, "factoryRuleSetVersion"@),
                            )->0,
                            rules,
                            groups: groups_read(groups),
                            disabled_domains_in_lists: items_of(
                                member(j, "disabledDomainsInLists"@),
                            )->0,
                            disabled_host_names_in_lists: items_of(
                                member(j, "disabledHostNamesInLists"@),
                            )->0,
                            disabled_ip_address_ranges_in_lists: items_of(
                                member(j, "disabledIPAddressRangesInLists"@),
                            )->0,
                            rest: unread(j, model_shapes()),
                        },
                    )
                }
            },
        },
    }
}

fn items_in(j: &Json, key: &str) -> (r: Vec<Json>)
    requires
        items_of(member(j@, key@)) is Some,
    ensures
        jsons(r@) == items_of(member(j@, key@))->0,
{
    match j.array_member(key) {
        Some(v) => copy_jsons(v),
        None => Vec::new(),
    }
}

fn needed_number_in(j: &Json, key: &str) -> (r: u64)
    requires
        number_of(member(j@, key@)) is Some,
    ensures
        r == number_of(member(j@, key@))->0,
{
    match number_in(j, key) {
        Some(n) => n,
        None => 0,
    }
}

/// The rule set that a value is, or what is wrong with the value. Each group stands in it
/// once.
pub fn read_model(j: &Json) -> (r: Result<Model, String>)
    ensures
        match model_in(j@) {
            Ok(v) => r is Ok && r->Ok_0@ == v,
            Err(e) => r is Err && r->Err_0@ == e,
        },
        r matches Ok(m) ==> has_distinct_keys(m.groups@),
{
    let t: Vec<(&'static str, Shape)> = model_table();
    if let Some(key) = find_misfit(j, &t) {
        return Err(write_bad_field(key));
    }
    proof {
        let shapes = model_shapes();
        lemma_no_misfit(j@, shapes);
        assert(shapes[0] == ("bundleVersion"@, Shape::Number));
        assert(shapes[1] == ("factoryRuleSetVersion"@, Shape::Number));
        assert(shapes[2] == ("rules"@, Shape::Array));
        assert(shapes[3] == ("groups"@, Shape::Object));
        assert(shapes[4] == ("disabledDomainsInLists"@, Shape::Array));
        assert(shapes[5] == ("disabledHostNamesInLists"@, Shape::Array));
        assert(shapes[6] == ("disabledIPAddressRangesInLists"@, Shape::Array));
    }
    let rules: Vec<Rule> = match read_rules(&items_in(j, "rules")) {
        Ok(v) => v,
        Err(e) => {
            return Err(e);
        },
    };
    let groups: Option<Vec<(String, Group)>> = match j.get("groups") {
        Some(g) => read_groups(g),
        None => None,
    };
    let groups: Vec<(String, Group)> = match groups {
        Some(v) => v,
        None => {
            return Err(write_bad_field("groups"));
        },
    };
    let m: Model = Model {
        bundle_version: needed_number_in(j, "bundleVersion"),
        factory_rule_set_version: needed_number_in(j, "factoryRuleSetVersion"),
        rules,
        groups,
        disabled_domains_in_lists: items_in(j, "disabledDomainsInLists"),
        disabled_host_names_in_lists: items_in(j, "disabledHostNamesInLists"),
        disabled_ip_address_ranges_in_lists: items_in(j, "disabledIPAddressRangesInLists"),
        rest: copy_unread(j, &t),
    };
    proof {
        assert(m@ == model_in(j@)->Ok_0);
    }
    Ok(m)
}

proof fn lemma_rule_rebuilt(j: JsonView)
    ensures
        rule_json(rule_read(j)) == JsonView::Object(rebuilt(j, rule_shapes(), 26)),
{
    reveal_with_fuel(rebuilt, 27);
}

/// Reading a rule and writing it again gives it back, with everything that the rule does not
/// read; only members that are there and `null` are left out.
pub proof fn law_rule_is_kept(j: JsonView)
    requires
        rule_in(j) is Ok,
        has_no_null(j, rule_shapes()),
    ensures
        rule_json(rule_in(j)->Ok_0) == j,
{
    assert(j is Object) by {
        lemma_no_misfit(j, rule_shapes());
        assert(rule_shapes()[0] == ("action"@, Shape::Action));
    }
    lemma_all_rebuilt(j, rule_shapes());
    lemma_rule_rebuilt(j);
}

proof fn lemma_group_rebuilt(j: JsonView)
    ensures
        group_json(group_read(j)) == JsonView::Object(rebuilt(j, group_shapes(), 6)),
{
    reveal_with_fuel(rebuilt, 7);
}

/// Reading a group and writing it again gives it back, with everything that the group does
/// not read; only members that are there and `null` are left out.
pub proof fn law_group_is_kept(j: JsonView)
    requires
        group_in(j) is Ok,
        has_no_null(j, group_shapes()),
    ensures
        group_json(group_in(j)->Ok_0) == j,
{
    lemma_all_rebuilt(j, group_shapes());
    lemma_group_rebuilt(j);
}

/// Whether no rule and no group of a rule set has a member that is read, there, and `null`.
pub open spec fn is_plain(j: JsonView) -> bool {
    &&& forall|i: int|
        0 <= i < items_of(member(j, "rules"@))->0.len() ==> has_no_null(
            #[trigger] items_of(member(j, "rules"@))->0[i],
            rule_shapes(),
        )
    &&& forall|k: Seq<char>| #[trigger]
        (member(j, "groups"@)->0->Object_0).dom().contains(k) ==> has_no_null(
            (member(j, "groups"@)->0->Object_0)[k],
            group_shapes(),
        )
}

proof fn lemma_rules_len(v: Seq<JsonView>)
    requires
        rules_in(v) is Ok,
    ensures
        rules_in(v)->Ok_0.len() == v.len(),
    decreases v.len(),
{
    if v.len() > 0 {
        lemma_rules_len(v.drop_last());
    }
}

/// Each rule is read by itself.
proof fn lemma_rules_in(v: Seq<JsonView>, i: int)
    requires
        rules_in(v) is Ok,
        0 <= i < v.len(),
    ensures
        rule_in(v[i]) is Ok,
        rules_in(v)->Ok_0[i] == rule_in(v[i])->Ok_0,
    decreases v.len(),
{
    let before = v.drop_last();
    lemma_rules_len(before);
    if i < before.len() {
        lemma_rules_in(before, i);
        assert(before[i] == v[i]);
    }
}

/// Rules that are read are written again as they were.
proof fn lemma_rules_kept(v: Seq<JsonView>)
    requires
        rules_in(v) is Ok,
        forall|i: int| 0 <= i < v.len() ==> has_no_null(#[trigger] v[i], rule_shapes()),
    ensures
        Seq::new(rules_in(v)->Ok_0.len(), |i: int| rule_json(rules_in(v)->Ok_0[i])) == v,
{
    let rules = rules_in(v)->Ok_0;
    lemma_rules_len(v);
    assert forall|i: int| 0 <= i < v.len() implies rule_json(#[trigger] rules[i]) == v[i] by {
        lemma_rules_in(v, i);
        law_rule_is_kept(v[i]);
    }
    assert(Seq::new(rules.len(), |i: int| rule_json(rules[i])) =~= v);
}

/// Groups that are read are written again as they were.
proof fn lemma_groups_kept(m: Map<Seq<char>, JsonView>)
    requires
        are_groups(m),
        forall|k: Seq<char>| #[trigger]
            m.dom().contains(k) ==> has_no_null(m[k], group_shapes()),
    ensures
        groups_json(groups_read(m)) == JsonView::Object(m),
{
    assert forall|k: Seq<char>| #[trigger] m.dom().contains(k) implies group_json(
        groups_read(m)[k],
    ) == m[k] by {
        law_group_is_kept(m[k]);
    }
    assert(groups_json(groups_read(m))->Object_0 =~= m);
}

/// Reading a rule set and writing it again gives it back, with everything that is not read:
/// nothing that the program keeps there is lost by a change. Only members of rules and groups
/// that are there and `null` are left out.
pub proof fn law_model_is_kept(j: JsonView)
    requires
        model_in(j) is Ok,
        is_plain(j),
    ensures
        model_json(model_in(j)->Ok_0) == j,
{
    let shapes = model_shapes();
    let v = model_in(j)->Ok_0;
    let rules = items_of(member(j, "rules"@))->0;
    let groups = member(j, "groups"@)->0->Object_0;
    lemma_no_misfit(j, shapes);
    assert(shapes[2] == ("rules"@, Shape::Array));
    assert(shapes[3] == ("groups"@, Shape::Object));
    assert(shapes[4] == ("disabledDomainsInLists"@, Shape::Array));
    assert(shapes[5] == ("disabledHostNamesInLists"@, Shape::Array));
    assert(shapes[6] == ("disabledIPAddressRangesInLists"@, Shape::Array));
    lemma_rules_kept(rules);
    lemma_groups_kept(groups);
    lemma_all_rebuilt(j, shapes);
    assert(model_json(v) == JsonView::Object(rebuilt(j, shapes, 7))) by {
        reveal_with_fuel(rebuilt, 8);
    }
}

/// A rule says what it is read from: each text, number and truth value stands in the field of
/// its key, a field is set only if there is such a member, and what is not read is carried
/// along.
pub proof fn law_rule_is_what_it_is_read_from(j: JsonView, n: nat, key: Seq<char>)
    requires
        rule_in(j) is Ok,
    ensures
        ({
            let r = rule_in(j)->Ok_0;
            &&& r.action is Allow <==> member(j, "action"@) == Some(JsonView::Text("allow"@))
            &&& r.action is Deny <==> member(j, "action"@) == Some(JsonView::Text("deny"@))
            &&& r.action is Ask <==> member(j, "action"@) == Some(JsonView::Text("ask"@))
            &&& member(j, "creationDate"@) == Some(JsonView::Text(r.creation_date))
            &&& member(j, "modificationDate"@) == Some(JsonView::Text(r.modification_date))
            &&& member(j, "origin"@) == Some(JsonView::Text(r.origin))
            &&& member(j, "process"@) matches Some(JsonView::Text(t)) ==> r.process == Some(t)
            &&& r.process matches Some(t) ==> member(j, "process"@) == Some(JsonView::Text(t))
            &&& member(j, "remote"@) matches Some(JsonView::Text(t)) ==> r.remote == Some(t)
            &&& r.remote matches Some(t) ==> member(j, "remote"@) == Some(JsonView::Text(t))
            &&& member(j, "protocol"@) matches Some(JsonView::Text(t)) ==> r.protocol == Some(t)
            &&& r.protocol matches Some(t) ==> member(j, "protocol"@) == Some(JsonView::Text(t))
            &&& member(j, "ports"@) matches Some(JsonView::Text(t)) ==> r.ports == Some(t)
            &&& r.ports matches Some(t) ==> member(j, "ports"@) == Some(JsonView::Text(t))
            &&& member(j, "via"@) matches Some(JsonView::Text(t)) ==> r.via == Some(t)
            &&& r.via matches Some(t) ==> member(j, "via"@) == Some(JsonView::Text(t))
            &&& member(j, "notes"@) matches Some(JsonView::Text(t)) ==> r.notes == Some(t)
            &&& r.notes matches Some(t) ==> member(j, "notes"@) == Some(JsonView::Text(t))
            &&& member(j, "group"@) matches Some(JsonView::Text(t)) ==> r.group == Some(t)
            &&& r.group matches Some(t) ==> member(j, "group"@) == Some(JsonView::Text(t))
            &&& member(j, "factoryID"@) matches Some(JsonView::Text(t)) ==> r.factory_id == Some(t)
            &&& r.factory_id matches Some(t) ==> member(j, "factoryID"@) == Some(JsonView::Text(t))
            &&& member(j, "factoryHelpText"@) matches Some(JsonView::Text(t)) ==> r.factory_help_text == Some(t)
            &&& r.factory_help_text matches Some(t) ==> member(j, "factoryHelpText"@) == Some(JsonView::Text(t))
            &&& member(j, "lastUsed"@) matches Some(JsonView::Text(t)) ==> r.last_used == Some(t)
            &&& r.last_used matches Some(t) ==> member(j, "lastUsed"@) == Some(JsonView::Text(t))
            &&& member(j, "owner"@) matches Some(JsonView::Text(t)) ==> r.owner == Some(t)
            &&& r.owner matches Some(t) ==> member(j, "owner"@) == Some(JsonView::Text(t))
            &&& member(j, "requiresTrustedSignatureForAnyProcess"@) matches Some(JsonView::Bool(b)) ==> r.requires_trusted_signature_for_any_process == Some(b)
            &&& r.requires_trusted_signature_for_any_process matches Some(b) ==> member(j, "requiresTrustedSignatureForAnyProcess"@) == Some(JsonView::Bool(b))
            &&& member(j, "protected"@) matches Some(JsonView::Bool(b)) ==> r.protected == Some(b)
            &&& r.protected matches Some(b) ==> member(j, "protected"@) == Some(JsonView::Bool(b))
            &&& member(j, "approved"@) matches Some(JsonView::Bool(b)) ==> r.approved == Some(b)
            &&& r.approved matches Some(b) ==> member(j, "approved"@) == Some(JsonView::Bool(b))
            &&& member(j, "hidden"@) matches Some(JsonView::Bool(b)) ==> r.hidden == Some(b)
            &&& r.hidden matches Some(b) ==> member(j, "hidden"@) == Some(JsonView::Bool(b))
            &&& strings_json(r.remote_domains) == (match member(j, "remote-domains"@) {
                Some(JsonView::Null) => None,
                other => other,
            })
            &&& strings_json(r.remote_hosts) == (match member(j, "remote-hosts"@) {
                Some(JsonView::Null) => None,
                other => other,
            })
            &&& strings_json(r.remote_addresses) == (match member(j, "remote-addresses"@) {
                Some(JsonView::Null) => None,
                other => other,
            })
            &&& r.direction == Some(Direction::Incoming) <==> member(j, "direction"@) == Some(
                JsonView::Text("incoming"@),
            )
            &&& r.direction == Some(Direction::Outgoing) <==> member(j, "direction"@) == Some(
                JsonView::Text("outgoing"@),
            )
            &&& r.direction == Some(Direction::Both) <==> member(j, "direction"@) == Some(
                JsonView::Text("both"@),
            )
            &&& r.priority == Some(Priority::High) <==> member(j, "priority"@) == Some(
                JsonView::Text("high"@),
            )
            &&& r.priority == Some(Priority::Regular) <==> member(j, "priority"@) == Some(
                JsonView::Text("regular"@),
            )
            &&& n <= u32::MAX && member(j, "uid"@) == Some(JsonView::Number(decimal(n))) ==> r.uid
                == Some(n as u32)
            &&& n <= u64::MAX && member(j, "useCount"@) == Some(JsonView::Number(decimal(n)))
                ==> r.use_count == Some(n as u64)
            &&& r.uid matches Some(u) ==> member(j, "uid"@) == Some(
                JsonView::Number(decimal(u as nat)),
            )
            &&& r.use_count matches Some(u) ==> member(j, "useCount"@) == Some(
                JsonView::Number(decimal(u as nat)),
            )
            &&& !is_named(key, rule_shapes()) ==> member(JsonView::Object(r.extra), key) == member(
                j,
                key,
            )
        }),
{
    let shapes = rule_shapes();
    lemma_no_misfit(j, shapes);
    assert(shapes[0] == ("action"@, Shape::Action));
    assert(shapes[1] == ("creationDate"@, Shape::Text));
    assert(shapes[2] == ("modificationDate"@, Shape::Text));
    assert(shapes[3] == ("origin"@, Shape::Text));
    assert(shapes[8] == ("remote-domains"@, Shape::OptStrings));
    assert(shapes[9] == ("remote-hosts"@, Shape::OptStrings));
    assert(shapes[10] == ("remote-addresses"@, Shape::OptStrings));
    lemma_words(member(j, "action"@), member(j, "direction"@), member(j, "priority"@));
    lemma_strings_of(member(j, "remote-domains"@));
    lemma_strings_of(member(j, "remote-hosts"@));
    lemma_strings_of(member(j, "remote-addresses"@));
    lemma_parse_decimal(n, n);
    if n <= u64::MAX {
        lemma_parse_decimal(n, u64::MAX as nat);
    }
}

proof fn lemma_strings_of(v: Option<JsonView>)
    requires
        has_shape(v, Shape::OptStrings),
    ensures
        strings_json(strings_of(v)) == (match v {
            Some(JsonView::Null) => None,
            other => other,
        }),
{
    if let Some(JsonView::Array(a)) = v {
        assert(strings_json(strings_of(v))->0->Array_0 =~= a);
    }
}

proof fn lemma_words(action: Option<JsonView>, direction: Option<JsonView>, priority: Option<JsonView>)
    ensures
        text_of(action) matches Some(w) ==> {
            &&& action_named(w) == Some(Action::Allow) <==> w == "allow"@
            &&& action_named(w) == Some(Action::Deny) <==> w == "deny"@
            &&& action_named(w) == Some(Action::Ask) <==> w == "ask"@
        },
        direction_of(direction) == Some(Direction::Incoming) <==> direction == Some(
            JsonView::Text("incoming"@),
        ),
        direction_of(direction) == Some(Direction::Outgoing) <==> direction == Some(
            JsonView::Text("outgoing"@),
        ),
        direction_of(direction) == Some(Direction::Both) <==> direction == Some(
            JsonView::Text("both"@),
        ),
        priority_of(priority) == Some(Priority::High) <==> priority == Some(
            JsonView::Text("high"@),
        ),
        priority_of(priority) == Some(Priority::Regular) <==> priority == Some(
            JsonView::Text("regular"@),
        ),
{
    reveal_strlit("allow");
    reveal_strlit("deny");
    reveal_strlit("ask");
    reveal_strlit("incoming");
    reveal_strlit("outgoing");
    reveal_strlit("both");
    reveal_strlit("high");
    reveal_strlit("regular");
    assert("allow"@.len() == 5 && "deny"@.len() == 4 && "ask"@.len() == 3);
    assert("incoming"@[0] == 'i' && "outgoing"@[0] == 'o' && "both"@[0] == 'b');
    assert("high"@.len() == 4 && "regular"@.len() == 7);
}

/// A group says what it is read from.
pub proof fn law_group_is_what_it_is_read_from(j: JsonView, n: nat)
    requires
        group_in(j) is Ok,
    ensures
        ({
            let g = group_in(j)->Ok_0;
            &&& g.name == text_of(member(j, "name"@))
            &&& g.kind == text_of(member(j, "kind"@))
            &&& g.kind_legacy == text_of(member(j, "kindLegacy"@))
            &&& g.is_active == bool_of(member(j, "isActive"@))
            &&& n <= u64::MAX && member(j, "updateInterval"@) == Some(JsonView::Number(decimal(n)))
                ==> g.update_interval == Some(n as u64)
            &&& n <= u64::MAX && member(j, "lastUpdateInvalidDomainsCount"@) == Some(
                JsonView::Number(decimal(n)),
            ) ==> g.last_update_invalid_domains_count == Some(n as u64)
        }),
{
    if n <= u64::MAX {
        lemma_parse_decimal(n, u64::MAX as nat);
    }
}

/// A rule set is what it is read from: its rules are those of the array, in their order, its
/// groups those under their keys, and its lists the three arrays.
pub proof fn law_model_is_what_it_is_read_from(j: JsonView, i: int, id: Seq<char>)
    requires
        model_in(j) is Ok,
    ensures
        ({
            let m = model_in(j)->Ok_0;
            &&& member(j, "bundleVersion"@) == Some(
                JsonView::Number(decimal(m.bundle_version as nat)),
            )
            &&& member(j, "factoryRuleSetVersion"@) == Some(
                JsonView::Number(decimal(m.factory_rule_set_version as nat)),
            )
            &&& member(j, "rules"@) matches Some(JsonView::Array(rules)) && rules.len()
                == m.rules.len() && (0 <= i < rules.len() ==> rule_in(rules[i]) == Ok::<
                RuleView,
                Seq<char>,
            >(m.rules[i]))
            &&& member(j, "groups"@) matches Some(JsonView::Object(groups)) && (
            groups.dom().contains(id) <==> m.groups.dom().contains(id)) && (groups.dom().contains(
                id,
            ) ==> group_in(groups[id]) == Ok::<GroupView, Seq<char>>(m.groups[id]))
            &&& member(j, "disabledDomainsInLists"@) == Some(
                JsonView::Array(m.disabled_domains_in_lists),
            )
            &&& member(j, "disabledHostNamesInLists"@) == Some(
                JsonView::Array(m.disabled_host_names_in_lists),
            )
            &&& member(j, "disabledIPAddressRangesInLists"@) == Some(
                JsonView::Array(m.disabled_ip_address_ranges_in_lists),
            )
        }),
{
    let shapes = model_shapes();
    lemma_no_misfit(j, shapes);
    assert(shapes[0] == ("bundleVersion"@, Shape::Number));
    assert(shapes[1] == ("factoryRuleSetVersion"@, Shape::Number));
    assert(shapes[2] == ("rules"@, Shape::Array));
    assert(shapes[3] == ("groups"@, Shape::Object));
    assert(shapes[4] == ("disabledDomainsInLists"@, Shape::Array));
    assert(shapes[5] == ("disabledHostNamesInLists"@, Shape::Array));
    assert(shapes[6] == ("disabledIPAddressRangesInLists"@, Shape::Array));
    let rules = items_of(member(j, "rules"@))->0;
    lemma_rules_len(rules);
    if 0 <= i < rules.len() {
        lemma_rules_in(rules, i);
    }
}

} // verus!
