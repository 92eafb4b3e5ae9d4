//! What the tools on `.lsrules` files share: reading the document of a file and
//! picking a rule in it.

use vstd::prelude::*;
use crate::assoc::{last_position, lemma_last_position};
use crate::grouping::positions;
use crate::json::{
    equal, items_of, json_parsed, jsons, lemma_array_view, lemma_object_view, member,
    members_view, nests_within, parse, Json, JsonView,
};
use crate::managed_dir::{
    below, law_below_a_directory, lsrules_path, path_debug_form, quoted_path, TextRead,
};
use crate::model::copy_jsons;
use crate::text::{concat, contains_char, decimal, join, joined, texts, u64_to_string};

verus! {

/// Whether a name is one of a file: not empty, and without slashes of either kind.
pub open spec fn is_plain_name(name: Seq<char>) -> bool {
    name.len() > 0 && !name.contains('/') && !name.contains('\\')
}

/// Whether a name is one of a file.
pub fn check_plain_name(name: &str) -> (r: bool)
    ensures
        r == is_plain_name(name@),
{
    !name.is_empty() && !contains_char(name, '/') && !contains_char(name, '\\')
}

/// The text of a file and the document it holds, or why there is none; `hint` is
/// said of a file that is not there.
pub open spec fn document(read: TextRead, path: Seq<char>, hint: Seq<char>) -> Result<
    (Seq<char>, JsonView),
    Seq<char>,
> {
    match read {
        TextRead::NoDirectory(e) => Err("cannot bootstrap managed directory: "@ + e@),
        TextRead::Missing => Err("file not found: "@ + path_debug_form(path) + hint),
        TextRead::Failed(e) => Err("cannot read "@ + path_debug_form(path) + ": "@ + e@),
        TextRead::Text(raw) => match json_parsed(raw@) {
            Ok(doc) => Ok((raw@, doc)),
            Err(e) => Err(path_debug_form(path) + " is not valid JSON: "@ + e),
        },
    }
}

/// The text of a file and the document it holds, or why there is none.
pub fn read_document(read: TextRead, path: &str, hint: &str) -> (r: Result<(String, Json), String>)
    ensures
        match r {
            Ok((raw, doc)) => document(read, path@, hint@) == Ok::<
                (Seq<char>, JsonView),
                Seq<char>,
            >((raw@, doc@)),
            Err(e) => document(read, path@, hint@) == Err::<(Seq<char>, JsonView), Seq<char>>(e@),
        },
        r matches Ok((_, doc)) ==> nests_within(doc@, 127),
{
    match read {
        TextRead::NoDirectory(e) => Err(
            concat("cannot bootstrap managed directory: ", e.as_str()),
        ),
        TextRead::Missing => {
            let mut out: String = concat("file not found: ", quoted_path(path).as_str());
            out.push_str(hint);
            Err(out)
        },
        TextRead::Failed(e) => {
            let mut out: String = concat("cannot read ", quoted_path(path).as_str());
            out.push_str(": ");
            out.push_str(e.as_str());
            Err(out)
        },
        TextRead::Text(raw) => match parse(raw.as_str()) {
            Ok(doc) => Ok((raw, doc)),
            Err(e) => {
                let mut out: String = concat(
                    quoted_path(path).as_str(),
                    " is not valid JSON: ",
                );
                out.push_str(e.as_str());
                Err(out)
            },
        },
    }
}

/// The rules of a document, if it has an array of them.
pub open spec fn rules_in(doc: JsonView) -> Option<Seq<JsonView>> {
    items_of(member(doc, "rules"@))
}

/// The document with other rules.
pub open spec fn with_rules(doc: JsonView, rules: Seq<JsonView>) -> JsonView {
    JsonView::Object(doc->Object_0.insert("rules"@, JsonView::Array(rules)))
}

/// The rules of a document nest less deeply than the document.
pub proof fn lemma_rules_nest(doc: JsonView, i: int)
    requires
        nests_within(doc, 127),
        rules_in(doc) is Some,
        0 <= i < rules_in(doc)->0.len(),
    ensures
        nests_within(rules_in(doc)->0[i], 125),
{
    reveal_with_fuel(nests_within, 3);
    assert(doc->Object_0.dom().contains("rules"@));
}

/// A document with other rules nests no more deeply than before, if the rules do not.
pub proof fn lemma_with_rules_nests(doc: JsonView, rules: Seq<JsonView>)
    requires
        doc is Object,
        nests_within(doc, 127),
        forall|i: int| 0 <= i < rules.len() ==> nests_within(#[trigger] rules[i], 125),
    ensures
        nests_within(with_rules(doc, rules), 127),
{
    reveal_with_fuel(nests_within, 3);
}

/// A copy of the rules of a document, if it has an array of them.
pub fn copy_rules(doc: &Json) -> (r: Option<Vec<Json>>)
    ensures
        match r {
            Some(v) => rules_in(doc@) == Some(jsons(v@)),
            None => rules_in(doc@) is None,
        },
{
    match doc.array_member("rules") {
        Some(v) => Some(copy_jsons(v)),
        None => None,
    }
}

/// Gives the document other rules.
pub fn set_rules(doc: &mut Json, rules: Vec<Json>)
    requires
        old(doc)@ is Object,
    ensures
        final(doc)@ == with_rules(old(doc)@, jsons(rules@)),
{
    broadcast use lemma_array_view;

    doc.insert("rules".to_owned(), Json::Array(rules));
}

/// Whether a member stands in an object with an equal value.
pub open spec fn has_member(v: JsonView, key: Seq<char>, value: JsonView) -> bool {
    match member(v, key) {
        Some(x) => equal(x, value),
        None => false,
    }
}

/// Whether every member of `matcher` stands in `rule` with the same value. What is
/// no object matches nothing.
pub open spec fn matches(rule: JsonView, matcher: JsonView) -> bool {
    matcher is Object && forall|k: Seq<char>| #[trigger]
        matcher->Object_0.dom().contains(k) ==> has_member(rule, k, matcher->Object_0[k])
}

/// Whether every member of `matcher` stands in `rule` with the same value.
pub fn rule_matches(rule: &Json, matcher: &Json) -> (r: bool)
    ensures
        r == matches(rule@, matcher@),
{
    broadcast use {lemma_object_view, lemma_last_position};

    let v: &Vec<(String, Json)> = match matcher {
        Json::Object(v) => v,
        _ => {
            return false;
        },
    };
    let ghost m = members_view(v@);
    for i in 0..v.len()
        invariant
            matcher@ == JsonView::Object(m),
            m == members_view(v@),
            forall|j: int|
                0 <= j < i ==> has_member(rule@, (#[trigger] v@[j]).0@, m[v@[j].0@]),
    {
        broadcast use {lemma_object_view, lemma_last_position};

        let key: &str = v[i].0.as_str();
        let here: bool = match (rule.get(key), matcher.get(key)) {
            (Some(a), Some(b)) => a.same(b),
            _ => false,
        };
        if !here {
            proof {
                assert(m.dom().contains(v@[i as int].0@));
            }
            return false;
        }
    }
    proof {
        assert forall|k: Seq<char>| #[trigger] m.dom().contains(k) implies has_member(
            rule@,
            k,
            m[k],
        ) by {
            let p = last_position(v@, k);
            assert(v@[p].0@ == k);
        }
    }
    true
}

/// The positions of the rules that match, in order.
pub open spec fn matching(rules: Seq<JsonView>, matcher: JsonView) -> Seq<int>
    decreases rules.len(),
{
    if rules.len() == 0 {
        Seq::empty()
    } else {
        let before = matching(rules.drop_last(), matcher);
        if matches(rules.last(), matcher) {
            before.push(rules.len() - 1)
        } else {
            before
        }
    }
}

/// The positions of the rules that match are those of rules that match.
pub proof fn lemma_matching(rules: Seq<JsonView>, matcher: JsonView)
    ensures
        forall|i: int|
            0 <= i < matching(rules, matcher).len() ==> 0 <= #[trigger] matching(rules, matcher)[i]
                < rules.len() && matches(rules[matching(rules, matcher)[i]], matcher),
        forall|p: int|
            0 <= p < rules.len() && matches(#[trigger] rules[p], matcher) ==> matching(
                rules,
                matcher,
            ).contains(p),
    decreases rules.len(),
{
    if rules.len() > 0 {
        let k = rules.drop_last();
        lemma_matching(k, matcher);
        let now = matching(rules, matcher);
        let before = matching(k, matcher);
        assert forall|i: int| 0 <= i < now.len() implies 0 <= #[trigger] now[i] < rules.len()
            && matches(rules[now[i]], matcher) by {
            if i < before.len() {
                assert(now[i] == before[i]);
                assert(k[before[i]] == rules[before[i]]);
            }
        }
        assert forall|p: int|
            0 <= p < rules.len() && matches(#[trigger] rules[p], matcher) implies now.contains(
            p,
        ) by {
            if p < k.len() {
                assert(k[p] == rules[p]);
                let i = choose|i: int| 0 <= i < before.len() && before[i] == p;
                assert(now[i] == p);
            } else {
                assert(now[before.len() as int] == p);
            }
        }
    }
}

fn find_matching(rules: &Vec<Json>, matcher: &Json) -> (r: Vec<usize>)
    ensures
        positions(r@) == matching(jsons(rules@), matcher@),
{
    let mut out: Vec<usize> = Vec::new();
    let ghost all = jsons(rules@);
    proof {
        assert(positions(out@) =~= matching(all.take(0), matcher@));
    }
    for i in 0..rules.len()
        invariant
            all == jsons(rules@),
            positions(out@) == matching(all.take(i as int), matcher@),
    {
        let ghost prior = out@;
        proof {
            assert(all.take(i + 1).drop_last() == all.take(i as int));
            assert(all.take(i + 1).last() == rules@[i as int]@);
        }
        if rule_matches(&rules[i], matcher) {
            out.push(i);
            proof {
                assert(positions(out@) =~= positions(prior).push(i as int));
            }
        }
    }
    proof {
        assert(all.take(all.len() as int) == all);
    }
    out
}

/// A list of numbers as text.
pub open spec fn number_list(v: Seq<int>) -> Seq<char> {
    "["@ + joined(Seq::new(v.len(), |i: int| decimal(v[i] as nat)), ", "@) + "]"@
}

fn write_number_list(v: &Vec<usize>) -> (r: String)
    ensures
        r@ == number_list(positions(v@)),
{
    let mut parts: Vec<String> = Vec::new();
    for i in 0..v.len()
        invariant
            parts.len() == i,
            forall|j: int| 0 <= j < i ==> (#[trigger] parts@[j])@ == decimal(v@[j] as nat),
    {
        parts.push(u64_to_string(v[i] as u64));
    }
    proof {
        let p = positions(v@);
        assert(texts(parts@) =~= Seq::new(p.len(), |i: int| decimal(p[i] as nat)));
    }
    let mut out: String = concat("[", join(&parts, ", ").as_str());
    out.push_str("]");
    out
}

/// Why a selector is none, if it is none: exactly one of the two is needed.
pub open spec fn selector_defect(index: Option<usize>, matcher: Option<JsonView>) -> Option<
    Seq<char>,
> {
    if index is None && matcher is None {
        Some("provide exactly one of `index` or `match_tuple`"@)
    } else if index is Some && matcher is Some {
        Some("provide exactly one of `index` or `match_tuple`, not both"@)
    } else {
        None
    }
}

/// What an optional value means.
pub open spec fn opt_json(o: Option<Json>) -> Option<JsonView> {
    match o {
        Some(j) => Some(j@),
        None => None,
    }
}

/// Why a selector is none, if it is none.
pub fn check_selector(index: &Option<usize>, matcher: &Option<Json>) -> (r: Option<String>)
    ensures
        match r {
            Some(e) => selector_defect(*index, opt_json(*matcher)) == Some(e@),
            None => selector_defect(*index, opt_json(*matcher)) is None,
        },
{
    match (index, matcher) {
        (None, None) => Some("provide exactly one of `index` or `match_tuple`".to_owned()),
        (Some(_), Some(_)) => Some(
            "provide exactly one of `index` or `match_tuple`, not both".to_owned(),
        ),
        _ => None,
    }
}

/// The position that a selector picks, or why it picks none: a position picks
/// itself, and a partial rule picks the one rule that matches it.
pub open spec fn picked(index: Option<usize>, matcher: Option<JsonView>, rules: Seq<JsonView>) -> Result<
    int,
    Seq<char>,
> {
    match index {
        Some(i) => if i >= rules.len() {
            Err(
                "index "@ + decimal(i as nat) + " is out of range (file has "@ + decimal(
                    rules.len(),
                ) + " rules)"@,
            )
        } else {
            Ok(i as int)
        },
        None => {
            let at = matching(rules, matcher->0);
            if at.len() == 0 {
                Err("no rules matched the provided match_tuple"@)
            } else if at.len() == 1 {
                Ok(at[0])
            } else {
                Err(
                    "match_tuple is ambiguous: "@ + decimal(at.len())
                        + " rules matched (indices: "@ + number_list(at) + ")"@,
                )
            }
        },
    }
}

/// The position that a selector picks, or why it picks none.
pub fn pick(index: Option<usize>, matcher: &Option<Json>, rules: &Vec<Json>) -> (r: Result<
    usize,
    String,
>)
    requires
        selector_defect(index, opt_json(*matcher)) is None,
    ensures
        match r {
            Ok(i) => picked(index, opt_json(*matcher), jsons(rules@)) == Ok::<int, Seq<char>>(
                i as int,
            ) && i < rules.len(),
            Err(e) => picked(index, opt_json(*matcher), jsons(rules@)) == Err::<int, Seq<char>>(
                e@,
            ),
        },
{
    match (index, matcher) {
        (Some(i), _) => {
            if i >= rules.len() {
                let mut out: String = concat("index ", u64_to_string(i as u64).as_str());
                out.push_str(" is out of range (file has ");
                out.push_str(u64_to_string(rules.len() as u64).as_str());
                out.push_str(" rules)");
                return Err(out);
            }
            Ok(i)
        },
        (None, Some(m)) => {
            let at: Vec<usize> = find_matching(rules, m);
            proof {
                lemma_matching(jsons(rules@), m@);
                if at@.len() > 0 {
                    assert(positions(at@)[0] == at@[0]);
                }
            }
            if at.len() == 0 {
                Err("no rules matched the provided match_tuple".to_owned())
            } else if at.len() == 1 {
                Ok(at[0])
            } else {
                let mut out: String = concat(
                    "match_tuple is ambiguous: ",
                    u64_to_string(at.len() as u64).as_str(),
                );
                out.push_str(" rules matched (indices: ");
                out.push_str(write_number_list(&at).as_str());
                out.push_str(")");
                Err(out)
            }
        },
        (None, None) => Err(String::new()),
    }
}

/// A rule that is picked by a partial rule matches it, and no other rule does.
pub proof fn law_pick_is_unique(matcher: JsonView, rules: Seq<JsonView>)
    requires
        picked(None, Some(matcher), rules) is Ok,
    ensures
        ({
            let i = picked(None, Some(matcher), rules)->Ok_0;
            &&& 0 <= i < rules.len()
            &&& matches(rules[i], matcher)
            &&& forall|j: int|
                0 <= j < rules.len() && matches(#[trigger] rules[j], matcher) ==> j == i
        }),
{
    lemma_matching(rules, matcher);
    let at = matching(rules, matcher);
    assert(0 <= at[0] < rules.len());
    assert forall|j: int| 0 <= j < rules.len() && matches(#[trigger] rules[j], matcher) implies j
        == at[0] by {
        assert(at.contains(j));
    }
}

/// A position picks the rule at it, if there is one.
pub proof fn law_a_position_picks_its_rule(index: usize, matcher: Option<JsonView>, rules: Seq<JsonView>)
    ensures
        picked(Some(index), matcher, rules) is Ok <==> index < rules.len(),
        picked(Some(index), matcher, rules) matches Ok(i) ==> i == index,
{
}

/// A partial rule that just one rule matches picks that rule.
pub proof fn law_the_only_match_is_picked(matcher: JsonView, rules: Seq<JsonView>, i: int)
    requires
        0 <= i < rules.len(),
        matches(rules[i], matcher),
        forall|j: int| 0 <= j < rules.len() && j != i ==> !matches(#[trigger] rules[j], matcher),
    ensures
        picked(None, Some(matcher), rules) == Ok::<int, Seq<char>>(i),
{
    let at = matching(rules, matcher);
    lemma_matching(rules, matcher);
    lemma_matching_order(rules, matcher);
    assert(at.contains(i));
    if at.len() > 1 {
        assert(at[0] < at[1]);
        assert(matches(rules[at[0]], matcher) && matches(rules[at[1]], matcher));
    }
    assert(matches(rules[at[0]], matcher));
}

/// A partial rule that two rules match picks none.
pub proof fn law_two_matches_are_ambiguous(matcher: JsonView, rules: Seq<JsonView>, i: int, j: int)
    requires
        0 <= i < j < rules.len(),
        matches(rules[i], matcher),
        matches(rules[j], matcher),
    ensures
        picked(None, Some(matcher), rules) is Err,
{
    let at = matching(rules, matcher);
    lemma_matching(rules, matcher);
    assert(at.contains(i) && at.contains(j));
}

proof fn lemma_matching_order(rules: Seq<JsonView>, matcher: JsonView)
    ensures
        forall|i: int, j: int|
            0 <= i < j < matching(rules, matcher).len() ==> #[trigger] matching(rules, matcher)[i]
                < #[trigger] matching(rules, matcher)[j],
    decreases rules.len(),
{
    if rules.len() > 0 {
        let k = rules.drop_last();
        lemma_matching_order(k, matcher);
        lemma_matching(k, matcher);
        let (before, now) = (matching(k, matcher), matching(rules, matcher));
        assert forall|i: int, j: int| 0 <= i < j < now.len() implies #[trigger] now[i]
            < #[trigger] now[j] by {
            assert(now[i] == before[i]);
            if j < before.len() {
                assert(now[j] == before[j]);
            }
        }
    }
}

/// A rule matches a partial rule just if each member of the partial rule stands in it with an
/// equal value.
pub proof fn law_what_matches(rule: JsonView, matcher: JsonView, key: Seq<char>)
    ensures
        matches(rule, matcher) && member(matcher, key) is Some ==> member(rule, key) is Some
            && equal(member(rule, key)->0, member(matcher, key)->0),
        matches(rule, matcher) ==> matcher is Object,
        matcher is Object && (forall|k: Seq<char>| #[trigger]
            member(matcher, k) is Some ==> member(rule, k) is Some && equal(
                member(rule, k)->0,
                member(matcher, k)->0,
            )) ==> matches(rule, matcher),
{
    if matcher is Object && (forall|k: Seq<char>| #[trigger]
        member(matcher, k) is Some ==> member(rule, k) is Some && equal(
            member(rule, k)->0,
            member(matcher, k)->0,
        )) {
        assert forall|k: Seq<char>| #[trigger]
            matcher->Object_0.dom().contains(k) implies has_member(
            rule,
            k,
            matcher->Object_0[k],
        ) by {
            assert(member(matcher, k) is Some);
        }
    }
}

/// A document with other rules has these rules, and everything else as it was.
pub proof fn law_other_rules(doc: JsonView, rules: Seq<JsonView>, key: Seq<char>)
    requires
        doc is Object,
    ensures
        member(with_rules(doc, rules), "rules"@) == Some(JsonView::Array(rules)),
        key != "rules"@ ==> member(with_rules(doc, rules), key) == member(doc, key),
{
}

/// Exactly one of position and partial rule is needed.
pub proof fn law_one_selector(index: Option<usize>, matcher: Option<JsonView>)
    ensures
        selector_defect(index, matcher) is None <==> index is Some != matcher is Some,
{
}

/// A file is in the directory of rule files, and not below or beside it: behind the directory's
/// path comes one name without slashes.
pub proof fn law_files_stay_in_their_directory(root: Seq<char>, name: Seq<char>, i: int)
    requires
        is_plain_name(name),
    ensures
        0 <= i < name.len() ==> name[i] != '/' && name[i] != '\\',
        name.len() > 0,
        lsrules_path(root, name) == ((below(root, "rules"@)).push('/') + name) + ".lsrules"@,
{
    reveal_strlit("rules");
    reveal_strlit("/");
    reveal_strlit(".lsrules");
    let dir = below(root, "rules"@);
    assert("rules"@[0] == 'r' && "rules"@[4] == 's');
    assert(dir.last() == 's');
    let file = name + ".lsrules"@;
    assert(name[0] != '/');
    assert(file[0] == name[0]);
    law_below_a_directory(dir, file);
    assert(lsrules_path(root, name) =~= (dir.push('/') + name) + ".lsrules"@);
}

/// A document is had just if the file is there, can be read and holds JSON, and then it is what
/// the file holds.
pub proof fn law_the_document_is_the_files(read: TextRead, path: Seq<char>, hint: Seq<char>)
    ensures
        document(read, path, hint) is Ok <==> read is Text && json_parsed(read->Text_0@) is Ok,
        document(read, path, hint) matches Ok((raw, doc)) ==> raw == read->Text_0@ && json_parsed(
            raw,
        ) == Ok::<JsonView, Seq<char>>(doc),
{
}

} // verus!
