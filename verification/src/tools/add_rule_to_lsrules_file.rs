//! Adding a rule to a `.lsrules` file.

use vstd::prelude::*;
use crate::json::{
    equal, jsons, member, nests_within, normal, normals, pretty_text, reads_as, to_pretty_text, Json,
    JsonView,
};
use crate::lsrules::{
    check_plain_name, copy_rules, document, is_plain_name, lemma_rules_nest,
    lemma_with_rules_nests, read_document, rules_in, set_rules, with_rules,
};
use crate::managed_dir::{lsrules_file, lsrules_path, TextRead};
use crate::text::{concat, debug_form, opt_text, quoted};
use crate::textdiff::{file_diff, make_diff};
use crate::tools::validate_lsrules::{
    is_valid, law_which_documents_are_accepted, reject, rejection, schema_errors,
};

verus! {

/// What the tool is given.
#[derive(Debug)]
pub struct AddRuleArgs {
    /// Name of the file, without its extension.
    pub file_name: String,
    /// The rule to add.
    pub rule: Json,
}

/// What the tool returns.
#[derive(Debug)]
pub struct AddRuleResult {
    pub file_name: String,
    /// Whether such a rule was there already; nothing changed then.
    pub already_present: bool,
    /// Position of the rule.
    pub rule_index: usize,
    pub rules_total: usize,
    pub diff: String,
}

/// What a rule is told apart by: its process, remote, direction, ports and action.
/// What is not there counts as `null`.
pub open spec fn key_members(rule: JsonView) -> Seq<JsonView> {
    seq![
        member_or_null(rule, "process"@),
        member_or_null(rule, "remote"@),
        member_or_null(rule, "direction"@),
        member_or_null(rule, "ports"@),
        member_or_null(rule, "action"@),
    ]
}

/// What a rule is told apart by, up to equal values.
pub open spec fn rule_key(rule: JsonView) -> Seq<JsonView> {
    normals(key_members(rule))
}

/// A member, or `null` where there is none.
pub open spec fn member_or_null(v: JsonView, key: Seq<char>) -> JsonView {
    match member(v, key) {
        Some(x) => x,
        None => JsonView::Null,
    }
}

fn get_or_null(v: &Json, key: &str) -> (r: Json)
    ensures
        r@ == member_or_null(v@, key@),
{
    match v.get(key) {
        Some(x) => x.copy(),
        None => Json::Null,
    }
}

/// What a rule is told apart by.
pub fn uniqueness_key(rule: &Json) -> (r: [Json; 5])
    ensures
        r@.len() == 5,
        forall|i: int| 0 <= i < 5 ==> (#[trigger] r@[i])@ == key_members(rule@)[i],
{
    [
        get_or_null(rule, "process"),
        get_or_null(rule, "remote"),
        get_or_null(rule, "direction"),
        get_or_null(rule, "ports"),
        get_or_null(rule, "action"),
    ]
}

fn same_key(a: &[Json; 5], b: &[Json; 5]) -> (r: bool)
    ensures
        r == (forall|i: int| 0 <= i < 5 ==> equal((#[trigger] a@[i])@, b@[i]@)),
{
    for i in 0..5usize
        invariant
            forall|j: int| 0 <= j < i ==> equal((#[trigger] a@[j])@, b@[j]@),
    {
        if !a[i].same(&b[i]) {
            return false;
        }
    }
    true
}

/// The position of the first rule that is not told apart from `rule`.
pub open spec fn present_at(rules: Seq<JsonView>, rule: JsonView) -> Option<int>
    decreases rules.len(),
{
    if rules.len() == 0 {
        None
    } else {
        match present_at(rules.drop_last(), rule) {
            Some(i) => Some(i),
            None => if rule_key(rules.last()) == rule_key(rule) {
                Some(rules.len() - 1)
            } else {
                None
            },
        }
    }
}

/// The first such position is the one of such a rule, and there is none before it.
pub proof fn lemma_present_at(rules: Seq<JsonView>, rule: JsonView)
    ensures
        match present_at(rules, rule) {
            Some(i) => 0 <= i < rules.len() && rule_key(rules[i]) == rule_key(rule) && forall|j: int|
                0 <= j < i ==> rule_key(#[trigger] rules[j]) != rule_key(rule),
            None => forall|j: int|
                0 <= j < rules.len() ==> rule_key(#[trigger] rules[j]) != rule_key(rule),
        },
    decreases rules.len(),
{
    if rules.len() > 0 {
        let k = rules.drop_last();
        lemma_present_at(k, rule);
        assert forall|j: int| 0 <= j < k.len() implies k[j] == rules[j] by {}
        match present_at(rules, rule) {
            Some(i) => {
                assert forall|j: int| 0 <= j < i implies rule_key(#[trigger] rules[j]) != rule_key(
                    rule,
                ) by {
                    assert(k[j] == rules[j]);
                }
            },
            None => {
                assert forall|j: int| 0 <= j < rules.len() implies rule_key(#[trigger] rules[j])
                    != rule_key(rule) by {
                    if j < k.len() {
                        assert(k[j] == rules[j]);
                    }
                }
            },
        }
    }
}

proof fn lemma_present_unique(rules: Seq<JsonView>, rule: JsonView, i: int)
    requires
        0 <= i < rules.len(),
        rule_key(rules[i]) == rule_key(rule),
        forall|j: int| 0 <= j < i ==> rule_key(#[trigger] rules[j]) != rule_key(rule),
    ensures
        present_at(rules, rule) == Some(i),
{
    lemma_present_at(rules, rule);
    match present_at(rules, rule) {
        Some(p) => {
            if p < i {
                assert(rule_key(rules[p]) != rule_key(rule));
            } else if i < p {
                assert(rule_key(rules[i]) != rule_key(rule));
            }
        },
        None => {
            assert(rule_key(rules[i]) != rule_key(rule));
        },
    }
}

fn find_present(rules: &Vec<Json>, rule: &Json) -> (r: Option<usize>)
    ensures
        match r {
            Some(i) => present_at(jsons(rules@), rule@) == Some(i as int),
            None => present_at(jsons(rules@), rule@) is None,
        },
{
    let key: [Json; 5] = uniqueness_key(rule);
    let ghost all = jsons(rules@);
    for i in 0..rules.len()
        invariant
            all == jsons(rules@),
            key@.len() == 5,
            forall|j: int| 0 <= j < 5 ==> (#[trigger] key@[j])@ == key_members(rule@)[j],
            forall|j: int| 0 <= j < i ==> rule_key(#[trigger] all[j]) != rule_key(rule@),
    {
        let other: [Json; 5] = uniqueness_key(&rules[i]);
        let same: bool = same_key(&other, &key);
        proof {
            let (a, b) = (rule_key(all[i as int]), rule_key(rule@));
            assert(all[i as int] == rules@[i as int]@);
            if same {
                assert forall|j: int| 0 <= j < 5 implies a[j] == b[j] by {
                    assert(equal(other@[j]@, key@[j]@));
                }
                assert(a =~= b);
                lemma_present_unique(all, rule@, i as int);
            } else if a == b {
                assert forall|j: int| 0 <= j < 5 implies equal(
                    (#[trigger] other@[j])@,
                    key@[j]@,
                ) by {
                    assert(a[j] == b[j]);
                    assert(key@[j]@ == key_members(rule@)[j]);
                }
            }
        }
        if same {
            return Some(i);
        }
    }
    proof {
        lemma_present_at(all, rule@);
    }
    None
}

/// What adding a rule comes to.
pub struct Addition {
    pub already_present: bool,
    pub rule_index: int,
    pub rules_total: nat,
    pub diff: Seq<char>,
    /// The new text of the file, where there is one.
    pub text: Option<Seq<char>>,
}

/// What adding `rule` to a document with the text `raw` comes to, or why it is not
/// done. A rule that is not told apart from one of the file is not added again.
pub open spec fn addition(
    file_name: Seq<char>,
    raw: Seq<char>,
    doc: JsonView,
    rule: JsonView,
    schema: JsonView,
) -> Result<Addition, Seq<char>> {
    match rules_in(doc) {
        None => Err("file has no `rules` array"@),
        Some(rules) => match present_at(rules, rule) {
            Some(i) => Ok(
                Addition {
                    already_present: true,
                    rule_index: i,
                    rules_total: rules.len(),
                    diff: Seq::empty(),
                    text: None,
                },
            ),
            None => {
                let after = with_rules(doc, rules.push(rule));
                match rejection(
                    schema,
                    after,
                    "file would be invalid after adding rule"@,
                    "post-add validation error"@,
                ) {
                    Some(e) => Err(e),
                    None => Ok(
                        Addition {
                            already_present: false,
                            rule_index: rules.len() as int,
                            rules_total: rules.len() + 1,
                            diff: file_diff(raw, pretty_text(after), file_name + ".lsrules"@),
                            text: Some(pretty_text(after)),
                        },
                    ),
                }
            },
        },
    }
}

/// What adding a rule to the file comes to, or why it is not done.
pub open spec fn outcome(
    args: AddRuleArgs,
    root: Seq<char>,
    read: TextRead,
    schema: JsonView,
) -> Result<Addition, Seq<char>> {
    if !is_plain_name(args.file_name@) {
        Err("invalid file_name "@ + debug_form(args.file_name@))
    } else if !(args.rule@ is Object) {
        Err("`rule` must be a JSON object"@)
    } else {
        match document(read, lsrules_path(root, args.file_name@), ""@) {
            Err(e) => Err(e),
            Ok((raw, doc)) => addition(args.file_name@, raw, doc, args.rule@, schema),
        }
    }
}

/// The document with the rule added.
pub open spec fn with_rule(doc: JsonView, rule: JsonView) -> JsonView {
    with_rules(doc, rules_in(doc)->0.push(rule))
}

/// The document that was read.
pub open spec fn document_read(args: AddRuleArgs, root: Seq<char>, read: TextRead) -> JsonView {
    (document(read, lsrules_path(root, args.file_name@), ""@)->Ok_0).1
}

/// Adds a rule to the file below `root`. `read` is what became of reading the file.
/// With the result comes the new text of the file, where it changes. It is read back as
/// the document with the rule, unless the rule nests too deeply for that.
pub fn run(args: AddRuleArgs, root: &str, read: TextRead, schema: &Json) -> (r: Result<
    (AddRuleResult, Option<String>),
    String,
>)
    ensures
        match outcome(args, root@, read, schema@) {
            Err(e) => r is Err && r->Err_0@ == e,
            Ok(a) => r is Ok && ({
                let (res, text) = r->Ok_0;
                &&& res.file_name@ == args.file_name@
                &&& res.already_present == a.already_present
                &&& res.rule_index == a.rule_index
                &&& res.rules_total == a.rules_total
                &&& res.diff@ == a.diff
                &&& opt_text(text) == a.text
                &&& text is Some && nests_within(args.rule@, 125) ==> reads_as(
                    text->0@,
                    with_rule(document_read(args, root@, read), args.rule@),
                )
            }),
        },
{
    if !check_plain_name(args.file_name.as_str()) {
        return Err(concat("invalid file_name ", quoted(args.file_name.as_str()).as_str()));
    }
    if !args.rule.is_object() {
        return Err("`rule` must be a JSON object".to_owned());
    }
    let path: String = lsrules_file(root, args.file_name.as_str());
    let (raw, mut doc): (String, Json) = match read_document(read, path.as_str(), "") {
        Ok(x) => x,
        Err(e) => {
            return Err(e);
        },
    };
    let mut rules: Vec<Json> = match copy_rules(&doc) {
        Some(v) => v,
        None => {
            return Err("file has no `rules` array".to_owned());
        },
    };
    if let Some(i) = find_present(&rules, &args.rule) {
        return Ok(
            (
                AddRuleResult {
                    file_name: args.file_name,
                    already_present: true,
                    rule_index: i,
                    rules_total: rules.len(),
                    diff: String::new(),
                },
                None,
            ),
        );
    }
    let ghost before = rules@;
    let ghost doc0 = doc@;
    let rule: Json = args.rule;
    rules.push(rule);
    proof {
        assert(jsons(rules@) =~= jsons(before).push(rule@));
    }
    let rules_total: usize = rules.len();
    set_rules(&mut doc, rules);
    if let Some(e) = reject(
        &doc,
        schema,
        "file would be invalid after adding rule",
        "post-add validation error",
    ) {
        return Err(e);
    }
    let text: String = to_pretty_text(&doc);
    proof {
        if nests_within(rule@, 125) {
            assert forall|i: int| 0 <= i < rules@.len() implies nests_within(
                #[trigger] jsons(rules@)[i],
                125,
            ) by {
                if i < before.len() {
                    lemma_rules_nest(doc0, i);
                }
            }
            lemma_with_rules_nests(doc0, jsons(rules@));
        }
    }
    let diff: String = make_diff(
        raw.as_str(),
        text.as_str(),
        concat(args.file_name.as_str(), ".lsrules").as_str(),
    );
    Ok(
        (
            AddRuleResult {
                file_name: args.file_name,
                already_present: false,
                rule_index: rules_total - 1,
                rules_total,
                diff,
            },
            Some(text),
        ),
    )
}

/// Adding a rule twice is adding it once: in the file as it was written, `again`, the rule
/// is found at the position that was said, and nothing changes any more.
pub proof fn law_addition_is_idempotent(
    args: AddRuleArgs,
    root: Seq<char>,
    read: TextRead,
    schema: JsonView,
    again: String,
)
    requires
        outcome(args, root, read, schema) is Ok,
        !outcome(args, root, read, schema)->Ok_0.already_present,
        reads_as(again@, with_rule(document_read(args, root, read), args.rule@)),
    ensures
        ({
            let first = outcome(args, root, read, schema)->Ok_0;
            let second = outcome(args, root, TextRead::Text(again), schema);
            &&& second is Ok
            &&& second->Ok_0.already_present
            &&& second->Ok_0.rule_index == first.rule_index
            &&& second->Ok_0.rules_total == first.rules_total
            &&& second->Ok_0.diff.len() == 0
            &&& second->Ok_0.text is None
        }),
{
    let doc = document_read(args, root, read);
    let rule = args.rule@;
    let rules = rules_in(doc)->0;
    let now = rules.push(rule);
    lemma_present_at(rules, rule);
    assert forall|j: int| 0 <= j < rules.len() implies rule_key(#[trigger] now[j]) != rule_key(
        rule,
    ) by {
        assert(now[j] == rules[j]);
    }
    lemma_present_unique(now, rule, rules.len() as int);
    assert(rules_in(with_rules(doc, now)) == Some(now));
}

/// A file is changed only if nothing is wrong with what it comes to hold.
pub proof fn law_added_to_file_is_valid(
    args: AddRuleArgs,
    root: Seq<char>,
    read: TextRead,
    schema: JsonView,
)
    requires
        outcome(args, root, read, schema) is Ok,
        outcome(args, root, read, schema)->Ok_0.text is Some,
    ensures
        is_valid(schema, with_rule(document_read(args, root, read), args.rule@)),
{
}

/// Whether two rules agree under a key: they have equal values there, or neither has one. A
/// `null` is as good as none.
pub open spec fn agree_under(a: JsonView, b: JsonView, key: Seq<char>) -> bool {
    match (member(a, key), member(b, key)) {
        (Some(x), Some(y)) => equal(x, y),
        (Some(x), None) => x is Null,
        (None, Some(y)) => y is Null,
        (None, None) => true,
    }
}

/// Whether two rules agree in process, remote, direction, ports and action.
pub open spec fn is_same_rule(a: JsonView, b: JsonView) -> bool {
    &&& agree_under(a, b, "process"@)
    &&& agree_under(a, b, "remote"@)
    &&& agree_under(a, b, "direction"@)
    &&& agree_under(a, b, "ports"@)
    &&& agree_under(a, b, "action"@)
}

proof fn lemma_agree_under(a: JsonView, b: JsonView, key: Seq<char>)
    ensures
        agree_under(a, b, key) <==> normal(member_or_null(a, key)) == normal(
            member_or_null(b, key),
        ),
{
}

/// Two rules are told apart just by the five members: they are the same rule if and only if
/// they agree in process, remote, direction, ports and action.
pub proof fn law_what_tells_rules_apart(a: JsonView, b: JsonView)
    ensures
        rule_key(a) == rule_key(b) <==> is_same_rule(a, b),
{
    let (x, y) = (rule_key(a), rule_key(b));
    lemma_agree_under(a, b, "process"@);
    lemma_agree_under(a, b, "remote"@);
    lemma_agree_under(a, b, "direction"@);
    lemma_agree_under(a, b, "ports"@);
    lemma_agree_under(a, b, "action"@);
    if is_same_rule(a, b) {
        assert forall|i: int| 0 <= i < 5 implies x[i] == y[i] by {
            assert(i == 0 || i == 1 || i == 2 || i == 3 || i == 4);
        }
        assert(x =~= y);
    } else if x == y {
        assert(x[0] == y[0] && x[1] == y[1] && x[2] == y[2] && x[3] == y[3] && x[4] == y[4]);
    }
}

/// A rule is reported as already there if and only if the file holds the same rule, and then
/// at the first place where it does, and the file stays as it is.
pub proof fn law_present_rule_is_reported(
    file_name: Seq<char>,
    raw: Seq<char>,
    doc: JsonView,
    rules: Seq<JsonView>,
    rule: JsonView,
    schema: JsonView,
    i: int,
)
    requires
        member(doc, "rules"@) == Some(JsonView::Array(rules)),
        0 <= i < rules.len(),
        is_same_rule(rules[i], rule),
        forall|j: int| 0 <= j < i ==> !is_same_rule(#[trigger] rules[j], rule),
    ensures
        addition(file_name, raw, doc, rule, schema) is Ok,
        ({
            let a = addition(file_name, raw, doc, rule, schema)->Ok_0;
            &&& a.already_present
            &&& a.rule_index == i
            &&& a.rules_total == rules.len()
            &&& a.diff.len() == 0
            &&& a.text is None
        }),
{
    assert forall|j: int| 0 <= j < rules.len() implies (rule_key(#[trigger] rules[j]) == rule_key(
        rule,
    ) <==> is_same_rule(rules[j], rule)) by {
        law_what_tells_rules_apart(rules[j], rule);
    }
    lemma_present_unique(rules, rule, i);
}

/// A rule that differs from every rule of the file in its process, remote, direction, ports or
/// action is added at the end, behind all the others, which stay as they are; unless the file
/// would then be invalid.
pub proof fn law_new_rule_is_added(
    file_name: Seq<char>,
    raw: Seq<char>,
    doc: JsonView,
    rules: Seq<JsonView>,
    rule: JsonView,
    schema: JsonView,
)
    requires
        member(doc, "rules"@) == Some(JsonView::Array(rules)),
        forall|j: int| 0 <= j < rules.len() ==> !is_same_rule(#[trigger] rules[j], rule),
    ensures
        ({
            let after = JsonView::Object(
                doc->Object_0.insert("rules"@, JsonView::Array(rules.push(rule))),
            );
            let added = addition(file_name, raw, doc, rule, schema);
            &&& added is Ok <==> schema_errors(schema, after) == Some(
                Seq::<(Seq<char>, Seq<char>)>::empty(),
            )
            &&& added matches Ok(a) ==> {
                &&& !a.already_present
                &&& a.rule_index == rules.len()
                &&& a.rules_total == rules.len() + 1
                &&& a.text == Some(pretty_text(after))
            }
        }),
{
    assert forall|j: int| 0 <= j < rules.len() implies rule_key(#[trigger] rules[j]) != rule_key(
        rule,
    ) by {
        law_what_tells_rules_apart(rules[j], rule);
    }
    lemma_present_at(rules, rule);
    law_which_documents_are_accepted(
        schema,
        with_rules(doc, rules.push(rule)),
        "file would be invalid after adding rule"@,
        "post-add validation error"@,
    );
}


} // verus!
