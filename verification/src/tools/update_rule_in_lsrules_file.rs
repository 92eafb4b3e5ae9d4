//! Changing a rule of a `.lsrules` file.

use vstd::prelude::*;
use crate::json::{
    jsons, member, nests_within, pretty_text, reads_as, to_pretty_text, Json, JsonView,
};
use crate::lsrules::{
    check_plain_name, check_selector, copy_rules, document, is_plain_name, lemma_rules_nest,
    lemma_with_rules_nests, opt_json, pick, picked, read_document, rules_in, selector_defect,
    set_rules, with_rules,
};
use crate::managed_dir::{lsrules_file, lsrules_path, TextRead};
use crate::text::{concat, decimal, u64_to_string};
use crate::textdiff::{file_diff, make_diff};
use crate::tools::remove_rule_from_lsrules_file::{bad_name, hint, write_bad_name};
use crate::tools::validate_lsrules::{
    is_valid, law_which_documents_are_accepted, reject, rejection, schema_errors,
};

verus! {

/// What the tool is given: a file, a position or a partial rule, and the fields to
/// change.
#[derive(Debug)]
pub struct UpdateRuleArgs {
    /// Name of the file, without its extension.
    pub file_name: String,
    /// Position of the rule.
    pub index: Option<usize>,
    /// A partial rule that exactly one rule matches.
    pub match_tuple: Option<Json>,
    /// The fields that take the place of the rule's. The others stay as they are.
    pub updates: Json,
}

/// What the tool returns.
#[derive(Debug)]
pub struct UpdateRuleResult {
    pub file_name: String,
    pub updated_index: usize,
    pub rule_before: Json,
    pub rule_after: Json,
    pub rules_remaining: usize,
    pub diff: String,
}

/// What changing a rule comes to.
pub struct Update {
    pub index: int,
    pub before: JsonView,
    pub after: JsonView,
    pub rules_remaining: nat,
    pub diff: Seq<char>,
    /// The new text of the file.
    pub text: Seq<char>,
}

/// A rule with fields changed.
pub open spec fn merged(rule: JsonView, updates: JsonView) -> JsonView {
    JsonView::Object(rule->Object_0.union_prefer_right(updates->Object_0))
}

proof fn lemma_merged_nests(rule: JsonView, updates: JsonView)
    requires
        rule is Object,
        updates is Object,
        nests_within(rule, 125),
        nests_within(updates, 125),
    ensures
        nests_within(merged(rule, updates), 125),
{
    let m = merged(rule, updates)->Object_0;
    assert forall|k: Seq<char>| #[trigger] m.dom().contains(k) implies nests_within(m[k], 124) by {
        if updates->Object_0.dom().contains(k) {
        } else {
            assert(rule->Object_0.dom().contains(k));
        }
    }
}

/// What changing the picked rule of a document with the text `raw` comes to, or why
/// it is not done.
pub open spec fn update(
    file_name: Seq<char>,
    raw: Seq<char>,
    doc: JsonView,
    index: Option<usize>,
    matcher: Option<JsonView>,
    updates: JsonView,
    schema: JsonView,
) -> Result<Update, Seq<char>> {
    match rules_in(doc) {
        None => Err("file has no `rules` array"@),
        Some(rules) => match picked(index, matcher, rules) {
            Err(e) => Err(e),
            Ok(i) => if !(rules[i] is Object) {
                Err("rule at index "@ + decimal(i as nat) + " is not a JSON object"@)
            } else {
                let after = with_rules(doc, rules.update(i, merged(rules[i], updates)));
                match rejection(
                    schema,
                    after,
                    "file would be invalid after update"@,
                    "post-update validation error"@,
                ) {
                    Some(e) => Err(e),
                    None => Ok(
                        Update {
                            index: i,
                            before: rules[i],
                            after: merged(rules[i], updates),
                            rules_remaining: rules.len(),
                            diff: file_diff(raw, pretty_text(after), file_name + ".lsrules"@),
                            text: pretty_text(after),
                        },
                    ),
                }
            },
        },
    }
}

/// What changing a rule of the file comes to, or why it is not done.
pub open spec fn outcome(
    args: UpdateRuleArgs,
    root: Seq<char>,
    read: TextRead,
    schema: JsonView,
) -> Result<Update, Seq<char>> {
    if !is_plain_name(args.file_name@) {
        Err(bad_name(args.file_name@))
    } else if selector_defect(args.index, opt_json(args.match_tuple)) is Some {
        Err(selector_defect(args.index, opt_json(args.match_tuple))->0)
    } else if !(args.updates@ is Object) {
        Err("`updates` must be a JSON object"@)
    } else if args.updates@ == JsonView::Object(Map::empty()) {
        Err("`updates` must not be empty"@)
    } else {
        match document(read, lsrules_path(root, args.file_name@), hint()) {
            Err(e) => Err(e),
            Ok((raw, doc)) => update(
                args.file_name@,
                raw,
                doc,
                args.index,
                opt_json(args.match_tuple),
                args.updates@,
                schema,
            ),
        }
    }
}

/// The document that was read.
pub open spec fn document_read(args: UpdateRuleArgs, root: Seq<char>, read: TextRead) -> JsonView {
    (document(read, lsrules_path(root, args.file_name@), hint())->Ok_0).1
}

/// The document with the rule at a position changed.
pub open spec fn with_update(doc: JsonView, i: int, updates: JsonView) -> JsonView {
    let rules = rules_in(doc)->0;
    with_rules(doc, rules.update(i, merged(rules[i], updates)))
}

/// Changes a rule of the file below `root`. `read` is what became of reading the
/// file. With the result comes the new text of the file. It is read back as the document
/// with the change, unless the change nests too deeply for that.
pub fn run(args: UpdateRuleArgs, root: &str, read: TextRead, schema: &Json) -> (r: Result<
    (UpdateRuleResult, String),
    String,
>)
    ensures
        match outcome(args, root@, read, schema@) {
            Err(e) => r is Err && r->Err_0@ == e,
            Ok(a) => r is Ok && ({
                let (res, text) = r->Ok_0;
                &&& res.file_name@ == args.file_name@
                &&& res.updated_index == a.index
                &&& res.rule_before@ == a.before
                &&& res.rule_after@ == a.after
                &&& res.rules_remaining == a.rules_remaining
                &&& res.diff@ == a.diff
                &&& text@ == a.text
                &&& nests_within(args.updates@, 125) ==> reads_as(
                    text@,
                    with_update(document_read(args, root@, read), a.index, args.updates@),
                )
            }),
        },
{
    if !check_plain_name(args.file_name.as_str()) {
        return Err(write_bad_name(args.file_name.as_str()));
    }
    if let Some(e) = check_selector(&args.index, &args.match_tuple) {
        return Err(e);
    }
    if !args.updates.is_object() {
        return Err("`updates` must be a JSON object".to_owned());
    }
    if args.updates.is_empty_object() {
        return Err("`updates` must not be empty".to_owned());
    }
    let path: String = lsrules_file(root, args.file_name.as_str());
    let (raw, mut doc): (String, Json) = match read_document(
        read,
        path.as_str(),
        " — use create_lsrules_file to create it first",
    ) {
        Ok(x) => x,
        Err(e) => {
            return Err(e);
        },
    };
    let mut rules: Vec<Json> = match copy_rules(&doc) {
        Some(v) => v,
        None => {
            return Err("file has no `rules` array".to_owned());
        },
    };
    let index: usize = match pick(args.index, &args.match_tuple, &rules) {
        Ok(i) => i,
        Err(e) => {
            return Err(e);
        },
    };
    let rule_before: Json = rules[index].copy();
    if !rule_before.is_object() {
        let mut out: String = concat("rule at index ", u64_to_string(index as u64).as_str());
        out.push_str(" is not a JSON object");
        return Err(out);
    }
    let mut rule_after: Json = rule_before.copy();
    rule_after.merge(&args.updates);
    let ghost before = rules@;
    let ghost doc0 = doc@;
    let copy: Json = rule_after.copy();
    rules.set(index, copy);
    proof {
        assert(jsons(rules@) =~= jsons(before).update(index as int, rule_after@));
    }
    let rules_remaining: usize = rules.len();
    set_rules(&mut doc, rules);
    proof {
        if nests_within(args.updates@, 125) {
            assert forall|i: int| 0 <= i < rules@.len() implies nests_within(
                #[trigger] jsons(rules@)[i],
                125,
            ) by {
                lemma_rules_nest(doc0, i);
                if i == index {
                    lemma_merged_nests(rule_before@, args.updates@);
                }
            }
            lemma_with_rules_nests(doc0, jsons(rules@));
        }
    }
    if let Some(e) = reject(
        &doc,
        schema,
        "file would be invalid after update",
        "post-update validation error",
    ) {
        return Err(e);
    }
    let text: String = to_pretty_text(&doc);
    let diff: String = make_diff(
        raw.as_str(),
        text.as_str(),
        concat(args.file_name.as_str(), ".lsrules").as_str(),
    );
    Ok(
        (
            UpdateRuleResult {
                file_name: args.file_name,
                updated_index: index,
                rule_before,
                rule_after,
                rules_remaining,
                diff,
            },
            text,
        ),
    )
}

/// Changing fields sets those that are given and keeps the others.
pub proof fn law_merge(rule: JsonView, updates: JsonView, key: Seq<char>)
    requires
        rule is Object,
        updates is Object,
    ensures
        member(merged(rule, updates), key) == (if member(updates, key)
            is Some {
            member(updates, key)
        } else {
            member(rule, key)
        }),
{
}

/// Changing a rule changes nothing but the rules, and of these only the one.
pub proof fn law_update_keeps_the_rest(
    doc: JsonView,
    i: int,
    updates: JsonView,
    key: Seq<char>,
    j: int,
)
    requires
        rules_in(doc) is Some,
        0 <= i < rules_in(doc)->0.len(),
    ensures
        key != "rules"@ ==> member(with_update(doc, i, updates), key) == member(doc, key),
        rules_in(with_update(doc, i, updates)) is Some,
        rules_in(with_update(doc, i, updates))->0.len() == rules_in(doc)->0.len(),
        0 <= j < rules_in(doc)->0.len() && j != i ==> rules_in(
            with_update(doc, i, updates),
        )->0[j] == rules_in(doc)->0[j],
{
}

/// Making the same change twice is making it once.
pub proof fn law_merge_is_idempotent(rule: JsonView, updates: JsonView)
    requires
        rule is Object,
        updates is Object,
    ensures
        merged(merged(rule, updates), updates) == merged(rule, updates),
{
    assert(merged(merged(rule, updates), updates)->Object_0 =~= merged(rule, updates)->Object_0);
}

/// A file is changed only if nothing is wrong with what it comes to hold.
pub proof fn law_updated_file_is_valid(
    args: UpdateRuleArgs,
    root: Seq<char>,
    read: TextRead,
    schema: JsonView,
)
    requires
        outcome(args, root, read, schema) is Ok,
    ensures
        ({
            let i = outcome(args, root, read, schema)->Ok_0.index;
            is_valid(schema, with_update(document_read(args, root, read), i, args.updates@))
        }),
{
}

/// The rule that is picked is the one that is changed: what the update names takes the place of
/// what was there, and the rest of the rule and the other rules stay; unless the file would
/// then be invalid.
pub proof fn law_picked_rule_is_updated(
    file_name: Seq<char>,
    raw: Seq<char>,
    doc: JsonView,
    rules: Seq<JsonView>,
    index: Option<usize>,
    matcher: Option<JsonView>,
    updates: JsonView,
    schema: JsonView,
    i: int,
)
    requires
        member(doc, "rules"@) == Some(JsonView::Array(rules)),
        picked(index, matcher, rules) == Ok::<int, Seq<char>>(i),
        0 <= i < rules.len(),
        rules[i] is Object,
        updates is Object,
    ensures
        ({
            let done = update(file_name, raw, doc, index, matcher, updates, schema);
            let changed = JsonView::Object(
                rules[i]->Object_0.union_prefer_right(updates->Object_0),
            );
            let after = JsonView::Object(
                doc->Object_0.insert("rules"@, JsonView::Array(rules.update(i, changed))),
            );
            &&& done is Ok <==> schema_errors(schema, after) == Some(
                Seq::<(Seq<char>, Seq<char>)>::empty(),
            )
            &&& done matches Ok(a) ==> {
                &&& a.index == i
                &&& a.before == rules[i]
                &&& a.after == changed
                &&& a.rules_remaining == rules.len()
                &&& a.text == pretty_text(after)
            }
        }),
{
    law_which_documents_are_accepted(
        schema,
        with_rules(doc, rules.update(i, merged(rules[i], updates))),
        "file would be invalid after update"@,
        "post-update validation error"@,
    );
}

} // verus!
