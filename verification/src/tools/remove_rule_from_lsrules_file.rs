//! Taking a rule out of a `.lsrules` file.

use vstd::prelude::*;
use crate::json::{
    jsons, member, nests_within, pretty_text, reads_as, to_pretty_text, Json, JsonView,
};
use crate::lsrules::{
    check_plain_name, check_selector, copy_rules, document, is_plain_name, law_pick_is_unique,
    lemma_rules_nest, lemma_with_rules_nests, opt_json, pick, picked, read_document, rules_in,
    selector_defect, set_rules, with_rules,
};
use crate::managed_dir::{lsrules_file, lsrules_path, TextRead};
use crate::text::{concat, debug_form, quoted};
use crate::textdiff::{file_diff, make_diff};
use crate::tools::add_rule_to_lsrules_file::with_rule;
use crate::tools::validate_lsrules::{
    is_valid, law_which_documents_are_accepted, reject, rejection, schema_errors,
};

verus! {

/// What the tool is given: a file, and a position or a partial rule.
#[derive(Debug)]
pub struct RemoveRuleArgs {
    /// Name of the file, without its extension.
    pub file_name: String,
    /// Position of the rule.
    pub index: Option<usize>,
    /// A partial rule that exactly one rule matches.
    pub match_tuple: Option<Json>,
}

/// What the tool returns.
#[derive(Debug)]
pub struct RemoveRuleResult {
    pub file_name: String,
    pub removed_index: usize,
    pub removed_rule: Json,
    pub rules_remaining: usize,
    pub diff: String,
}

/// What taking a rule away comes to.
pub struct Removal {
    pub index: int,
    pub rule: JsonView,
    pub rules_remaining: nat,
    pub diff: Seq<char>,
    /// The new text of the file.
    pub text: Seq<char>,
}

/// That a name is none of a file.
pub open spec fn bad_name(name: Seq<char>) -> Seq<char> {
    "invalid file_name "@ + debug_form(name)
        + ": must be a plain filename with no path separators or backslashes"@
}

/// That a name is none of a file.
pub fn write_bad_name(name: &str) -> (r: String)
    ensures
        r@ == bad_name(name@),
{
    let mut out: String = concat("invalid file_name ", quoted(name).as_str());
    out.push_str(": must be a plain filename with no path separators or backslashes");
    out
}

/// What taking the picked rule out of a document with the text `raw` comes to, or
/// why it is not done.
pub open spec fn removal(
    file_name: Seq<char>,
    raw: Seq<char>,
    doc: JsonView,
    index: Option<usize>,
    matcher: Option<JsonView>,
    schema: JsonView,
) -> Result<Removal, Seq<char>> {
    match rules_in(doc) {
        None => Err("file has no `rules` array"@),
        Some(rules) => match picked(index, matcher, rules) {
            Err(e) => Err(e),
            Ok(i) => {
                let after = with_rules(doc, rules.remove(i));
                match rejection(
                    schema,
                    after,
                    "file would be invalid after removal"@,
                    "post-removal validation error"@,
                ) {
                    Some(e) => Err(e),
                    None => Ok(
                        Removal {
                            index: i,
                            rule: rules[i],
                            rules_remaining: (rules.len() - 1) as nat,
                            diff: file_diff(raw, pretty_text(after), file_name + ".lsrules"@),
                            text: pretty_text(after),
                        },
                    ),
                }
            },
        },
    }
}

/// What taking a rule out of the file comes to, or why it is not done.
pub open spec fn outcome(
    args: RemoveRuleArgs,
    root: Seq<char>,
    read: TextRead,
    schema: JsonView,
) -> Result<Removal, Seq<char>> {
    if !is_plain_name(args.file_name@) {
        Err(bad_name(args.file_name@))
    } else if selector_defect(args.index, opt_json(args.match_tuple)) is Some {
        Err(selector_defect(args.index, opt_json(args.match_tuple))->0)
    } else {
        match document(read, lsrules_path(root, args.file_name@), hint()) {
            Err(e) => Err(e),
            Ok((raw, doc)) => removal(
                args.file_name@,
                raw,
                doc,
                args.index,
                opt_json(args.match_tuple),
                schema,
            ),
        }
    }
}

/// The hint that is given where the file is not there.
pub open spec fn hint() -> Seq<char> {
    " — use create_lsrules_file to create it first"@
}

/// The document that was read.
pub open spec fn document_read(args: RemoveRuleArgs, root: Seq<char>, read: TextRead) -> JsonView {
    (document(read, lsrules_path(root, args.file_name@), hint())->Ok_0).1
}

/// The document without the rule at a position.
pub open spec fn without_rule(doc: JsonView, i: int) -> JsonView {
    with_rules(doc, rules_in(doc)->0.remove(i))
}

/// Takes a rule out of the file below `root`. `read` is what became of reading the
/// file. With the result comes the new text of the file, which is read back as the
/// document without the rule.
pub fn run(args: RemoveRuleArgs, root: &str, read: TextRead, schema: &Json) -> (r: Result<
    (RemoveRuleResult, String),
    String,
>)
    ensures
        match outcome(args, root@, read, schema@) {
            Err(e) => r is Err && r->Err_0@ == e,
            Ok(a) => r is Ok && ({
                let (res, text) = r->Ok_0;
                &&& res.file_name@ == args.file_name@
                &&& res.removed_index == a.index
                &&& res.removed_rule@ == a.rule
                &&& res.rules_remaining == a.rules_remaining
                &&& res.diff@ == a.diff
                &&& text@ == a.text
                &&& reads_as(text@, without_rule(document_read(args, root@, read), a.index))
            }),
        },
{
    if !check_plain_name(args.file_name.as_str()) {
        return Err(write_bad_name(args.file_name.as_str()));
    }
    if let Some(e) = check_selector(&args.index, &args.match_tuple) {
        return Err(e);
    }
    let path: String = lsrules_file(root, args.file_name.as_str());
    let (raw, mut doc): (String, Json) = match read_document(
        read,
        path.as_str(),
        " — use create_lsrules_file to create it first",
    ) {
        Ok(x) => x,
        Err(e) => {
            return Err(e);
        },
    };
    let mut rules: Vec<Json> = match copy_rules(&doc) {
        Some(v) => v,
        None => {
            return Err("file has no `rules` array".to_owned());
        },
    };
    let index: usize = match pick(args.index, &args.match_tuple, &rules) {
        Ok(i) => i,
        Err(e) => {
            return Err(e);
        },
    };
    let ghost before = rules@;
    let ghost doc0 = doc@;
    let removed_rule: Json = rules.remove(index);
    proof {
        assert(jsons(rules@) =~= jsons(before).remove(index as int));
    }
    let rules_remaining: usize = rules.len();
    set_rules(&mut doc, rules);
    proof {
        assert forall|i: int| 0 <= i < rules@.len() implies nests_within(
            #[trigger] jsons(rules@)[i],
            125,
        ) by {
            lemma_rules_nest(doc0, if i < index {
                i
            } else {
                i + 1
            });
        }
        lemma_with_rules_nests(doc0, jsons(rules@));
    }
    if let Some(e) = reject(
        &doc,
        schema,
        "file would be invalid after removal",
        "post-removal validation error",
    ) {
        return Err(e);
    }
    let text: String = to_pretty_text(&doc);
    let diff: String = make_diff(
        raw.as_str(),
        text.as_str(),
        concat(args.file_name.as_str(), ".lsrules").as_str(),
    );
    Ok(
        (
            RemoveRuleResult {
                file_name: args.file_name,
                removed_index: index,
                removed_rule,
                rules_remaining,
                diff,
            },
            text,
        ),
    )
}

/// Taking a rule away changes nothing but the rules, and of these only the one: the
/// others keep their order.
pub proof fn law_removal_keeps_the_rest(
    file_name: Seq<char>,
    raw: Seq<char>,
    doc: JsonView,
    index: Option<usize>,
    matcher: Option<JsonView>,
    schema: JsonView,
    key: Seq<char>,
)
    requires
        index is Some || matcher is Some,
        removal(file_name, raw, doc, index, matcher, schema) is Ok,
    ensures
        ({
            let rules = rules_in(doc)->0;
            let i = removal(file_name, raw, doc, index, matcher, schema)->Ok_0.index;
            let after = with_rules(doc, rules.remove(i));
            &&& 0 <= i < rules.len()
            &&& rules_in(after) == Some(rules.take(i) + rules.skip(i + 1))
            &&& key != "rules"@ ==> member(after, key) == member(doc, key)
        }),
{
    let rules = rules_in(doc)->0;
    if index is None {
        law_pick_is_unique(matcher->0, rules);
        assert(picked(None, Some(matcher->0), rules) == picked(index, matcher, rules));
    }
    let i = picked(index, matcher, rules)->Ok_0;
    assert(rules.remove(i) =~= rules.take(i) + rules.skip(i + 1));
}

/// Taking a rule away that was added gives the document back.
pub proof fn law_removal_undoes_addition(doc: JsonView, rule: JsonView)
    requires
        rules_in(doc) is Some,
    ensures
        without_rule(with_rule(doc, rule), rules_in(doc)->0.len() as int) == doc,
{
    let rules = rules_in(doc)->0;
    let now = rules.push(rule);
    assert(rules_in(with_rule(doc, rule)) == Some(now));
    assert(now.remove(rules.len() as int) =~= rules);
    let back = without_rule(with_rule(doc, rule), rules.len() as int);
    assert(back->Object_0 =~= doc->Object_0);
}

/// A file is changed only if nothing is wrong with what it comes to hold.
pub proof fn law_removed_from_file_is_valid(
    args: RemoveRuleArgs,
    root: Seq<char>,
    read: TextRead,
    schema: JsonView,
)
    requires
        outcome(args, root, read, schema) is Ok,
    ensures
        ({
            let i = outcome(args, root, read, schema)->Ok_0.index;
            is_valid(schema, without_rule(document_read(args, root, read), i))
        }),
{
}

/// The rule that is picked is the one that is taken out of the file, and the file comes to hold
/// the others; unless it would then be invalid.
pub proof fn law_picked_rule_is_removed(
    file_name: Seq<char>,
    raw: Seq<char>,
    doc: JsonView,
    rules: Seq<JsonView>,
    index: Option<usize>,
    matcher: Option<JsonView>,
    schema: JsonView,
    i: int,
)
    requires
        member(doc, "rules"@) == Some(JsonView::Array(rules)),
        picked(index, matcher, rules) == Ok::<int, Seq<char>>(i),
        0 <= i < rules.len(),
    ensures
        ({
            let after = JsonView::Object(
                doc->Object_0.insert(
                    "rules"@,
                    JsonView::Array(rules.take(i) + rules.skip(i + 1)),
                ),
            );
            let done = removal(file_name, raw, doc, index, matcher, schema);
            &&& done is Ok <==> schema_errors(schema, after) == Some(
                Seq::<(Seq<char>, Seq<char>)>::empty(),
            )
            &&& done matches Ok(a) ==> {
                &&& a.index == i
                &&& a.rule == rules[i]
                &&& a.rules_remaining == rules.len() - 1
                &&& a.text == pretty_text(after)
            }
        }),
{
    assert(rules.remove(i) =~= rules.take(i) + rules.skip(i + 1));
    law_which_documents_are_accepted(
        schema,
        with_rules(doc, rules.remove(i)),
        "file would be invalid after removal"@,
        "post-removal validation error"@,
    );
}

} // verus!
