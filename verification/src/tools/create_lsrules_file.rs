//! Making a new `.lsrules` file.

use vstd::prelude::*;
use crate::json::{
    items_of, jsons, lemma_array_view, member, nests_within, pretty_text, reads_as, text_of,
    to_pretty_text, Json, JsonView,
};
use crate::lsrules::{check_plain_name, is_plain_name, rules_in};
use crate::managed_dir::{below, law_below_a_directory, path_below, path_debug_form, quoted_path};
use crate::model::copy_jsons;
use crate::text::{concat, debug_form, opt_text, quoted, str_eq};
use crate::tools::validate_lsrules::{
    is_valid, law_which_documents_are_accepted, reject, rejection, schema_errors,
};

verus! {

/// What the tool is given.
#[derive(Debug)]
pub struct CreateLsrulesArgs {
    /// Name of the rule group and of the file, without its extension.
    pub name: String,
    pub description: Option<String>,
    /// Domains for `denied-remote-domains`.
    pub denied_remote_domains: Option<Vec<String>>,
    /// Rules.
    pub rules: Option<Vec<Json>>,
    /// Whether a file that is there is overwritten. It is not, unless this says so.
    pub replace: Option<bool>,
}

/// What the tool returns.
#[derive(Debug)]
pub struct CreateResult {
    pub path: String,
    pub name: String,
}

/// What is asked for, without whether a file is overwritten.
pub open spec fn new_document(args: CreateLsrulesArgs) -> JsonView {
    let m = Map::<Seq<char>, JsonView>::empty().insert("name"@, JsonView::Text(args.name@)).insert(
        "rules"@,
        JsonView::Array(Seq::empty()),
    );
    let m = match args.description {
        Some(d) => m.insert("description"@, JsonView::Text(d@)),
        None => m,
    };
    let m = match args.denied_remote_domains {
        Some(v) => if v@.len() > 0 {
            m.insert(
                "denied-remote-domains"@,
                JsonView::Array(Seq::new(v@.len(), |i: int| JsonView::Text(v@[i]@))),
            )
        } else {
            m
        },
        None => m,
    };
    let m = match args.rules {
        Some(v) => if v@.len() > 0 {
            m.insert("rules"@, JsonView::Array(jsons(v@)))
        } else {
            m
        },
        None => m,
    };
    JsonView::Object(m)
}

fn build_document(args: &CreateLsrulesArgs) -> (r: Json)
    ensures
        r@ == new_document(*args),
{
    broadcast use lemma_array_view;

    let none: Vec<Json> = Vec::new();
    proof {
        assert(jsons(none@) =~= Seq::empty());
    }
    let mut doc: Json = Json::object();
    doc.insert("name".to_owned(), Json::text(args.name.as_str()));
    doc.insert("rules".to_owned(), Json::Array(none));
    if let Some(d) = &args.description {
        doc.insert("description".to_owned(), Json::text(d.as_str()));
    }
    if let Some(v) = &args.denied_remote_domains {
        if v.len() > 0 {
            let mut out: Vec<Json> = Vec::new();
            for i in 0..v.len()
                invariant
                    out.len() == i,
                    forall|j: int|
                        0 <= j < i ==> out@[j]@ == JsonView::Text((#[trigger] v@[j])@),
            {
                out.push(Json::text(v[i].as_str()));
            }
            proof {
                assert(jsons(out@) =~= Seq::new(v@.len(), |i: int| JsonView::Text(v@[i]@)));
            }
            doc.insert("denied-remote-domains".to_owned(), Json::Array(out));
        }
    }
    if let Some(v) = &args.rules {
        if v.len() > 0 {
            doc.insert("rules".to_owned(), Json::Array(copy_jsons(v)));
        }
    }
    doc
}

/// The file of a name in the directory of rule files.
pub open spec fn target(rules_dir: Seq<char>, name: Seq<char>) -> Seq<char> {
    below(rules_dir, name + ".lsrules"@)
}

/// The path and the text of the new file, or why there is none. `exists` says
/// whether there is a file at that path.
pub open spec fn creation(
    args: CreateLsrulesArgs,
    rules_dir: Seq<char>,
    exists: bool,
    schema: JsonView,
) -> Result<(Seq<char>, Seq<char>), Seq<char>> {
    let path = target(rules_dir, args.name@);
    let doc = new_document(args);
    if exists && args.replace != Some(true) {
        Err(
            "file already exists at "@ + path_debug_form(path)
                + "; pass `replace: true` to overwrite"@,
        )
    } else {
        match rejection(
            schema,
            doc,
            "content failed schema validation"@,
            "schema validation error"@,
        ) {
            Some(e) => Err(e),
            None => Ok((path, pretty_text(doc))),
        }
    }
}

/// Whether the rules that are given nest no more deeply than can be read back.
pub open spec fn is_shallow(args: CreateLsrulesArgs) -> bool {
    args.rules matches Some(v) ==> forall|i: int|
        0 <= i < v@.len() ==> nests_within((#[trigger] v@[i])@, 125)
}

proof fn lemma_new_document_nests(args: CreateLsrulesArgs)
    requires
        is_shallow(args),
    ensures
        nests_within(new_document(args), 127),
{
    reveal_with_fuel(nests_within, 3);
}

/// Makes the new file of `rules_dir`. With the result comes the text of the file. It is
/// read back as the new document, unless the rules nest too deeply for that.
pub fn run_inner(args: CreateLsrulesArgs, rules_dir: &str, exists: bool, schema: &Json) -> (r: Result<
    (CreateResult, String),
    String,
>)
    ensures
        match creation(args, rules_dir@, exists, schema@) {
            Err(e) => r is Err && r->Err_0@ == e,
            Ok((path, text)) => r is Ok && r->Ok_0.0.path@ == path && r->Ok_0.0.name@ == args.name@
                && r->Ok_0.1@ == text,
        },
        r is Ok && is_shallow(args) ==> reads_as(r->Ok_0.1@, new_document(args)),
{
    let path: String = path_below(rules_dir, concat(args.name.as_str(), ".lsrules").as_str());
    let replace: bool = match args.replace {
        Some(b) => b,
        None => false,
    };
    if exists && !replace {
        let mut out: String = concat("file already exists at ", quoted_path(path.as_str()).as_str());
        out.push_str("; pass `replace: true` to overwrite");
        return Err(out);
    }
    let doc: Json = build_document(&args);
    if let Some(e) = reject(
        &doc,
        schema,
        "content failed schema validation",
        "schema validation error",
    ) {
        return Err(e);
    }
    let text: String = to_pretty_text(&doc);
    proof {
        if is_shallow(args) {
            lemma_new_document_nests(args);
        }
    }
    Ok((CreateResult { path, name: args.name }, text))
}

/// Whether a name is one of a file, and neither the directory nor the one above.
pub open spec fn is_file_name(name: Seq<char>) -> bool {
    is_plain_name(name) && name != ".."@ && name != "."@
}

/// That a name is none of a file.
pub open spec fn bad_name(name: Seq<char>) -> Seq<char> {
    "invalid name "@ + debug_form(name) + ": must be a plain filename with no path separators"@
}

/// Makes a new file. `rules_dir` is the directory of rule files, or why there is
/// none. With the result comes the text of the file.
pub fn run(
    args: CreateLsrulesArgs,
    rules_dir: Result<String, String>,
    exists: bool,
    schema: &Json,
) -> (r: Result<(CreateResult, String), String>)
    ensures
        if !is_file_name(args.name@) {
            r is Err && r->Err_0@ == bad_name(args.name@)
        } else {
            match rules_dir {
                Err(e) => r is Err && r->Err_0@ == "cannot bootstrap managed directory: "@ + e@,
                Ok(dir) => match creation(args, dir@, exists, schema@) {
                    Err(e) => r is Err && r->Err_0@ == e,
                    Ok((path, text)) => r is Ok && r->Ok_0.0.path@ == path && r->Ok_0.0.name@
                        == args.name@ && r->Ok_0.1@ == text,
                },
            }
        },
        r is Ok && is_shallow(args) ==> reads_as(r->Ok_0.1@, new_document(args)),
{
    if !check_plain_name(args.name.as_str()) || str_eq(args.name.as_str(), "..") || str_eq(
        args.name.as_str(),
        ".",
    ) {
        let mut out: String = concat("invalid name ", quoted(args.name.as_str()).as_str());
        out.push_str(": must be a plain filename with no path separators");
        return Err(out);
    }
    match rules_dir {
        Err(e) => Err(concat("cannot bootstrap managed directory: ", e.as_str())),
        Ok(dir) => run_inner(args, dir.as_str(), exists, schema),
    }
}

/// Makes a new file below `managed_root`. `made` is what became of making the
/// directory of rule files. With the result comes the text of the file.
pub fn run_with_root(
    args: CreateLsrulesArgs,
    managed_root: &str,
    made: Result<(), String>,
    exists: bool,
    schema: &Json,
) -> (r: Result<(CreateResult, String), String>)
    ensures
        ({
            let dir = below(managed_root@, "rules"@);
            match made {
                Err(e) => r is Err && r->Err_0@ == "cannot create rules dir "@ + path_debug_form(dir)
                    + ": "@ + e@,
                Ok(_) => match creation(args, dir, exists, schema@) {
                    Err(e) => r is Err && r->Err_0@ == e,
                    Ok((path, text)) => r is Ok && r->Ok_0.0.path@ == path && r->Ok_0.0.name@
                        == args.name@ && r->Ok_0.1@ == text,
                },
            }
        }),
        r is Ok && is_shallow(args) ==> reads_as(r->Ok_0.1@, new_document(args)),
{
    let dir: String = path_below(managed_root, "rules");
    match made {
        Err(e) => {
            let mut out: String = concat(
                "cannot create rules dir ",
                quoted_path(dir.as_str()).as_str(),
            );
            out.push_str(": ");
            out.push_str(e.as_str());
            Err(out)
        },
        Ok(()) => run_inner(args, dir.as_str(), exists, schema),
    }
}

/// A new document always has rules to add to, change and remove.
pub proof fn law_new_document_has_rules(args: CreateLsrulesArgs)
    ensures
        rules_in(new_document(args)) is Some,
        text_of(member(new_document(args), "name"@)) == Some(args.name@),
{
    reveal_strlit("name");
    reveal_strlit("rules");
    reveal_strlit("description");
    reveal_strlit("denied-remote-domains");
    assert("name"@.len() == 4);
    assert("rules"@.len() == 5);
    assert("description"@.len() == 11);
    assert("denied-remote-domains"@.len() == 21);
}

/// A file is made only if nothing is wrong with what goes into it, and one that is there
/// is overwritten only if that is asked for.
pub proof fn law_created_file_is_valid(
    args: CreateLsrulesArgs,
    rules_dir: Seq<char>,
    exists: bool,
    schema: JsonView,
)
    requires
        creation(args, rules_dir, exists, schema) is Ok,
    ensures
        is_valid(schema, new_document(args)),
        exists ==> args.replace == Some(true),
{
}

/// A new document holds what was asked for: its name, its description if there is one, the
/// rules in their order, and the denied domains in theirs if there are any; and nothing else.
pub proof fn law_new_document_is_what_was_asked_for(args: CreateLsrulesArgs)
    ensures
        ({
            let doc = new_document(args);
            &&& member(doc, "name"@) == Some(JsonView::Text(args.name@))
            &&& text_of(member(doc, "description"@)) == opt_text(args.description)
            &&& args.description is None ==> member(doc, "description"@) is None
            &&& member(doc, "rules"@) == Some(
                JsonView::Array(
                    match args.rules {
                        Some(v) => jsons(v@),
                        None => Seq::empty(),
                    },
                ),
            )
            &&& member(doc, "denied-remote-domains"@) is Some <==> (
            args.denied_remote_domains is Some && args.denied_remote_domains->0@.len() > 0)
            &&& items_of(member(doc, "denied-remote-domains"@)) matches Some(items) ==> {
                let v = args.denied_remote_domains->0@;
                items.len() == v.len() && forall|i: int|
                    0 <= i < v.len() ==> #[trigger] items[i] == JsonView::Text(v[i]@)
            }
            &&& member(doc, "denied-remote-domains"@) is Some ==> items_of(
                member(doc, "denied-remote-domains"@),
            ) is Some
            &&& forall|key: Seq<char>|
                key != "name"@ && key != "description"@ && key != "rules"@ && key
                    != "denied-remote-domains"@ ==> #[trigger] member(doc, key) is None
        }),
{
    reveal_strlit("name");
    reveal_strlit("description");
    reveal_strlit("rules");
    reveal_strlit("denied-remote-domains");
    assert("name"@.len() == 4 && "description"@.len() == 11 && "rules"@.len() == 5);
    assert("denied-remote-domains"@.len() == 21);
    if let Some(v) = args.rules {
        if v@.len() == 0 {
            assert(jsons(v@) =~= Seq::empty());
        }
    }
}

/// A file is made just if it does not take the place of another unasked, and nothing is wrong
/// with what it would hold.
pub proof fn law_which_files_are_created(
    args: CreateLsrulesArgs,
    rules_dir: Seq<char>,
    exists: bool,
    schema: JsonView,
)
    ensures
        creation(args, rules_dir, exists, schema) is Ok <==> (exists ==> args.replace == Some(true))
            && schema_errors(schema, new_document(args)) == Some(
            Seq::<(Seq<char>, Seq<char>)>::empty(),
        ),
{
    law_which_documents_are_accepted(
        schema,
        new_document(args),
        "content failed schema validation"@,
        "schema validation error"@,
    );
}

/// What is written is the document that was asked for, below the directory and under its name.
pub proof fn law_where_and_what_is_written(
    args: CreateLsrulesArgs,
    rules_dir: Seq<char>,
    exists: bool,
    schema: JsonView,
)
    requires
        creation(args, rules_dir, exists, schema) is Ok,
        is_file_name(args.name@),
        rules_dir.len() > 0,
        rules_dir.last() != '/',
    ensures
        ({
            let (path, text) = creation(args, rules_dir, exists, schema)->Ok_0;
            &&& path == (rules_dir.push('/') + args.name@) + ".lsrules"@
            &&& text == pretty_text(new_document(args))
        }),
{
    let file = args.name@ + ".lsrules"@;
    assert(args.name@[0] != '/');
    assert(file[0] == args.name@[0]);
    law_below_a_directory(rules_dir, file);
    assert(target(rules_dir, args.name@) =~= (rules_dir.push('/') + args.name@) + ".lsrules"@);
}

/// The name of a new file is one name: not empty, without slashes of either kind, and none of
/// the two that stand for directories.
pub proof fn law_which_names_are_refused(name: Seq<char>, i: int)
    ensures
        is_file_name(name) ==> name.len() > 0 && name != "."@ && name != ".."@,
        is_file_name(name) && 0 <= i < name.len() ==> name[i] != '/' && name[i] != '\\',
{
}

} // verus!
