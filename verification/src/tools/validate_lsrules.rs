//! Holding a `.lsrules` document against the schema of such documents.

use vstd::prelude::*;
use crate::json::{json_parsed, parse, value_of, value_tree, Json, JsonView};
use crate::text::{concat, debug_form, join, joined, quoted, texts};

verus! {

/// What the tool is given: exactly one of the two.
#[derive(Debug)]
pub struct ValidateLsrulesArgs {
    /// Path of a file.
    pub path: Option<String>,
    /// A document.
    pub inline_json: Option<Json>,
}

/// One thing that is wrong with a document.
#[derive(Debug)]
pub struct FieldError {
    /// Where: a JSON Pointer.
    pub path: String,
    /// What.
    pub message: String,
    /// What was expected, where that is known.
    pub expected: Option<String>,
    /// What was there, where that is known.
    pub actual: Option<String>,
}

/// What the tool returns.
#[derive(Debug)]
pub struct ValidateResult {
    pub valid: bool,
    pub errors: Vec<FieldError>,
}

/// What `jsonschema` finds wrong with a document: the places and the messages in
/// the order in which it finds them; `None` if it cannot compile the schema.
pub uninterp spec fn schema_errors(schema: JsonView, doc: JsonView) -> Option<
    Seq<(Seq<char>, Seq<char>)>,
>;

/// Pairs of strings as pairs of sequences of characters.
pub open spec fn text_pairs(v: Seq<(String, String)>) -> Seq<(Seq<char>, Seq<char>)> {
    Seq::new(v.len(), |i: int| (v[i].0@, v[i].1@))
}

/// `jsonschema::ValidationOptions::build`, and `jsonschema::Validator::iter_errors`
/// of what it makes: for each error its `instance_path` and its message. Whether the
/// schema is compiled, and what is found, depends on the schema and the document alone;
/// the crate is built without what would fetch other schemas. What `build` says of a
/// schema that it does not compile is left out: of several references that cannot be
/// fetched it names any one.
#[verifier::external_body]
fn find_schema_errors(schema: &serde_json::Value, doc: &serde_json::Value) -> (r: Option<
    Vec<(String, String)>,
>)
    ensures
        match r {
            Some(v) => schema_errors(value_tree(*schema), value_tree(*doc)) == Some(text_pairs(v@)),
            None => schema_errors(value_tree(*schema), value_tree(*doc)) is None,
        },
{
    let validator = jsonschema::options().build(schema).ok()?;
    let errors = validator.iter_errors(doc);
    Some(errors.map(|e| (e.instance_path().to_string(), e.to_string())).collect())
}

/// The paths and the messages of errors.
pub open spec fn paths_and_messages(v: Seq<FieldError>) -> Seq<(Seq<char>, Seq<char>)> {
    Seq::new(v.len(), |i: int| (v[i].path@, v[i].message@))
}

/// Whether a result says what is wrong with a document.
pub open spec fn reports(r: ValidateResult, errors: Seq<(Seq<char>, Seq<char>)>) -> bool {
    &&& r.valid == (errors.len() == 0)
    &&& paths_and_messages(r.errors@) == errors
    &&& forall|i: int|
        0 <= i < r.errors@.len() ==> (#[trigger] r.errors@[i]).expected is None
            && r.errors@[i].actual is None
}

/// Holds a document against the schema.
pub fn validate(doc: &Json, schema: &Json) -> (r: Result<ValidateResult, String>)
    ensures
        match schema_errors(schema@, doc@) {
            Some(errors) => r is Ok && reports(r->Ok_0, errors),
            None => r is Err && r->Err_0@ == "lsrules schema does not compile"@,
        },
{
    let found: Vec<(String, String)> = match find_schema_errors(&value_of(schema), &value_of(doc)) {
        Some(v) => v,
        None => {
            return Err("lsrules schema does not compile".to_owned());
        },
    };
    let mut errors: Vec<FieldError> = Vec::new();
    for i in 0..found.len()
        invariant
            errors.len() == i,
            forall|j: int|
                0 <= j < i ==> (#[trigger] errors@[j]).path@ == found@[j].0@ && errors@[j].message@
                    == found@[j].1@ && errors@[j].expected is None && errors@[j].actual is None,
    {
        errors.push(
            FieldError {
                path: found[i].0.clone(),
                message: found[i].1.clone(),
                expected: None,
                actual: None,
            },
        );
    }
    proof {
        assert(paths_and_messages(errors@) =~= text_pairs(found@));
    }
    Ok(ValidateResult { valid: errors.len() == 0, errors })
}

/// The document that is to be held against the schema, or why there is none.
/// `file` is what became of reading the file.
pub open spec fn document(args: ValidateLsrulesArgs, file: Result<String, String>) -> Result<
    JsonView,
    Seq<char>,
> {
    match (args.path, args.inline_json) {
        (Some(_), Some(_)) => Err("provide exactly one of `path` or `inline_json`, not both"@),
        (None, None) => Err("one of `path` or `inline_json` is required"@),
        (None, Some(doc)) => Ok(doc@),
        (Some(p), None) => match file {
            Err(e) => Err("cannot read file "@ + debug_form(p@) + ": "@ + e@),
            Ok(raw) => match json_parsed(raw@) {
                Ok(doc) => Ok(doc),
                Err(e) => Err("file "@ + debug_form(p@) + " is not valid JSON: "@ + e),
            },
        },
    }
}

/// Holds a document, or the document in a file, against the schema. `file` is what
/// became of reading the file.
pub fn run(args: ValidateLsrulesArgs, file: Result<String, String>, schema: &Json) -> (r: Result<
    ValidateResult,
    String,
>)
    ensures
        match document(args, file) {
            Err(e) => r is Err && r->Err_0@ == e,
            Ok(doc) => match schema_errors(schema@, doc) {
                Some(errors) => r is Ok && reports(r->Ok_0, errors),
                None => r is Err && r->Err_0@ == "lsrules schema does not compile"@,
            },
        },
{
    let doc: Json = match (args.path, args.inline_json) {
        (Some(_), Some(_)) => {
            return Err("provide exactly one of `path` or `inline_json`, not both".to_owned());
        },
        (None, None) => {
            return Err("one of `path` or `inline_json` is required".to_owned());
        },
        (None, Some(doc)) => doc,
        (Some(p), None) => {
            let raw: String = match file {
                Ok(s) => s,
                Err(e) => {
                    let mut out: String = concat("cannot read file ", quoted(p.as_str()).as_str());
                    out.push_str(": ");
                    out.push_str(e.as_str());
                    return Err(out);
                },
            };
            match parse(raw.as_str()) {
                Ok(doc) => doc,
                Err(e) => {
                    let mut out: String = concat("file ", quoted(p.as_str()).as_str());
                    out.push_str(" is not valid JSON: ");
                    out.push_str(e.as_str());
                    return Err(out);
                },
            }
        },
    };
    validate(&doc, schema)
}

/// One line for each error: its place and its message.
pub open spec fn complaint_lines(errors: Seq<(Seq<char>, Seq<char>)>) -> Seq<Seq<char>> {
    Seq::new(errors.len(), |i: int| "  "@ + errors[i].0 + ": "@ + errors[i].1)
}

/// The errors as text, one line for each.
pub open spec fn complaints(errors: Seq<(Seq<char>, Seq<char>)>) -> Seq<char> {
    joined(complaint_lines(errors), "\n"@)
}

/// The errors as text, one line for each.
pub fn write_complaints(errors: &Vec<FieldError>) -> (r: String)
    ensures
        r@ == complaints(paths_and_messages(errors@)),
{
    let mut lines: Vec<String> = Vec::new();
    let ghost all = paths_and_messages(errors@);
    for i in 0..errors.len()
        invariant
            lines.len() == i,
            all == paths_and_messages(errors@),
            forall|j: int|
                0 <= j < i ==> (#[trigger] lines@[j])@ == "  "@ + all[j].0 + ": "@ + all[j].1,
    {
        let mut line: String = concat("  ", errors[i].path.as_str());
        line.push_str(": ");
        line.push_str(errors[i].message.as_str());
        lines.push(line);
    }
    proof {
        assert(texts(lines@) =~= complaint_lines(all));
    }
    join(&lines, "\n")
}

/// Why a document is not accepted, if it is not; `what` says so for a document
/// with errors, `trouble` for a schema that is none.
pub open spec fn rejection(
    schema: JsonView,
    doc: JsonView,
    what: Seq<char>,
    trouble: Seq<char>,
) -> Option<Seq<char>> {
    match schema_errors(schema, doc) {
        None => Some(trouble + ": "@ + "lsrules schema does not compile"@),
        Some(errors) => if errors.len() == 0 {
            None
        } else {
            Some(what + ":\n"@ + complaints(errors))
        },
    }
}

/// Whether nothing is wrong with a document.
pub open spec fn is_valid(schema: JsonView, doc: JsonView) -> bool {
    schema_errors(schema, doc) matches Some(errors) && errors.len() == 0
}

/// Why a document is not accepted, if it is not.
pub fn reject(doc: &Json, schema: &Json, what: &str, trouble: &str) -> (r: Option<String>)
    ensures
        match r {
            Some(e) => rejection(schema@, doc@, what@, trouble@) == Some(e@),
            None => rejection(schema@, doc@, what@, trouble@) is None,
        },
{
    match validate(doc, schema) {
        Err(e) => {
            let mut out: String = concat(trouble, ": ");
            out.push_str(e.as_str());
            Some(out)
        },
        Ok(v) => {
            if v.valid {
                None
            } else {
                let mut out: String = concat(what, ":\n");
                out.push_str(write_complaints(&v.errors).as_str());
                Some(out)
            }
        },
    }
}

/// A document is accepted just if the schema is one and nothing is found wrong with the
/// document.
pub proof fn law_which_documents_are_accepted(
    schema: JsonView,
    doc: JsonView,
    what: Seq<char>,
    trouble: Seq<char>,
)
    ensures
        rejection(schema, doc, what, trouble) is None <==> schema_errors(schema, doc) == Some(
            Seq::<(Seq<char>, Seq<char>)>::empty(),
        ),
        is_valid(schema, doc) <==> schema_errors(schema, doc) == Some(
            Seq::<(Seq<char>, Seq<char>)>::empty(),
        ),
{
    if let Some(errors) = schema_errors(schema, doc) {
        if errors.len() == 0 {
            assert(errors =~= Seq::empty());
        }
    }
}

/// What is wrong with a document is said of each thing, with its place and its message.
pub proof fn law_every_error_is_reported(
    r: ValidateResult,
    errors: Seq<(Seq<char>, Seq<char>)>,
    i: int,
)
    requires
        reports(r, errors),
        0 <= i < errors.len(),
    ensures
        !r.valid,
        r.errors@.len() == errors.len(),
        r.errors@[i].path@ == errors[i].0,
        r.errors@[i].message@ == errors[i].1,
{
    assert(paths_and_messages(r.errors@)[i] == errors[i]);
}

} // verus!
