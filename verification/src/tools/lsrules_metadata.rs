//! The name and the description of a `.lsrules` file, and the difference of two
//! such files.

use vstd::prelude::*;
use crate::json::{
    json_parsed, member, nests_within, parse, pretty_text, reads_as, text_of, to_pretty_text, Json,
    JsonView,
};
use crate::lsrules::{check_plain_name, is_plain_name};
use crate::managed_dir::{lsrules_file, lsrules_path};
use crate::text::{concat, debug_form, opt_text, quoted};
use crate::textdiff::{all_changes, full_diff, is_complete, law_empty_diff, write_full_diff};

verus! {

/// What setting the metadata is given.
#[derive(Debug)]
pub struct SetMetadataArgs {
    /// Name of the file, without its extension.
    pub file_name: String,
    /// The new name, if it is to change.
    pub name: Option<String>,
    /// The new description, if it is to change. An empty one takes it away.
    pub description: Option<String>,
}

/// What setting the metadata returns.
#[derive(Debug)]
pub struct SetMetadataResult {
    pub file_name: String,
    pub name: String,
    pub description: Option<String>,
    pub diff: String,
}

/// What comparing two files is given.
#[derive(Debug)]
pub struct DiffLsrulesArgs {
    /// Name of the first file, without its extension.
    pub file_a: String,
    /// Name of the second file, without its extension.
    pub file_b: String,
}

/// What comparing two files returns.
#[derive(Debug)]
pub struct DiffLsrulesResult {
    pub file_a: String,
    pub file_b: String,
    /// The difference; empty if the files are the same.
    pub diff: String,
    pub identical: bool,
}

/// That a name is none of a file.
pub open spec fn bad_file_name(name: Seq<char>) -> Seq<char> {
    "invalid file_name "@ + debug_form(name) + ": must be a plain filename with no path separators"@
}

/// Whether a name is one of a file: not empty, and without slashes of either kind.
pub fn validate_file_name(name: &str) -> (r: Result<(), String>)
    ensures
        match r {
            Ok(_) => is_plain_name(name@),
            Err(e) => !is_plain_name(name@) && e@ == bad_file_name(name@),
        },
{
    if check_plain_name(name) {
        return Ok(());
    }
    let mut out: String = concat("invalid file_name ", quoted(name).as_str());
    out.push_str(": must be a plain filename with no path separators");
    Err(out)
}

/// All lines of two texts with what became of them, below a header with `label`;
/// nothing where the texts are the same.
pub fn unified_diff(old_text: &str, new_text: &str, label: &str) -> (r: String)
    ensures
        r@ == full_diff(old_text@, new_text@, label@),
        r@.len() > 0 ==> is_complete(all_changes(old_text@, new_text@), old_text@, new_text@),
{
    write_full_diff(old_text, new_text, label)
}

/// That a file of the managed directory cannot be read.
pub open spec fn unreadable(path: Seq<char>, e: Seq<char>) -> Seq<char> {
    "cannot read "@ + path + ": "@ + e
}

fn write_unreadable(path: &str, e: &str) -> (r: String)
    ensures
        r@ == unreadable(path@, e@),
{
    let mut out: String = concat("cannot read ", path);
    out.push_str(": ");
    out.push_str(e);
    out
}

/// What became of reading a file of the managed directory: the managed directory
/// may be missing, or the file may not be readable.
pub enum ManagedText {
    NoDirectory(String),
    Failed(String),
    Text(String),
}

/// The text of a file, or why there is none.
pub open spec fn content(read: ManagedText, path: Seq<char>) -> Result<Seq<char>, Seq<char>> {
    match read {
        ManagedText::NoDirectory(e) => Err("cannot bootstrap managed directory: "@ + e@),
        ManagedText::Failed(e) => Err(unreadable(path, e@)),
        ManagedText::Text(s) => Ok(s@),
    }
}

fn content_of(read: ManagedText, path: &str) -> (r: Result<String, String>)
    ensures
        match r {
            Ok(s) => content(read, path@) == Ok::<Seq<char>, Seq<char>>(s@),
            Err(e) => content(read, path@) == Err::<Seq<char>, Seq<char>>(e@),
        },
{
    match read {
        ManagedText::NoDirectory(e) => Err(
            concat("cannot bootstrap managed directory: ", e.as_str()),
        ),
        ManagedText::Failed(e) => Err(write_unreadable(path, e.as_str())),
        ManagedText::Text(s) => Ok(s),
    }
}

/// The document with a member set. An empty document becomes an object.
pub open spec fn with_member(doc: JsonView, key: Seq<char>, value: Seq<char>) -> JsonView {
    let m = if doc is Object {
        doc->Object_0
    } else {
        Map::empty()
    };
    JsonView::Object(m.insert(key, JsonView::Text(value)))
}

/// Whether members can be set in a document.
pub open spec fn is_settable(doc: JsonView) -> bool {
    doc is Object || doc is Null
}

fn set_member(doc: Json, key: &str, value: &str) -> (r: Json)
    requires
        is_settable(doc@),
    ensures
        r@ == with_member(doc@, key@, value@),
{
    let mut doc: Json = if doc.is_object() {
        doc
    } else {
        Json::object()
    };
    doc.insert(key.to_owned(), Json::text(value));
    doc
}

/// The document with its name and its description changed.
pub open spec fn renamed(
    doc: JsonView,
    name: Option<Seq<char>>,
    description: Option<Seq<char>>,
) -> JsonView {
    let d = match name {
        Some(n) => with_member(doc, "name"@, n),
        None => doc,
    };
    match description {
        None => d,
        Some(s) => if s.len() > 0 {
            with_member(d, "description"@, s)
        } else if d is Object {
            JsonView::Object(d->Object_0.remove("description"@))
        } else {
            d
        },
    }
}

proof fn lemma_with_member_nests(doc: JsonView, key: Seq<char>, value: Seq<char>)
    requires
        nests_within(doc, 127),
    ensures
        nests_within(with_member(doc, key, value), 127),
{
    let m = with_member(doc, key, value)->Object_0;
    assert forall|k: Seq<char>| #[trigger] m.dom().contains(k) implies nests_within(m[k], 126) by {
        if k != key {
            assert(doc->Object_0.dom().contains(k));
        }
    }
}

proof fn lemma_renamed_nests(
    doc: JsonView,
    name: Option<Seq<char>>,
    description: Option<Seq<char>>,
)
    requires
        nests_within(doc, 127),
    ensures
        nests_within(renamed(doc, name, description), 127),
{
    let d = match name {
        Some(n) => with_member(doc, "name"@, n),
        None => doc,
    };
    if name is Some {
        lemma_with_member_nests(doc, "name"@, name->0);
    }
    if description is Some && description->0.len() > 0 {
        lemma_with_member_nests(d, "description"@, description->0);
    } else if description is Some && d is Object {
        let m = d->Object_0.remove("description"@);
        assert forall|k: Seq<char>| #[trigger] m.dom().contains(k) implies nests_within(
            m[k],
            126,
        ) by {
            assert(d->Object_0.dom().contains(k));
        }
    }
}

/// What setting the metadata comes to.
pub struct Renaming {
    pub name: Seq<char>,
    pub description: Option<Seq<char>>,
    pub diff: Seq<char>,
    /// The new text of the file.
    pub text: Seq<char>,
}

/// What setting the metadata of a file with this text comes to, or why it is not
/// done.
pub open spec fn renaming(
    file_name: Seq<char>,
    path: Seq<char>,
    raw: Seq<char>,
    name: Option<Seq<char>>,
    description: Option<Seq<char>>,
) -> Result<Renaming, Seq<char>> {
    match json_parsed(raw) {
        Err(e) => Err(path + " is not valid JSON: "@ + e),
        Ok(doc) => if name is Some && !is_plain_name(name->0) {
            Err(
                "invalid name "@ + debug_form(name->0)
                    + ": must be a non-empty string with no path separators"@,
            )
        } else if !is_settable(doc) && (name is Some || (description is Some
            && description->0.len() > 0)) {
            Err(path + " is not a JSON object"@)
        } else {
            let after = renamed(doc, name, description);
            let text = pretty_text(after) + "\n"@;
            Ok(
                Renaming {
                    name: match text_of(member(after, "name"@)) {
                        Some(n) => n,
                        None => file_name,
                    },
                    description: text_of(member(after, "description"@)),
                    diff: full_diff(raw, text, file_name),
                    text,
                },
            )
        },
    }
}

/// Sets the name and the description of the file below `root`. `read` is what
/// became of reading the file. With the result comes the new text of the file, which is
/// read back as the document with the new name and description.
pub fn set_metadata(args: SetMetadataArgs, root: &str, read: ManagedText) -> (r: Result<
    (SetMetadataResult, String),
    String,
>)
    ensures
        ({
            let path = lsrules_path(root@, args.file_name@);
            if !is_plain_name(args.file_name@) {
                r is Err && r->Err_0@ == bad_file_name(args.file_name@)
            } else if args.name is None && args.description is None {
                r is Err && r->Err_0@
                    == "provide at least one of `name` or `description` to update"@
            } else {
                match content(read, path) {
                    Err(e) => r is Err && r->Err_0@ == e,
                    Ok(raw) => match renaming(
                        args.file_name@,
                        path,
                        raw,
                        opt_text(args.name),
                        opt_text(args.description),
                    ) {
                        Err(e) => r is Err && r->Err_0@ == e,
                        Ok(a) => r is Ok && ({
                            let (res, text) = r->Ok_0;
                            &&& res.file_name@ == args.file_name@
                            &&& res.name@ == a.name
                            &&& opt_text(res.description) == a.description
                            &&& res.diff@ == a.diff
                            &&& text@ == a.text
                            &&& reads_as(
                                text@,
                                renamed(
                                    json_parsed(raw)->Ok_0,
                                    opt_text(args.name),
                                    opt_text(args.description),
                                ),
                            )
                        }),
                    },
                }
            }
        }),
{
    match validate_file_name(args.file_name.as_str()) {
        Ok(()) => {},
        Err(e) => {
            return Err(e);
        },
    }
    if args.name.is_none() && args.description.is_none() {
        return Err("provide at least one of `name` or `description` to update".to_owned());
    }
    let path: String = lsrules_file(root, args.file_name.as_str());
    let raw: String = match content_of(read, path.as_str()) {
        Ok(s) => s,
        Err(e) => {
            return Err(e);
        },
    };
    let mut doc: Json = match parse(raw.as_str()) {
        Ok(d) => d,
        Err(e) => {
            let mut out: String = concat(path.as_str(), " is not valid JSON: ");
            out.push_str(e.as_str());
            return Err(out);
        },
    };
    if let Some(n) = &args.name {
        if !check_plain_name(n.as_str()) {
            let mut out: String = concat("invalid name ", quoted(n.as_str()).as_str());
            out.push_str(": must be a non-empty string with no path separators");
            return Err(out);
        }
    }
    let describes: bool = match &args.description {
        Some(d) => !d.as_str().is_empty(),
        None => false,
    };
    let settable: bool = match &doc {
        Json::Object(_) => true,
        Json::Null => true,
        _ => false,
    };
    if !settable && (args.name.is_some() || describes) {
        return Err(concat(path.as_str(), " is not a JSON object"));
    }
    let ghost doc0 = doc@;
    if let Some(n) = &args.name {
        doc = set_member(doc, "name", n.as_str());
    }
    if let Some(d) = &args.description {
        if !d.as_str().is_empty() {
            doc = set_member(doc, "description", d.as_str());
        } else if doc.is_object() {
            doc.remove("description");
        }
    }
    proof {
        assert(doc@ == renamed(doc0, opt_text(args.name), opt_text(args.description)));
        lemma_renamed_nests(doc0, opt_text(args.name), opt_text(args.description));
    }
    let text: String = concat(to_pretty_text(&doc).as_str(), "\n");
    let diff: String = unified_diff(raw.as_str(), text.as_str(), args.file_name.as_str());
    let name: String = match doc.text_member("name") {
        Some(n) => n.clone(),
        None => args.file_name.clone(),
    };
    let description: Option<String> = match doc.text_member("description") {
        Some(d) => Some(d.clone()),
        None => None,
    };
    Ok((SetMetadataResult { file_name: args.file_name, name, description, diff }, text))
}

/// Compares two files below `root`. `read_a` and `read_b` are what became of
/// reading them.
pub fn diff_files(args: DiffLsrulesArgs, root: &str, read_a: ManagedText, read_b: ManagedText) -> (r:
    Result<DiffLsrulesResult, String>)
    ensures
        ({
            let a = content(read_a, lsrules_path(root@, args.file_a@));
            let b = content(read_b, lsrules_path(root@, args.file_b@));
            if !is_plain_name(args.file_a@) {
                r is Err && r->Err_0@ == bad_file_name(args.file_a@)
            } else if !is_plain_name(args.file_b@) {
                r is Err && r->Err_0@ == bad_file_name(args.file_b@)
            } else if a is Err {
                r is Err && r->Err_0@ == a->Err_0
            } else if b is Err {
                r is Err && r->Err_0@ == b->Err_0
            } else {
                &&& r is Ok
                &&& r->Ok_0.file_a@ == args.file_a@
                &&& r->Ok_0.file_b@ == args.file_b@
                &&& r->Ok_0.diff@ == full_diff(
                    a->Ok_0,
                    b->Ok_0,
                    args.file_a@ + " → "@ + args.file_b@,
                )
                &&& r->Ok_0.identical == (a->Ok_0 == b->Ok_0)
            }
        }),
{
    match validate_file_name(args.file_a.as_str()) {
        Ok(()) => {},
        Err(e) => {
            return Err(e);
        },
    }
    match validate_file_name(args.file_b.as_str()) {
        Ok(()) => {},
        Err(e) => {
            return Err(e);
        },
    }
    let path_a: String = lsrules_file(root, args.file_a.as_str());
    let path_b: String = lsrules_file(root, args.file_b.as_str());
    let text_a: String = match content_of(read_a, path_a.as_str()) {
        Ok(s) => s,
        Err(e) => {
            return Err(e);
        },
    };
    let text_b: String = match content_of(read_b, path_b.as_str()) {
        Ok(s) => s,
        Err(e) => {
            return Err(e);
        },
    };
    let mut label: String = concat(args.file_a.as_str(), " → ");
    label.push_str(args.file_b.as_str());
    let diff: String = unified_diff(text_a.as_str(), text_b.as_str(), label.as_str());
    proof {
        law_empty_diff(text_a@, text_b@, label@);
    }
    let identical: bool = diff.as_str().is_empty();
    Ok(DiffLsrulesResult { file_a: args.file_a, file_b: args.file_b, diff, identical })
}

/// Setting the metadata changes nothing of a document but its name and its
/// description, and of these only what is set.
pub proof fn law_metadata_keeps_the_rest(
    doc: JsonView,
    name: Option<Seq<char>>,
    description: Option<Seq<char>>,
    key: Seq<char>,
)
    requires
        doc is Object,
    ensures
        key != "name"@ && key != "description"@ ==> member(renamed(doc, name, description), key)
            == member(doc, key),
        key == "name"@ && name is None ==> member(renamed(doc, name, description), key) == member(
            doc,
            key,
        ),
        key == "description"@ && description is None ==> member(
            renamed(doc, name, description),
            key,
        ) == member(doc, key),
{
    reveal_strlit("name");
    reveal_strlit("description");
    assert("name"@.len() == 4);
    assert("description"@.len() == 11);
}

/// A name and a description that are given stand in the document afterwards; an empty
/// description takes the description away.
pub proof fn law_metadata_takes_effect(
    doc: JsonView,
    name: Option<Seq<char>>,
    description: Option<Seq<char>>,
)
    requires
        doc is Object,
    ensures
        name matches Some(n) ==> member(renamed(doc, name, description), "name"@) == Some(
            JsonView::Text(n),
        ),
        description matches Some(d) ==> (d.len() > 0 ==> member(
            renamed(doc, name, description),
            "description"@,
        ) == Some(JsonView::Text(d))),
        description matches Some(d) ==> (d.len() == 0 ==> member(
            renamed(doc, name, description),
            "description"@,
        ) is None),
{
    reveal_strlit("name");
    reveal_strlit("description");
    assert("name"@.len() == 4 && "description"@.len() == 11);
}

/// What is said of the change is what the file then holds.
pub proof fn law_renaming_says_what_is_written(
    file_name: Seq<char>,
    path: Seq<char>,
    raw: Seq<char>,
    name: Option<Seq<char>>,
    description: Option<Seq<char>>,
)
    requires
        renaming(file_name, path, raw, name, description) is Ok,
    ensures
        ({
            let done = renaming(file_name, path, raw, name, description)->Ok_0;
            let doc = json_parsed(raw)->Ok_0;
            let after = renamed(doc, name, description);
            &&& json_parsed(raw) is Ok
            &&& done.text == pretty_text(after) + "\n"@
            &&& done.description == text_of(member(after, "description"@))
            &&& text_of(member(after, "name"@)) matches Some(n) ==> done.name == n
            &&& name matches Some(n) ==> n.len() > 0 && !n.contains('/') && !n.contains('\\')
        }),
{
}

} // verus!
