//! Reading single preferences.

use vstd::prelude::*;
use crate::json::{json_parsed, members_view, parse, Json, JsonView};
use crate::text::{concat, debug_form, opt_text, quoted, texts, trim, trimmed};
use crate::tools::list_preferences::{in_key_order, put_in_order};

verus! {

/// What the tool is given.
#[derive(Debug)]
pub struct ReadPreferenceArgs {
    /// The keys to read.
    pub keys: Vec<String>,
}

/// What the tool returns.
#[derive(Debug)]
pub struct ReadPreferenceResult {
    /// The values under their keys; `null` for a key that is not there.
    pub values: Vec<(String, Json)>,
}

/// What is wrong with the keys, if anything is.
pub open spec fn keys_defect(keys: Seq<Seq<char>>) -> Option<Seq<char>> {
    if keys.len() == 0 {
        Some("`keys` must not be empty"@)
    } else if exists|i: int| 0 <= i < keys.len() && (#[trigger] keys[i]).len() == 0 {
        Some("preference key must not be empty"@)
    } else {
        None
    }
}

/// What is wrong with the keys, if anything is.
pub fn check_keys(keys: &Vec<String>) -> (r: Option<String>)
    ensures
        opt_text(r) == keys_defect(texts(keys@)),
{
    if keys.len() == 0 {
        return Some("`keys` must not be empty".to_owned());
    }
    for i in 0..keys.len()
        invariant
            keys@.len() > 0,
            forall|j: int| 0 <= j < i ==> (#[trigger] keys@[j])@.len() > 0,
    {
        if keys[i].as_str().is_empty() {
            proof {
                assert(texts(keys@)[i as int].len() == 0);
            }
            return Some("preference key must not be empty".to_owned());
        }
    }
    None
}

/// The arguments of the command that reads a key.
pub fn command_args(key: &str) -> (r: Vec<String>)
    ensures
        texts(r@) == seq!["read-preference"@, key@],
{
    let mut out: Vec<String> = Vec::new();
    out.push("read-preference".to_owned());
    out.push(key.to_owned());
    proof {
        assert(texts(out@) =~= seq!["read-preference"@, key@]);
    }
    out
}

/// The value that the command printed: nothing is `null`, and what is no JSON is a text.
pub open spec fn value_printed(output: Seq<char>) -> JsonView {
    let t = trimmed(output);
    if t.len() == 0 {
        JsonView::Null
    } else {
        match json_parsed(t) {
            Ok(v) => v,
            Err(_) => JsonView::Text(t),
        }
    }
}

/// The value that the command printed.
pub fn read_value(output: &str) -> (r: Json)
    ensures
        r@ == value_printed(output@),
{
    let t: String = trim(output);
    if t.as_str().is_empty() {
        return Json::Null;
    }
    match parse(t.as_str()) {
        Ok(v) => v,
        Err(_) => Json::Text(t),
    }
}

/// The values of the first `n` keys, or why the first that was not read was not.
/// `reads` is what became of running the command for each key.
pub open spec fn values(keys: Seq<Seq<char>>, reads: Seq<Result<String, String>>, n: nat) -> Result<
    Map<Seq<char>, JsonView>,
    Seq<char>,
>
    decreases n,
{
    if n == 0 {
        Ok(Map::empty())
    } else {
        match values(keys, reads, (n - 1) as nat) {
            Err(e) => Err(e),
            Ok(before) => match reads[n - 1] {
                Ok(output) => Ok(before.insert(keys[n - 1], value_printed(output@))),
                Err(e) => Err(
                    "read-preference "@ + debug_form(keys[n - 1]) + " failed: "@ + e@,
                ),
            },
        }
    }
}

proof fn lemma_values_error(
    keys: Seq<Seq<char>>,
    reads: Seq<Result<String, String>>,
    n: nat,
    m: nat,
)
    requires
        n <= m,
        values(keys, reads, n) is Err,
    ensures
        values(keys, reads, m) == values(keys, reads, n),
    decreases m,
{
    if n < m {
        lemma_values_error(keys, reads, n, (m - 1) as nat);
    }
}

/// Whether the command was run for each key, up to the first for which it failed.
pub open spec fn are_reads(keys: Seq<Seq<char>>, reads: Seq<Result<String, String>>) -> bool {
    reads.len() <= keys.len() && (reads.len() == keys.len() || (reads.len() > 0
        && reads.last() is Err))
}

/// Reads preferences. `binary` says whether the program was found, and `reads` is what
/// became of running the command for each key, up to the first for which it failed.
pub fn run(
    args: ReadPreferenceArgs,
    binary: Result<(), String>,
    reads: Vec<Result<String, String>>,
) -> (r: Result<ReadPreferenceResult, String>)
    requires
        keys_defect(texts(args.keys@)) is None && binary is Ok ==> are_reads(
            texts(args.keys@),
            reads@,
        ),
    ensures
        match keys_defect(texts(args.keys@)) {
            Some(e) => r is Err && r->Err_0@ == e,
            None => match binary {
                Err(e) => r is Err && r->Err_0@ == "littlesnitch binary not found: "@ + e@,
                Ok(_) => match values(texts(args.keys@), reads@, reads@.len()) {
                    Err(e) => r is Err && r->Err_0@ == e,
                    Ok(m) => r is Ok && members_view(r->Ok_0.values@) == m && in_key_order(
                        r->Ok_0.values@,
                    ),
                },
            },
        },
{
    if let Some(e) = check_keys(&args.keys) {
        return Err(e);
    }
    match binary {
        Ok(()) => {},
        Err(e) => {
            return Err(concat("littlesnitch binary not found: ", e.as_str()));
        },
    }
    let mut out: Vec<(String, Json)> = Vec::new();
    let ghost keys = texts(args.keys@);
    proof {
        assert(members_view(out@) =~= Map::empty());
    }
    for i in 0..reads.len()
        invariant
            keys == texts(args.keys@),
            keys_defect(keys) is None,
            binary is Ok,
            reads@.len() <= keys.len(),
            in_key_order(out@),
            values(keys, reads@, i as nat) == Ok::<Map<Seq<char>, JsonView>, Seq<char>>(
                members_view(out@),
            ),
    {
        let key: &String = &args.keys[i];
        match &reads[i] {
            Ok(output) => {
                let value: Json = read_value(output.as_str());
                put_in_order(&mut out, key.clone(), value);
            },
            Err(e) => {
                let mut m: String = concat("read-preference ", quoted(key.as_str()).as_str());
                m.push_str(" failed: ");
                m.push_str(e.as_str());
                proof {
                    lemma_values_error(keys, reads@, (i + 1) as nat, reads@.len());
                }
                return Err(m);
            },
        }
    }
    Ok(ReadPreferenceResult { values: out })
}

/// When every key was read, every key has a value.
pub proof fn law_every_key_has_a_value(
    keys: Seq<Seq<char>>,
    reads: Seq<Result<String, String>>,
    n: nat,
    i: int,
)
    requires
        values(keys, reads, n) is Ok,
        0 <= i < n,
    ensures
        values(keys, reads, n)->Ok_0.dom().contains(keys[i]),
    decreases n,
{
    if i < n - 1 {
        law_every_key_has_a_value(keys, reads, (n - 1) as nat, i);
    }
}

/// Each key has the value that reading it printed, where it is asked for once.
pub proof fn law_values_are_those_of_their_keys(
    keys: Seq<Seq<char>>,
    reads: Seq<Result<String, String>>,
    n: nat,
    i: int,
)
    requires
        values(keys, reads, n) is Ok,
        0 <= i < n,
        forall|j: int| i < j < n ==> #[trigger] keys[j] != keys[i],
    ensures
        reads[i] is Ok,
        values(keys, reads, n)->Ok_0[keys[i]] == value_printed(reads[i]->Ok_0@),
    decreases n,
{
    if i < n - 1 {
        law_values_are_those_of_their_keys(keys, reads, (n - 1) as nat, i);
        assert(keys[n - 1] != keys[i]);
    }
}

/// What is printed for a preference is read as JSON, and as a text if it is none; nothing that
/// is printed is `null`.
pub proof fn law_printed_values(output: Seq<char>)
    ensures
        ({
            let t = trimmed(output);
            &&& t.len() == 0 ==> value_printed(output) is Null
            &&& t.len() > 0 ==> (json_parsed(t) matches Ok(v) ==> value_printed(output) == v)
            &&& t.len() > 0 && json_parsed(t) is Err ==> value_printed(output) == JsonView::Text(t)
        }),
{
}

/// Keys are refused just if there are none, or one of them is empty.
pub proof fn law_which_keys_are_refused(keys: Seq<Seq<char>>)
    ensures
        keys_defect(keys) is None <==> keys.len() > 0 && forall|i: int|
            0 <= i < keys.len() ==> (#[trigger] keys[i]).len() > 0,
{
}

} // verus!
