//! What becomes of running the `littlesnitch` command.

use vstd::prelude::*;
use crate::json::{json_parsed, parse};
use crate::model::read::{model_in, read_model};
use crate::model::{has_distinct_keys, Model, ModelView};
use crate::text::{
    begins_with, concat, contains, decimal, is_digit, joined, law_begins_with, lemma_decimal,
    lemma_parse_decimal, lemma_split_joined, occurs_in, parse_number, parsed_number, split,
    split_on, starts_with, trim, trimmed,
};

verus! {

/// What became of running the command.
#[derive(Debug)]
pub enum CliRun {
    /// The program was not found; the text says why.
    NoBinary(String),
    /// The command failed; the text says why.
    Failed(String),
    /// The command went through and printed this.
    Output(String),
}

/// What the command printed, or that it did not go through; `what` names the
/// command.
pub open spec fn printed(run: CliRun, what: Seq<char>) -> Result<Seq<char>, Seq<char>> {
    match run {
        CliRun::NoBinary(e) => Err("littlesnitch binary not found: "@ + e@),
        CliRun::Failed(e) => Err(what + " failed: "@ + e@),
        CliRun::Output(s) => Ok(s@),
    }
}

/// What the command printed, or that it did not go through; `what` names the
/// command.
pub fn output_of(run: CliRun, what: &str) -> (r: Result<String, String>)
    ensures
        match r {
            Ok(s) => printed(run, what@) == Ok::<Seq<char>, Seq<char>>(s@),
            Err(e) => printed(run, what@) == Err::<Seq<char>, Seq<char>>(e@),
        },
{
    match run {
        CliRun::NoBinary(e) => Err(concat("littlesnitch binary not found: ", e.as_str())),
        CliRun::Failed(e) => {
            let mut out: String = concat(what, " failed: ");
            out.push_str(e.as_str());
            Err(out)
        },
        CliRun::Output(s) => Ok(s),
    }
}

/// Why the command refused, as it says itself.
#[derive(Debug, PartialEq, Eq)]
pub enum LsCliError {
    /// The program is not allowed to make changes.
    NotAuthorized,
    /// The command must be run as root.
    MustBeRoot,
    /// There is no such thing.
    NotFound { resource: String },
    /// It says something else.
    Generic { exit_code: i32, stderr: String },
}

/// What is not found, if that is what the text says: `.. "name" not found ..`.
pub open spec fn missing_resource(stderr: Seq<char>) -> Option<Seq<char>> {
    let parts = split_on(stderr, '"');
    if parts.len() >= 3 && begins_with(parts[2], " not found"@) {
        Some(parts[1])
    } else {
        None
    }
}

/// What a command means that ended with `exit_code` and wrote `stderr`.
pub fn classify(exit_code: i32, stderr: &str) -> (r: LsCliError)
    ensures
        if occurs_in(stderr@, "not authorized"@) {
            r is NotAuthorized
        } else if occurs_in(stderr@, "must be run as root"@) {
            r is MustBeRoot
        } else {
            match missing_resource(stderr@) {
                Some(name) => r matches LsCliError::NotFound { resource } && resource@ == name,
                None => r matches LsCliError::Generic { exit_code: c, stderr: s } && c == exit_code
                    && s@ == stderr@,
            }
        },
{
    if contains(stderr, "not authorized") {
        return LsCliError::NotAuthorized;
    }
    if contains(stderr, "must be run as root") {
        return LsCliError::MustBeRoot;
    }
    let parts: Vec<String> = split(stderr, '"');
    let ghost want = split_on(stderr@, '"');
    if parts.len() >= 3 {
        proof {
            assert(want[1] == parts@[1]@ && want[2] == parts@[2]@);
        }
        if starts_with(parts[2].as_str(), " not found") {
            return LsCliError::NotFound { resource: parts[1].clone() };
        }
    }
    LsCliError::Generic { exit_code, stderr: stderr.to_owned() }
}

/// What the program's version comes to.
#[derive(Debug, PartialEq, Eq)]
pub enum VersionResult {
    /// The program is recent enough.
    Compatible(String),
    /// The program is too old.
    TooOld(String),
    /// There is no telling.
    Unparseable(String),
}

/// The three numbers of a version such as `6.3.3`.
pub open spec fn version_numbers(text: Seq<char>) -> Option<(nat, nat, nat)> {
    let parts = split_on(trimmed(text), '.');
    if parts.len() == 3 {
        match (
            parsed_number(parts[0], u64::MAX as nat),
            parsed_number(parts[1], u64::MAX as nat),
            parsed_number(parts[2], u64::MAX as nat),
        ) {
            (Some(a), Some(b), Some(c)) => Some((a, b, c)),
            _ => None,
        }
    } else {
        None
    }
}

/// Whether a version is 6.3.3 or a later one.
pub open spec fn is_compatible(v: (nat, nat, nat)) -> bool {
    v.0 > 6 || v.0 == 6 && (v.1 > 3 || v.1 == 3 && v.2 >= 3)
}

fn read_version(text: &str) -> (r: Option<(u64, u64, u64)>)
    ensures
        match r {
            Some((a, b, c)) => version_numbers(text@) == Some((a as nat, b as nat, c as nat)),
            None => version_numbers(text@) is None,
        },
{
    let t: String = trim(text);
    let parts: Vec<String> = split(t.as_str(), '.');
    let ghost want = split_on(t@, '.');
    if parts.len() != 3 {
        return None;
    }
    proof {
        assert(want[0] == parts@[0]@ && want[1] == parts@[1]@ && want[2] == parts@[2]@);
    }
    match (
        parse_number(parts[0].as_str(), u64::MAX),
        parse_number(parts[1].as_str(), u64::MAX),
        parse_number(parts[2].as_str(), u64::MAX),
    ) {
        (Some(a), Some(b), Some(c)) => Some((a, b, c)),
        _ => None,
    }
}

/// What the program's version comes to; the oldest that will do is 6.3.3.
pub fn check_version(text: &str) -> (r: VersionResult)
    ensures
        match version_numbers(text@) {
            None => r matches VersionResult::Unparseable(s) && s@ == text@,
            Some(v) => if is_compatible(v) {
                r matches VersionResult::Compatible(s) && s@ == trimmed(text@)
            } else {
                r matches VersionResult::TooOld(s) && s@ == trimmed(text@)
            },
        },
{
    match read_version(text) {
        None => VersionResult::Unparseable(text.to_owned()),
        Some((a, b, c)) => if a > 6 || a == 6 && (b > 3 || b == 3 && c >= 3) {
            VersionResult::Compatible(trim(text))
        } else {
            VersionResult::TooOld(trim(text))
        },
    }
}

/// The rule set that was exported, or why there is none; `invalid` says that what was
/// printed is none.
pub open spec fn exported(run: CliRun, invalid: Seq<char>) -> Result<ModelView, Seq<char>> {
    match printed(run, "export-model"@) {
        Err(e) => Err(e),
        Ok(text) => match json_parsed(text) {
            Err(e) => Err(invalid + ": "@ + e),
            Ok(j) => match model_in(j) {
                Err(e) => Err(invalid + ": "@ + e),
                Ok(m) => Ok(m),
            },
        },
    }
}

/// The rule set that was exported, or why there is none; `invalid` says that what was
/// printed is none.
pub fn load_model(run: CliRun, invalid: &str) -> (r: Result<Model, String>)
    ensures
        match exported(run, invalid@) {
            Ok(m) => r is Ok && r->Ok_0@ == m,
            Err(e) => r is Err && r->Err_0@ == e,
        },
        r matches Ok(m) ==> has_distinct_keys(m.groups@),
{
    let text: String = match output_of(run, "export-model") {
        Ok(text) => text,
        Err(e) => {
            return Err(e);
        },
    };
    let read: Result<Model, String> = match parse(text.as_str()) {
        Ok(j) => read_model(&j),
        Err(e) => Err(e),
    };
    match read {
        Ok(m) => Ok(m),
        Err(e) => {
            let mut out: String = concat(invalid, ": ");
            out.push_str(e.as_str());
            Err(out)
        },
    }
}

/// Whether a version comes before another.
pub open spec fn is_older(v: (nat, nat, nat), w: (nat, nat, nat)) -> bool {
    v.0 < w.0 || (v.0 == w.0 && (v.1 < w.1 || (v.1 == w.1 && v.2 < w.2)))
}

/// A version is recent enough just if it does not come before 6.3.3.
pub proof fn law_which_versions_are_recent_enough(v: (nat, nat, nat), w: (nat, nat, nat))
    ensures
        is_compatible(v) <==> !is_older(v, (6, 3, 3)),
        is_compatible(v) && !is_older(w, v) ==> is_compatible(w),
{
}

/// Three numbers with full stops between them are read as a version, in their order.
pub proof fn law_versions_are_read(a: nat, b: nat, c: nat)
    requires
        a <= u64::MAX,
        b <= u64::MAX,
        c <= u64::MAX,
    ensures
        version_numbers(joined(seq![decimal(a), decimal(b), decimal(c)], seq!['.'])) == Some(
            (a, b, c),
        ),
{
    let parts = seq![decimal(a), decimal(b), decimal(c)];
    let text = joined(parts, seq!['.']);
    lemma_parse_decimal(a, u64::MAX as nat);
    lemma_parse_decimal(b, u64::MAX as nat);
    lemma_parse_decimal(c, u64::MAX as nat);
    assert forall|i: int| 0 <= i < parts.len() implies !(#[trigger] parts[i]).contains('.') by {
        assert(i == 0 || i == 1 || i == 2);
    }
    lemma_split_joined(parts, '.');
    lemma_decimal(a);
    lemma_decimal(c);
    reveal_with_fuel(joined, 4);
    assert(parts.drop_last() =~= seq![decimal(a), decimal(b)]);
    assert(parts.drop_last().drop_last() =~= seq![decimal(a)]);
    assert(text =~= decimal(a) + seq!['.'] + decimal(b) + seq!['.'] + decimal(c));
    assert(is_digit(decimal(a)[0]));
    assert(is_digit(decimal(c)[decimal(c).len() - 1]));
    assert(text[0] == decimal(a)[0]);
    assert(text.last() == decimal(c).last());
    assert(trimmed(text) == text);
}

/// What is said in double quotes not to be found is what is missing.
pub proof fn law_the_missing_resource(before: Seq<char>, name: Seq<char>, behind: Seq<char>)
    requires
        !before.contains('"'),
        !name.contains('"'),
        !behind.contains('"'),
    ensures
        missing_resource(joined(seq![before, name, " not found"@ + behind], seq!['"'])) == Some(
            name,
        ),
{
    reveal_strlit(" not found");
    let parts = seq![before, name, " not found"@ + behind];
    assert forall|i: int| 0 <= i < parts.len() implies !(#[trigger] parts[i]).contains('"') by {
        assert(i == 0 || i == 1 || i == 2);
        if i == 2 && parts[2].contains('"') {
            let k = choose|k: int| 0 <= k < parts[2].len() && parts[2][k] == '"';
            if k >= 10 {
                assert(behind[k - 10] == '"');
            } else {
                assert(" not found"@[k] == '"');
            }
        }
    }
    lemma_split_joined(parts, '"');
    law_begins_with(" not found"@ + behind, " not found"@, behind);
}

/// What a command printed is what it printed, and only a command that went through printed
/// something.
pub proof fn law_what_was_printed(run: CliRun, what: Seq<char>)
    ensures
        printed(run, what) is Ok <==> run is Output,
        run matches CliRun::Output(s) ==> printed(run, what) == Ok::<Seq<char>, Seq<char>>(s@),
{
}

} // verus!
