//! The preferences of Little Snitch.

use vstd::prelude::*;
use crate::assoc::{last_position, lemma_last_position};
use crate::cli::{output_of, printed, CliRun};
use crate::json::{json_parsed, members_view, parse, Json, JsonView};
use crate::safety::prefs::{redact, redacted, PreferencePolicy};
use crate::text::{
    chars_of, find_from, lemma_text_le_antisymmetric, lemma_text_le_total, lemma_text_le_trans,
    lines, lines_of, occurs_in, stands_at, str_eq, str_le, string_of, text_le, texts, trim, trimmed,
};

verus! {

/// Which preferences are asked for.
#[derive(Debug, Clone, Copy, PartialEq, Eq, Structural)]
pub enum PreferenceScope {
    /// Those of the system.
    Global,
    /// Those of the user.
    User,
    /// Both.
    All,
}

/// What the tool is given.
#[derive(Debug)]
pub struct ListPreferencesArgs {
    /// Which preferences; all if it is left out.
    pub scope: Option<PreferenceScope>,
}

/// What the tool returns.
#[derive(Debug)]
pub struct ListPreferencesResult {
    /// The preferences in the order of their keys, each key once. Secret values are
    /// not shown.
    pub preferences: Vec<(String, Json)>,
    /// How many there are.
    pub count: usize,
}

/// The arguments of the command.
pub open spec fn command(args: ListPreferencesArgs) -> Seq<Seq<char>> {
    match args.scope {
        Some(PreferenceScope::Global) => seq!["list-preferences"@, "-g"@],
        Some(PreferenceScope::User) => seq!["list-preferences"@, "-u"@],
        _ => seq!["list-preferences"@],
    }
}

/// The arguments of the command.
pub fn command_args(args: &ListPreferencesArgs) -> (r: Vec<String>)
    ensures
        texts(r@) == command(*args),
{
    let mut out: Vec<String> = Vec::new();
    out.push("list-preferences".to_owned());
    match args.scope {
        Some(PreferenceScope::Global) => {
            out.push("-g".to_owned());
        },
        Some(PreferenceScope::User) => {
            out.push("-u".to_owned());
        },
        _ => {},
    }
    proof {
        assert(texts(out@) =~= command(*args));
    }
    out
}

/// Whether the equals sign at `at` is the one that divides the line: the first with a
/// space on either side.
pub open spec fn divides(line: Seq<char>, at: int) -> bool {
    stands_at(line, " = "@, at) && forall|j: int| 0 <= j < at ==> !stands_at(line, " = "@, j)
}

/// The key that a line gives a value, if it gives one: what stands before the equals
/// sign, unless that is blank.
pub open spec fn line_key(line: Seq<char>) -> Option<Seq<char>> {
    if exists|at: int| divides(line, at) {
        let at = choose|at: int| divides(line, at);
        let key = trimmed(line.take(at));
        if key.len() > 0 {
            Some(key)
        } else {
            None
        }
    } else {
        None
    }
}

/// The value that a line gives: what stands behind the equals sign as JSON, or as a
/// text where it is no JSON.
pub open spec fn line_value(line: Seq<char>) -> JsonView {
    let at = choose|at: int| divides(line, at);
    let raw = trimmed(line.skip(at + 3));
    match json_parsed(raw) {
        Ok(v) => v,
        Err(_) => JsonView::Text(trimmed(raw)),
    }
}

/// The preferences that some lines give; a later line takes the place of an earlier one
/// with its key.
pub open spec fn prefs(all: Seq<Seq<char>>, policy: PreferencePolicy) -> Map<Seq<char>, JsonView>
    decreases all.len(),
{
    if all.len() == 0 {
        Map::empty()
    } else {
        let before = prefs(all.drop_last(), policy);
        match line_key(all.last()) {
            Some(key) => before.insert(key, redacted(policy, key, line_value(all.last()))),
            None => before,
        }
    }
}

fn read_line(line: &str) -> (r: Option<(String, Json)>)
    ensures
        match r {
            Some((k, v)) => line_key(line@) == Some(k@) && line_value(line@) == v@,
            None => line_key(line@) is None,
        },
{
    let v: Vec<char> = chars_of(line);
    let sep: Vec<char> = chars_of(" = ");
    let n: usize = v.len();
    proof {
        reveal_strlit(" = ");
        assert(sep@.len() == 3);
    }
    let at: usize = match find_from(&v, &sep, 0) {
        Some(at) => at,
        None => {
            return None;
        },
    };
    proof {
        assert(divides(line@, at as int));
        let w = choose|w: int| divides(line@, w);
        assert(divides(line@, w));
        if w < at {
            assert(!stands_at(line@, " = "@, w));
        } else if at < w {
            assert(!stands_at(line@, " = "@, at as int));
        }
        assert(v@.subrange(0, at as int) == line@.take(at as int));
        assert(v@.subrange(at + 3, n as int) == line@.skip(at + 3));
    }
    let key: String = trim(string_of(&v, 0, at).as_str());
    if key.as_str().is_empty() {
        return None;
    }
    let raw: String = trim(string_of(&v, at + 3, n).as_str());
    let value: Json = match parse(raw.as_str()) {
        Ok(x) => x,
        Err(_) => Json::Text(trim(raw.as_str())),
    };
    Some((key, value))
}

/// Whether the keys stand in their order, each once.
pub open spec fn in_key_order(v: Seq<(String, Json)>) -> bool {
    forall|i: int, j: int|
        0 <= i < j < v.len() ==> text_le((#[trigger] v[i]).0@, (#[trigger] v[j]).0@) && v[i].0@
            != v[j].0@
}

/// The value under a key of pairs in which each key stands once.
proof fn lemma_position(v: Seq<(String, Json)>, i: int)
    requires
        in_key_order(v),
        0 <= i < v.len(),
    ensures
        last_position(v, v[i].0@) == i,
{
    broadcast use lemma_last_position;

    let p = last_position(v, v[i].0@);
    if p < i {
        assert(v[i].0@ != v[i].0@);
    } else if i < p {
        assert(v[i].0@ != v[p].0@);
    }
}

/// Puts a value under a key of pairs that stand in the order of their keys.
pub fn put_in_order(v: &mut Vec<(String, Json)>, key: String, value: Json)
    requires
        in_key_order(old(v)@),
    ensures
        in_key_order(final(v)@),
        members_view(final(v)@) == members_view(old(v)@).insert(key@, value@),
{
    let ghost before = v@;
    let mut i: usize = 0;
    while i < v.len() && !str_le(key.as_str(), v[i].0.as_str())
        invariant
            i <= v.len(),
            v@ == before,
            in_key_order(before),
            forall|j: int|
                0 <= j < i ==> text_le((#[trigger] before[j]).0@, key@) && before[j].0@ != key@,
        decreases v.len() - i,
    {
        proof {
            lemma_text_le_total(key@, before[i as int].0@);
        }
        i = i + 1;
    }
    if i < v.len() && str_eq(v[i].0.as_str(), key.as_str()) {
        v.set(i, (key, value));
        proof {
            lemma_put_replaced(before, v@, i as int, key@, value@);
        }
    } else {
        v.insert(i, (key, value));
        proof {
            lemma_put_inserted(before, v@, i as int, key, value);
        }
    }
}

proof fn lemma_put_replaced(
    before: Seq<(String, Json)>,
    after: Seq<(String, Json)>,
    i: int,
    key: Seq<char>,
    value: JsonView,
)
    requires
        in_key_order(before),
        0 <= i < before.len(),
        before[i].0@ == key,
        after.len() == before.len(),
        after[i].0@ == key,
        after[i].1@ == value,
        forall|j: int| 0 <= j < before.len() && j != i ==> after[j] == before[j],
    ensures
        in_key_order(after),
        members_view(after) == members_view(before).insert(key, value),
{
    broadcast use lemma_last_position;

    assert forall|j: int| 0 <= j < before.len() implies (#[trigger] after[j]).0@
        == before[j].0@ by {}
    assert(in_key_order(after)) by {
        assert forall|a: int, b: int| 0 <= a < b < after.len() implies text_le(
            (#[trigger] after[a]).0@,
            (#[trigger] after[b]).0@,
        ) && after[a].0@ != after[b].0@ by {
            assert(text_le(before[a].0@, before[b].0@));
        }
    }
    let (m, n) = (members_view(before).insert(key, value), members_view(after));
    assert forall|k: Seq<char>| #[trigger] n.dom().contains(k) <==> m.dom().contains(k) by {
        let p = last_position(after, k);
        let q = last_position(before, k);
        if p >= 0 {
            lemma_position(before, p);
        }
        if q >= 0 {
            assert(after[q].0@ == k);
        }
        if k == key {
            lemma_position(after, i);
        }
    }
    assert forall|k: Seq<char>| #[trigger] n.dom().contains(k) implies n[k] == m[k] by {
        let p = last_position(after, k);
        lemma_position(before, p);
    }
    assert(n =~= m);
}

proof fn lemma_put_inserted(
    before: Seq<(String, Json)>,
    after: Seq<(String, Json)>,
    i: int,
    key: String,
    value: Json,
)
    requires
        in_key_order(before),
        0 <= i <= before.len(),
        after == before.insert(i, (key, value)),
        forall|j: int|
            0 <= j < i ==> text_le((#[trigger] before[j]).0@, key@) && before[j].0@ != key@,
        i < before.len() ==> text_le(key@, before[i].0@) && before[i].0@ != key@,
    ensures
        in_key_order(after),
        members_view(after) == members_view(before).insert(key@, value@),
{
    broadcast use lemma_last_position;

    assert forall|j: int| i <= j < before.len() implies text_le(key@, (#[trigger] before[j]).0@)
        && before[j].0@ != key@ by {
        if i < j {
            lemma_text_le_trans(key@, before[i].0@, before[j].0@);
            if before[j].0@ == key@ {
                lemma_text_le_antisymmetric(key@, before[i].0@);
            }
        }
    }
    assert(in_key_order(after)) by {
        assert forall|a: int, b: int| 0 <= a < b < after.len() implies text_le(
            (#[trigger] after[a]).0@,
            (#[trigger] after[b]).0@,
        ) && after[a].0@ != after[b].0@ by {
            let x = if a < i {
                a
            } else {
                a - 1
            };
            let y = if b < i {
                b
            } else {
                b - 1
            };
            if a != i {
                assert(after[a] == before[x]);
            }
            if b != i {
                assert(after[b] == before[y]);
            }
        }
    }
    let (m, n) = (members_view(before).insert(key@, value@), members_view(after));
    assert(after[i].0@ == key@);
    lemma_position(after, i);
    assert forall|k: Seq<char>| #[trigger] n.dom().contains(k) <==> m.dom().contains(k) by {
        let p = last_position(after, k);
        let q = last_position(before, k);
        if p >= 0 && p != i {
            let x = if p < i {
                p
            } else {
                p - 1
            };
            assert(after[p] == before[x]);
            lemma_position(before, x);
        }
        if q >= 0 {
            let y = if q < i {
                q
            } else {
                q + 1
            };
            assert(after[y] == before[q]);
            lemma_position(after, y);
        }
    }
    assert forall|k: Seq<char>| #[trigger] n.dom().contains(k) implies n[k] == m[k] by {
        let p = last_position(after, k);
        if p != i {
            let x = if p < i {
                p
            } else {
                p - 1
            };
            assert(after[p] == before[x]);
            lemma_position(before, x);
            assert(k != key@);
        }
    }
    assert(n =~= m);
}

/// Reads the preferences of the command's output. Lines that give none are passed over.
pub fn parse_pref_lines(output: &str, policy: &PreferencePolicy) -> (r: Vec<(String, Json)>)
    ensures
        members_view(r@) == prefs(lines_of(output@), *policy),
        in_key_order(r@),
{
    let all: Vec<String> = lines(output);
    let ghost want = lines_of(output@);
    let mut out: Vec<(String, Json)> = Vec::new();
    proof {
        assert(members_view(out@) =~= Map::empty());
        assert(want.take(0) == Seq::<Seq<char>>::empty());
    }
    for i in 0..all.len()
        invariant
            texts(all@) == want,
            want == lines_of(output@),
            members_view(out@) == prefs(want.take(i as int), *policy),
            in_key_order(out@),
    {
        proof {
            assert(want.take(i + 1).drop_last() == want.take(i as int));
            assert(want.take(i + 1).last() == all@[i as int]@);
        }
        if let Some((key, value)) = read_line(all[i].as_str()) {
            let shown: Json = redact(policy, key.as_str(), value);
            put_in_order(&mut out, key, shown);
        }
    }
    proof {
        assert(want.take(all@.len() as int) == want);
    }
    out
}

/// Returns the preferences. `ran` is what became of running the command.
pub fn run(ran: CliRun, policy: &PreferencePolicy) -> (r: Result<ListPreferencesResult, String>)
    ensures
        match printed(ran, "list-preferences"@) {
            Err(e) => r is Err && r->Err_0@ == e,
            Ok(output) => r is Ok && members_view(r->Ok_0.preferences@) == prefs(
                lines_of(output),
                *policy,
            ) && in_key_order(r->Ok_0.preferences@) && r->Ok_0.count
                == r->Ok_0.preferences@.len(),
        },
{
    match output_of(ran, "list-preferences") {
        Ok(output) => {
            let preferences: Vec<(String, Json)> = parse_pref_lines(output.as_str(), policy);
            let count: usize = preferences.len();
            Ok(ListPreferencesResult { preferences, count })
        },
        Err(e) => Err(e),
    }
}

/// What is shown of a secret preference is the same whatever its value was.
pub proof fn law_secret_preferences_are_redacted(
    all: Seq<Seq<char>>,
    policy: PreferencePolicy,
    key: Seq<char>,
)
    requires
        texts(policy.secret@).contains(key),
        prefs(all, policy).dom().contains(key),
    ensures
        prefs(all, policy)[key] == JsonView::Text("<redacted: "@ + key + ">"@),
    decreases all.len(),
{
    if all.len() > 0 && line_key(all.last()) != Some(key) {
        law_secret_preferences_are_redacted(all.drop_last(), policy, key);
    }
}

/// A line with a sign of equality is read as the key before the first one and the value behind
/// it.
pub proof fn law_lines_are_read(line: Seq<char>, at: int)
    requires
        stands_at(line, " = "@, at),
        forall|j: int| 0 <= j < at ==> !stands_at(line, " = "@, j),
    ensures
        ({
            let (key, value) = (trimmed(line.take(at)), trimmed(line.skip(at + 3)));
            &&& key.len() > 0 ==> line_key(line) == Some(key)
            &&& key.len() == 0 ==> line_key(line) is None
            &&& json_parsed(value) matches Ok(v) ==> line_value(line) == v
            &&& json_parsed(value) is Err ==> line_value(line) == JsonView::Text(trimmed(value))
        }),
{
    assert(divides(line, at));
    let other = choose|other: int| divides(line, other);
    assert(divides(line, other));
    if other < at {
        assert(!stands_at(line, " = "@, other));
    } else if at < other {
        assert(!stands_at(line, " = "@, at));
    }
}

/// A line without a sign of equality names no preference.
pub proof fn law_other_lines_are_left_out(line: Seq<char>)
    requires
        !occurs_in(line, " = "@),
    ensures
        line_key(line) is None,
{
    assert forall|at: int| !divides(line, at) by {
        assert(!stands_at(line, " = "@, at));
    }
}

/// A preference is listed with what the last line that names it says, unless it is secret.
pub proof fn law_every_preference_is_listed(
    all: Seq<Seq<char>>,
    policy: PreferencePolicy,
    key: Seq<char>,
    i: int,
)
    requires
        0 <= i < all.len(),
        line_key(all[i]) == Some(key),
        forall|j: int| i < j < all.len() ==> line_key(#[trigger] all[j]) != Some(key),
    ensures
        prefs(all, policy).dom().contains(key),
        !texts(policy.secret@).contains(key) ==> prefs(all, policy)[key] == line_value(all[i]),
    decreases all.len(),
{
    if i < all.len() - 1 {
        let before = all.drop_last();
        assert forall|j: int| i < j < before.len() implies line_key(#[trigger] before[j]) != Some(
            key,
        ) by {
            assert(before[j] == all[j]);
        }
        law_every_preference_is_listed(before, policy, key, i);
        assert(line_key(all[all.len() - 1]) != Some(key));
    }
}

/// No preference is listed that no line names.
pub proof fn law_only_preferences_that_are_there(
    all: Seq<Seq<char>>,
    policy: PreferencePolicy,
    key: Seq<char>,
)
    requires
        forall|j: int| 0 <= j < all.len() ==> line_key(#[trigger] all[j]) != Some(key),
    ensures
        !prefs(all, policy).dom().contains(key),
    decreases all.len(),
{
    if all.len() > 0 {
        let before = all.drop_last();
        assert forall|j: int| 0 <= j < before.len() implies line_key(#[trigger] before[j]) != Some(
            key,
        ) by {
            assert(before[j] == all[j]);
        }
        law_only_preferences_that_are_there(before, policy, key);
        assert(line_key(all[all.len() - 1]) != Some(key));
    }
}

/// The command asks for the preferences of the system with `-g`, for those of the user with
/// `-u`, and for all of them with neither.
pub proof fn law_command_says_which_preferences(args: ListPreferencesArgs)
    ensures
        ({
            let c = command(args);
            &&& c[0] == "list-preferences"@
            &&& args.scope == Some(PreferenceScope::Global) ==> c.len() == 2 && c[1] == "-g"@
            &&& args.scope == Some(PreferenceScope::User) ==> c.len() == 2 && c[1] == "-u"@
            &&& args.scope == Some(PreferenceScope::All) || args.scope is None ==> c.len() == 1
        }),
{
}

} // verus!
