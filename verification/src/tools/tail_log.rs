//! The log of Little Snitch.

use vstd::prelude::*;
use crate::cli::{output_of, printed, CliRun};
use crate::json::{json_parsed, jsons, parse, Json, JsonView};
use crate::text::{
    chars_of, concat, decimal, lines, lines_of, texts, trim, trimmed, u64_to_string,
};

verus! {

/// How long the log is listened to at most, in seconds.
pub const MAX_DURATION_SECS: u64 = 3600;

/// What the tool is given.
#[derive(Debug)]
pub struct TailLogArgs {
    /// How long to listen, in seconds.
    pub duration_secs: u64,
    /// A predicate that events are filtered by.
    pub predicate: Option<String>,
}

/// What the tool returns.
#[derive(Debug)]
pub struct TailLogResult {
    pub events: Vec<Json>,
    /// How many events there are.
    pub count: usize,
    /// How long was listened, in seconds.
    pub duration_secs: u64,
}

/// Why the log cannot be listened to for so long, if it cannot.
pub open spec fn duration_defect(secs: u64) -> Option<Seq<char>> {
    if secs == 0 {
        Some("duration_secs must be at least 1"@)
    } else if secs > MAX_DURATION_SECS {
        Some(
            "duration_secs "@ + decimal(secs as nat) + " exceeds maximum of "@ + decimal(
                MAX_DURATION_SECS as nat,
            ) + " (1 hour)"@,
        )
    } else {
        None
    }
}

/// Why the log cannot be listened to for so long, if it cannot.
pub fn check_duration(secs: u64) -> (r: Option<String>)
    ensures
        match r {
            Some(e) => duration_defect(secs) == Some(e@),
            None => duration_defect(secs) is None,
        },
{
    if secs == 0 {
        return Some("duration_secs must be at least 1".to_owned());
    }
    if secs > MAX_DURATION_SECS {
        let mut out: String = concat("duration_secs ", u64_to_string(secs).as_str());
        out.push_str(" exceeds maximum of ");
        out.push_str(u64_to_string(MAX_DURATION_SECS).as_str());
        out.push_str(" (1 hour)");
        return Some(out);
    }
    None
}

/// The arguments of the command.
pub open spec fn command(args: TailLogArgs) -> Seq<Seq<char>> {
    let c = seq!["log"@, "-j"@, "-l"@, decimal(args.duration_secs as nat) + "s"@];
    match args.predicate {
        Some(p) => c.push("-p"@).push(p@),
        None => c,
    }
}

/// The arguments of the command.
pub fn command_args(args: &TailLogArgs) -> (r: Vec<String>)
    ensures
        texts(r@) == command(*args),
{
    let mut out: Vec<String> = Vec::new();
    out.push("log".to_owned());
    out.push("-j".to_owned());
    out.push("-l".to_owned());
    out.push(concat(u64_to_string(args.duration_secs).as_str(), "s"));
    if let Some(p) = &args.predicate {
        out.push("-p".to_owned());
        out.push(p.clone());
    }
    proof {
        assert(texts(out@) =~= command(*args));
    }
    out
}

/// Whether a line is to be read as an event: it begins as an object or an array.
pub open spec fn is_event(line: Seq<char>) -> bool {
    line.len() > 0 && (line[0] == '{' || line[0] == '[')
}

/// The events of some lines, or what is wrong with the first that is none. Lines
/// that do not begin as events are passed over.
pub open spec fn events(all: Seq<Seq<char>>) -> Result<Seq<JsonView>, Seq<char>>
    decreases all.len(),
{
    if all.len() == 0 {
        Ok(Seq::empty())
    } else {
        match events(all.drop_last()) {
            Err(e) => Err(e),
            Ok(before) => {
                let line = trimmed(all.last());
                if !is_event(line) {
                    Ok(before)
                } else {
                    match json_parsed(line) {
                        Ok(v) => Ok(before.push(v)),
                        Err(e) => Err("failed to parse log event: "@ + e + ": "@ + line),
                    }
                }
            },
        }
    }
}

proof fn lemma_events_error(all: Seq<Seq<char>>, n: int)
    requires
        0 <= n <= all.len(),
        events(all.take(n)) is Err,
    ensures
        events(all) == events(all.take(n)),
    decreases all.len() - n,
{
    if n < all.len() {
        assert(all.take(n + 1).drop_last() == all.take(n));
        lemma_events_error(all, n + 1);
    } else {
        assert(all.take(n) == all);
    }
}

/// Reads the events of the command's output.
pub fn parse_json_lines(output: &str) -> (r: Result<Vec<Json>, String>)
    ensures
        match r {
            Ok(v) => events(lines_of(output@)) == Ok::<Seq<JsonView>, Seq<char>>(jsons(v@)),
            Err(e) => events(lines_of(output@)) == Err::<Seq<JsonView>, Seq<char>>(e@),
        },
{
    let all: Vec<String> = lines(output);
    let ghost want = lines_of(output@);
    let mut out: Vec<Json> = Vec::new();
    proof {
        assert(jsons(out@) =~= Seq::empty());
        assert(want.take(0) == Seq::<Seq<char>>::empty());
    }
    for i in 0..all.len()
        invariant
            texts(all@) == want,
            want == lines_of(output@),
            events(want.take(i as int)) == Ok::<Seq<JsonView>, Seq<char>>(jsons(out@)),
    {
        let ghost prior = out@;
        let line: String = trim(all[i].as_str());
        proof {
            assert(want.take(i + 1).drop_last() == want.take(i as int));
            assert(want.take(i + 1).last() == all@[i as int]@);
        }
        let v: Vec<char> = chars_of(line.as_str());
        if v.len() > 0 && (v[0] == '{' || v[0] == '[') {
            match parse(line.as_str()) {
                Ok(x) => {
                    out.push(x);
                    proof {
                        assert(jsons(out@) =~= jsons(prior).push(x@));
                    }
                },
                Err(e) => {
                    let mut m: String = concat("failed to parse log event: ", e.as_str());
                    m.push_str(": ");
                    m.push_str(line.as_str());
                    proof {
                        lemma_events_error(want, i + 1);
                    }
                    return Err(m);
                },
            }
        }
    }
    proof {
        assert(want.take(all@.len() as int) == want);
    }
    Ok(out)
}

/// Returns the events of the log. `ran` is what became of running the command.
pub fn run(args: TailLogArgs, ran: CliRun) -> (r: Result<TailLogResult, String>)
    ensures
        match duration_defect(args.duration_secs) {
            Some(e) => r is Err && r->Err_0@ == e,
            None => match printed(ran, "littlesnitch log"@) {
                Err(e) => r is Err && r->Err_0@ == e,
                Ok(output) => match events(lines_of(output)) {
                    Err(e) => r is Err && r->Err_0@ == e,
                    Ok(found) => r is Ok && jsons(r->Ok_0.events@) == found && r->Ok_0.count
                        == found.len() && r->Ok_0.duration_secs == args.duration_secs,
                },
            },
        },
{
    if let Some(e) = check_duration(args.duration_secs) {
        return Err(e);
    }
    let output: String = match output_of(ran, "littlesnitch log") {
        Ok(s) => s,
        Err(e) => {
            return Err(e);
        },
    };
    match parse_json_lines(output.as_str()) {
        Ok(found) => {
            let count: usize = found.len();
            Ok(TailLogResult { events: found, count, duration_secs: args.duration_secs })
        },
        Err(e) => Err(e),
    }
}

/// Listening is refused just if it would take no time, or more than is allowed.
pub proof fn law_which_durations_are_refused(secs: u64)
    ensures
        duration_defect(secs) is None <==> 1 <= secs <= MAX_DURATION_SECS,
{
}

/// The command asks for JSON, for as many seconds as were asked for, and for what the predicate
/// says if there is one.
pub proof fn law_command_says_what_is_listened_to(args: TailLogArgs)
    ensures
        ({
            let c = command(args);
            &&& c[0] == "log"@
            &&& c.contains("-j"@)
            &&& c[2] == "-l"@
            &&& c[3] == decimal(args.duration_secs as nat) + "s"@
            &&& args.predicate matches Some(p) ==> c.len() == 6 && c[4] == "-p"@ && c[5] == p@
            &&& args.predicate is None ==> c.len() == 4
        }),
{
    assert(command(args)[1] == "-j"@);
}

/// Every line that holds an event adds it behind those before it, in its place; other lines add
/// nothing.
pub proof fn law_events_line_by_line(all: Seq<Seq<char>>, line: Seq<char>)
    requires
        events(all) is Ok,
    ensures
        ({
            let t = trimmed(line);
            let now = events(all.push(line));
            &&& t.len() == 0 || (t[0] != '{' && t[0] != '[') ==> now == events(all)
            &&& t.len() > 0 && (t[0] == '{' || t[0] == '[') ==> match json_parsed(t) {
                Ok(v) => now == Ok::<Seq<JsonView>, Seq<char>>(events(all)->Ok_0.push(v)),
                Err(_) => now is Err,
            }
        }),
{
    assert(all.push(line).drop_last() =~= all);
}

} // verus!
