//! The license of Little Snitch.

use vstd::prelude::*;
use crate::cli::{output_of, printed, CliRun};
use crate::text::{
    ascii_lower, chars_of, contains, find_from, occurs_in, opt_text, stands_at, string_of,
    to_ascii_lowercase, trim_start, trim_start_of,
};

verus! {

/// What the tool is given.
#[derive(Debug)]
pub struct ShowRestrictionsArgs {}

/// What the tool returns.
#[derive(Debug)]
pub struct ShowRestrictionsResult {
    /// Whether there is a license.
    pub licensed: bool,
    /// The day on which the license ends, if it does.
    pub expires_at: Option<String>,
    /// `full`, or `limited`.
    pub features: String,
    /// What the command printed.
    pub raw: String,
}

/// The kinds of characters that dates are made of.
#[derive(Debug, Clone, Copy, PartialEq, Eq, Structural)]
pub enum DatePart {
    Letter,
    Digit,
    /// A letter, a digit, a hyphen or a comma.
    Any,
}

impl DatePart {
    /// Whether a character is of this kind.
    pub open spec fn has(self, c: char) -> bool {
        let letter = ('a' <= c <= 'z') || ('A' <= c <= 'Z');
        let digit = '0' <= c <= '9';
        match self {
            DatePart::Letter => letter,
            DatePart::Digit => digit,
            DatePart::Any => letter || digit || c == '-' || c == ',',
        }
    }

    fn holds(self, c: char) -> (r: bool)
        ensures
            r == self.has(c),
    {
        let letter: bool = ('a' <= c && c <= 'z') || ('A' <= c && c <= 'Z');
        let digit: bool = '0' <= c && c <= '9';
        match self {
            DatePart::Letter => letter,
            DatePart::Digit => digit,
            DatePart::Any => letter || digit || c == '-' || c == ',',
        }
    }
}

/// How many characters at the beginning are of a kind.
pub open spec fn run_len(s: Seq<char>, part: DatePart) -> nat
    decreases s.len(),
{
    if s.len() > 0 && part.has(s[0]) {
        1 + run_len(s.drop_first(), part)
    } else {
        0
    }
}

fn find_run(v: &Vec<char>, from: usize, part: DatePart) -> (r: usize)
    requires
        from <= v.len(),
    ensures
        r == run_len(v@.skip(from as int), part),
        from + r <= v.len(),
{
    let mut i: usize = from;
    let ghost s = v@.skip(from as int);
    while i < v.len() && part.holds(v[i])
        invariant
            from <= i <= v.len(),
            s == v@.skip(from as int),
            run_len(s, part) == (i - from) + run_len(v@.skip(i as int), part),
        decreases v.len() - i,
    {
        proof {
            assert(v@.skip(i as int)[0] == v@[i as int]);
            assert(v@.skip(i as int).drop_first() == v@.skip(i + 1));
        }
        i = i + 1;
    }
    proof {
        if i < v.len() {
            assert(v@.skip(i as int)[0] == v@[i as int]);
        }
    }
    i - from
}

/// The length of a date such as `January 1, 2025` at the beginning of a text: a word, a
/// space, a number, a comma, a space and a number.
pub open spec fn long_date_len(s: Seq<char>) -> Option<nat> {
    let month = run_len(s, DatePart::Letter) as int;
    let day = run_len(s.skip(month + 1), DatePart::Digit) as int;
    let comma = month + 1 + day;
    let year = run_len(s.skip(comma + 2), DatePart::Digit) as int;
    if month > 0 && month < s.len() && s[month] == ' ' && day > 0 && comma + 1 < s.len()
        && s[comma] == ',' && s[comma + 1] == ' ' && year > 0 {
        Some((comma + 2 + year) as nat)
    } else {
        None
    }
}

fn find_long_date(v: &Vec<char>) -> (r: Option<usize>)
    ensures
        match r {
            Some(n) => long_date_len(v@) == Some(n as nat) && n <= v.len(),
            None => long_date_len(v@) is None,
        },
{
    let n: usize = v.len();
    proof {
        assert(v@.skip(0) == v@);
    }
    let month: usize = find_run(v, 0, DatePart::Letter);
    if month == 0 || month >= n || v[month] != ' ' {
        return None;
    }
    let day: usize = find_run(v, month + 1, DatePart::Digit);
    let comma: usize = month + 1 + day;
    if day == 0 || comma >= n || n - comma < 2 || v[comma] != ',' || v[comma + 1] != ' ' {
        return None;
    }
    let year: usize = find_run(v, comma + 2, DatePart::Digit);
    if year == 0 {
        return None;
    }
    Some(comma + 2 + year)
}

/// The date at the beginning of a text: one such as `January 1, 2025`, or else the
/// letters, digits, hyphens and commas that stand there, if any do.
pub open spec fn date_at_start(s: Seq<char>) -> Option<Seq<char>> {
    let n = run_len(s, DatePart::Any);
    match long_date_len(s) {
        Some(len) => Some(s.take(len as int)),
        None => if n > 0 {
            Some(s.take(n as int))
        } else {
            None
        },
    }
}

/// The first position at which `needle` stands.
pub open spec fn is_first_at(hay: Seq<char>, needle: Seq<char>, at: int) -> bool {
    stands_at(hay, needle, at) && forall|j: int| 0 <= j < at ==> !stands_at(hay, needle, j)
}

/// The day that is said to end the license, if one is: behind `expired on`, or else
/// behind `expires on`, in letters of either case.
pub open spec fn is_expiry(raw: Seq<char>, r: Option<Seq<char>>) -> bool {
    let lower = ascii_lower(raw);
    if occurs_in(lower, "expired on "@) {
        exists|at: int| #[trigger]
            is_first_at(lower, "expired on "@, at) && r == date_at_start(
                trim_start_of(raw.skip(at + 11)),
            )
    } else if occurs_in(lower, "expires on "@) {
        exists|at: int| #[trigger]
            is_first_at(lower, "expires on "@, at) && r == date_at_start(
                trim_start_of(raw.skip(at + 11)),
            )
    } else {
        r is None
    }
}

fn date_from(raw: &Vec<char>, at: usize) -> (r: Option<String>)
    requires
        at <= raw.len(),
    ensures
        opt_text(r) == date_at_start(trim_start_of(raw@.skip(at as int))),
{
    let n: usize = raw.len();
    let rest: String = string_of(raw, at, n);
    proof {
        assert(raw@.subrange(at as int, n as int) == raw@.skip(at as int));
    }
    let start: String = trim_start(rest.as_str());
    let v: Vec<char> = chars_of(start.as_str());
    proof {
        assert(v@.skip(0) == v@);
    }
    let len: usize = match find_long_date(&v) {
        Some(len) => len,
        None => find_run(&v, 0, DatePart::Any),
    };
    proof {
        assert(v@.subrange(0, len as int) == v@.take(len as int));
    }
    if len == 0 {
        return None;
    }
    Some(string_of(&v, 0, len))
}

/// The day that is said to end the license, if one is.
pub fn extract_expiry(raw: &str) -> (r: Option<String>)
    ensures
        is_expiry(raw@, opt_text(r)),
{
    let v: Vec<char> = chars_of(raw);
    let lower: String = to_ascii_lowercase(raw);
    let low: Vec<char> = chars_of(lower.as_str());
    let n: usize = v.len();
    let expired: Vec<char> = chars_of("expired on ");
    let expires: Vec<char> = chars_of("expires on ");
    proof {
        reveal_strlit("expired on ");
        reveal_strlit("expires on ");
        assert(expired@.len() == 11 && expires@.len() == 11);
        assert(low@.len() == v@.len());
    }
    match find_from(&low, &expired, 0) {
        Some(at) => {
            proof {
                assert(stands_at(lower@, "expired on "@, at as int));
                assert(is_first_at(lower@, "expired on "@, at as int));
                assert(at + 11 <= n);
            }
            return date_from(&v, at + 11);
        },
        None => {},
    }
    match find_from(&low, &expires, 0) {
        Some(at) => {
            proof {
                assert(stands_at(lower@, "expires on "@, at as int));
                assert(is_first_at(lower@, "expires on "@, at as int));
                assert(at + 11 <= n);
            }
            date_from(&v, at + 11)
        },
        None => None,
    }
}

/// Whether a result says what the command's output says of the license.
pub open spec fn is_reading(r: ShowRestrictionsResult, raw: Seq<char>) -> bool {
    let lower = ascii_lower(raw);
    &&& r.licensed == (!occurs_in(lower, "demo"@) && !occurs_in(lower, "not licensed"@))
    &&& is_expiry(raw, opt_text(r.expires_at))
    &&& r.features@ == (if occurs_in(lower, "fully featured"@) || occurs_in(
        lower,
        "full featured"@,
    ) {
        "full"@
    } else {
        "limited"@
    })
    &&& r.raw@ == raw
}

/// Reads what the command printed.
pub fn parse_restrictions(raw: &str) -> (r: Result<ShowRestrictionsResult, String>)
    ensures
        r is Ok,
        is_reading(r->Ok_0, raw@),
{
    let lower: String = to_ascii_lowercase(raw);
    let low: &str = lower.as_str();
    let licensed: bool = !contains(low, "demo") && !contains(low, "not licensed");
    let features: &str = if contains(low, "fully featured") || contains(low, "full featured") {
        "full"
    } else {
        "limited"
    };
    Ok(
        ShowRestrictionsResult {
            licensed,
            expires_at: extract_expiry(raw),
            features: features.to_owned(),
            raw: raw.to_owned(),
        },
    )
}

/// Reads the license. `ran` is what became of running the command.
pub fn run(args: ShowRestrictionsArgs, ran: CliRun) -> (r: Result<ShowRestrictionsResult, String>)
    ensures
        match printed(ran, "littlesnitch restrictions"@) {
            Err(e) => r is Err && r->Err_0@ == e,
            Ok(raw) => r is Ok && is_reading(r->Ok_0, raw),
        },
{
    match output_of(ran, "littlesnitch restrictions") {
        Ok(raw) => parse_restrictions(raw.as_str()),
        Err(e) => Err(e),
    }
}

/// A date is made of letters, digits, hyphens and commas, and of spaces between its parts.
pub proof fn law_expiry_is_a_date(s: Seq<char>, i: int)
    requires
        date_at_start(s) is Some,
        0 <= i < date_at_start(s)->0.len(),
    ensures
        DatePart::Any.has(date_at_start(s)->0[i]) || date_at_start(s)->0[i] == ' ',
{
    match long_date_len(s) {
        Some(_) => {
            let month = run_len(s, DatePart::Letter) as int;
            let day = run_len(s.skip(month + 1), DatePart::Digit) as int;
            let comma = month + 1 + day;
            lemma_run(s, DatePart::Letter, i);
            lemma_run(s.skip(month + 1), DatePart::Digit, i - (month + 1));
            lemma_run(s.skip(comma + 2), DatePart::Digit, i - (comma + 2));
        },
        None => {
            lemma_run(s, DatePart::Any, i);
        },
    }
}

proof fn lemma_run(s: Seq<char>, part: DatePart, i: int)
    ensures
        run_len(s, part) <= s.len(),
        0 <= i < run_len(s, part) ==> part.has(s[i]),
    decreases s.len(),
{
    if s.len() > 0 && part.has(s[0]) {
        lemma_run(s.drop_first(), part, i - 1);
        if 0 < i < s.len() {
            assert(s.drop_first()[i - 1] == s[i]);
        }
    }
}

/// What is read out of the command's output, in letters of either case: there is a license
/// unless it speaks of a demo or of no license, and everything is to be had just if it says so.
pub proof fn law_what_is_read(r: ShowRestrictionsResult, raw: Seq<char>)
    requires
        is_reading(r, raw),
    ensures
        ({
            let lower = ascii_lower(raw);
            &&& occurs_in(lower, "demo"@) ==> !r.licensed
            &&& occurs_in(lower, "not licensed"@) ==> !r.licensed
            &&& !occurs_in(lower, "demo"@) && !occurs_in(lower, "not licensed"@) ==> r.licensed
            &&& r.features@ == "full"@ || r.features@ == "limited"@
            &&& r.features@ == "full"@ <==> occurs_in(lower, "fully featured"@) || occurs_in(
                lower,
                "full featured"@,
            )
            &&& !occurs_in(lower, "expired on "@) && !occurs_in(lower, "expires on "@)
                ==> r.expires_at is None
            &&& r.raw@ == raw
        }),
{
    reveal_strlit("full");
    reveal_strlit("limited");
    assert("full"@.len() == 4 && "limited"@.len() == 7);
}

proof fn lemma_run_len(run: Seq<char>, rest: Seq<char>, part: DatePart)
    requires
        forall|i: int| 0 <= i < run.len() ==> part.has(#[trigger] run[i]),
        rest.len() > 0 ==> !part.has(rest[0]),
    ensures
        run_len(run + rest, part) == run.len(),
    decreases run.len(),
{
    if run.len() == 0 {
        assert(run + rest =~= rest);
    } else {
        let less = run.drop_first();
        assert forall|i: int| 0 <= i < less.len() implies part.has(#[trigger] less[i]) by {
            assert(less[i] == run[i + 1]);
        }
        lemma_run_len(less, rest, part);
        assert((run + rest)[0] == run[0]);
        assert((run + rest).drop_first() =~= less + rest);
    }
}

/// A day that is written out, as in `January 15, 2026`, is read as a whole.
pub proof fn law_long_dates_are_read(
    month: Seq<char>,
    day: Seq<char>,
    year: Seq<char>,
    rest: Seq<char>,
)
    requires
        month.len() > 0,
        day.len() > 0,
        year.len() > 0,
        forall|i: int| 0 <= i < month.len() ==> DatePart::Letter.has(#[trigger] month[i]),
        forall|i: int| 0 <= i < day.len() ==> DatePart::Digit.has(#[trigger] day[i]),
        forall|i: int| 0 <= i < year.len() ==> DatePart::Digit.has(#[trigger] year[i]),
        rest.len() > 0 ==> !DatePart::Digit.has(rest[0]),
    ensures
        ({
            let date = month + seq![' '] + day + seq![',', ' '] + year;
            date_at_start(date + rest) == Some(date)
        }),
{
    let date = month + seq![' '] + day + seq![',', ' '] + year;
    let s = date + rest;
    let a = seq![' '] + day + seq![',', ' '] + year + rest;
    let b = seq![',', ' '] + year + rest;
    assert(s =~= month + a);
    lemma_run_len(month, a, DatePart::Letter);
    let m = month.len() as int;
    assert(s.skip(m + 1) =~= day + b);
    lemma_run_len(day, b, DatePart::Digit);
    let c = m + 1 + day.len();
    assert(s.skip(c + 2) =~= year + rest);
    lemma_run_len(year, rest, DatePart::Digit);
    assert(s[m] == ' ' && s[c] == ',' && s[c + 1] == ' ');
    assert(s.take(date.len() as int) =~= date);
}

} // verus!
