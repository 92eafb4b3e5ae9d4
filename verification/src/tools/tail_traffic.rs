//! The traffic statistics of Little Snitch.

use vstd::prelude::*;
use crate::cli::{output_of, printed, CliRun};
use crate::text::{
    ascii_lower, ascii_lower_char, begins_with, chars_of, concat, contains, debug_form, decimal,
    lemma_parse_decimal, lines, lines_of, occurs_in, parse_number, parsed_number, quoted,
    stands_at, starts_with, str_eq, texts, to_ascii_lowercase, trim, trimmed, u64_to_string,
};

verus! {

/// What the tool is given.
#[derive(Debug)]
pub struct TailTrafficArgs {
    /// Where to begin.
    pub begin: Option<String>,
    /// Where to end.
    pub end: Option<String>,
    /// Keep what this is part of the executable of, in letters of either case.
    pub process_name: Option<String>,
    /// Keep what this is part of the host or the address of, in letters of either
    /// case.
    pub remote_host: Option<String>,
    /// Keep what goes this way: `in` or `out`.
    pub direction: Option<String>,
}

/// Text from outside, marked as such.
#[derive(Debug)]
pub struct UntrustedData {
    pub untrusted_data: String,
}

/// One row of the statistics.
#[derive(Debug)]
pub struct TrafficEntry {
    pub date: String,
    pub direction: String,
    pub uid: String,
    pub ip_address: String,
    pub remote_hostname: UntrustedData,
    pub protocol: String,
    pub port: u16,
    pub connect_count: u64,
    pub deny_count: u64,
    pub byte_count_in: u64,
    pub byte_count_out: u64,
    pub connecting_executable: UntrustedData,
    pub parent_app_executable: UntrustedData,
}

/// What a [`TrafficEntry`] means.
#[verifier::ext_equal]
pub struct TrafficEntryView {
    pub date: Seq<char>,
    pub direction: Seq<char>,
    pub uid: Seq<char>,
    pub ip_address: Seq<char>,
    pub remote_hostname: Seq<char>,
    pub protocol: Seq<char>,
    pub port: nat,
    pub connect_count: nat,
    pub deny_count: nat,
    pub byte_count_in: nat,
    pub byte_count_out: nat,
    pub connecting_executable: Seq<char>,
    pub parent_app_executable: Seq<char>,
}

impl View for TrafficEntry {
    type V = TrafficEntryView;

    open spec fn view(&self) -> TrafficEntryView {
        TrafficEntryView {
            date: self.date@,
            direction: self.direction@,
            uid: self.uid@,
            ip_address: self.ip_address@,
            remote_hostname: self.remote_hostname.untrusted_data@,
            protocol: self.protocol@,
            port: self.port as nat,
            connect_count: self.connect_count as nat,
            deny_count: self.deny_count as nat,
            byte_count_in: self.byte_count_in as nat,
            byte_count_out: self.byte_count_out as nat,
            connecting_executable: self.connecting_executable.untrusted_data@,
            parent_app_executable: self.parent_app_executable.untrusted_data@,
        }
    }
}

impl TrafficEntry {
    fn copy(&self) -> (r: TrafficEntry)
        ensures
            r@ == self@,
    {
        TrafficEntry {
            date: self.date.clone(),
            direction: self.direction.clone(),
            uid: self.uid.clone(),
            ip_address: self.ip_address.clone(),
            remote_hostname: UntrustedData::new(self.remote_hostname.untrusted_data.clone()),
            protocol: self.protocol.clone(),
            port: self.port,
            connect_count: self.connect_count,
            deny_count: self.deny_count,
            byte_count_in: self.byte_count_in,
            byte_count_out: self.byte_count_out,
            connecting_executable: UntrustedData::new(
                self.connecting_executable.untrusted_data.clone(),
            ),
            parent_app_executable: UntrustedData::new(
                self.parent_app_executable.untrusted_data.clone(),
            ),
        }
    }
}

/// What the tool returns.
#[derive(Debug)]
pub struct TailTrafficResult {
    pub entries: Vec<TrafficEntry>,
    /// How many entries are returned.
    pub count: usize,
    /// How many entries there were to filter.
    pub filtered_count: usize,
}

/// How many rows are returned at most.
pub const MAX_ROWS: usize = 10_000;

/// Whether `needle` is part of `hay`, in letters of either case.
pub open spec fn has_part(hay: Seq<char>, needle: Seq<char>) -> bool {
    occurs_in(ascii_lower(hay), ascii_lower(needle))
}

impl UntrustedData {
    /// Marks a text.
    pub fn new(s: String) -> (r: UntrustedData)
        ensures
            r.untrusted_data@ == s@,
    {
        UntrustedData { untrusted_data: s }
    }

    /// Whether `needle` is part of the text, in letters of either case.
    pub fn contains_ci(&self, needle: &str) -> (r: bool)
        ensures
            r == has_part(self.untrusted_data@, needle@),
    {
        contains(
            to_ascii_lowercase(self.untrusted_data.as_str()).as_str(),
            to_ascii_lowercase(needle).as_str(),
        )
    }
}

/// The name of a protocol, by its number.
pub open spec fn protocol(num: nat) -> Seq<char> {
    if num == 6 {
        "tcp"@
    } else if num == 17 {
        "udp"@
    } else if num == 1 {
        "icmp"@
    } else {
        decimal(num)
    }
}

/// The name of a protocol, by its number.
pub fn protocol_name(num: u32) -> (r: String)
    ensures
        r@ == protocol(num as nat),
{
    match num {
        6 => "tcp".to_owned(),
        17 => "udp".to_owned(),
        1 => "icmp".to_owned(),
        n => u64_to_string(n as u64),
    }
}

/// The fields of a line, behind the part `cur` of the first. Within double quotes a
/// comma is part of the field, and two double quotes stand for one.
pub open spec fn csv_fields(s: Seq<char>, cur: Seq<char>, in_quotes: bool) -> Seq<Seq<char>>
    decreases s.len(),
{
    if s.len() == 0 {
        seq![cur]
    } else if s[0] == '"' && !in_quotes {
        csv_fields(s.drop_first(), cur, true)
    } else if s[0] == '"' && s.len() > 1 && s[1] == '"' {
        csv_fields(s.skip(2), cur.push('"'), true)
    } else if s[0] == '"' {
        csv_fields(s.drop_first(), cur, false)
    } else if s[0] == ',' && !in_quotes {
        seq![cur] + csv_fields(s.drop_first(), Seq::empty(), false)
    } else {
        csv_fields(s.drop_first(), cur.push(s[0]), in_quotes)
    }
}

/// The fields of a line.
pub open spec fn csv_line(s: Seq<char>) -> Seq<Seq<char>> {
    csv_fields(s, Seq::empty(), false)
}

/// The fields of a line.
pub fn split_csv_line(line: &str) -> (r: Vec<String>)
    ensures
        texts(r@) == csv_line(line@),
{
    let v: Vec<char> = chars_of(line);
    let mut fields: Vec<String> = Vec::new();
    let mut cur: String = String::new();
    let mut in_quotes: bool = false;
    let mut i: usize = 0;
    proof {
        assert(v@.skip(0) == line@);
        assert(texts(fields@) + csv_fields(v@.skip(0), cur@, false) =~= csv_line(line@));
    }
    while i < v.len()
        invariant
            i <= v.len(),
            texts(fields@) + csv_fields(v@.skip(i as int), cur@, in_quotes) == csv_line(line@),
        decreases v.len() - i,
    {
        let c: char = v[i];
        let ghost rest = v@.skip(i as int);
        proof {
            assert(rest[0] == c);
            assert(rest.drop_first() == v@.skip(i + 1));
            if rest.len() > 1 {
                assert(rest[1] == v@[i + 1]);
                assert(rest.skip(2) == v@.skip(i + 2));
            }
        }
        if c == '"' {
            if !in_quotes {
                in_quotes = true;
            } else if i + 1 < v.len() && v[i + 1] == '"' {
                cur.push('"');
                i = i + 1;
            } else {
                in_quotes = false;
            }
        } else if c == ',' && !in_quotes {
            let ghost done = texts(fields@);
            let ghost field = cur@;
            fields.push(cur);
            cur = String::new();
            proof {
                assert(texts(fields@) =~= done.push(field));
                assert(done + (seq![field] + csv_fields(rest.drop_first(), Seq::empty(), false))
                    =~= done.push(field) + csv_fields(rest.drop_first(), Seq::empty(), false));
            }
        } else {
            cur.push(c);
        }
        i = i + 1;
    }
    let ghost done = texts(fields@);
    proof {
        assert(v@.skip(i as int).len() == 0);
        assert(done + seq![cur@] =~= done.push(cur@));
    }
    let ghost field = cur@;
    fields.push(cur);
    proof {
        assert(texts(fields@) =~= done.push(field));
    }
    fields
}

/// A number of a field; one that is none counts as zero.
pub open spec fn number_or_zero(s: Seq<char>, max: nat) -> nat {
    match parsed_number(s, max) {
        Some(n) => n,
        None => 0,
    }
}

fn read_number(s: &str, max: u64) -> (r: u64)
    ensures
        r == number_or_zero(s@, max as nat),
        r <= max,
{
    match parse_number(s, max) {
        Some(n) => n,
        None => 0,
    }
}

/// The row that some fields stand for.
pub open spec fn row(cols: Seq<Seq<char>>) -> TrafficEntryView {
    TrafficEntryView {
        date: cols[0],
        direction: cols[1],
        uid: cols[2],
        ip_address: cols[3],
        remote_hostname: cols[4],
        protocol: protocol(number_or_zero(cols[5], u32::MAX as nat)),
        port: number_or_zero(cols[6], u16::MAX as nat),
        connect_count: number_or_zero(cols[7], u64::MAX as nat),
        deny_count: number_or_zero(cols[8], u64::MAX as nat),
        byte_count_in: number_or_zero(cols[9], u64::MAX as nat),
        byte_count_out: number_or_zero(cols[10], u64::MAX as nat),
        connecting_executable: cols[11],
        parent_app_executable: cols[12],
    }
}

fn read_row(cols: &Vec<String>) -> (r: TrafficEntry)
    requires
        cols.len() >= 13,
    ensures
        r@ == row(texts(cols@)),
{
    let protocol_num: u32 = read_number(cols[5].as_str(), u32::MAX as u64) as u32;
    let port: u16 = read_number(cols[6].as_str(), u16::MAX as u64) as u16;
    TrafficEntry {
        date: cols[0].clone(),
        direction: cols[1].clone(),
        uid: cols[2].clone(),
        ip_address: cols[3].clone(),
        remote_hostname: UntrustedData::new(cols[4].clone()),
        protocol: protocol_name(protocol_num),
        port,
        connect_count: read_number(cols[7].as_str(), u64::MAX),
        deny_count: read_number(cols[8].as_str(), u64::MAX),
        byte_count_in: read_number(cols[9].as_str(), u64::MAX),
        byte_count_out: read_number(cols[10].as_str(), u64::MAX),
        connecting_executable: UntrustedData::new(cols[11].clone()),
        parent_app_executable: UntrustedData::new(cols[12].clone()),
    }
}

/// Whether a line stands for no row: it is blank, or it is the first and names the
/// columns.
pub open spec fn is_skipped(line: Seq<char>, line_no: int) -> bool {
    line.len() == 0 || (line_no == 0 && begins_with(line, "date"@))
}

/// That a line has too few fields.
pub open spec fn too_few(line: Seq<char>, line_no: nat) -> Seq<char> {
    "CSV line "@ + decimal(line_no) + ": expected 13 columns, got "@ + decimal(csv_line(line).len())
        + "; line: "@ + debug_form(line)
}

/// The rows of some lines, or what is wrong with the first line that has too few
/// fields.
pub open spec fn rows(all: Seq<Seq<char>>) -> Result<Seq<TrafficEntryView>, Seq<char>>
    decreases all.len(),
{
    if all.len() == 0 {
        Ok(Seq::empty())
    } else {
        match rows(all.drop_last()) {
            Err(e) => Err(e),
            Ok(before) => {
                let line = trimmed(all.last());
                let line_no = (all.len() - 1) as nat;
                if is_skipped(line, line_no as int) {
                    Ok(before)
                } else if csv_line(line).len() < 13 {
                    Err(too_few(line, line_no))
                } else {
                    Ok(before.push(row(csv_line(line))))
                }
            },
        }
    }
}

proof fn lemma_rows_error(all: Seq<Seq<char>>, n: int)
    requires
        0 <= n <= all.len(),
        rows(all.take(n)) is Err,
    ensures
        rows(all) == rows(all.take(n)),
    decreases all.len() - n,
{
    if n < all.len() {
        assert(all.take(n + 1).drop_last() == all.take(n));
        lemma_rows_error(all, n + 1);
    } else {
        assert(all.take(n) == all);
    }
}

/// The views of several rows.
pub open spec fn entries_view(v: Seq<TrafficEntry>) -> Seq<TrafficEntryView> {
    Seq::new(v.len(), |i: int| v[i]@)
}

/// Reads the rows of the command's output.
pub fn parse_csv(output: &str) -> (r: Result<Vec<TrafficEntry>, String>)
    ensures
        match r {
            Ok(v) => rows(lines_of(output@)) == Ok::<Seq<TrafficEntryView>, Seq<char>>(
                entries_view(v@),
            ),
            Err(e) => rows(lines_of(output@)) == Err::<Seq<TrafficEntryView>, Seq<char>>(e@),
        },
{
    let all: Vec<String> = lines(output);
    let ghost want = lines_of(output@);
    let mut entries: Vec<TrafficEntry> = Vec::new();
    proof {
        assert(entries_view(entries@) =~= Seq::empty());
        assert(want.take(0) == Seq::<Seq<char>>::empty());
    }
    for i in 0..all.len()
        invariant
            texts(all@) == want,
            want == lines_of(output@),
            rows(want.take(i as int)) == Ok::<Seq<TrafficEntryView>, Seq<char>>(
                entries_view(entries@),
            ),
    {
        let ghost prior = entries@;
        let line: String = trim(all[i].as_str());
        proof {
            assert(want.take(i + 1).drop_last() == want.take(i as int));
            assert(want.take(i + 1).last() == all@[i as int]@);
        }
        let header: bool = i == 0 && starts_with(line.as_str(), "date");
        if !line.as_str().is_empty() && !header {
            let cols: Vec<String> = split_csv_line(line.as_str());
            proof {
                assert(texts(cols@).len() == cols@.len());
            }
            if cols.len() < 13 {
                let mut e: String = concat("CSV line ", u64_to_string(i as u64).as_str());
                e.push_str(": expected 13 columns, got ");
                e.push_str(u64_to_string(cols.len() as u64).as_str());
                e.push_str("; line: ");
                e.push_str(quoted(line.as_str()).as_str());
                proof {
                    lemma_rows_error(want, i + 1);
                }
                return Err(e);
            }
            let entry: TrafficEntry = read_row(&cols);
            entries.push(entry);
            proof {
                assert(entries_view(entries@) =~= entries_view(prior).push(entry@));
            }
        }
    }
    proof {
        assert(want.take(all@.len() as int) == want);
    }
    Ok(entries)
}

/// Whether a row is kept.
pub open spec fn is_kept(e: TrafficEntryView, args: TailTrafficArgs) -> bool {
    &&& args.process_name matches Some(p) ==> has_part(e.connecting_executable, p@)
    &&& args.remote_host matches Some(h) ==> has_part(e.ip_address, h@) || has_part(
        e.remote_hostname,
        h@,
    )
    &&& args.direction matches Some(d) ==> ascii_lower(e.direction) == ascii_lower(d@)
}

fn keeps(e: &TrafficEntry, args: &TailTrafficArgs) -> (r: bool)
    ensures
        r == is_kept(e@, *args),
{
    if let Some(p) = &args.process_name {
        if !e.connecting_executable.contains_ci(p.as_str()) {
            return false;
        }
    }
    if let Some(h) = &args.remote_host {
        let needle: String = to_ascii_lowercase(h.as_str());
        if !contains(to_ascii_lowercase(e.ip_address.as_str()).as_str(), needle.as_str())
            && !e.remote_hostname.contains_ci(h.as_str()) {
            return false;
        }
    }
    if let Some(d) = &args.direction {
        if !str_eq(
            to_ascii_lowercase(e.direction.as_str()).as_str(),
            to_ascii_lowercase(d.as_str()).as_str(),
        ) {
            return false;
        }
    }
    true
}

/// The rows that are kept, in their order.
pub open spec fn kept(all: Seq<TrafficEntryView>, args: TailTrafficArgs) -> Seq<TrafficEntryView>
    decreases all.len(),
{
    if all.len() == 0 {
        Seq::empty()
    } else {
        let before = kept(all.drop_last(), args);
        if is_kept(all.last(), args) {
            before.push(all.last())
        } else {
            before
        }
    }
}

/// The first rows, as many as are returned at most.
pub open spec fn capped(all: Seq<TrafficEntryView>) -> Seq<TrafficEntryView> {
    if all.len() > MAX_ROWS {
        all.take(MAX_ROWS as int)
    } else {
        all
    }
}

/// Picks the rows to return.
pub fn select(all: &Vec<TrafficEntry>, args: &TailTrafficArgs) -> (r: TailTrafficResult)
    ensures
        entries_view(r.entries@) == capped(kept(entries_view(all@), *args)),
        r.count == r.entries@.len(),
        r.filtered_count == all@.len(),
{
    let mut entries: Vec<TrafficEntry> = Vec::new();
    let ghost views = entries_view(all@);
    proof {
        assert(views.take(0) == Seq::<TrafficEntryView>::empty());
        assert(entries_view(entries@) =~= capped(kept(views.take(0), *args)));
    }
    for i in 0..all.len()
        invariant
            views == entries_view(all@),
            entries_view(entries@) == capped(kept(views.take(i as int), *args)),
    {
        let e: &TrafficEntry = &all[i];
        let ghost prior = entries@;
        let ghost k = kept(views.take(i as int), *args);
        proof {
            assert(views.take(i + 1).drop_last() == views.take(i as int));
            assert(views.take(i + 1).last() == e@);
            assert(entries_view(entries@).len() == entries@.len());
        }
        if keeps(e, args) {
            if entries.len() < MAX_ROWS {
                entries.push(e.copy());
                proof {
                    assert(entries_view(entries@) =~= entries_view(prior).push(e@));
                }
            } else {
                proof {
                    assert(k.len() >= MAX_ROWS);
                    assert(k.push(e@).take(MAX_ROWS as int) =~= k.take(MAX_ROWS as int));
                    assert(k.take(MAX_ROWS as int) =~= capped(k));
                }
            }
        }
    }
    proof {
        assert(views.take(views.len() as int) == views);
    }
    let count: usize = entries.len();
    TailTrafficResult { entries, count, filtered_count: all.len() }
}

/// The arguments of the command.
pub open spec fn command(args: TailTrafficArgs) -> Seq<Seq<char>> {
    let c = seq!["log-traffic"@];
    let c = match args.begin {
        Some(b) => c.push("-b"@).push(b@),
        None => c,
    };
    match args.end {
        Some(e) => c.push("-e"@).push(e@),
        None => c,
    }
}

/// The arguments of the command.
pub fn command_args(args: &TailTrafficArgs) -> (r: Vec<String>)
    ensures
        texts(r@) == command(*args),
{
    let mut out: Vec<String> = Vec::new();
    out.push("log-traffic".to_owned());
    if let Some(b) = &args.begin {
        out.push("-b".to_owned());
        out.push(b.clone());
    }
    if let Some(e) = &args.end {
        out.push("-e".to_owned());
        out.push(e.clone());
    }
    proof {
        assert(texts(out@) =~= command(*args));
    }
    out
}

/// Returns the rows that are wanted. `ran` is what became of running the command.
pub fn run(args: TailTrafficArgs, ran: CliRun) -> (r: Result<TailTrafficResult, String>)
    ensures
        match printed(ran, "littlesnitch log-traffic"@) {
            Err(e) => r is Err && r->Err_0@ == e,
            Ok(output) => match rows(lines_of(output)) {
                Err(e) => r is Err && r->Err_0@ == e,
                Ok(all) => r is Ok && entries_view(r->Ok_0.entries@) == capped(kept(all, args))
                    && r->Ok_0.count == r->Ok_0.entries@.len() && r->Ok_0.filtered_count
                    == all.len(),
            },
        },
{
    let output: String = match output_of(ran, "littlesnitch log-traffic") {
        Ok(s) => s,
        Err(e) => {
            return Err(e);
        },
    };
    match parse_csv(output.as_str()) {
        Ok(all) => Ok(select(&all, &args)),
        Err(e) => Err(e),
    }
}

/// A field in double quotes, its own double quotes doubled.
pub open spec fn quoted_field(f: Seq<char>) -> Seq<char> {
    seq!['"'] + doubled(f) + seq!['"']
}

/// A text with its double quotes doubled.
pub open spec fn doubled(f: Seq<char>) -> Seq<char>
    decreases f.len(),
{
    if f.len() == 0 {
        f
    } else if f.last() == '"' {
        doubled(f.drop_last()) + seq!['"', '"']
    } else {
        doubled(f.drop_last()).push(f.last())
    }
}

/// Fields in double quotes with commas between them.
pub open spec fn csv_text(fields: Seq<Seq<char>>) -> Seq<char>
    decreases fields.len(),
{
    if fields.len() == 0 {
        Seq::empty()
    } else if fields.len() == 1 {
        quoted_field(fields[0])
    } else {
        quoted_field(fields[0]) + seq![','] + csv_text(fields.drop_first())
    }
}

proof fn lemma_csv_doubled(f: Seq<char>, rest: Seq<char>, cur: Seq<char>)
    requires
        rest.len() == 0 || rest[0] != '"',
    ensures
        csv_fields(doubled(f) + seq!['"'] + rest, cur, true) == csv_fields(rest, cur + f, false),
    decreases f.len(),
{
    let tail = seq!['"'] + rest;
    if f.len() == 0 {
        let s = doubled(f) + seq!['"'] + rest;
        assert(s =~= tail);
        assert(s.drop_first() =~= rest);
        assert(cur + f =~= cur);
    } else {
        lemma_csv_inner(f, tail, cur);
        assert(doubled(f) + seq!['"'] + rest =~= doubled(f) + tail);
        assert(tail.drop_first() =~= rest);
    }
}

proof fn lemma_csv_inner(f: Seq<char>, tail: Seq<char>, cur: Seq<char>)
    requires
        tail.len() > 0,
        tail[0] == '"',
        tail.len() > 1 ==> tail[1] != '"',
    ensures
        csv_fields(doubled(f) + tail, cur, true) == csv_fields(tail, cur + f, true),
    decreases f.len(),
{
    if f.len() == 0 {
        assert(doubled(f) + tail =~= tail);
        assert(cur + f =~= cur);
    } else {
        let x = f[0];
        let g = f.drop_first();
        lemma_doubled_first(f);
        let s = doubled(f) + tail;
        if x == '"' {
            assert(s =~= seq!['"', '"'] + (doubled(g) + tail));
            assert(s.skip(2) =~= doubled(g) + tail);
            lemma_csv_inner(g, tail, cur.push('"'));
            assert(cur.push('"') + g =~= cur + f);
        } else {
            assert(s =~= seq![x] + (doubled(g) + tail));
            assert(s.drop_first() =~= doubled(g) + tail);
            lemma_csv_inner(g, tail, cur.push(x));
            assert(cur.push(x) + g =~= cur + f);
        }
    }
}

proof fn lemma_doubled_first(f: Seq<char>)
    requires
        f.len() > 0,
    ensures
        doubled(f) == (if f[0] == '"' {
            seq!['"', '"']
        } else {
            seq![f[0]]
        }) + doubled(f.drop_first()),
    decreases f.len(),
{
    if f.len() == 1 {
        assert(f.drop_last() =~= Seq::empty());
        assert(f.drop_first() =~= Seq::empty());
        assert(doubled(f) =~= (if f[0] == '"' {
            seq!['"', '"']
        } else {
            seq![f[0]]
        }) + doubled(f.drop_first()));
    } else {
        let b = f.drop_last();
        lemma_doubled_first(b);
        assert(b.drop_first() =~= f.drop_first().drop_last());
        assert(f.drop_first().last() == f.last());
        assert(doubled(f) =~= (if f[0] == '"' {
            seq!['"', '"']
        } else {
            seq![f[0]]
        }) + doubled(f.drop_first()));
    }
}

/// Fields that are written in double quotes are read back as they were, whatever
/// they hold.
pub proof fn law_csv_round_trip(fields: Seq<Seq<char>>)
    requires
        fields.len() > 0,
    ensures
        csv_line(csv_text(fields)) == fields,
    decreases fields.len(),
{
    let f = fields[0];
    let s = csv_text(fields);
    let e = Seq::<char>::empty();
    if fields.len() == 1 {
        assert(s.drop_first() =~= doubled(f) + seq!['"'] + e);
        lemma_csv_doubled(f, e, e);
        assert(e + f =~= f);
        assert(csv_line(s) =~= fields);
    } else {
        let more = csv_text(fields.drop_first());
        let rest = seq![','] + more;
        assert(s.drop_first() =~= doubled(f) + seq!['"'] + rest);
        lemma_csv_doubled(f, rest, e);
        assert(e + f =~= f);
        assert(rest.drop_first() =~= more);
        law_csv_round_trip(fields.drop_first());
        assert(csv_line(s) =~= seq![f] + csv_line(more));
        assert(seq![f] + fields.drop_first() =~= fields);
    }
}

/// Every row that is returned was there and is one that is wanted.
pub proof fn law_kept(all: Seq<TrafficEntryView>, args: TailTrafficArgs)
    ensures
        kept(all, args).len() <= all.len(),
        capped(kept(all, args)).len() <= MAX_ROWS,
        forall|i: int|
            0 <= i < kept(all, args).len() ==> is_kept(#[trigger] kept(all, args)[i], args)
                && all.contains(kept(all, args)[i]),
    decreases all.len(),
{
    if all.len() > 0 {
        let before = all.drop_last();
        law_kept(before, args);
        let now = kept(all, args);
        assert forall|i: int| 0 <= i < now.len() implies is_kept(#[trigger] now[i], args)
            && all.contains(now[i]) by {
            if i < kept(before, args).len() {
                let v = kept(before, args)[i];
                assert(now[i] == v);
                assert(before.contains(v));
                let j = choose|j: int| 0 <= j < before.len() && before[j] == v;
                assert(all[j] == v);
            } else {
                assert(all[all.len() - 1] == now[i]);
            }
        }
    }
}

/// Whether a text is part of another, in letters of either case: before it and behind it
/// something may stand.
pub open spec fn is_part(hay: Seq<char>, needle: Seq<char>) -> bool {
    exists|before: Seq<char>, behind: Seq<char>|
        ascii_lower(hay) == #[trigger] ((before + ascii_lower(needle)) + behind)
}

proof fn lemma_is_part(hay: Seq<char>, needle: Seq<char>)
    ensures
        has_part(hay, needle) <==> is_part(hay, needle),
{
    let (h, n) = (ascii_lower(hay), ascii_lower(needle));
    if has_part(hay, needle) {
        let at = choose|at: int| stands_at(h, n, at);
        let (before, behind) = (h.take(at), h.skip(at + n.len()));
        assert(h.subrange(at, at + n.len()) == n);
        assert(h =~= (before + n) + behind);
    }
    if is_part(hay, needle) {
        let (before, behind) = choose|before: Seq<char>, behind: Seq<char>|
            h == #[trigger] ((before + n) + behind);
        assert(h.subrange(before.len() as int, (before.len() + n.len()) as int) =~= n);
        assert(stands_at(h, n, before.len() as int));
    }
}

/// Whether a text has the same letters as another, of whichever case.
pub open spec fn same_letters(a: Seq<char>, b: Seq<char>) -> bool {
    a.len() == b.len() && forall|i: int|
        0 <= i < a.len() ==> ascii_lower_char(#[trigger] a[i]) == ascii_lower_char(b[i])
}

/// A row is kept if and only if it meets each of the filters that are given: the process is
/// part of its executable, the remote is part of its address or of its host, and its direction
/// is the one that is wanted.
pub proof fn law_which_rows_are_kept(e: TrafficEntryView, args: TailTrafficArgs)
    ensures
        is_kept(e, args) <==> {
            &&& args.process_name is None || is_part(
                e.connecting_executable,
                args.process_name->0@,
            )
            &&& args.remote_host is None || is_part(e.ip_address, args.remote_host->0@) || is_part(
                e.remote_hostname,
                args.remote_host->0@,
            )
            &&& args.direction is None || same_letters(e.direction, args.direction->0@)
        },
{
    if args.process_name is Some {
        lemma_is_part(e.connecting_executable, args.process_name->0@);
    }
    if args.remote_host is Some {
        lemma_is_part(e.ip_address, args.remote_host->0@);
        lemma_is_part(e.remote_hostname, args.remote_host->0@);
    }
    if args.direction is Some {
        let (a, b) = (e.direction, args.direction->0@);
        if ascii_lower(a) == ascii_lower(b) {
            assert(ascii_lower(a).len() == ascii_lower(b).len());
            assert forall|i: int| 0 <= i < a.len() implies ascii_lower_char(#[trigger] a[i])
                == ascii_lower_char(b[i]) by {
                assert(ascii_lower(a)[i] == ascii_lower(b)[i]);
            }
        }
        if same_letters(a, b) {
            assert(ascii_lower(a) =~= ascii_lower(b));
        }
    }
}

/// A row that is asked for by its own address, host, executable or direction is kept: each
/// filter by itself keeps every row that it was taken from.
pub proof fn law_a_row_is_kept_by_what_it_says(e: TrafficEntryView, args: TailTrafficArgs)
    requires
        args.process_name is Some ==> args.process_name->0@ == e.connecting_executable,
        args.remote_host is Some ==> args.remote_host->0@ == e.ip_address
            || args.remote_host->0@ == e.remote_hostname,
        args.direction is Some ==> args.direction->0@ == e.direction,
    ensures
        is_kept(e, args),
{
    law_which_rows_are_kept(e, args);
    lemma_whole_is_part(e.connecting_executable);
    lemma_whole_is_part(e.ip_address);
    lemma_whole_is_part(e.remote_hostname);
}

proof fn lemma_whole_is_part(s: Seq<char>)
    ensures
        is_part(s, s),
{
    let e = Seq::<char>::empty();
    assert(ascii_lower(s) =~= (e + ascii_lower(s)) + e);
}

/// Filtering looks at each row by itself: the rows that are kept of two lists, one behind the
/// other, are those of the one and behind them those of the other.
pub proof fn law_kept_row_by_row(
    a: Seq<TrafficEntryView>,
    b: Seq<TrafficEntryView>,
    args: TailTrafficArgs,
)
    ensures
        kept(a + b, args) == kept(a, args) + kept(b, args),
    decreases b.len(),
{
    if b.len() == 0 {
        assert(a + b =~= a);
        assert(kept(a, args) + kept(b, args) =~= kept(a, args));
    } else {
        law_kept_row_by_row(a, b.drop_last(), args);
        assert((a + b).drop_last() =~= a + b.drop_last());
        assert((a + b).last() == b.last());
        assert(kept(a + b, args) =~= kept(a, args) + kept(b, args));
    }
}

/// A row by itself is either kept as it is or left out.
pub proof fn law_kept_one_row(e: TrafficEntryView, args: TailTrafficArgs)
    ensures
        is_kept(e, args) ==> kept(seq![e], args) == seq![e],
        !is_kept(e, args) ==> kept(seq![e], args).len() == 0,
{
    reveal_with_fuel(kept, 2);
    assert(seq![e].drop_last() =~= Seq::empty());
    assert(is_kept(e, args) ==> kept(seq![e], args) =~= seq![e]);
}

/// Every row that is wanted is returned, as long as there are no more than can be returned: no
/// row of the output whose address or host the remote is part of is missing.
pub proof fn law_wanted_rows_are_returned(
    all: Seq<TrafficEntryView>,
    args: TailTrafficArgs,
    i: int,
)
    requires
        0 <= i < all.len(),
        args.process_name is None || is_part(
            all[i].connecting_executable,
            args.process_name->0@,
        ),
        args.remote_host is None || is_part(all[i].ip_address, args.remote_host->0@) || is_part(
            all[i].remote_hostname,
            args.remote_host->0@,
        ),
        args.direction is None || same_letters(all[i].direction, args.direction->0@),
    ensures
        kept(all, args).contains(all[i]),
        kept(all, args).len() <= MAX_ROWS ==> capped(kept(all, args)).contains(all[i]),
        all.len() <= MAX_ROWS ==> capped(kept(all, args)).contains(all[i]),
{
    let e = all[i];
    law_which_rows_are_kept(e, args);
    law_kept_one_row(e, args);
    let (a, b) = (all.take(i), all.skip(i + 1));
    law_kept_row_by_row(a, seq![e], args);
    law_kept_row_by_row(a + seq![e], b, args);
    assert((a + seq![e]) + b =~= all);
    let k = kept(a, args).len() as int;
    assert(kept(all, args)[k] == e);
    law_kept(all, args);
}

/// Without filters every row is returned, the first ones where there are too many.
pub proof fn law_no_filter_keeps_all(all: Seq<TrafficEntryView>, args: TailTrafficArgs)
    requires
        args.process_name is None,
        args.remote_host is None,
        args.direction is None,
    ensures
        kept(all, args) == all,
        all.len() <= MAX_ROWS ==> capped(kept(all, args)) == all,
        all.len() > MAX_ROWS ==> capped(kept(all, args)) == all.take(MAX_ROWS as int),
    decreases all.len(),
{
    if all.len() > 0 {
        law_no_filter_keeps_all(all.drop_last(), args);
        assert(kept(all, args) =~= all);
    } else {
        assert(kept(all, args) =~= all);
    }
}

proof fn lemma_csv_text_ends(fields: Seq<Seq<char>>)
    requires
        fields.len() > 0,
    ensures
        csv_text(fields).len() >= 2,
        csv_text(fields)[0] == '"',
        csv_text(fields).last() == '"',
    decreases fields.len(),
{
    if fields.len() > 1 {
        lemma_csv_text_ends(fields.drop_first());
    }
}

/// A row that is written as a line of fields in double quotes is read with each field in its
/// place: the texts as they are, and the numbers as what they are.
pub proof fn law_rows_are_read_as_written(
    fields: Seq<Seq<char>>,
    protocol_number: nat,
    port: nat,
    connects: nat,
    denies: nat,
    bytes_in: nat,
    bytes_out: nat,
)
    requires
        fields.len() == 13,
        protocol_number <= u32::MAX,
        port <= u16::MAX,
        connects <= u64::MAX,
        denies <= u64::MAX,
        bytes_in <= u64::MAX,
        bytes_out <= u64::MAX,
        fields[5] == decimal(protocol_number),
        fields[6] == decimal(port),
        fields[7] == decimal(connects),
        fields[8] == decimal(denies),
        fields[9] == decimal(bytes_in),
        fields[10] == decimal(bytes_out),
    ensures
        rows(seq![csv_text(fields)]) is Ok,
        rows(seq![csv_text(fields)])->Ok_0.len() == 1,
        ({
            let e = rows(seq![csv_text(fields)])->Ok_0[0];
            &&& e.date == fields[0]
            &&& e.direction == fields[1]
            &&& e.uid == fields[2]
            &&& e.ip_address == fields[3]
            &&& e.remote_hostname == fields[4]
            &&& protocol_number == 6 ==> e.protocol == "tcp"@
            &&& protocol_number == 17 ==> e.protocol == "udp"@
            &&& protocol_number == 1 ==> e.protocol == "icmp"@
            &&& protocol_number != 6 && protocol_number != 17 && protocol_number != 1
                ==> e.protocol == fields[5]
            &&& e.port == port
            &&& e.connect_count == connects
            &&& e.deny_count == denies
            &&& e.byte_count_in == bytes_in
            &&& e.byte_count_out == bytes_out
            &&& e.connecting_executable == fields[11]
            &&& e.parent_app_executable == fields[12]
        }),
{
    let line = csv_text(fields);
    let all = seq![line];
    lemma_csv_text_ends(fields);
    law_csv_round_trip(fields);
    assert(trimmed(line) == line);
    assert(!is_skipped(line, 0)) by {
        reveal_strlit("date");
        if begins_with(line, "date"@) {
            assert(line.take(4)[0] == line[0]);
            assert("date"@[0] == 'd');
        }
    }
    reveal_with_fuel(rows, 2);
    assert(all.drop_last() =~= Seq::empty());
    assert(all.last() == line);
    lemma_parse_decimal(protocol_number, u32::MAX as nat);
    lemma_parse_decimal(port, u16::MAX as nat);
    lemma_parse_decimal(connects, u64::MAX as nat);
    lemma_parse_decimal(denies, u64::MAX as nat);
    lemma_parse_decimal(bytes_in, u64::MAX as nat);
    lemma_parse_decimal(bytes_out, u64::MAX as nat);
}

/// Every line counts: a line behind others adds its row to theirs, unless it is blank.
pub proof fn law_rows_line_by_line(all: Seq<Seq<char>>, line: Seq<char>)
    requires
        rows(all) is Ok,
        all.len() > 0,
    ensures
        trimmed(line).len() == 0 ==> rows(all.push(line)) == rows(all),
        trimmed(line).len() > 0 && csv_line(trimmed(line)).len() >= 13 ==> rows(all.push(line)) == Ok::<
            Seq<TrafficEntryView>,
            Seq<char>,
        >(rows(all)->Ok_0.push(row(csv_line(trimmed(line))))),
        trimmed(line).len() > 0 && csv_line(trimmed(line)).len() < 13 ==> rows(all.push(line))
            is Err,
{
    assert(all.push(line).drop_last() =~= all);
}

/// The first line is left out if it names the columns.
pub proof fn law_the_header_is_left_out(line: Seq<char>)
    requires
        begins_with(trimmed(line), "date"@),
    ensures
        rows(seq![line]) == Ok::<Seq<TrafficEntryView>, Seq<char>>(Seq::empty()),
{
    reveal_with_fuel(rows, 2);
    assert(seq![line].drop_last() =~= Seq::empty());
    assert(seq![line].last() == line);
}

proof fn lemma_csv_plain(f: Seq<char>, rest: Seq<char>, cur: Seq<char>)
    requires
        !f.contains('"'),
        !f.contains(','),
    ensures
        csv_fields(f + rest, cur, false) == csv_fields(rest, cur + f, false),
    decreases f.len(),
{
    if f.len() == 0 {
        assert(f + rest =~= rest);
        assert(cur + f =~= cur);
    } else {
        let g = f.drop_first();
        assert(f[0] != '"' && f[0] != ',');
        assert forall|c: char| g.contains(c) implies f.contains(c) by {
            let i = choose|i: int| 0 <= i < g.len() && g[i] == c;
            assert(f[i + 1] == c);
        }
        assert((f + rest)[0] == f[0]);
        assert((f + rest).drop_first() =~= g + rest);
        lemma_csv_plain(g, rest, cur.push(f[0]));
        assert(cur.push(f[0]) + g =~= cur + f);
    }
}

/// Fields without commas and double quotes are read as they stand, with commas between them.
pub proof fn law_plain_fields_are_read(fields: Seq<Seq<char>>)
    requires
        fields.len() > 0,
        forall|i: int|
            0 <= i < fields.len() ==> !(#[trigger] fields[i]).contains('"')
                && !fields[i].contains(','),
    ensures
        csv_line(with_commas(fields)) == fields,
    decreases fields.len(),
{
    let f = fields[0];
    let e = Seq::<char>::empty();
    if fields.len() == 1 {
        lemma_csv_plain(f, e, e);
        assert(f + e =~= f);
        assert(e + f =~= f);
        assert(csv_line(with_commas(fields)) =~= fields);
    } else {
        let less = fields.drop_first();
        assert forall|i: int| 0 <= i < less.len() implies !(#[trigger] less[i]).contains('"')
            && !less[i].contains(',') by {
            assert(less[i] == fields[i + 1]);
        }
        law_plain_fields_are_read(less);
        let rest = seq![','] + with_commas(less);
        lemma_csv_plain(f, rest, e);
        assert(with_commas(fields) =~= f + rest);
        assert(e + f =~= f);
        assert(rest.drop_first() =~= with_commas(less));
        assert(csv_line(with_commas(fields)) =~= seq![f] + csv_line(with_commas(less)));
        assert(seq![f] + less =~= fields);
    }
}

/// Fields with commas between them.
pub open spec fn with_commas(fields: Seq<Seq<char>>) -> Seq<char>
    decreases fields.len(),
{
    if fields.len() == 0 {
        Seq::empty()
    } else if fields.len() == 1 {
        fields[0]
    } else {
        fields[0] + seq![','] + with_commas(fields.drop_first())
    }
}

/// The command asks for the time that was asked for: from where it begins behind `-b`, to where
/// it ends behind `-e`.
pub proof fn law_command_says_which_time(args: TailTrafficArgs)
    ensures
        ({
            let c = command(args);
            let from: int = if args.begin is Some {
                2
            } else {
                0
            };
            let to: int = if args.end is Some {
                2
            } else {
                0
            };
            &&& c[0] == "log-traffic"@
            &&& c.len() == 1 + from + to
            &&& args.begin matches Some(b) ==> c[1] == "-b"@ && c[2] == b@
            &&& args.end matches Some(e) ==> c[1 + from] == "-e"@ && c[2 + from] == e@
        }),
{
}

} // verus!
