//! Strings as sequences of characters: the small operations on text that the
//! tools are written with, each stated over `Seq<char>`.

use vstd::prelude::*;
use vstd::arithmetic::power::pow;

verus! {

// ---------------------------------------------------------------------------
// Standard-library functions that vstd leaves without a specification.
// ---------------------------------------------------------------------------

/// `String::push` appends the given character to the end of the string.
pub assume_specification[ String::push ](s: &mut String, c: char)
    ensures
        final(s)@ == old(s)@.push(c),
;

/// `String::push_str` appends the given string slice to the end of the string.
pub assume_specification[ String::push_str ](s: &mut String, t: &str)
    ensures
        final(s)@ == old(s)@ + t@,
;

/// What the `Debug` form of a string slice reads: the text in double quotes,
/// with the escapes of `char::escape_debug`.
pub uninterp spec fn debug_form(s: Seq<char>) -> Seq<char>;

/// The `Debug` implementation of `str`, as `format!("{:?}", ..)` prints it. The
/// result depends on the characters alone.
#[verifier::external_body]
pub(crate) fn quoted(s: &str) -> (r: String)
    ensures
        r@ == debug_form(s@),
{
    format!("{:?}", s)
}

// ---------------------------------------------------------------------------
// White space.
// ---------------------------------------------------------------------------

/// Whether a character has the Unicode property `White_Space`.
pub open spec fn is_whitespace(c: char) -> bool {
    let n = c as u32;
    ||| 0x9 <= n <= 0xd
    ||| n == 0x20
    ||| n == 0x85
    ||| n == 0xa0
    ||| n == 0x1680
    ||| 0x2000 <= n <= 0x200a
    ||| n == 0x2028
    ||| n == 0x2029
    ||| n == 0x202f
    ||| n == 0x205f
    ||| n == 0x3000
}

/// Whether a character has the Unicode property `White_Space`.
pub fn char_is_whitespace(c: char) -> (r: bool)
    ensures
        r == is_whitespace(c),
{
    let n: u32 = c as u32;
    (0x9 <= n && n <= 0xd) || n == 0x20 || n == 0x85 || n == 0xa0 || n == 0x1680 || (0x2000 <= n
        && n <= 0x200a) || n == 0x2028 || n == 0x2029 || n == 0x202f || n == 0x205f || n == 0x3000
}

// ---------------------------------------------------------------------------
// Comparison.
// ---------------------------------------------------------------------------

/// Whether two string slices hold the same characters.
pub fn str_eq(a: &str, b: &str) -> (r: bool)
    ensures
        r == (a@ == b@),
{
    a.to_owned() == b.to_owned()
}

/// Whether `o` holds exactly the text `s`.
pub fn opt_is(o: &Option<String>, s: &str) -> (r: bool)
    ensures
        r == (opt_text(*o) == Some(s@)),
{
    match o {
        Some(t) => str_eq(t.as_str(), s),
        None => false,
    }
}

/// An optional string as an optional sequence of characters.
pub open spec fn opt_text(o: Option<String>) -> Option<Seq<char>> {
    match o {
        Some(s) => Some(s@),
        None => None,
    }
}

/// A vector of strings as a sequence of sequences of characters.
pub open spec fn texts(v: Seq<String>) -> Seq<Seq<char>> {
    Seq::new(v.len(), |i: int| v[i]@)
}

/// A copy of an optional string.
pub fn copy_opt(o: &Option<String>) -> (r: Option<String>)
    ensures
        r == *o,
{
    match o {
        Some(s) => Some(s.clone()),
        None => None,
    }
}

/// A copy of a vector of strings.
pub fn copy_strings(v: &Vec<String>) -> (r: Vec<String>)
    ensures
        r@ == v@,
{
    let mut out: Vec<String> = Vec::new();
    for i in 0..v.len()
        invariant
            out@ == v@.take(i as int),
    {
        out.push(v[i].clone());
    }
    out
}

/// Whether `a` comes no later than `b` in the order of `str`: character by
/// character, a prefix before the longer text.
pub open spec fn text_le(a: Seq<char>, b: Seq<char>) -> bool
    decreases a.len(),
{
    if a.len() == 0 {
        true
    } else if b.len() == 0 {
        false
    } else if a[0] == b[0] {
        text_le(a.drop_first(), b.drop_first())
    } else {
        a[0] < b[0]
    }
}

/// The order of texts is total.
pub proof fn lemma_text_le_total(a: Seq<char>, b: Seq<char>)
    ensures
        text_le(a, b) || text_le(b, a),
    decreases a.len(),
{
    if a.len() > 0 && b.len() > 0 && a[0] == b[0] {
        lemma_text_le_total(a.drop_first(), b.drop_first());
    }
}

/// The order of texts is transitive.
pub proof fn lemma_text_le_trans(a: Seq<char>, b: Seq<char>, c: Seq<char>)
    requires
        text_le(a, b),
        text_le(b, c),
    ensures
        text_le(a, c),
    decreases a.len(),
{
    if a.len() > 0 && b.len() > 0 && c.len() > 0 && a[0] == b[0] && b[0] == c[0] {
        lemma_text_le_trans(a.drop_first(), b.drop_first(), c.drop_first());
    }
}

/// The order of texts is antisymmetric.
pub proof fn lemma_text_le_antisymmetric(a: Seq<char>, b: Seq<char>)
    requires
        text_le(a, b),
        text_le(b, a),
    ensures
        a == b,
    decreases a.len(),
{
    if a.len() > 0 && b.len() > 0 && a[0] == b[0] {
        lemma_text_le_antisymmetric(a.drop_first(), b.drop_first());
        assert(a == seq![a[0]] + a.drop_first());
        assert(b == seq![b[0]] + b.drop_first());
    } else {
        assert(a =~= b);
    }
}

/// Where two texts of the same length are followed by others, the order of those
/// counts only if the first two are the same.
pub proof fn lemma_text_le_concat(a: Seq<char>, b: Seq<char>, x: Seq<char>, y: Seq<char>)
    requires
        a.len() == b.len(),
        text_le(a, b),
        a == b ==> text_le(x, y),
    ensures
        text_le(a + x, b + y),
    decreases a.len(),
{
    if a.len() == 0 {
        assert(a == b);
        assert(a + x == x);
        assert(b + y == y);
    } else if a[0] == b[0] {
        let (c, d) = (a.drop_first(), b.drop_first());
        if c == d {
            assert(a == seq![a[0]] + c);
            assert(b == seq![b[0]] + d);
        }
        lemma_text_le_concat(c, d, x, y);
        assert((a + x).drop_first() == c + x);
        assert((b + y).drop_first() == d + y);
    } else {
        assert((a + x)[0] == a[0] && (b + y)[0] == b[0]);
    }
}

/// Whether `a` comes no later than `b` in the order of `str`.
pub fn str_le(a: &str, b: &str) -> (r: bool)
    ensures
        r == text_le(a@, b@),
{
    let x: Vec<char> = chars_of(a);
    let y: Vec<char> = chars_of(b);
    let mut i: usize = 0;
    proof {
        assert(x@.skip(0) == a@);
        assert(y@.skip(0) == b@);
    }
    while i < x.len() && i < y.len()
        invariant
            i <= x.len(),
            i <= y.len(),
            x@ == a@,
            y@ == b@,
            text_le(a@, b@) == text_le(x@.skip(i as int), y@.skip(i as int)),
        decreases x.len() - i,
    {
        let (p, q): (char, char) = (x[i], y[i]);
        if p != q {
            return p < q;
        }
        proof {
            assert(x@.skip(i as int).drop_first() == x@.skip(i + 1));
            assert(y@.skip(i as int).drop_first() == y@.skip(i + 1));
        }
        i = i + 1;
    }
    i >= x.len()
}

// ---------------------------------------------------------------------------
// Characters.
// ---------------------------------------------------------------------------

/// The characters of a string slice.
pub fn chars_of(s: &str) -> (r: Vec<char>)
    ensures
        r@ == s@,
{
    let mut out: Vec<char> = Vec::new();
    for c in it: s.chars()
        invariant
            it.seq() == s@,
            out@ == s@.take(it.index() as int),
    {
        out.push(c);
    }
    out
}

/// The string made of the characters `v[from..to]`.
pub fn string_of(v: &Vec<char>, from: usize, to: usize) -> (r: String)
    requires
        from <= to <= v.len(),
    ensures
        r@ == v@.subrange(from as int, to as int),
{
    let mut out: String = String::new();
    let mut i: usize = from;
    while i < to
        invariant
            from <= i <= to <= v.len(),
            out@ == v@.subrange(from as int, i as int),
        decreases to - i,
    {
        out.push(v[i]);
        proof {
            assert(v@.subrange(from as int, i as int).push(v@[i as int]) == v@.subrange(
                from as int,
                i + 1,
            ));
        }
        i = i + 1;
    }
    out
}

/// The two texts one after the other.
pub fn concat(a: &str, b: &str) -> (r: String)
    ensures
        r@ == a@ + b@,
{
    let mut out: String = a.to_owned();
    out.push_str(b);
    out
}

/// Whether the character `c` occurs in `s`.
pub fn contains_char(s: &str, c: char) -> (r: bool)
    ensures
        r == s@.contains(c),
{
    let v: Vec<char> = chars_of(s);
    for i in 0..v.len()
        invariant
            v@ == s@,
            forall|j: int| 0 <= j < i ==> v@[j] != c,
    {
        if v[i] == c {
            return true;
        }
    }
    false
}

/// Whether `s` begins with `prefix`.
pub open spec fn begins_with(s: Seq<char>, prefix: Seq<char>) -> bool {
    prefix.len() <= s.len() && s.take(prefix.len() as int) == prefix
}

/// Whether `s` ends with `suffix`.
pub open spec fn ends_in(s: Seq<char>, suffix: Seq<char>) -> bool {
    suffix.len() <= s.len() && s.skip(s.len() - suffix.len()) == suffix
}

/// Whether `needle` stands at position `at` of `hay`.
pub open spec fn stands_at(hay: Seq<char>, needle: Seq<char>, at: int) -> bool {
    0 <= at && at + needle.len() <= hay.len() && hay.subrange(at, at + needle.len()) == needle
}

/// Whether `needle` occurs somewhere in `hay`.
pub open spec fn occurs_in(hay: Seq<char>, needle: Seq<char>) -> bool {
    exists|at: int| stands_at(hay, needle, at)
}

fn chars_at(hay: &Vec<char>, needle: &Vec<char>, at: usize) -> (r: bool)
    requires
        at + needle.len() <= hay.len(),
    ensures
        r == stands_at(hay@, needle@, at as int),
{
    for i in 0..needle.len()
        invariant
            at + needle.len() <= hay.len(),
            forall|j: int| 0 <= j < i ==> hay@[at + j] == needle@[j],
    {
        if hay[at + i] != needle[i] {
            proof {
                assert(hay@.subrange(at as int, at + needle@.len())[i as int] != needle@[i as int]);
            }
            return false;
        }
    }
    proof {
        assert(hay@.subrange(at as int, at + needle@.len()) =~= needle@);
    }
    true
}

/// Whether `s` begins with `prefix`.
pub fn starts_with(s: &str, prefix: &str) -> (r: bool)
    ensures
        r == begins_with(s@, prefix@),
{
    let hay: Vec<char> = chars_of(s);
    let needle: Vec<char> = chars_of(prefix);
    if needle.len() > hay.len() {
        return false;
    }
    proof {
        assert(hay@.subrange(0, needle@.len() as int) == hay@.take(needle@.len() as int));
    }
    chars_at(&hay, &needle, 0)
}

/// Whether `s` ends with `suffix`.
pub fn ends_with(s: &str, suffix: &str) -> (r: bool)
    ensures
        r == ends_in(s@, suffix@),
{
    let hay: Vec<char> = chars_of(s);
    let needle: Vec<char> = chars_of(suffix);
    if needle.len() > hay.len() {
        return false;
    }
    let at: usize = hay.len() - needle.len();
    proof {
        assert(hay@.subrange(at as int, at + needle@.len()) == hay@.skip(at as int));
    }
    chars_at(&hay, &needle, at)
}

/// The first position at which `needle` stands in `hay`, from `start` on.
pub fn find_from(hay: &Vec<char>, needle: &Vec<char>, start: usize) -> (r: Option<usize>)
    ensures
        match r {
            Some(at) => start <= at && stands_at(hay@, needle@, at as int) && (forall|j: int|
                start <= j < at ==> !stands_at(hay@, needle@, j)),
            None => forall|j: int| start <= j ==> !stands_at(hay@, needle@, j),
        },
{
    let mut at: usize = start;
    while at <= hay.len() && needle.len() <= hay.len() - at
        invariant
            start <= at,
            at <= hay.len() + 1 || at == start,
            forall|j: int| start <= j < at ==> !stands_at(hay@, needle@, j),
        decreases hay.len() + 1 - at,
    {
        if chars_at(hay, needle, at) {
            return Some(at);
        }
        if at == hay.len() {
            return None;
        }
        at = at + 1;
    }
    None
}

/// Whether `needle` occurs somewhere in `s`.
pub fn contains(s: &str, needle: &str) -> (r: bool)
    ensures
        r == occurs_in(s@, needle@),
{
    let hay: Vec<char> = chars_of(s);
    let pat: Vec<char> = chars_of(needle);
    match find_from(&hay, &pat, 0) {
        Some(at) => {
            proof {
                assert(stands_at(s@, needle@, at as int));
            }
            true
        },
        None => false,
    }
}

// ---------------------------------------------------------------------------
// ASCII case.
// ---------------------------------------------------------------------------

/// The character with an ASCII capital letter made small.
pub open spec fn ascii_lower_char(c: char) -> char {
    if 'A' <= c <= 'Z' {
        ((c as u8) + 32) as u8 as char
    } else {
        c
    }
}

/// The text with every ASCII capital letter made small.
pub open spec fn ascii_lower(s: Seq<char>) -> Seq<char> {
    Seq::new(s.len(), |i: int| ascii_lower_char(s[i]))
}

/// The text with every ASCII capital letter made small.
pub fn to_ascii_lowercase(s: &str) -> (r: String)
    ensures
        r@ == ascii_lower(s@),
{
    let v: Vec<char> = chars_of(s);
    let mut out: String = String::new();
    for i in 0..v.len()
        invariant
            v@ == s@,
            out@ == ascii_lower(s@.take(i as int)),
    {
        let c: char = v[i];
        let d: char = if 'A' <= c && c <= 'Z' {
            ((c as u8) + 32) as char
        } else {
            c
        };
        out.push(d);
        proof {
            assert(s@.take(i + 1) == s@.take(i as int).push(c));
            assert(ascii_lower(s@.take(i + 1)) == ascii_lower(s@.take(i as int)).push(d));
        }
    }
    proof {
        assert(s@.take(v@.len() as int) == s@);
    }
    out
}

// ---------------------------------------------------------------------------
// Cutting.
// ---------------------------------------------------------------------------

/// The pieces of `s` between the occurrences of `sep`: one more than there are
/// occurrences.
pub open spec fn split_on(s: Seq<char>, sep: char) -> Seq<Seq<char>>
    decreases s.len(),
{
    if s.len() == 0 {
        seq![Seq::empty()]
    } else {
        let before = split_on(s.drop_last(), sep);
        if s.last() == sep {
            before.push(Seq::empty())
        } else {
            before.drop_last().push(before.last().push(s.last()))
        }
    }
}

/// There is always at least one piece.
pub proof fn lemma_split_on_nonempty(s: Seq<char>, sep: char)
    ensures
        split_on(s, sep).len() >= 1,
    decreases s.len(),
{
    if s.len() > 0 {
        lemma_split_on_nonempty(s.drop_last(), sep);
    }
}

/// The pieces of `s` between the occurrences of `sep`.
pub fn split(s: &str, sep: char) -> (r: Vec<String>)
    ensures
        texts(r@) == split_on(s@, sep),
{
    let v: Vec<char> = chars_of(s);
    let mut done: Vec<String> = Vec::new();
    let mut cur: String = String::new();
    proof {
        assert(texts(done@).push(cur@) == split_on(s@.take(0), sep));
    }
    for i in 0..v.len()
        invariant
            v@ == s@,
            texts(done@).push(cur@) == split_on(s@.take(i as int), sep),
    {
        let c: char = v[i];
        let ghost before = texts(done@).push(cur@);
        let ghost done0 = done@;
        proof {
            assert(s@.take(i + 1).drop_last() == s@.take(i as int));
            assert(s@.take(i + 1).last() == c);
            assert(before.drop_last() == texts(done0));
            assert(before.last() == cur@);
        }
        if c == sep {
            done.push(cur);
            cur = String::new();
            proof {
                assert(texts(done@) == before);
            }
        } else {
            cur.push(c);
        }
    }
    done.push(cur);
    proof {
        assert(s@.take(v@.len() as int) == s@);
        assert(texts(done@) == split_on(s@, sep));
    }
    done
}

/// Text without the separator, put behind another text, lengthens its last piece.
pub proof fn lemma_split_on_append(s: Seq<char>, t: Seq<char>, sep: char)
    requires
        !t.contains(sep),
    ensures
        split_on(s + t, sep) == split_on(s, sep).drop_last().push(split_on(s, sep).last() + t),
    decreases t.len(),
{
    lemma_split_on_nonempty(s, sep);
    if t.len() == 0 {
        assert(s + t == s);
        assert(split_on(s, sep).last() + t == split_on(s, sep).last());
        assert(split_on(s, sep) == split_on(s, sep).drop_last().push(split_on(s, sep).last()));
    } else {
        let u = t.drop_last();
        assert(t.contains(t.last()));
        assert(!u.contains(sep)) by {
            if u.contains(sep) {
                let i = choose|i: int| 0 <= i < u.len() && u[i] == sep;
                assert(t[i] == sep);
            }
        }
        lemma_split_on_append(s, u, sep);
        assert((s + t).drop_last() == s + u);
        assert((s + t).last() == t.last());
        let before = split_on(s + u, sep);
        assert(before.drop_last() == split_on(s, sep).drop_last());
        assert(before.last().push(t.last()) == split_on(s, sep).last() + t);
    }
}

/// Joining texts that do not hold the separator and cutting the result gives the
/// texts back.
pub proof fn lemma_split_joined(parts: Seq<Seq<char>>, sep: char)
    requires
        parts.len() >= 1,
        forall|i: int| 0 <= i < parts.len() ==> !(#[trigger] parts[i]).contains(sep),
    ensures
        split_on(joined(parts, seq![sep]), sep) == parts,
    decreases parts.len(),
{
    let last = parts.last();
    assert(!parts[parts.len() - 1].contains(sep));
    if parts.len() == 1 {
        lemma_split_on_append(Seq::empty(), last, sep);
        assert(Seq::<char>::empty() + last == last);
        assert(split_on(Seq::<char>::empty(), sep) == seq![Seq::<char>::empty()]);
        assert(split_on(last, sep) =~= parts);
    } else {
        let init = parts.drop_last();
        assert forall|i: int| 0 <= i < init.len() implies !(#[trigger] init[i]).contains(sep) by {
            assert(!parts[i].contains(sep));
        }
        lemma_split_joined(init, sep);
        let s = joined(init, seq![sep]) + seq![sep];
        assert(s.drop_last() == joined(init, seq![sep]));
        assert(s.last() == sep);
        assert(split_on(s, sep) == init.push(Seq::empty()));
        lemma_split_on_append(s, last, sep);
        assert(init.push(Seq::<char>::empty()).drop_last() == init);
        assert(Seq::<char>::empty() + last == last);
        assert(init.push(last) == parts);
    }
}

/// A line without the carriage return at its end.
pub open spec fn strip_cr(s: Seq<char>) -> Seq<char> {
    if s.len() > 0 && s.last() == '\r' {
        s.drop_last()
    } else {
        s
    }
}

/// The lines of a text. Each line feed, with a carriage return before it or
/// without, ends one; what stands behind the last line feed is a line of its own
/// unless it is empty.
pub open spec fn lines_of(s: Seq<char>) -> Seq<Seq<char>> {
    let pieces = split_on(s, '\n');
    let ended = pieces.drop_last();
    let closed = Seq::new(ended.len(), |i: int| strip_cr(ended[i]));
    if pieces.last().len() == 0 {
        closed
    } else {
        closed.push(pieces.last())
    }
}

/// The lines of a text.
pub fn lines(s: &str) -> (r: Vec<String>)
    ensures
        texts(r@) == lines_of(s@),
{
    let pieces: Vec<String> = split(s, '\n');
    proof {
        lemma_split_on_nonempty(s@, '\n');
    }
    let last: usize = pieces.len() - 1;
    let mut out: Vec<String> = Vec::new();
    let ghost ended = split_on(s@, '\n').drop_last();
    for i in 0..last
        invariant
            last < pieces.len(),
            texts(pieces@).drop_last() == ended,
            pieces.len() == last + 1,
            out.len() == i,
            forall|j: int| 0 <= j < i ==> out@[j]@ == strip_cr(#[trigger] ended[j]),
    {
        let v: Vec<char> = chars_of(pieces[i].as_str());
        let n: usize = if v.len() > 0 && v[v.len() - 1] == '\r' {
            v.len() - 1
        } else {
            v.len()
        };
        proof {
            assert(ended[i as int] == v@);
            assert(v@.subrange(0, n as int) == strip_cr(v@));
        }
        out.push(string_of(&v, 0, n));
    }
    if !pieces[last].as_str().is_empty() {
        out.push(pieces[last].clone());
    }
    proof {
        assert(texts(pieces@).last() == pieces@[last as int]@);
        assert(texts(out@) =~= lines_of(s@));
    }
    out
}

/// The text without the leading characters that are white space.
pub open spec fn trim_start_of(s: Seq<char>) -> Seq<char>
    decreases s.len(),
{
    if s.len() > 0 && is_whitespace(s[0]) {
        trim_start_of(s.drop_first())
    } else {
        s
    }
}

/// The text without the trailing characters that are white space.
pub open spec fn trim_end_of(s: Seq<char>) -> Seq<char>
    decreases s.len(),
{
    if s.len() > 0 && is_whitespace(s.last()) {
        trim_end_of(s.drop_last())
    } else {
        s
    }
}

/// The text without white space at either end.
pub open spec fn trimmed(s: Seq<char>) -> Seq<char> {
    trim_end_of(trim_start_of(s))
}

/// The text without the leading characters that are white space.
pub fn trim_start(s: &str) -> (r: String)
    ensures
        r@ == trim_start_of(s@),
{
    let v: Vec<char> = chars_of(s);
    let mut from: usize = 0;
    proof {
        assert(v@.skip(0) == s@);
    }
    while from < v.len() && char_is_whitespace(v[from])
        invariant
            from <= v.len(),
            trim_start_of(s@) == trim_start_of(v@.skip(from as int)),
        decreases v.len() - from,
    {
        proof {
            assert(v@.skip(from as int).drop_first() == v@.skip(from + 1));
        }
        from = from + 1;
    }
    let n: usize = v.len();
    proof {
        assert(trim_start_of(s@) == v@.skip(from as int));
        assert(v@.subrange(from as int, n as int) == v@.skip(from as int));
    }
    string_of(&v, from, n)
}

/// The text without white space at either end.
pub fn trim(s: &str) -> (r: String)
    ensures
        r@ == trimmed(s@),
{
    let start: String = trim_start(s);
    let v: Vec<char> = chars_of(start.as_str());
    let mut to: usize = v.len();
    proof {
        assert(v@.take(to as int) == start@);
    }
    while to > 0 && char_is_whitespace(v[to - 1])
        invariant
            to <= v.len(),
            trimmed(s@) == trim_end_of(v@.take(to as int)),
        decreases to,
    {
        proof {
            assert(v@.take(to as int).drop_last() == v@.take(to - 1));
        }
        to = to - 1;
    }
    proof {
        assert(v@.subrange(0, to as int) == v@.take(to as int));
    }
    string_of(&v, 0, to)
}

/// The texts one after the other, with `sep` between neighbours.
pub open spec fn joined(parts: Seq<Seq<char>>, sep: Seq<char>) -> Seq<char>
    decreases parts.len(),
{
    if parts.len() == 0 {
        Seq::empty()
    } else if parts.len() == 1 {
        parts[0]
    } else {
        joined(parts.drop_last(), sep) + sep + parts.last()
    }
}

/// The texts one after the other, with `sep` between neighbours.
pub fn join(parts: &Vec<String>, sep: &str) -> (r: String)
    ensures
        r@ == joined(texts(parts@), sep@),
{
    let mut out: String = String::new();
    let ghost all = texts(parts@);
    for i in 0..parts.len()
        invariant
            all == texts(parts@),
            out@ == joined(all.take(i as int), sep@),
    {
        proof {
            assert(all.take(i + 1).drop_last() == all.take(i as int));
            assert(all.take(i + 1).last() == parts@[i as int]@);
        }
        if i > 0 {
            out.push_str(sep);
        }
        out.push_str(parts[i].as_str());
        proof {
            assert(out@ == joined(all.take(i + 1), sep@));
        }
    }
    proof {
        assert(all.take(parts@.len() as int) == all);
    }
    out
}

/// The texts in double quotes, as a list in square brackets.
pub open spec fn quoted_list(v: Seq<Seq<char>>) -> Seq<char> {
    "["@ + joined(Seq::new(v.len(), |i: int| debug_form(v[i])), ", "@) + "]"@
}

/// The texts in double quotes, as a list in square brackets.
pub fn write_quoted_list(v: &Vec<String>) -> (r: String)
    ensures
        r@ == quoted_list(texts(v@)),
{
    let mut parts: Vec<String> = Vec::new();
    for i in 0..v.len()
        invariant
            parts.len() == i,
            forall|j: int| 0 <= j < i ==> (#[trigger] parts@[j])@ == debug_form(v@[j]@),
    {
        parts.push(quoted(v[i].as_str()));
    }
    proof {
        let t = texts(v@);
        assert(texts(parts@) =~= Seq::new(t.len(), |i: int| debug_form(t[i])));
    }
    let mut out: String = concat("[", join(&parts, ", ").as_str());
    out.push_str("]");
    out
}

// ---------------------------------------------------------------------------
// Numbers.
// ---------------------------------------------------------------------------

/// The decimal digit of a number below ten.
pub open spec fn digit_char(d: nat) -> char {
    (('0' as u8) + d) as u8 as char
}

/// A number in decimal notation.
pub open spec fn decimal(n: nat) -> Seq<char>
    decreases n,
{
    if n < 10 {
        seq![digit_char(n)]
    } else {
        decimal(n / 10).push(digit_char(n % 10))
    }
}

/// A number in decimal notation, filled up with zeros on the left.
pub open spec fn padded(n: nat, width: nat) -> Seq<char> {
    let d = decimal(n);
    if d.len() >= width {
        d
    } else {
        Seq::new((width - d.len()) as nat, |i: int| '0') + d
    }
}

/// A number in decimal notation.
pub fn u64_to_string(n: u64) -> (r: String)
    ensures
        r@ == decimal(n as nat),
    decreases n,
{
    let mut out: String = if n < 10 {
        String::new()
    } else {
        u64_to_string(n / 10)
    };
    let d: char = (48u8 + (n % 10) as u8) as char;
    out.push(d);
    proof {
        if n < 10 {
            assert(n % 10 == n);
            assert(out@ =~= seq![digit_char(n as nat)]);
        }
    }
    out
}

/// A number in decimal notation, filled up with zeros on the left.
pub fn padded_string(n: u64, width: usize) -> (r: String)
    ensures
        r@ == padded(n as nat, width as nat),
{
    let digits: String = u64_to_string(n);
    let count: usize = chars_of(digits.as_str()).len();
    let mut out: String = String::new();
    let mut missing: usize = if count < width {
        width - count
    } else {
        0
    };
    let ghost total: nat = missing as nat;
    while missing > 0
        invariant
            missing <= total,
            out@ == Seq::new((total - missing) as nat, |i: int| '0'),
        decreases missing,
    {
        out.push('0');
        missing = missing - 1;
        proof {
            assert(out@ =~= Seq::new((total - missing) as nat, |i: int| '0'));
        }
    }
    out.push_str(digits.as_str());
    proof {
        assert(out@ =~= padded(n as nat, width as nat));
    }
    out
}

/// Whether the character is a decimal digit.
pub open spec fn is_digit(c: char) -> bool {
    '0' <= c <= '9'
}

/// The value of a text of decimal digits.
pub open spec fn digits_value(s: Seq<char>) -> nat
    decreases s.len(),
{
    if s.len() == 0 {
        0
    } else {
        digits_value(s.drop_last()) * 10 + ((s.last() as u8 - '0' as u8) as nat)
    }
}

/// The text behind a leading plus sign.
pub open spec fn unsigned_digits(s: Seq<char>) -> Seq<char> {
    if s.len() > 1 && s[0] == '+' {
        s.drop_first()
    } else {
        s
    }
}

/// The number that a text writes down, where it is at most `max`: digits, with a
/// plus sign before them or without.
pub open spec fn parsed_number(s: Seq<char>, max: nat) -> Option<nat> {
    let d = unsigned_digits(s);
    if d.len() > 0 && (forall|i: int| 0 <= i < d.len() ==> is_digit(#[trigger] d[i]))
        && digits_value(d) <= max {
        Some(digits_value(d))
    } else {
        None
    }
}

proof fn lemma_digits_value_prefix(s: Seq<char>, n: int)
    requires
        0 <= n <= s.len(),
    ensures
        digits_value(s.take(n)) <= digits_value(s),
    decreases s.len() - n,
{
    if n < s.len() {
        lemma_digits_value_prefix(s, n + 1);
        assert(s.take(n + 1).drop_last() == s.take(n));
    } else {
        assert(s.take(n) == s);
    }
}

/// Decimal notation is made of digits and is read back as the same number.
pub proof fn lemma_decimal(n: nat)
    ensures
        decimal(n).len() >= 1,
        forall|i: int| 0 <= i < decimal(n).len() ==> is_digit(#[trigger] decimal(n)[i]),
        digits_value(decimal(n)) == n,
    decreases n,
{
    reveal_with_fuel(digits_value, 2);
    if n >= 10 {
        lemma_decimal(n / 10);
        let d = decimal(n);
        assert(d.drop_last() == decimal(n / 10));
        assert(d.last() == digit_char(n % 10));
        assert(is_digit(digit_char(n % 10)));
        assert forall|i: int| 0 <= i < d.len() implies is_digit(#[trigger] d[i]) by {
            if i < d.len() - 1 {
                assert(decimal(n / 10)[i] == d[i]);
            }
        }
    } else {
        assert(decimal(n).drop_last() == Seq::<char>::empty());
        assert(decimal(n).last() == digit_char(n));
        assert(is_digit(digit_char(n)));
    }
}

proof fn lemma_decimal_len(n: nat, width: nat)
    requires
        width >= 1,
        n < pow(10, width),
    ensures
        decimal(n).len() <= width,
    decreases width,
{
    reveal(pow);
    if n >= 10 {
        assert(pow(10, width) == 10 * pow(10, (width - 1) as nat));
        if width == 1 {
            assert(pow(10, 0) == 1);
        }
        lemma_decimal_len(n / 10, (width - 1) as nat);
    }
}

proof fn lemma_leading_zeros(zeros: Seq<char>, s: Seq<char>)
    requires
        forall|i: int| 0 <= i < zeros.len() ==> #[trigger] zeros[i] == '0',
    ensures
        digits_value(zeros + s) == digits_value(s),
    decreases zeros.len() + s.len(),
{
    let t = zeros + s;
    if s.len() > 0 {
        assert(t.drop_last() == zeros + s.drop_last());
        lemma_leading_zeros(zeros, s.drop_last());
    } else if zeros.len() > 0 {
        assert(t == zeros);
        assert(t.drop_last() == zeros.drop_last() + s);
        lemma_leading_zeros(zeros.drop_last(), s);
        assert(t.last() == '0');
    } else {
        assert(t == s);
    }
}

/// A number filled up with zeros to a width in which it finds room takes up that width,
/// is made of digits, and is read back as the same number.
pub proof fn lemma_padded(n: nat, width: nat)
    requires
        width >= 1,
        n < pow(10, width),
    ensures
        padded(n, width).len() == width,
        forall|i: int| 0 <= i < width ==> is_digit(#[trigger] padded(n, width)[i]),
        digits_value(padded(n, width)) == n,
{
    lemma_decimal(n);
    lemma_decimal_len(n, width);
    let d = decimal(n);
    let p = padded(n, width);
    if d.len() < width {
        let zeros = Seq::new((width - d.len()) as nat, |i: int| '0');
        lemma_leading_zeros(zeros, d);
        assert forall|i: int| 0 <= i < width implies is_digit(#[trigger] p[i]) by {
            if i >= width - d.len() {
                assert(p[i] == d[i - (width - d.len())]);
            }
        }
    }
}

proof fn lemma_digits_order(a: Seq<char>, b: Seq<char>)
    requires
        a.len() == b.len(),
        forall|i: int| 0 <= i < a.len() ==> is_digit(#[trigger] a[i]),
        forall|i: int| 0 <= i < b.len() ==> is_digit(#[trigger] b[i]),
        digits_value(a) <= digits_value(b),
    ensures
        text_le(a, b),
    decreases a.len(),
{
    if a.len() > 0 {
        let (c, d) = (a.drop_last(), b.drop_last());
        let (p, q) = (a.last(), b.last());
        assert(is_digit(p) && is_digit(q));
        lemma_digits_order(c, d);
        reveal_with_fuel(text_le, 2);
        let (x, y) = (seq![p], seq![q]);
        assert(x.drop_first() == Seq::<char>::empty());
        if c == d {
            assert(p as u8 <= q as u8);
            assert(text_le(x, y));
        }
        lemma_text_le_concat(c, d, x, y);
        assert(c + x == a);
        assert(d + y == b);
    }
}

/// Numbers filled up to the same width come in the order of their values.
pub proof fn lemma_padded_order(n: nat, m: nat, width: nat, x: Seq<char>, y: Seq<char>)
    requires
        width >= 1,
        n <= m < pow(10, width),
        n == m ==> text_le(x, y),
    ensures
        text_le(padded(n, width) + x, padded(m, width) + y),
{
    lemma_padded(n, width);
    lemma_padded(m, width);
    lemma_digits_order(padded(n, width), padded(m, width));
    lemma_text_le_concat(padded(n, width), padded(m, width), x, y);
}

/// Reading decimal notation gives the number back.
pub proof fn lemma_parse_decimal(n: nat, max: nat)
    requires
        n <= max,
    ensures
        parsed_number(decimal(n), max) == Some(n),
        !decimal(n).contains('.'),
{
    lemma_decimal(n);
    assert(is_digit(decimal(n)[0]));
    assert(unsigned_digits(decimal(n)) == decimal(n));
    if decimal(n).contains('.') {
        let i = choose|i: int| 0 <= i < decimal(n).len() && decimal(n)[i] == '.';
        assert(is_digit(decimal(n)[i]));
    }
}

/// Different numbers are written differently.
pub proof fn lemma_decimal_injective(a: nat, b: nat)
    requires
        decimal(a) == decimal(b),
    ensures
        a == b,
{
    lemma_parse_decimal(a, a + b);
    lemma_parse_decimal(b, a + b);
}

/// What stands between the same texts is the same where the whole is.
pub proof fn lemma_between(before: Seq<char>, a: Seq<char>, b: Seq<char>, after: Seq<char>)
    requires
        before + a + after == before + b + after,
    ensures
        a == b,
{
    let (x, y) = (before + a + after, before + b + after);
    assert(x.len() == y.len());
    assert(x.subrange(before.len() as int, (before.len() + a.len()) as int) =~= a);
    assert(y.subrange(before.len() as int, (before.len() + b.len()) as int) =~= b);
}

/// The number that a text writes down, where it is at most `max`.
pub fn parse_number(s: &str, max: u64) -> (r: Option<u64>)
    ensures
        match r {
            Some(n) => parsed_number(s@, max as nat) == Some(n as nat),
            None => parsed_number(s@, max as nat) is None,
        },
{
    let v: Vec<char> = chars_of(s);
    let start: usize = if v.len() > 1 && v[0] == '+' {
        1
    } else {
        0
    };
    let ghost d = unsigned_digits(s@);
    proof {
        assert(v@.skip(start as int) =~= d);
    }
    if v.len() == start {
        return None;
    }
    let mut n: u64 = 0;
    let mut i: usize = start;
    proof {
        assert(d.take(0) == Seq::<char>::empty());
    }
    while i < v.len()
        invariant
            start <= i <= v.len(),
            v@.skip(start as int) == d,
            v@ == s@,
            d == unsigned_digits(s@),
            d.len() > 0,
            n == digits_value(d.take(i - start)),
            n <= max,
            forall|j: int| 0 <= j < i - start ==> is_digit(#[trigger] d[j]),
        decreases v.len() - i,
    {
        let c: char = v[i];
        proof {
            assert(d[i - start] == c);
            assert(d.take(i - start + 1).drop_last() == d.take(i - start));
            lemma_digits_value_prefix(d, i - start + 1);
        }
        if !('0' <= c && c <= '9') {
            return None;
        }
        let digit: u64 = (c as u8 - 48) as u64;
        if digit > max || n > (max - digit) / 10 {
            return None;
        }
        n = n * 10 + digit;
        i = i + 1;
    }
    proof {
        assert(d.take(v.len() - start) == d);
    }
    Some(n)
}

/// A text begins with another just if it is that one with something behind it.
pub proof fn law_begins_with(s: Seq<char>, prefix: Seq<char>, rest: Seq<char>)
    ensures
        begins_with(prefix + rest, prefix),
        begins_with(s, prefix) ==> s == prefix + s.skip(prefix.len() as int),
{
    assert((prefix + rest).take(prefix.len() as int) =~= prefix);
    if begins_with(s, prefix) {
        assert(s =~= s.take(prefix.len() as int) + s.skip(prefix.len() as int));
    }
}

/// A text ends in another just if it is that one with something before it.
pub proof fn law_ends_in(s: Seq<char>, suffix: Seq<char>, rest: Seq<char>)
    ensures
        ends_in(rest + suffix, suffix),
        ends_in(s, suffix) ==> s == s.take(s.len() - suffix.len()) + suffix,
{
    assert((rest + suffix).skip((rest + suffix).len() - suffix.len()) =~= suffix);
    if ends_in(s, suffix) {
        assert(s =~= s.take(s.len() - suffix.len()) + s.skip(s.len() - suffix.len()));
    }
}

/// A text occurs in another just if something may stand before it and behind it there.
pub proof fn law_occurs_in(
    s: Seq<char>,
    needle: Seq<char>,
    before: Seq<char>,
    behind: Seq<char>,
)
    ensures
        occurs_in(before + needle + behind, needle),
        occurs_in(s, needle) ==> exists|a: Seq<char>, b: Seq<char>|
            s == #[trigger] (a + needle + b),
{
    let t = before + needle + behind;
    assert(t.subrange(before.len() as int, (before.len() + needle.len()) as int) =~= needle);
    assert(stands_at(t, needle, before.len() as int));
    if occurs_in(s, needle) {
        let at = choose|at: int| stands_at(s, needle, at);
        let (a, b) = (s.take(at), s.skip(at + needle.len()));
        assert(s.subrange(at, at + needle.len()) == needle);
        assert(s =~= a + needle + b);
    }
}

/// Making letters small changes the capital letters of ASCII and nothing else, and doing it
/// twice is doing it once.
pub proof fn law_small_letters(s: Seq<char>, i: int)
    requires
        0 <= i < s.len(),
    ensures
        ascii_lower(s).len() == s.len(),
        !('A' <= s[i] <= 'Z') ==> ascii_lower(s)[i] == s[i],
        'A' <= s[i] <= 'Z' ==> 'a' <= ascii_lower(s)[i] <= 'z' && ascii_lower(s)[i] as u32 == s[i]
            as u32 + 32,
        ascii_lower(ascii_lower(s)) == ascii_lower(s),
{
    assert(ascii_lower(ascii_lower(s)) =~= ascii_lower(s));
}

proof fn lemma_trim_start(s: Seq<char>)
    ensures
        ({
            let t = trim_start_of(s);
            &&& t.len() <= s.len()
            &&& s.skip(s.len() - t.len()) == t
            &&& forall|i: int| 0 <= i < s.len() - t.len() ==> is_whitespace(#[trigger] s[i])
            &&& t.len() > 0 ==> !is_whitespace(t[0])
        }),
    decreases s.len(),
{
    if s.len() > 0 && is_whitespace(s[0]) {
        let u = s.drop_first();
        lemma_trim_start(u);
        let t = trim_start_of(s);
        assert(s.skip(s.len() - t.len()) =~= u.skip(u.len() - t.len()));
        assert forall|i: int| 0 <= i < s.len() - t.len() implies is_whitespace(
            #[trigger] s[i],
        ) by {
            if i > 0 {
                assert(s[i] == u[i - 1]);
            }
        }
    } else {
        assert(s.skip(0) =~= s);
    }
}

proof fn lemma_trim_end(s: Seq<char>)
    ensures
        ({
            let t = trim_end_of(s);
            &&& t.len() <= s.len()
            &&& s.take(t.len() as int) == t
            &&& forall|i: int| t.len() <= i < s.len() ==> is_whitespace(#[trigger] s[i])
            &&& t.len() > 0 ==> !is_whitespace(t.last())
        }),
    decreases s.len(),
{
    if s.len() > 0 && is_whitespace(s.last()) {
        let u = s.drop_last();
        lemma_trim_end(u);
        let t = trim_end_of(s);
        assert(s.take(t.len() as int) =~= u.take(t.len() as int));
        assert forall|i: int| t.len() <= i < s.len() implies is_whitespace(#[trigger] s[i]) by {
            if i < s.len() - 1 {
                assert(s[i] == u[i]);
            }
        }
    } else {
        assert(s.take(s.len() as int) =~= s);
    }
}

/// Trimming takes away white space at both ends, all of it and nothing else.
pub proof fn law_trimmed(s: Seq<char>)
    ensures
        ({
            let t = trimmed(s);
            &&& t.len() > 0 ==> !is_whitespace(t[0]) && !is_whitespace(t.last())
            &&& exists|from: int|
                0 <= from && from + t.len() <= s.len() && #[trigger] s.subrange(
                    from,
                    from + t.len(),
                ) == t && (forall|i: int| 0 <= i < from ==> is_whitespace(#[trigger] s[i])) && (
                forall|i: int|
                    from + t.len() <= i < s.len() ==> is_whitespace(#[trigger] s[i]))
        }),
{
    let u = trim_start_of(s);
    let t = trimmed(s);
    lemma_trim_start(s);
    lemma_trim_end(u);
    let from = s.len() - u.len();
    assert forall|i: int| from + t.len() <= i < s.len() implies is_whitespace(#[trigger] s[i]) by {
        assert(u[i - from] == s[i]);
    }
    assert(s.subrange(from, from + t.len()) =~= t);
    if t.len() > 0 {
        assert(t[0] == u[0]);
    }
}

/// Lines that are written with a line feed behind each are read back as they were.
pub proof fn law_lines_are_read_back(all: Seq<Seq<char>>)
    requires
        all.len() > 0,
        forall|i: int|
            0 <= i < all.len() ==> !(#[trigger] all[i]).contains('\n') && (all[i].len() > 0
                ==> all[i].last() != '\r'),
    ensures
        lines_of(joined(all, seq!['\n']).push('\n')) == all,
{
    let parts = all.push(Seq::empty());
    assert forall|i: int| 0 <= i < parts.len() implies !(#[trigger] parts[i]).contains('\n') by {
        if i < all.len() {
            assert(parts[i] == all[i]);
        }
    }
    lemma_split_joined(parts, '\n');
    assert(parts.drop_last() =~= all);
    assert(joined(parts, seq!['\n']) =~= joined(all, seq!['\n']).push('\n'));
    let text = joined(all, seq!['\n']).push('\n');
    assert forall|i: int| 0 <= i < all.len() implies strip_cr(#[trigger] all[i]) == all[i] by {}
    assert(lines_of(text) =~= all);
}

/// A number is read just if it is written in digits and is not too large: what is larger than
/// the bound, or holds anything but digits, is none.
pub proof fn law_numbers_are_read(n: nat, max: nat, s: Seq<char>, i: int)
    ensures
        n <= max ==> parsed_number(decimal(n), max) == Some(n),
        n > max ==> parsed_number(decimal(n), max) is None,
        0 <= i < s.len() && !is_digit(s[i]) && !(i == 0 && s[i] == '+') ==> parsed_number(s, max)
            is None,
        s.len() == 0 ==> parsed_number(s, max) is None,
{
    lemma_parse_decimal(n, n);
    if n <= max {
        lemma_parse_decimal(n, max);
    }
    if 0 <= i < s.len() && !is_digit(s[i]) && !(i == 0 && s[i] == '+') {
        let d = unsigned_digits(s);
        if d == s {
            assert(!is_digit(d[i]));
        } else {
            assert(d[i - 1] == s[i]);
        }
    }
}

} // verus!
