//! Line-by-line differences of two texts.

use vstd::prelude::*;
use crate::text::{chars_of, concat, str_eq};

verus! {

/// What became of a line.
#[derive(Debug, Clone, Copy, PartialEq, Eq, Structural)]
pub enum LineTag {
    Equal,
    Delete,
    Insert,
}

impl LineTag {
    /// The mark before a line.
    pub open spec fn mark(self) -> Seq<char> {
        match self {
            LineTag::Equal => " "@,
            LineTag::Delete => "-"@,
            LineTag::Insert => "+"@,
        }
    }

    fn as_str(&self) -> (r: &'static str)
        ensures
            r@ == self.mark(),
    {
        match self {
            LineTag::Equal => " ",
            LineTag::Delete => "-",
            LineTag::Insert => "+",
        }
    }
}

/// A line and what became of it. The line holds its own end.
pub struct LineChange {
    pub tag: LineTag,
    pub line: String,
}

/// The lines and what became of them.
pub open spec fn changes_view(v: Seq<LineChange>) -> Seq<(LineTag, Seq<char>)> {
    Seq::new(v.len(), |i: int| (v[i].tag, v[i].line@))
}

/// The changes of `similar::TextDiff::from_lines`, with only so many equal lines
/// around those that differ.
pub uninterp spec fn grouped_changes(old_text: Seq<char>, new_text: Seq<char>, around: nat) -> Seq<
    (LineTag, Seq<char>),
>;

/// All changes of `similar::TextDiff::from_lines`.
pub uninterp spec fn all_changes(old_text: Seq<char>, new_text: Seq<char>) -> Seq<
    (LineTag, Seq<char>),
>;

/// `similar::TextDiff::from_lines`, and the changes of its `grouped_ops`. They
/// depend on the texts and the number alone; no deadline is set. The number is doubled
/// there, so its double must fit.
#[verifier::external_body]
fn find_grouped_changes(old_text: &str, new_text: &str, around: usize) -> (r: Vec<LineChange>)
    requires
        around <= usize::MAX / 2,
    ensures
        changes_view(r@) == grouped_changes(old_text@, new_text@, around as nat),
{
    let diff = similar::TextDiff::from_lines(old_text, new_text);
    let groups = diff.grouped_ops(around);
    groups.iter().flatten().flat_map(|op| diff.iter_changes(op)).map(|c| LineChange {
        tag: match c.tag() {
            similar::ChangeTag::Equal => LineTag::Equal,
            similar::ChangeTag::Delete => LineTag::Delete,
            similar::ChangeTag::Insert => LineTag::Insert,
        },
        line: c.value().to_string(),
    }).collect()
}

/// The lines that are not marked with `tag`, one after the other.
pub open spec fn lines_but(changes: Seq<(LineTag, Seq<char>)>, tag: LineTag) -> Seq<char>
    decreases changes.len(),
{
    if changes.len() == 0 {
        Seq::empty()
    } else {
        lines_but(changes.drop_last(), tag) + (if changes.last().0 == tag {
            Seq::empty()
        } else {
            changes.last().1
        })
    }
}

/// `similar::TextDiff::from_lines`, and its `iter_all_changes`. They depend on the
/// texts alone; no deadline is set. The lines that are not inserted make up the old text,
/// and those that are not deleted the new one.
#[verifier::external_body]
fn find_all_changes(old_text: &str, new_text: &str) -> (r: Vec<LineChange>)
    ensures
        changes_view(r@) == all_changes(old_text@, new_text@),
        lines_but(changes_view(r@), LineTag::Insert) == old_text@,
        lines_but(changes_view(r@), LineTag::Delete) == new_text@,
{
    let diff = similar::TextDiff::from_lines(old_text, new_text);
    diff.iter_all_changes().map(|c| LineChange {
        tag: match c.tag() {
            similar::ChangeTag::Equal => LineTag::Equal,
            similar::ChangeTag::Delete => LineTag::Delete,
            similar::ChangeTag::Insert => LineTag::Insert,
        },
        line: c.value().to_string(),
    }).collect()
}

/// Whether a line ends as it should: with a line feed, or, where `bare_cr` is set,
/// with a carriage return.
pub open spec fn is_ended(line: Seq<char>, bare_cr: bool) -> bool {
    line.len() > 0 && (line.last() == '\n' || (bare_cr && line.last() == '\r'))
}

/// The lines with their marks, one below the other. A line without an end gets
/// one.
pub open spec fn marked(changes: Seq<(LineTag, Seq<char>)>, bare_cr: bool) -> Seq<char>
    decreases changes.len(),
{
    if changes.len() == 0 {
        Seq::empty()
    } else {
        let (tag, line) = changes.last();
        marked(changes.drop_last(), bare_cr) + tag.mark() + line + (if is_ended(line, bare_cr) {
            Seq::empty()
        } else {
            "\n"@
        })
    }
}

/// Writes the lines with their marks, one below the other.
pub fn write_marked(changes: &Vec<LineChange>, bare_cr: bool) -> (r: String)
    ensures
        r@ == marked(changes_view(changes@), bare_cr),
{
    let mut out: String = String::new();
    let ghost all = changes_view(changes@);
    for i in 0..changes.len()
        invariant
            all == changes_view(changes@),
            out@ == marked(all.take(i as int), bare_cr),
    {
        let line: &String = &changes[i].line;
        proof {
            assert(all.take(i + 1).drop_last() == all.take(i as int));
            assert(all.take(i + 1).last() == all[i as int]);
        }
        out.push_str(changes[i].tag.as_str());
        out.push_str(line.as_str());
        let v: Vec<char> = chars_of(line.as_str());
        let n: usize = v.len();
        let ended: bool = n > 0 && (v[n - 1] == '\n' || (bare_cr && v[n - 1] == '\r'));
        if !ended {
            out.push_str("\n");
        }
        proof {
            assert(out@ =~= marked(all.take(i + 1), bare_cr));
        }
    }
    proof {
        assert(all.take(changes@.len() as int) == all);
    }
    out
}

/// The two lines that name what is compared.
pub open spec fn header(label: Seq<char>) -> Seq<char> {
    "--- a/"@ + label + "\n+++ b/"@ + label + "\n"@
}

fn write_header(label: &str) -> (r: String)
    ensures
        r@ == header(label@),
{
    let mut out: String = concat("--- a/", label);
    out.push_str("\n+++ b/");
    out.push_str(label);
    out.push_str("\n");
    out
}

/// What changed in a file, with three equal lines around each change.
pub open spec fn file_diff(before: Seq<char>, after: Seq<char>, file_name: Seq<char>) -> Seq<char> {
    header(file_name) + marked(grouped_changes(before, after, 3), false)
}

/// What changed in a file, with three equal lines around each change.
pub fn make_diff(before: &str, after: &str, file_name: &str) -> (r: String)
    ensures
        r@ == file_diff(before@, after@, file_name@),
{
    let mut out: String = write_header(file_name);
    out.push_str(write_marked(&find_grouped_changes(before, after, 3), false).as_str());
    out
}

/// All lines of two texts with what became of them; nothing where the texts are
/// the same.
pub open spec fn full_diff(old_text: Seq<char>, new_text: Seq<char>, label: Seq<char>) -> Seq<char> {
    if old_text == new_text {
        Seq::empty()
    } else {
        header(label) + marked(all_changes(old_text, new_text), true)
    }
}

/// Whether the lines that are not inserted make up the old text, and those that are not
/// deleted the new one.
pub open spec fn is_complete(
    changes: Seq<(LineTag, Seq<char>)>,
    old_text: Seq<char>,
    new_text: Seq<char>,
) -> bool {
    lines_but(changes, LineTag::Insert) == old_text && lines_but(changes, LineTag::Delete)
        == new_text
}

/// All lines of two texts with what became of them; nothing where the texts are
/// the same.
pub fn write_full_diff(old_text: &str, new_text: &str, label: &str) -> (r: String)
    ensures
        r@ == full_diff(old_text@, new_text@, label@),
        r@.len() > 0 ==> is_complete(all_changes(old_text@, new_text@), old_text@, new_text@),
{
    if str_eq(old_text, new_text) {
        return String::new();
    }
    let mut out: String = write_header(label);
    out.push_str(write_marked(&find_all_changes(old_text, new_text), true).as_str());
    out
}

/// The difference of two texts is empty if and only if the texts are the same.
pub proof fn law_empty_diff(old_text: Seq<char>, new_text: Seq<char>, label: Seq<char>)
    ensures
        full_diff(old_text, new_text, label).len() == 0 <==> old_text == new_text,
{
    reveal_strlit("--- a/");
}

/// A difference is written change by change: what is written of changes behind others stands
/// behind what is written of these.
pub proof fn law_changes_are_written_one_by_one(
    a: Seq<(LineTag, Seq<char>)>,
    b: Seq<(LineTag, Seq<char>)>,
    bare_cr: bool,
)
    ensures
        marked(a + b, bare_cr) == marked(a, bare_cr) + marked(b, bare_cr),
    decreases b.len(),
{
    if b.len() == 0 {
        assert(a + b =~= a);
        assert(marked(a, bare_cr) + marked(b, bare_cr) =~= marked(a, bare_cr));
    } else {
        let c = b.drop_last();
        let (tag, line) = b.last();
        let end = if is_ended(line, bare_cr) {
            Seq::<char>::empty()
        } else {
            "\n"@
        };
        law_changes_are_written_one_by_one(a, c, bare_cr);
        assert((a + b).drop_last() =~= a + c);
        assert((a + b).last() == b.last());
        assert(marked(b, bare_cr) == marked(c, bare_cr) + tag.mark() + line + end);
        assert(marked(a + b, bare_cr) == marked(a + c, bare_cr) + tag.mark() + line + end);
        lemma_regroup(marked(a, bare_cr), marked(c, bare_cr), tag.mark(), line, end);
    }
}

proof fn lemma_regroup(
    a: Seq<char>,
    b: Seq<char>,
    c: Seq<char>,
    d: Seq<char>,
    e: Seq<char>,
)
    ensures
        (a + b) + c + d + e == a + (b + c + d + e),
{
    assert((a + b) + c =~= a + (b + c));
    assert((a + (b + c)) + d =~= a + (b + c + d));
    assert((a + (b + c + d)) + e =~= a + (b + c + d + e));
}

/// A line is written behind its mark: a minus sign for one that goes, a plus sign for one that
/// comes, a space for one that stays; and a line feed is added where it has none.
pub proof fn law_one_change_is_written(tag: LineTag, line: Seq<char>, bare_cr: bool)
    ensures
        ({
            let w = marked(seq![(tag, line)], bare_cr);
            &&& tag is Delete ==> w[0] == '-'
            &&& tag is Insert ==> w[0] == '+'
            &&& tag is Equal ==> w[0] == ' '
            &&& line.len() > 0 && line.last() == '\n' ==> w.skip(1) == line
            &&& line.len() == 0 || (line.last() != '\n' && line.last() != '\r') ==> w.skip(1)
                == line.push('\n')
        }),
{
    reveal_strlit("-");
    reveal_strlit("+");
    reveal_strlit(" ");
    reveal_strlit("\n");
    reveal_with_fuel(marked, 2);
    let one = seq![(tag, line)];
    assert(one.drop_last() =~= Seq::empty());
    let w = marked(one, bare_cr);
    if line.len() > 0 && line.last() == '\n' {
        assert(w.skip(1) =~= line);
    } else if line.len() == 0 || line.last() != '\r' {
        assert(w.skip(1) =~= line.push('\n'));
    }
}

} // verus!
