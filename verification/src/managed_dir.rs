//! The layout of the managed directory, and what became of reading a file in it.

use vstd::prelude::*;
use crate::text::{concat, starts_with, ends_with};

verus! {

/// What the `Debug` form of a path reads.
pub uninterp spec fn path_debug_form(path: Seq<char>) -> Seq<char>;

/// The `Debug` implementation of `std::path::Path`, as `format!("{:?}", ..)`
/// prints it. The result depends on the path's characters alone.
#[verifier::external_body]
pub(crate) fn quoted_path(path: &str) -> (r: String)
    ensures
        r@ == path_debug_form(path@),
{
    format!("{:?}", std::path::Path::new(path))
}

/// What became of reading a file.
pub enum FileRead {
    /// There is no such file.
    Missing,
    /// The file is there and could not be read; the text says why.
    Failed(String),
    /// The file holds these bytes.
    Bytes(Vec<u8>),
}

/// What became of reading a text file of the managed directory.
pub enum TextRead {
    /// There is no managed directory; the text says why.
    NoDirectory(String),
    /// There is no such file.
    Missing,
    /// The file is there and could not be read; the text says why.
    Failed(String),
    /// The file holds this text.
    Text(String),
}

/// A path below another one: an absolute path stands for itself, and one slash
/// stands between the two otherwise.
pub open spec fn below(base: Seq<char>, part: Seq<char>) -> Seq<char> {
    if part.len() > 0 && part[0] == '/' {
        part
    } else if base.len() == 0 || base.last() == '/' {
        base + part
    } else {
        base + "/"@ + part
    }
}

/// A path below another one.
pub fn path_below(base: &str, part: &str) -> (r: String)
    ensures
        r@ == below(base@, part@),
{
    proof {
        reveal_strlit("/");
    }
    if starts_with(part, "/") {
        proof {
            assert(part@.take(1)[0] == part@[0]);
        }
        return part.to_owned();
    }
    proof {
        if part@.len() > 0 && part@[0] == '/' {
            assert(part@.take(1) =~= "/"@);
        }
    }
    let mut out: String = base.to_owned();
    if !base.is_empty() && !ends_with(base, "/") {
        proof {
            if base@.last() == '/' {
                assert(base@.skip(base@.len() - 1) =~= "/"@);
            }
        }
        out.push_str("/");
    } else {
        proof {
            if base@.len() > 0 {
                assert(base@.skip(base@.len() - 1)[0] == base@.last());
            }
        }
    }
    out.push_str(part);
    out
}

/// The file that holds the rule file `name`: `rules/<name>.lsrules` below the
/// managed directory.
pub open spec fn lsrules_path(root: Seq<char>, name: Seq<char>) -> Seq<char> {
    below(below(root, "rules"@), name + ".lsrules"@)
}

/// The file that holds the rule file `name`.
pub fn lsrules_file(root: &str, name: &str) -> (r: String)
    ensures
        r@ == lsrules_path(root@, name@),
{
    let dir: String = path_below(root, "rules");
    let file: String = concat(name, ".lsrules");
    path_below(dir.as_str(), file.as_str())
}

/// What stands below a directory is named by the directory's path, a slash and its own name.
pub proof fn law_below_a_directory(base: Seq<char>, part: Seq<char>)
    requires
        part.len() > 0,
        part[0] != '/',
        base.len() > 0,
    ensures
        base.last() == '/' ==> below(base, part) == base + part,
        base.last() != '/' ==> below(base, part) == base.push('/') + part,
{
    reveal_strlit("/");
    if base.last() != '/' {
        assert(below(base, part) =~= base.push('/') + part);
    }
}

/// Rule files with different names have different paths.
pub proof fn law_rule_files_have_their_own_paths(root: Seq<char>, a: Seq<char>, b: Seq<char>)
    requires
        a.len() > 0,
        b.len() > 0,
        a[0] != '/',
        b[0] != '/',
        lsrules_path(root, a) == lsrules_path(root, b),
    ensures
        a == b,
{
    reveal_strlit("rules");
    reveal_strlit("/");
    reveal_strlit(".lsrules");
    let dir = below(root, "rules"@);
    assert("rules"@[0] == 'r');
    assert(dir.last() == "rules"@[4] && dir.last() == 's');
    let (x, y) = (a + ".lsrules"@, b + ".lsrules"@);
    let (p, q) = (dir + "/"@ + x, dir + "/"@ + y);
    assert(x[0] == a[0] && y[0] == b[0]);
    assert(p == q);
    assert(p.len() == q.len());
    assert forall|i: int| 0 <= i < a.len() implies a[i] == b[i] by {
        assert(p[dir.len() + 1 + i] == a[i]);
        assert(q[dir.len() + 1 + i] == b[i]);
    }
    assert(a =~= b);
}

} // verus!
