//! The backups of the live rule set.

use vstd::prelude::*;
use vstd::seq_lib::to_multiset_insert;
use crate::text::{
    chars_of, concat, ends_in, ends_with, is_digit, law_ends_in, lemma_text_le_total,
    lemma_text_le_trans, str_le, string_of, text_le,
};

verus! {

/// What the tool is given.
#[derive(Debug)]
pub struct ListBackupsArgs {}

/// A backup.
#[derive(Debug, PartialEq, Eq)]
pub struct BackupEntry {
    /// Name of the file.
    pub filename: String,
    /// When the backup was made, as the file's name says.
    pub timestamp: String,
    /// Size of the file in bytes.
    pub size_bytes: u64,
}

/// What a [`BackupEntry`] means.
#[verifier::ext_equal]
pub struct BackupView {
    pub filename: Seq<char>,
    pub timestamp: Seq<char>,
    pub size_bytes: u64,
}

impl View for BackupEntry {
    type V = BackupView;

    open spec fn view(&self) -> BackupView {
        BackupView {
            filename: self.filename@,
            timestamp: self.timestamp@,
            size_bytes: self.size_bytes,
        }
    }
}

/// What the tool returns.
#[derive(Debug)]
pub struct ListBackupsResult {
    /// The backups, the newest first.
    pub backups: Vec<BackupEntry>,
    /// Path of the directory.
    pub backups_dir: String,
}

/// An entry of the directory.
#[derive(Debug)]
pub struct DirEntry {
    pub name: String,
    /// The size of a plain file; `None` for everything else.
    pub file_size: Option<u64>,
}

/// What became of reading the directory.
#[derive(Debug)]
pub enum DirRead {
    /// There is no such directory.
    Missing,
    /// The directory cannot be read; the text says why.
    Failed(String),
    /// These are its entries.
    Entries(Vec<DirEntry>),
}

/// Whether a text has the form `YYYYMMDDThhmmssZ`, with a digit for each letter but the
/// `T` and the `Z`.
pub open spec fn is_timestamp(s: Seq<char>) -> bool {
    &&& s.len() == 16
    &&& s[8] == 'T'
    &&& s[15] == 'Z'
    &&& forall|i: int| 0 <= i < 16 && i != 8 && i != 15 ==> is_digit(#[trigger] s[i])
}

/// Whether a file of this name is a backup: a timestamp with `.json` behind it.
pub open spec fn names_backup(name: Seq<char>) -> bool {
    ends_in(name, ".json"@) && is_timestamp(name.take(name.len() - 5))
}

/// Whether a file of this name is a backup.
pub fn is_backup_filename(name: &str) -> (r: bool)
    ensures
        r == names_backup(name@),
{
    if !ends_with(name, ".json") {
        return false;
    }
    let v: Vec<char> = chars_of(name);
    let ghost stem = name@.take(name@.len() - 5);
    proof {
        reveal_strlit(".json");
        assert(".json"@.len() == 5);
    }
    if v.len() != 21 || v[8] != 'T' || v[15] != 'Z' {
        return false;
    }
    for i in 0..16
        invariant
            v@ == name@,
            v@.len() == 21,
            stem == name@.take(name@.len() - 5),
            forall|j: int| 0 <= j < i && j != 8 && j != 15 ==> is_digit(#[trigger] stem[j]),
    {
        if i != 8 && i != 15 {
            let c: char = v[i];
            if !('0' <= c && c <= '9') {
                proof {
                    assert(!is_digit(stem[i as int]));
                }
                return false;
            }
        }
    }
    true
}

/// The backup that an entry of the directory is, if it is one.
pub open spec fn backup_in(e: DirEntry) -> Option<BackupView> {
    match e.file_size {
        Some(size) => if names_backup(e.name@) {
            Some(
                BackupView {
                    filename: e.name@,
                    timestamp: e.name@.take(e.name@.len() - 5),
                    size_bytes: size,
                },
            )
        } else {
            None
        },
        None => None,
    }
}

fn read_entry(e: &DirEntry) -> (r: Option<BackupEntry>)
    ensures
        match r {
            Some(b) => backup_in(*e) == Some(b@),
            None => backup_in(*e) is None,
        },
{
    match e.file_size {
        Some(size) => {
            if !is_backup_filename(e.name.as_str()) {
                return None;
            }
            let v: Vec<char> = chars_of(e.name.as_str());
            proof {
                reveal_strlit(".json");
                assert(".json"@.len() == 5);
                assert(v@.subrange(0, 16) == e.name@.take(e.name@.len() - 5));
            }
            let timestamp: String = string_of(&v, 0, 16);
            Some(BackupEntry { filename: e.name.clone(), timestamp, size_bytes: size })
        },
        None => None,
    }
}

/// The backups among some entries, in the order of the entries.
pub open spec fn backups_in(entries: Seq<DirEntry>) -> Seq<BackupView>
    decreases entries.len(),
{
    if entries.len() == 0 {
        Seq::empty()
    } else {
        let before = backups_in(entries.drop_last());
        match backup_in(entries.last()) {
            Some(b) => before.push(b),
            None => before,
        }
    }
}

/// The meanings of some backups.
pub open spec fn backups_view(v: Seq<BackupEntry>) -> Seq<BackupView> {
    Seq::new(v.len(), |i: int| v[i]@)
}

/// Whether a backup never stands before a newer one.
pub open spec fn newest_first(v: Seq<BackupView>) -> bool {
    forall|i: int, j: int|
        0 <= i < j < v.len() ==> text_le((#[trigger] v[j]).timestamp, (#[trigger] v[i]).timestamp)
}

/// Whether `r` holds the backups among some entries, the newest first.
pub open spec fn listing(r: Seq<BackupView>, entries: Seq<DirEntry>) -> bool {
    newest_first(r) && r.to_multiset() == backups_in(entries).to_multiset()
}

fn put(v: &mut Vec<BackupEntry>, b: BackupEntry)
    requires
        newest_first(backups_view(old(v)@)),
    ensures
        newest_first(backups_view(final(v)@)),
        backups_view(final(v)@).to_multiset() == backups_view(old(v)@).to_multiset().insert(b@),
{
    let ghost all = backups_view(v@);
    let ghost before = v@;
    let ghost t = b@.timestamp;
    let mut i: usize = 0;
    while i < v.len() && str_le(b.timestamp.as_str(), v[i].timestamp.as_str())
        invariant
            i <= v.len(),
            v@ == before,
            all == backups_view(before),
            t == b.timestamp@,
            forall|j: int| 0 <= j < i ==> text_le(t, (#[trigger] all[j]).timestamp),
        decreases v.len() - i,
    {
        proof {
            assert(all[i as int] == before[i as int]@);
        }
        i = i + 1;
    }
    let ghost view = b@;
    v.insert(i, b);
    proof {
        let now = backups_view(v@);
        assert(now =~= all.insert(i as int, view));
        to_multiset_insert(all, i as int, view);
        assert forall|j: int| i <= j < all.len() implies text_le(
            (#[trigger] all[j]).timestamp,
            t,
        ) by {
            assert(all[i as int] == before[i as int]@);
            lemma_text_le_total(t, all[i as int].timestamp);
            if i < j {
                lemma_text_le_trans(all[j].timestamp, all[i as int].timestamp, t);
            }
        }
        assert(newest_first(now)) by {
            assert forall|a: int, c: int| 0 <= a < c < now.len() implies text_le(
                (#[trigger] now[c]).timestamp,
                (#[trigger] now[a]).timestamp,
            ) by {
                if a < i {
                    assert(now[a] == all[a]);
                    if c < i {
                        assert(now[c] == all[c]);
                    } else if c > i {
                        assert(now[c] == all[c - 1]);
                    }
                } else {
                    assert(now[c] == all[c - 1]);
                    if a > i {
                        assert(now[a] == all[a - 1]);
                    }
                }
            }
        }
    }
}

/// Returns the backups in a directory, the newest first. `dir` is what became of reading
/// it; a directory that is not there holds none.
pub fn run_with_root(_args: ListBackupsArgs, backups_dir: &str, dir: DirRead) -> (r: Result<
    ListBackupsResult,
    String,
>)
    ensures
        match dir {
            DirRead::Missing => r is Ok && r->Ok_0.backups@.len() == 0
                && r->Ok_0.backups_dir@ == backups_dir@,
            DirRead::Failed(e) => r is Err && r->Err_0@ == "cannot read backups directory: "@ + e@,
            DirRead::Entries(v) => r is Ok && listing(backups_view(r->Ok_0.backups@), v@)
                && r->Ok_0.backups_dir@ == backups_dir@,
        },
{
    let entries: Vec<DirEntry> = match dir {
        DirRead::Missing => {
            return Ok(
                ListBackupsResult { backups: Vec::new(), backups_dir: backups_dir.to_owned() },
            );
        },
        DirRead::Failed(e) => {
            return Err(concat("cannot read backups directory: ", e.as_str()));
        },
        DirRead::Entries(v) => v,
    };
    let mut backups: Vec<BackupEntry> = Vec::new();
    proof {
        assert(backups_view(backups@) =~= Seq::<BackupView>::empty());
        assert(entries@.take(0) == Seq::<DirEntry>::empty());
    }
    for i in 0..entries.len()
        invariant
            listing(backups_view(backups@), entries@.take(i as int)),
    {
        proof {
            assert(entries@.take(i + 1).drop_last() == entries@.take(i as int));
            assert(entries@.take(i + 1).last() == entries@[i as int]);
            backups_in(entries@.take(i as int)).to_multiset_ensures();
        }
        if let Some(b) = read_entry(&entries[i]) {
            put(&mut backups, b);
        }
    }
    proof {
        assert(entries@.take(entries@.len() as int) == entries@);
    }
    Ok(ListBackupsResult { backups, backups_dir: backups_dir.to_owned() })
}

/// Returns the backups in the managed directory. `backups_dir` is the path of the backups
/// there, or why there is no managed directory.
pub fn run(args: ListBackupsArgs, backups_dir: Result<String, String>, dir: DirRead) -> (r: Result<
    ListBackupsResult,
    String,
>)
    ensures
        match backups_dir {
            Err(e) => r is Err && r->Err_0@ == "cannot bootstrap managed directory: "@ + e@,
            Ok(path) => match dir {
                DirRead::Missing => r is Ok && r->Ok_0.backups@.len() == 0
                    && r->Ok_0.backups_dir@ == path@,
                DirRead::Failed(e) => r is Err && r->Err_0@ == "cannot read backups directory: "@
                    + e@,
                DirRead::Entries(v) => r is Ok && listing(backups_view(r->Ok_0.backups@), v@)
                    && r->Ok_0.backups_dir@ == path@,
            },
        },
{
    match backups_dir {
        Ok(path) => run_with_root(args, path.as_str(), dir),
        Err(e) => Err(concat("cannot bootstrap managed directory: ", e.as_str())),
    }
}

/// Every plain file whose name is a time and `.json` is listed as a backup, with that name,
/// that time and its size; nothing else is.
pub proof fn law_which_backups_are_listed(
    r: Seq<BackupView>,
    entries: Seq<DirEntry>,
    b: BackupView,
)
    requires
        listing(r, entries),
    ensures
        r.contains(b) <==> exists|i: int|
            0 <= i < entries.len() && (#[trigger] entries[i]).name@ == b.filename
                && entries[i].file_size == Some(b.size_bytes) && is_timestamp(b.timestamp)
                && b.filename == b.timestamp + ".json"@,
        r.len() == backups_in(entries).len(),
{
    law_backups_in(entries, b);
    r.to_multiset_ensures();
    backups_in(entries).to_multiset_ensures();
    assert(r.contains(b) <==> r.to_multiset().count(b) > 0);
    assert(backups_in(entries).contains(b) <==> backups_in(entries).to_multiset().count(b) > 0);
}

proof fn lemma_backup_in(e: DirEntry, b: BackupView)
    ensures
        backup_in(e) == Some(b) <==> e.name@ == b.filename && e.file_size == Some(b.size_bytes)
            && is_timestamp(b.timestamp) && b.filename == b.timestamp + ".json"@,
{
    reveal_strlit(".json");
    law_ends_in(e.name@, ".json"@, b.timestamp);
    if b.filename == b.timestamp + ".json"@ {
        assert(b.filename.take(b.filename.len() - 5) =~= b.timestamp);
    }
}

/// Every plain file whose name is a time and `.json` counts as a backup, and nothing else.
pub proof fn law_backups_in(entries: Seq<DirEntry>, b: BackupView)
    ensures
        backups_in(entries).contains(b) <==> exists|i: int|
            0 <= i < entries.len() && (#[trigger] entries[i]).name@ == b.filename
                && entries[i].file_size == Some(b.size_bytes) && is_timestamp(b.timestamp)
                && b.filename == b.timestamp + ".json"@,
    decreases entries.len(),
{
    if entries.len() == 0 {
        assert(backups_in(entries).len() == 0);
    } else {
        let w = entries.drop_last();
        law_backups_in(w, b);
        lemma_backup_in(entries.last(), b);
        let (before, now) = (backups_in(w), backups_in(entries));
        if now.contains(b) {
            let k = choose|k: int| 0 <= k < now.len() && now[k] == b;
            if k < before.len() {
                assert(before[k] == b);
                let i = choose|i: int|
                    0 <= i < w.len() && (#[trigger] w[i]).name@ == b.filename && w[i].file_size
                        == Some(b.size_bytes) && is_timestamp(b.timestamp) && b.filename
                        == b.timestamp + ".json"@;
                assert(entries[i] == w[i]);
            } else {
                assert(entries[entries.len() - 1].name@ == b.filename);
            }
        }
        if exists|i: int|
            0 <= i < entries.len() && (#[trigger] entries[i]).name@ == b.filename
                && entries[i].file_size == Some(b.size_bytes) && is_timestamp(b.timestamp)
                && b.filename == b.timestamp + ".json"@ {
            let i = choose|i: int|
                0 <= i < entries.len() && (#[trigger] entries[i]).name@ == b.filename
                    && entries[i].file_size == Some(b.size_bytes) && is_timestamp(b.timestamp)
                    && b.filename == b.timestamp + ".json"@;
            if i < w.len() {
                assert(w[i] == entries[i]);
                let k = choose|k: int| 0 <= k < before.len() && before[k] == b;
                assert(now[k] == b);
            } else {
                assert(now[before.len() as int] == b);
            }
        }
    }
}

/// No backup is listed before one that is newer.
pub proof fn law_newer_backups_come_first(
    r: Seq<BackupView>,
    entries: Seq<DirEntry>,
    i: int,
    j: int,
)
    requires
        listing(r, entries),
        0 <= i < j < r.len(),
    ensures
        text_le(r[j].timestamp, r[i].timestamp),
{
}

/// The name of a backup is a time: eight digits, a `T`, six digits and a `Z`.
pub proof fn law_what_names_a_backup(name: Seq<char>, i: int)
    requires
        names_backup(name),
    ensures
        name.len() == 21,
        0 <= i < 8 || 9 <= i < 15 ==> '0' <= name[i] <= '9',
        name[8] == 'T',
        name[15] == 'Z',
        name == name.take(16) + ".json"@,
{
    reveal_strlit(".json");
    law_ends_in(name, ".json"@, name);
    let t = name.take(name.len() - 5);
    assert(t.len() == 16);
    if 0 <= i < 8 || 9 <= i < 15 {
        assert(is_digit(t[i]));
        assert(t[i] == name[i]);
    }
    assert(t[8] == name[8] && t[15] == name[15]);
}

} // verus!
