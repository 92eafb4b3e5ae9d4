//! Restoring a whole rule set from a file below the managed directory.

use vstd::prelude::*;
use crate::hash::{collide, json_sha256, json_sha256_of, lemma_json_digests};
use crate::json::{
    compact_text, json_parsed_bytes, nests_within, parse_bytes, reads_as, Json, JsonView,
};
use crate::managed_dir::{path_debug_form, quoted_path};
use crate::model::read;
use crate::model::serial::{model_json, model_to_json};
use crate::model::{Model, ModelView};
use crate::safety::session::{law_issued_token, Session, SessionView};
use crate::safety::token::{
    context, payload, payload_for, ContextView, PayloadView, TokenError, VerifyContext,
    DEFAULT_TTL_SECS,
};
use crate::text::{
    begins_with, concat, decimal, ends_with, law_begins_with, lemma_decimal_injective, starts_with,
    str_eq, u64_to_string,
};

verus! {

/// What restoring is given.
#[derive(Debug)]
pub struct RestoreModelFromFileArgs {
    /// Absolute path of the file. It must be below the managed directory.
    pub file_path: String,
    /// Confirmation token of the proposal.
    pub token: String,
}

/// What proposing a restore is given.
#[derive(Debug)]
pub struct PrepareRestoreFromFileArgs {
    pub file_path: String,
}

/// What proposing a restore returns.
#[derive(Debug)]
pub struct PrepareRestoreResult {
    pub token: String,
    /// Digest of the proposed rule set.
    pub diff_sha256: String,
    pub expires_in_seconds: u64,
}

/// What can go wrong.
#[derive(Debug)]
pub enum RestoreFromFileError {
    /// The file is not below the managed directory.
    PathOutsideManagedDir { path: String, root: String },
    /// There is no such file.
    FileNotFound(String),
    /// The file cannot be read.
    ReadFailed { path: String, source: String },
    /// The file does not hold a rule set.
    InvalidModelJson { path: String, source: String },
    /// The token is refused.
    Token(TokenError),
}

/// What a [`RestoreFromFileError`] means.
#[verifier::ext_equal]
pub enum RestoreFromFileErrorView {
    PathOutsideManagedDir { path: Seq<char>, root: Seq<char> },
    FileNotFound(Seq<char>),
    ReadFailed { path: Seq<char>, source: Seq<char> },
    InvalidModelJson { path: Seq<char>, source: Seq<char> },
    Token(TokenError),
}

impl View for RestoreFromFileError {
    type V = RestoreFromFileErrorView;

    open spec fn view(&self) -> RestoreFromFileErrorView {
        match self {
            RestoreFromFileError::PathOutsideManagedDir { path, root } => {
                RestoreFromFileErrorView::PathOutsideManagedDir { path: path@, root: root@ }
            },
            RestoreFromFileError::FileNotFound(path) => {
                RestoreFromFileErrorView::FileNotFound(path@)
            },
            RestoreFromFileError::ReadFailed { path, source } => {
                RestoreFromFileErrorView::ReadFailed { path: path@, source: source@ }
            },
            RestoreFromFileError::InvalidModelJson { path, source } => {
                RestoreFromFileErrorView::InvalidModelJson { path: path@, source: source@ }
            },
            RestoreFromFileError::Token(e) => RestoreFromFileErrorView::Token(*e),
        }
    }
}

impl RestoreFromFileErrorView {
    /// What the error says.
    pub open spec fn says(self) -> Seq<char> {
        match self {
            RestoreFromFileErrorView::PathOutsideManagedDir { path, root } => {
                "PATH_OUTSIDE_MANAGED_DIR: "@ + path_debug_form(path)
                    + " is not under the managed root "@ + path_debug_form(root)
            },
            RestoreFromFileErrorView::FileNotFound(path) => "FILE_NOT_FOUND: "@ + path_debug_form(
                path,
            ),
            RestoreFromFileErrorView::ReadFailed { path, source } => "READ_FAILED: cannot read "@
                + path_debug_form(path) + ": "@ + source,
            RestoreFromFileErrorView::InvalidModelJson { path, source } => {
                "INVALID_MODEL_JSON: "@ + path_debug_form(path)
                    + " did not parse as a Model: "@ + source
            },
            RestoreFromFileErrorView::Token(e) => "token verify failed: "@ + e.says(),
        }
    }
}

impl RestoreFromFileError {
    /// What the error says.
    pub fn message(&self) -> (r: String)
        ensures
            r@ == self@.says(),
    {
        match self {
            RestoreFromFileError::PathOutsideManagedDir { path, root } => {
                let mut out: String = concat(
                    "PATH_OUTSIDE_MANAGED_DIR: ",
                    quoted_path(path.as_str()).as_str(),
                );
                out.push_str(" is not under the managed root ");
                out.push_str(quoted_path(root.as_str()).as_str());
                out
            },
            RestoreFromFileError::FileNotFound(path) => {
                concat("FILE_NOT_FOUND: ", quoted_path(path.as_str()).as_str())
            },
            RestoreFromFileError::ReadFailed { path, source } => {
                let mut out: String = concat(
                    "READ_FAILED: cannot read ",
                    quoted_path(path.as_str()).as_str(),
                );
                out.push_str(": ");
                out.push_str(source.as_str());
                out
            },
            RestoreFromFileError::InvalidModelJson { path, source } => {
                let mut out: String = concat(
                    "INVALID_MODEL_JSON: ",
                    quoted_path(path.as_str()).as_str(),
                );
                out.push_str(" did not parse as a Model: ");
                out.push_str(source.as_str());
                out
            },
            RestoreFromFileError::Token(e) => {
                concat("token verify failed: ", e.message().as_str())
            },
        }
    }
}

/// Where a file and the managed directory really are, with every link followed.
#[derive(Debug)]
pub enum Located {
    /// There is no such file.
    Missing,
    /// The file's place cannot be found out; the text says why.
    PathFailed(String),
    /// The directory's place cannot be found out; the text says why.
    RootFailed(String),
    /// The places of the file and of the directory.
    At { path: String, root: String },
}

/// What a file holds.
#[derive(Debug)]
pub enum ModelFile {
    /// It cannot be read; the text says why.
    Unreadable(String),
    /// It holds no rule set; the text says why.
    NoModel(String),
    /// It holds this rule set.
    Model(Model),
}

impl ModelFile {
    /// What the bytes of a file hold.
    pub fn read(bytes: &[u8]) -> (r: ModelFile)
        ensures
            match json_parsed_bytes(bytes@) {
                Err(e) => r matches ModelFile::NoModel(x) && x@ == e,
                Ok(j) => match read::model_in(j) {
                    Err(e) => r matches ModelFile::NoModel(x) && x@ == e,
                    Ok(m) => r matches ModelFile::Model(x) && x@ == m,
                },
            },
    {
        match parse_bytes(bytes) {
            Err(e) => ModelFile::NoModel(e),
            Ok(j) => match read::read_model(&j) {
                Err(e) => ModelFile::NoModel(e),
                Ok(m) => ModelFile::Model(m),
            },
        }
    }
}

/// Whether a path is that of a directory or of something in it.
pub open spec fn is_under(path: Seq<char>, root: Seq<char>) -> bool {
    path == root || begins_with(
        path,
        if root.len() > 0 && root.last() == '/' {
            root
        } else {
            root + "/"@
        },
    )
}

fn lies_under(path: &str, root: &str) -> (r: bool)
    ensures
        r == is_under(path@, root@),
{
    if str_eq(path, root) {
        return true;
    }
    proof {
        reveal_strlit("/");
        if root@.len() > 0 {
            assert(root@.skip(root@.len() - 1)[0] == root@.last());
            if root@.last() == '/' {
                assert(root@.skip(root@.len() - 1) =~= "/"@);
            }
        }
    }
    if ends_with(root, "/") {
        starts_with(path, root)
    } else {
        starts_with(path, concat(root, "/").as_str())
    }
}

/// Where the file really is, or why it is refused: it must be there, and below the
/// managed directory with every link followed.
pub open spec fn place(
    file_path: Seq<char>,
    managed_root: Seq<char>,
    located: Located,
) -> Result<Seq<char>, RestoreFromFileErrorView> {
    match located {
        Located::Missing => Err(RestoreFromFileErrorView::FileNotFound(file_path)),
        Located::PathFailed(e) => Err(
            RestoreFromFileErrorView::ReadFailed { path: file_path, source: e@ },
        ),
        Located::RootFailed(e) => Err(
            RestoreFromFileErrorView::ReadFailed { path: managed_root, source: e@ },
        ),
        Located::At { path, root } => if is_under(path@, root@) {
            Ok(path@)
        } else {
            Err(RestoreFromFileErrorView::PathOutsideManagedDir { path: path@, root: root@ })
        },
    }
}

/// Where the file really is, or why it is refused. Only a file that is not refused
/// is to be read.
pub fn locate(file_path: &str, managed_root: &str, located: &Located) -> (r: Result<
    String,
    RestoreFromFileError,
>)
    ensures
        match place(file_path@, managed_root@, *located) {
            Ok(p) => r is Ok && r->Ok_0@ == p,
            Err(e) => r is Err && r->Err_0@ == e,
        },
{
    match located {
        Located::Missing => Err(RestoreFromFileError::FileNotFound(file_path.to_owned())),
        Located::PathFailed(e) => Err(
            RestoreFromFileError::ReadFailed { path: file_path.to_owned(), source: e.clone() },
        ),
        Located::RootFailed(e) => Err(
            RestoreFromFileError::ReadFailed { path: managed_root.to_owned(), source: e.clone() },
        ),
        Located::At { path, root } => if lies_under(path.as_str(), root.as_str()) {
            Ok(path.clone())
        } else {
            Err(
                RestoreFromFileError::PathOutsideManagedDir {
                    path: path.clone(),
                    root: root.clone(),
                },
            )
        },
    }
}

/// The rule set that the file holds, or why there is none.
pub open spec fn model_in(
    file_path: Seq<char>,
    managed_root: Seq<char>,
    located: Located,
    file: ModelFile,
) -> Result<ModelView, RestoreFromFileErrorView> {
    match place(file_path, managed_root, located) {
        Err(e) => Err(e),
        Ok(path) => match file {
            ModelFile::Unreadable(e) => Err(
                RestoreFromFileErrorView::ReadFailed { path, source: e@ },
            ),
            ModelFile::NoModel(e) => Err(
                RestoreFromFileErrorView::InvalidModelJson { path, source: e@ },
            ),
            ModelFile::Model(m) => Ok(m@),
        },
    }
}

fn read_and_validate<'a>(
    file_path: &str,
    managed_root: &str,
    located: &Located,
    file: &'a ModelFile,
) -> (r: Result<&'a Model, RestoreFromFileError>)
    ensures
        match model_in(file_path@, managed_root@, *located, *file) {
            Ok(m) => r is Ok && r->Ok_0@ == m,
            Err(e) => r is Err && r->Err_0@ == e,
        },
{
    let path: String = match locate(file_path, managed_root, located) {
        Ok(p) => p,
        Err(e) => {
            return Err(e);
        },
    };
    match file {
        ModelFile::Unreadable(e) => Err(
            RestoreFromFileError::ReadFailed { path, source: e.clone() },
        ),
        ModelFile::NoModel(e) => Err(
            RestoreFromFileError::InvalidModelJson { path, source: e.clone() },
        ),
        ModelFile::Model(m) => Ok(m),
    }
}

/// Whether arrays and objects nest in the rule set's JSON form no deeper than is read.
pub open spec fn is_shallow(m: ModelView) -> bool {
    nests_within(model_json(m), 127)
}

/// Whether the text that the rule set's digest is made of is read back as the rule set's
/// JSON form.
pub open spec fn is_read_back(m: ModelView) -> bool {
    reads_as(compact_text(model_json(m)), model_json(m))
}

/// What a token is about: the file.
pub open spec fn restore_target(file_path: Seq<char>) -> JsonView {
    JsonView::Object(
        Map::empty().insert("op"@, JsonView::Text("restore_model_from_file"@)).insert(
            "file_path"@,
            JsonView::Text(file_path),
        ),
    )
}

/// What a token for restoring `model` is bound to.
pub open spec fn restore_payload(
    file_path: Seq<char>,
    model: ModelView,
    current: ModelView,
    now: nat,
) -> PayloadView {
    payload_for(
        "restore_model_from_file"@,
        restore_target(file_path),
        json_sha256(model_json(model)),
        decimal(current.bundle_version as nat),
        now,
        DEFAULT_TTL_SECS as nat,
    )
}

/// What a token for restoring `model` is held against.
pub open spec fn restore_context(model: ModelView, current: ModelView) -> ContextView {
    context(
        "restore_model_from_file"@,
        json_sha256(model_json(model)),
        decimal(current.bundle_version as nat),
    )
}

/// Proposes to put the rule set of a file in the place of the live one.
pub fn prepare_pure(
    session: &Session,
    file_path: &str,
    managed_root: &str,
    located: &Located,
    file: &ModelFile,
    current: &Model,
    now_unix_secs: u64,
) -> (r: Result<PrepareRestoreResult, RestoreFromFileError>)
    ensures
        match model_in(file_path@, managed_root@, *located, *file) {
            Err(e) => r is Err && r->Err_0@ == e,
            Ok(m) => r is Ok && ({
                let p = r->Ok_0;
                &&& p.token@ == session@.token(
                    restore_payload(file_path@, m, current@, now_unix_secs as nat),
                )
                &&& p.diff_sha256@ == json_sha256(model_json(m))
                &&& p.expires_in_seconds == DEFAULT_TTL_SECS
                &&& is_shallow(m) ==> is_read_back(m)
            }),
        },
{
    let model: &Model = match read_and_validate(file_path, managed_root, located, file) {
        Ok(m) => m,
        Err(e) => {
            return Err(e);
        },
    };
    let bundle_version: String = u64_to_string(current.bundle_version);
    let diff_sha256: String = json_sha256_of(&model_to_json(model));
    let mut target: Json = Json::object();
    target.insert("op".to_owned(), Json::text("restore_model_from_file"));
    target.insert("file_path".to_owned(), Json::text(file_path));
    let token: String = session.issue(
        &payload(
            "restore_model_from_file",
            &target,
            diff_sha256.as_str(),
            bundle_version.as_str(),
            now_unix_secs,
            DEFAULT_TTL_SECS,
        ),
    );
    Ok(PrepareRestoreResult { token, diff_sha256, expires_in_seconds: DEFAULT_TTL_SECS })
}

/// Returns the rule set of a file, if the token is accepted for this very rule set.
pub fn apply_pure(
    file_path: &str,
    token_str: String,
    managed_root: &str,
    located: &Located,
    file: &ModelFile,
    current: &Model,
    session: &mut Session,
    now_unix_secs: u64,
) -> (r: Result<Model, RestoreFromFileError>)
    ensures
        match model_in(file_path@, managed_root@, *located, *file) {
            Err(e) => r is Err && r->Err_0@ == e && final(session)@ == old(session)@,
            Ok(m) => ({
                let ctx = restore_context(m, current@);
                &&& final(session)@ == old(session)@.after(token_str@, ctx, now_unix_secs as nat)
                &&& match old(session)@.verdict(token_str@, ctx, now_unix_secs as nat) {
                    Err(e) => r is Err && r->Err_0@ == RestoreFromFileErrorView::Token(e),
                    Ok(_) => r is Ok && r->Ok_0@ == m,
                }
                &&& is_shallow(m) ==> is_read_back(m)
            }),
        },
{
    let model: &Model = match read_and_validate(file_path, managed_root, located, file) {
        Ok(m) => m,
        Err(e) => {
            return Err(e);
        },
    };
    let bundle_version: String = u64_to_string(current.bundle_version);
    let diff_sha256: String = json_sha256_of(&model_to_json(model));
    let ctx: VerifyContext = VerifyContext {
        tool: "restore_model_from_file",
        current_diff_sha256: diff_sha256.as_str(),
        current_bundle_version: bundle_version.as_str(),
    };
    match session.verify_at(token_str.as_str(), &ctx, now_unix_secs) {
        Ok(()) => Ok(model.copy()),
        Err(e) => Err(RestoreFromFileError::Token(e)),
    }
}

/// A file that is not below the managed directory is refused, whatever it holds.
pub proof fn law_files_outside_are_refused(
    file_path: Seq<char>,
    managed_root: Seq<char>,
    path: String,
    root: String,
    file: ModelFile,
)
    requires
        !is_under(path@, root@),
    ensures
        model_in(file_path, managed_root, Located::At { path, root }, file) == Err::<
            ModelView,
            RestoreFromFileErrorView,
        >(RestoreFromFileErrorView::PathOutsideManagedDir { path: path@, root: root@ }),
{
}

/// A path that only begins with the same letters as the directory's is not below it.
pub proof fn law_siblings_are_outside(root: Seq<char>, rest: Seq<char>)
    requires
        root.len() > 0,
        root.last() != '/',
        rest.len() > 0,
        rest[0] != '/',
    ensures
        !is_under(root + rest, root),
{
    reveal_strlit("/");
    let path = root + rest;
    assert(path.len() != root.len());
    if begins_with(path, root + "/"@) {
        assert(path.take((root + "/"@).len() as int)[root.len() as int] == rest[0]);
    }
}

/// A proposed restore goes through as long as the file holds the same rule set and the
/// live one has the same version: the token of the proposal is accepted until its time
/// is over or it has been used.
pub proof fn law_prepared_restore_applies(
    s: SessionView,
    file_path: Seq<char>,
    model: ModelView,
    current: ModelView,
    later: ModelView,
    prepared: nat,
    now: nat,
)
    requires
        prepared <= u64::MAX,
        prepared <= now < prepared + DEFAULT_TTL_SECS,
        later.bundle_version == current.bundle_version,
        !s.consumed.contains(s.token(restore_payload(file_path, model, current, prepared))),
    ensures
        s.verdict(
            s.token(restore_payload(file_path, model, current, prepared)),
            restore_context(model, later),
            now,
        ) is Ok,
{
    law_issued_token(
        s,
        restore_payload(file_path, model, current, prepared),
        restore_context(model, later),
        now,
    );
}

/// When the file has come to hold another rule set since the proposal, or the live rule set
/// has come to have another version, the token of the proposal is refused with the error
/// that says so; of another rule set with the same version, unless two different texts with
/// the same SHA-256 have been found.
pub proof fn law_changed_file_is_refused(
    s: SessionView,
    file_path: Seq<char>,
    model: ModelView,
    changed: ModelView,
    current: ModelView,
    later: ModelView,
    prepared: nat,
    now: nat,
)
    requires
        prepared <= u64::MAX,
        is_read_back(model),
        is_read_back(changed),
    ensures
        ({
            let verdict = s.verdict(
                s.token(restore_payload(file_path, model, current, prepared)),
                restore_context(changed, later),
                now,
            );
            &&& later.bundle_version != current.bundle_version ==> verdict == Err::<
                (),
                TokenError,
            >(TokenError::SchemaDrift)
            &&& later.bundle_version == current.bundle_version && model_json(changed)
                != model_json(model) ==> verdict == Err::<(), TokenError>(TokenError::DiffDrift)
                || collide(compact_text(model_json(changed)), compact_text(model_json(model)))
        }),
{
    if later.bundle_version != current.bundle_version && decimal(later.bundle_version as nat)
        == decimal(current.bundle_version as nat) {
        lemma_decimal_injective(later.bundle_version as nat, current.bundle_version as nat);
    }
    if model_json(changed) != model_json(model) {
        lemma_json_digests(model_json(changed), model_json(model));
    }
    law_issued_token(
        s,
        restore_payload(file_path, model, current, prepared),
        restore_context(changed, later),
        now,
    );
}

/// What stands below the directory is under it, and so is the directory itself; everything
/// that is under it is one of these.
pub proof fn law_what_is_under_a_directory(root: Seq<char>, path: Seq<char>, rest: Seq<char>)
    requires
        root.len() > 0,
        root.last() != '/',
    ensures
        is_under(root + "/"@ + rest, root),
        is_under(root, root),
        is_under(path, root) ==> path == root || path == (root + "/"@) + path.skip(
            root.len() as int + 1,
        ),
{
    reveal_strlit("/");
    law_begins_with(root + "/"@ + rest, root + "/"@, rest);
    law_begins_with(path, root + "/"@, rest);
}

/// A rule set is taken from a file just if the file is there, is under the directory and holds
/// one, and then it is the one that the file holds.
pub proof fn law_the_rule_set_is_the_files(
    file_path: Seq<char>,
    managed_root: Seq<char>,
    located: Located,
    file: ModelFile,
)
    ensures
        model_in(file_path, managed_root, located, file) is Ok <==> located is At && is_under(
            located->path@,
            located->root@,
        ) && file is Model,
        model_in(file_path, managed_root, located, file) matches Ok(m) ==> file
            matches ModelFile::Model(x) && x@ == m,
{
}

} // verus!
