//! Confirmation tokens: what one is bound to, and how it is written.

use vstd::prelude::*;
use vstd::utf8::encode_utf8;
use crate::hash::{hex_text, hmac, text_hex};
use crate::json::{compact_text, to_text, Json, JsonView};
use crate::text::{decimal, joined, parse_number, parsed_number, split, split_on};

verus! {

/// How long a token is good for, in seconds.
pub const DEFAULT_TTL_SECS: u64 = 60;

/// What a token is bound to.
pub struct Payload {
    pub tool: String,
    pub target: String,
    pub diff_sha256: String,
    pub bundle_version: String,
    pub issued_at: u64,
    pub ttl_secs: u64,
}

/// What a [`Payload`] means.
#[verifier::ext_equal]
pub struct PayloadView {
    pub tool: Seq<char>,
    pub target: Seq<char>,
    pub diff_sha256: Seq<char>,
    pub bundle_version: Seq<char>,
    pub issued_at: nat,
    pub ttl_secs: nat,
}

impl View for Payload {
    type V = PayloadView;

    open spec fn view(&self) -> PayloadView {
        PayloadView {
            tool: self.tool@,
            target: self.target@,
            diff_sha256: self.diff_sha256@,
            bundle_version: self.bundle_version@,
            issued_at: self.issued_at as nat,
            ttl_secs: self.ttl_secs as nat,
        }
    }
}

/// What a token for `tool` on `target` is bound to.
pub open spec fn payload_for(
    tool: Seq<char>,
    target: JsonView,
    diff_sha256: Seq<char>,
    bundle_version: Seq<char>,
    issued_at: nat,
    ttl_secs: nat,
) -> PayloadView {
    PayloadView {
        tool,
        target: compact_text(target),
        diff_sha256,
        bundle_version,
        issued_at,
        ttl_secs,
    }
}

/// What a token for `tool` on `target` is bound to.
pub fn payload(
    tool: &str,
    target: &Json,
    diff_sha256: &str,
    bundle_version: &str,
    issued_at: u64,
    ttl_secs: u64,
) -> (r: Payload)
    ensures
        r@ == payload_for(
            tool@,
            target@,
            diff_sha256@,
            bundle_version@,
            issued_at as nat,
            ttl_secs as nat,
        ),
{
    Payload {
        tool: tool.to_owned(),
        target: to_text(target),
        diff_sha256: diff_sha256.to_owned(),
        bundle_version: bundle_version.to_owned(),
        issued_at,
        ttl_secs,
    }
}

/// Why a token is refused.
#[derive(Debug, Clone, Copy, PartialEq, Eq, Structural)]
pub enum TokenError {
    /// The text is not a token.
    Malformed,
    /// The authentication code does not fit the token under this session's key.
    InvalidMac,
    /// The token names another session.
    SessionMismatch,
    /// The token was issued for another tool.
    ToolMismatch,
    /// The rule set's version has changed since the token was issued.
    SchemaDrift,
    /// The change is no longer the one that the token was issued for.
    DiffDrift,
    /// The token's time is over.
    Expired,
    /// The token has been used before.
    Replay,
}

impl TokenError {
    /// What the error says.
    pub open spec fn says(self) -> Seq<char> {
        match self {
            TokenError::Malformed => "INVALID_TOKEN: malformed token"@,
            TokenError::InvalidMac => "INVALID_TOKEN: authentication code mismatch"@,
            TokenError::SessionMismatch => "INVALID_TOKEN: issued by another session"@,
            TokenError::ToolMismatch => "TOOL_MISMATCH: token was issued for another tool"@,
            TokenError::SchemaDrift => "SCHEMA_DRIFT: bundle version changed since prepare"@,
            TokenError::DiffDrift => "DIFF_DRIFT: the change differs from the prepared one"@,
            TokenError::Expired => "EXPIRED: token has expired"@,
            TokenError::Replay => "REPLAY: token was already used"@,
        }
    }

    /// What the error says.
    pub fn message(&self) -> (r: String)
        ensures
            r@ == self.says(),
    {
        let s: &str = match self {
            TokenError::Malformed => "INVALID_TOKEN: malformed token",
            TokenError::InvalidMac => "INVALID_TOKEN: authentication code mismatch",
            TokenError::SessionMismatch => "INVALID_TOKEN: issued by another session",
            TokenError::ToolMismatch => "TOOL_MISMATCH: token was issued for another tool",
            TokenError::SchemaDrift => "SCHEMA_DRIFT: bundle version changed since prepare",
            TokenError::DiffDrift => "DIFF_DRIFT: the change differs from the prepared one",
            TokenError::Expired => "EXPIRED: token has expired",
            TokenError::Replay => "REPLAY: token was already used",
        };
        s.to_owned()
    }
}

/// What a token is held against when it is used.
pub struct VerifyContext<'a> {
    pub tool: &'a str,
    pub current_diff_sha256: &'a str,
    pub current_bundle_version: &'a str,
}

/// What a [`VerifyContext`] means.
pub struct ContextView {
    pub tool: Seq<char>,
    pub diff_sha256: Seq<char>,
    pub bundle_version: Seq<char>,
}

impl<'a> View for VerifyContext<'a> {
    type V = ContextView;

    open spec fn view(&self) -> ContextView {
        ContextView {
            tool: self.tool@,
            diff_sha256: self.current_diff_sha256@,
            bundle_version: self.current_bundle_version@,
        }
    }
}

/// What the tool `tool` holds a token against.
pub open spec fn context(
    tool: Seq<char>,
    diff_sha256: Seq<char>,
    bundle_version: Seq<char>,
) -> ContextView {
    ContextView { tool, diff_sha256, bundle_version }
}

/// The text that the authentication code is made over: the session, the tool,
/// the target, the digest of the change and the version in hexadecimal, then the
/// time of issue and the time to live.
pub open spec fn token_fields(id: Seq<u8>, p: PayloadView) -> Seq<Seq<char>> {
    seq![
        hex_text(id),
        text_hex(p.tool),
        text_hex(p.target),
        text_hex(p.diff_sha256),
        text_hex(p.bundle_version),
        decimal(p.issued_at),
        decimal(p.ttl_secs),
    ]
}

/// The authentication code of some fields under `key`, in hexadecimal.
pub open spec fn mac_of(key: Seq<u8>, fields: Seq<Seq<char>>) -> Seq<char> {
    hex_text(hmac(key, encode_utf8(joined(fields, seq!['.']))))
}

/// The text of the token that a session with this key and name issues for `p`:
/// the fields and their authentication code, with full stops between them.
pub open spec fn token_text(key: Seq<u8>, id: Seq<u8>, p: PayloadView) -> Seq<char> {
    let fields = token_fields(id, p);
    joined(fields.push(mac_of(key, fields)), seq!['.'])
}

/// Whether a token issued at `issued` for `ttl` seconds is over at `now`.
pub open spec fn is_over(issued: nat, ttl: nat, now: nat) -> bool {
    now >= issued + ttl
}

/// The time of issue and the time to live that a token text names, if it is one.
pub open spec fn times_of(text: Seq<char>) -> Option<(nat, nat)> {
    let parts = split_on(text, '.');
    let issued = parsed_number(parts[5], u64::MAX as nat);
    let ttl = parsed_number(parts[6], u64::MAX as nat);
    if parts.len() != 8 || issued is None || ttl is None {
        None
    } else {
        Some((issued->0, ttl->0))
    }
}

fn read_times(text: &str) -> (r: Option<(u64, u64)>)
    ensures
        match r {
            Some((issued, ttl)) => times_of(text@) == Some((issued as nat, ttl as nat)),
            None => times_of(text@) is None,
        },
{
    let parts: Vec<String> = split(text, '.');
    let ghost all = split_on(text@, '.');
    if parts.len() != 8 {
        return None;
    }
    proof {
        assert(all[5] == parts@[5]@);
        assert(all[6] == parts@[6]@);
    }
    let issued: Option<u64> = parse_number(parts[5].as_str(), u64::MAX);
    let ttl: Option<u64> = parse_number(parts[6].as_str(), u64::MAX);
    match (issued, ttl) {
        (Some(i), Some(t)) => Some((i, t)),
        _ => None,
    }
}

/// The time at which a token says it was issued. A change that is stamped with the time
/// has to be made again with this one to be the change that was proposed.
pub fn issued_at(token: &str) -> (r: Option<u64>)
    ensures
        match r {
            Some(t) => times_of(token@) matches Some((issued, _)) && issued == t,
            None => times_of(token@) is None,
        },
{
    match read_times(token) {
        Some((issued, _)) => Some(issued),
        None => None,
    }
}

/// The time of the proposal that a token belongs to, or why the token is no good at `now`.
pub open spec fn proposed_at(token: Seq<char>, now: nat) -> Result<nat, TokenError> {
    match times_of(token) {
        None => Err(TokenError::Malformed),
        Some((issued, ttl)) => if is_over(issued, ttl, now) {
            Err(TokenError::Expired)
        } else {
            Ok(issued)
        },
    }
}

/// The time of the proposal that a token belongs to, or why the token is no good at `now`.
/// The session is then asked about the token with that time.
pub fn proposal_time(token: &str, now: u64) -> (r: Result<u64, TokenError>)
    ensures
        match proposed_at(token@, now as nat) {
            Ok(t) => r is Ok && r->Ok_0 == t,
            Err(e) => r == Err::<u64, TokenError>(e),
        },
{
    match read_times(token) {
        None => Err(TokenError::Malformed),
        Some((issued, ttl)) => if now >= issued && now - issued >= ttl {
            Err(TokenError::Expired)
        } else {
            Ok(issued)
        },
    }
}

/// What is wrong with a token text, leaving out whether it has been used.
pub open spec fn token_defect(
    key: Seq<u8>,
    id: Seq<u8>,
    text: Seq<char>,
    ctx: ContextView,
    now: nat,
) -> Option<TokenError> {
    let parts = split_on(text, '.');
    let issued = parsed_number(parts[5], u64::MAX as nat);
    let ttl = parsed_number(parts[6], u64::MAX as nat);
    if parts.len() != 8 || issued is None || ttl is None {
        Some(TokenError::Malformed)
    } else if parts[7] != mac_of(key, parts.take(7)) {
        Some(TokenError::InvalidMac)
    } else if parts[0] != hex_text(id) {
        Some(TokenError::SessionMismatch)
    } else if parts[1] != text_hex(ctx.tool) {
        Some(TokenError::ToolMismatch)
    } else if parts[4] != text_hex(ctx.bundle_version) {
        Some(TokenError::SchemaDrift)
    } else if parts[3] != text_hex(ctx.diff_sha256) {
        Some(TokenError::DiffDrift)
    } else if is_over(issued->0, ttl->0, now) {
        Some(TokenError::Expired)
    } else {
        None
    }
}

} // verus!
