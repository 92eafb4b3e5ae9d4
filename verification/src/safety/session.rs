//! The session that issues confirmation tokens and accepts each at most once.

use vstd::prelude::*;
use vstd::utf8::encode_utf8;
use crate::hash::{
    hex_encode, hex_text, hmac, hmac_sha256, lemma_hex_text_has_no_stop,
    lemma_hex_text_injective, lemma_text_hex_injective, text_hex, text_hex_of,
};
use crate::safety::token::{
    is_over, mac_of, proposed_at, times_of, token_defect, token_fields, token_text, ContextView,
    Payload, PayloadView, TokenError, VerifyContext,
};
use crate::text::{
    join, joined, lemma_parse_decimal, lemma_split_joined, parse_number, split, split_on, str_eq,
    texts, u64_to_string,
};

verus! {

/// A session: the key of its authentication codes, its name, and the tokens it
/// has accepted.
pub struct Session {
    key: [u8; 32],
    id: [u8; 32],
    consumed: Vec<String>,
}

/// What a [`Session`] means.
#[verifier::ext_equal]
pub struct SessionView {
    pub key: Seq<u8>,
    pub id: Seq<u8>,
    pub consumed: Set<Seq<char>>,
}

impl View for Session {
    type V = SessionView;

    closed spec fn view(&self) -> SessionView {
        SessionView {
            key: self.key@,
            id: self.id@,
            consumed: texts(self.consumed@).to_set(),
        }
    }
}

impl SessionView {
    /// The token that the session issues for `p`.
    pub open spec fn token(self, p: PayloadView) -> Seq<char> {
        token_text(self.key, self.id, p)
    }

    /// Whether the session accepts the token, and why not if it does not.
    pub open spec fn verdict(self, text: Seq<char>, ctx: ContextView, now: nat) -> Result<
        (),
        TokenError,
    > {
        match token_defect(self.key, self.id, text, ctx, now) {
            Some(e) => Err(e),
            None => if self.consumed.contains(text) {
                Err(TokenError::Replay)
            } else {
                Ok(())
            },
        }
    }

    /// The session after it has been asked about the token: an accepted token is
    /// used up, a refused one leaves the session as it was.
    pub open spec fn after(self, text: Seq<char>, ctx: ContextView, now: nat) -> SessionView {
        if self.verdict(text, ctx, now) is Ok {
            SessionView { consumed: self.consumed.insert(text), ..self }
        } else {
            self
        }
    }
}

impl Session {
    /// A session with the given key and name that has accepted nothing yet.
    pub fn from_raw(key: [u8; 32], id: [u8; 32]) -> (r: Session)
        ensures
            r@ == (SessionView { key: key@, id: id@, consumed: Set::empty() }),
    {
        let consumed: Vec<String> = Vec::new();
        proof {
            assert(texts(consumed@).to_set() =~= Set::empty());
        }
        Session { key, id, consumed }
    }

    fn mac(&self, fields: &Vec<String>) -> (r: String)
        ensures
            r@ == mac_of(self@.key, texts(fields@)),
    {
        let body: String = join(fields, ".");
        proof {
            reveal_strlit(".");
            assert("."@ == seq!['.']);
        }
        hex_encode(hmac_sha256(self.key.as_slice(), body.as_str().as_bytes()).as_slice())
    }

    /// Issues a token bound to `payload`.
    pub fn issue(&self, payload: &Payload) -> (r: String)
        ensures
            r@ == self@.token(payload@),
    {
        let mut fields: Vec<String> = Vec::new();
        fields.push(hex_encode(self.id.as_slice()));
        fields.push(text_hex_of(payload.tool.as_str()));
        fields.push(text_hex_of(payload.target.as_str()));
        fields.push(text_hex_of(payload.diff_sha256.as_str()));
        fields.push(text_hex_of(payload.bundle_version.as_str()));
        fields.push(u64_to_string(payload.issued_at));
        fields.push(u64_to_string(payload.ttl_secs));
        proof {
            reveal_strlit(".");
            assert("."@ == seq!['.']);
            assert(texts(fields@) =~= token_fields(self@.id, payload@));
        }
        let ghost unsigned = texts(fields@);
        let mac: String = self.mac(&fields);
        fields.push(mac);
        proof {
            assert(texts(fields@) =~= unsigned.push(mac@));
        }
        join(&fields, ".")
    }

    fn is_consumed(&self, text: &str) -> (r: bool)
        ensures
            r == self@.consumed.contains(text@),
    {
        for i in 0..self.consumed.len()
            invariant
                forall|j: int| 0 <= j < i ==> (#[trigger] self.consumed@[j])@ != text@,
        {
            if str_eq(self.consumed[i].as_str(), text) {
                proof {
                    assert(texts(self.consumed@)[i as int] == text@);
                }
                return true;
            }
        }
        false
    }

    fn defect(&self, text: &str, ctx: &VerifyContext, now: u64) -> (r: Option<TokenError>)
        ensures
            r == token_defect(self@.key, self@.id, text@, ctx@, now as nat),
    {
        let mut parts: Vec<String> = split(text, '.');
        let ghost all = split_on(text@, '.');
        if parts.len() != 8 {
            return Some(TokenError::Malformed);
        }
        let issued: Option<u64> = parse_number(parts[5].as_str(), u64::MAX);
        let ttl: Option<u64> = parse_number(parts[6].as_str(), u64::MAX);
        let (issued, ttl): (u64, u64) = match (issued, ttl) {
            (Some(i), Some(t)) => (i, t),
            _ => {
                return Some(TokenError::Malformed);
            },
        };
        let mac: String = parts.remove(7);
        proof {
            assert(texts(parts@) =~= all.take(7));
            assert(all[7] == mac@);
        }
        if !str_eq(mac.as_str(), self.mac(&parts).as_str()) {
            return Some(TokenError::InvalidMac);
        }
        if !str_eq(parts[0].as_str(), hex_encode(self.id.as_slice()).as_str()) {
            return Some(TokenError::SessionMismatch);
        }
        if !str_eq(parts[1].as_str(), text_hex_of(ctx.tool).as_str()) {
            return Some(TokenError::ToolMismatch);
        }
        if !str_eq(parts[4].as_str(), text_hex_of(ctx.current_bundle_version).as_str()) {
            return Some(TokenError::SchemaDrift);
        }
        if !str_eq(parts[3].as_str(), text_hex_of(ctx.current_diff_sha256).as_str()) {
            return Some(TokenError::DiffDrift);
        }
        if now >= issued && now - issued >= ttl {
            return Some(TokenError::Expired);
        }
        None
    }

    /// Asks the session to accept a token at the time `now`. A token is accepted
    /// if the session issued it for this tool, this change and this version, its
    /// time is not over, and it has not been accepted before.
    pub fn verify_at(&mut self, text: &str, ctx: &VerifyContext, now: u64) -> (r: Result<
        (),
        TokenError,
    >)
        ensures
            r == old(self)@.verdict(text@, ctx@, now as nat),
            final(self)@ == old(self)@.after(text@, ctx@, now as nat),
    {
        match self.defect(text, ctx, now) {
            Some(e) => {
                return Err(e);
            },
            None => {},
        }
        if self.is_consumed(text) {
            return Err(TokenError::Replay);
        }
        let ghost before = self.consumed@;
        self.consumed.push(text.to_owned());
        proof {
            let after = self.consumed@;
            assert(texts(after) =~= texts(before).push(text@));
            assert(texts(after).to_set() =~= texts(before).to_set().insert(text@)) by {
                assert forall|s: Seq<char>| texts(after).contains(s) <==> (texts(before).contains(s)
                    || s == text@) by {
                    if texts(before).contains(s) {
                        let i = choose|i: int| 0 <= i < texts(before).len() && texts(before)[i] == s;
                        assert(texts(after)[i] == s);
                    }
                    assert(texts(after)[texts(before).len() as int] == text@);
                }
            }
        }
        Ok(())
    }
}

/// A token is cut into the fields it was made of and their authentication code.
proof fn lemma_token_parts(key: Seq<u8>, id: Seq<u8>, p: PayloadView)
    requires
        p.issued_at <= u64::MAX,
        p.ttl_secs <= u64::MAX,
    ensures
        split_on(token_text(key, id, p), '.') == token_fields(id, p).push(
            mac_of(key, token_fields(id, p)),
        ),
{
    let fields = token_fields(id, p);
    let all = fields.push(mac_of(key, fields));
    lemma_parse_decimal(p.issued_at, u64::MAX as nat);
    lemma_parse_decimal(p.ttl_secs, u64::MAX as nat);
    lemma_hex_text_has_no_stop(id);
    lemma_hex_text_has_no_stop(encode_utf8(p.tool));
    lemma_hex_text_has_no_stop(encode_utf8(p.target));
    lemma_hex_text_has_no_stop(encode_utf8(p.diff_sha256));
    lemma_hex_text_has_no_stop(encode_utf8(p.bundle_version));
    lemma_hex_text_has_no_stop(
        hmac(key, encode_utf8(joined(fields, seq!['.']))),
    );
    assert forall|i: int| 0 <= i < all.len() implies !(#[trigger] all[i]).contains('.') by {
        if i < 7 {
            assert(all[i] == fields[i]);
        }
    }
    lemma_split_joined(all, '.');
}

/// What becomes of a token that the session issued: it is refused for another
/// tool, for another version, for another change, when its time is over and when
/// it has been accepted before, with the error that says so, and is accepted
/// otherwise.
pub proof fn law_issued_token(s: SessionView, p: PayloadView, ctx: ContextView, now: nat)
    requires
        p.issued_at <= u64::MAX,
        p.ttl_secs <= u64::MAX,
    ensures
        s.verdict(s.token(p), ctx, now) == (if ctx.tool != p.tool {
            Err::<(), TokenError>(TokenError::ToolMismatch)
        } else if ctx.bundle_version != p.bundle_version {
            Err(TokenError::SchemaDrift)
        } else if ctx.diff_sha256 != p.diff_sha256 {
            Err(TokenError::DiffDrift)
        } else if is_over(p.issued_at, p.ttl_secs, now) {
            Err(TokenError::Expired)
        } else if s.consumed.contains(s.token(p)) {
            Err(TokenError::Replay)
        } else {
            Ok(())
        }),
{
    let fields = token_fields(s.id, p);
    lemma_token_parts(s.key, s.id, p);
    lemma_parse_decimal(p.issued_at, u64::MAX as nat);
    lemma_parse_decimal(p.ttl_secs, u64::MAX as nat);
    assert(fields.push(mac_of(s.key, fields)).take(7) =~= fields);
    if ctx.tool != p.tool && text_hex(ctx.tool) == text_hex(p.tool) {
        lemma_text_hex_injective(ctx.tool, p.tool);
    }
    if ctx.bundle_version != p.bundle_version && text_hex(ctx.bundle_version)
        == text_hex(p.bundle_version) {
        lemma_text_hex_injective(ctx.bundle_version, p.bundle_version);
    }
    if ctx.diff_sha256 != p.diff_sha256 && text_hex(ctx.diff_sha256)
        == text_hex(p.diff_sha256) {
        lemma_text_hex_injective(ctx.diff_sha256, p.diff_sha256);
    }
}

/// A token names the time at which it was issued and how long it is good for.
pub proof fn law_token_names_its_time(s: SessionView, p: PayloadView)
    requires
        p.issued_at <= u64::MAX,
        p.ttl_secs <= u64::MAX,
    ensures
        times_of(s.token(p)) == Some((p.issued_at, p.ttl_secs)),
{
    lemma_token_parts(s.key, s.id, p);
    lemma_parse_decimal(p.issued_at, u64::MAX as nat);
    lemma_parse_decimal(p.ttl_secs, u64::MAX as nat);
}

/// Asking with the time of the proposal lets nothing through that is over: what is then
/// accepted is accepted at the present time too, and leaves the same session.
pub proof fn law_time_of_the_proposal(
    s: SessionView,
    token: Seq<char>,
    ctx: ContextView,
    now: nat,
)
    requires
        proposed_at(token, now) is Ok,
        s.verdict(token, ctx, proposed_at(token, now)->Ok_0) is Ok,
    ensures
        s.verdict(token, ctx, now) is Ok,
        s.after(token, ctx, proposed_at(token, now)->Ok_0) == s.after(token, ctx, now),
{
}

/// A token is accepted at most once: after it has been, it is refused in every
/// context and at every time.
pub proof fn law_token_is_used_once(
    s: SessionView,
    text: Seq<char>,
    ctx: ContextView,
    now: nat,
    later_ctx: ContextView,
    later: nat,
)
    requires
        s.verdict(text, ctx, now) is Ok,
    ensures
        s.after(text, ctx, now).verdict(text, later_ctx, later) is Err,
        s.after(text, ctx, now).verdict(text, ctx, now) == Err::<(), TokenError>(
            TokenError::Replay,
        ),
{
}

/// Using one token leaves the others as they were: what the session answers about
/// another text does not change.
pub proof fn law_tokens_are_independent(
    s: SessionView,
    text: Seq<char>,
    ctx: ContextView,
    now: nat,
    other: Seq<char>,
    other_ctx: ContextView,
    other_now: nat,
)
    requires
        other != text,
    ensures
        s.after(text, ctx, now).verdict(other, other_ctx, other_now) == s.verdict(
            other,
            other_ctx,
            other_now,
        ),
{
}

/// A refused token changes nothing.
pub proof fn law_refusal_keeps_session(s: SessionView, text: Seq<char>, ctx: ContextView, now: nat)
    requires
        s.verdict(text, ctx, now) is Err,
    ensures
        s.after(text, ctx, now) == s,
{
}

/// A token of a session with another name is refused, unless its authentication
/// code fails first.
pub proof fn law_token_of_another_session(
    s: SessionView,
    other: SessionView,
    p: PayloadView,
    ctx: ContextView,
    now: nat,
)
    requires
        p.issued_at <= u64::MAX,
        p.ttl_secs <= u64::MAX,
        s.id != other.id,
    ensures
        s.verdict(other.token(p), ctx, now) == Err::<(), TokenError>(TokenError::InvalidMac)
            || s.verdict(other.token(p), ctx, now) == Err::<(), TokenError>(
            TokenError::SessionMismatch,
        ),
{
    lemma_token_parts(other.key, other.id, p);
    lemma_parse_decimal(p.issued_at, u64::MAX as nat);
    lemma_parse_decimal(p.ttl_secs, u64::MAX as nat);
    if hex_text(s.id) == hex_text(other.id) {
        lemma_hex_text_injective(s.id, other.id);
    }
}

/// A token is accepted until its time is over, and never from then on.
pub proof fn law_tokens_expire(s: SessionView, p: PayloadView, ctx: ContextView, now: nat)
    requires
        p.issued_at <= u64::MAX,
        p.ttl_secs <= u64::MAX,
    ensures
        now >= p.issued_at + p.ttl_secs ==> s.verdict(s.token(p), ctx, now) is Err,
        now < p.issued_at + p.ttl_secs ==> s.verdict(s.token(p), ctx, now) != Err::<
            (),
            TokenError,
        >(TokenError::Expired),
        now < p.issued_at + p.ttl_secs && ctx.tool == p.tool && ctx.bundle_version
            == p.bundle_version && ctx.diff_sha256 == p.diff_sha256 && !s.consumed.contains(
            s.token(p),
        ) ==> s.verdict(s.token(p), ctx, now) is Ok,
{
    law_issued_token(s, p, ctx, now);
}

/// A token that was made with another key is refused, unless the two keys give the same
/// authentication code for it.
pub proof fn law_token_of_another_key(
    s: SessionView,
    other: SessionView,
    p: PayloadView,
    ctx: ContextView,
    now: nat,
)
    requires
        p.issued_at <= u64::MAX,
        p.ttl_secs <= u64::MAX,
    ensures
        ({
            let message = encode_utf8(joined(token_fields(other.id, p), seq!['.']));
            s.verdict(other.token(p), ctx, now) is Err || hmac(s.key, message) == hmac(
                other.key,
                message,
            )
        }),
{
    let fields = token_fields(other.id, p);
    let all = fields.push(mac_of(other.key, fields));
    lemma_token_parts(other.key, other.id, p);
    assert(all.take(7) =~= fields);
    assert(all[7] == mac_of(other.key, fields));
    if s.verdict(other.token(p), ctx, now) is Ok {
        let message = encode_utf8(joined(fields, seq!['.']));
        lemma_hex_text_injective(hmac(s.key, message), hmac(other.key, message));
    }
}

/// Every field of a token is covered by its authentication code: two tokens of a session with
/// different contents carry codes of different messages.
pub proof fn law_code_covers_every_field(id: Seq<u8>, p: PayloadView, q: PayloadView)
    requires
        p.issued_at <= u64::MAX,
        p.ttl_secs <= u64::MAX,
        q.issued_at <= u64::MAX,
        q.ttl_secs <= u64::MAX,
        p != q,
    ensures
        encode_utf8(joined(token_fields(id, p), seq!['.'])) != encode_utf8(
            joined(token_fields(id, q), seq!['.']),
        ),
{
    let (a, b) = (token_fields(id, p), token_fields(id, q));
    let (x, y) = (joined(a, seq!['.']), joined(b, seq!['.']));
    if encode_utf8(x) == encode_utf8(y) {
        vstd::utf8::encode_utf8_decode_utf8(x);
        vstd::utf8::encode_utf8_decode_utf8(y);
        lemma_fields_split(id, p);
        lemma_fields_split(id, q);
        assert(a[1] == b[1] && a[2] == b[2] && a[3] == b[3] && a[4] == b[4] && a[5] == b[5] && a[6]
            == b[6]);
        lemma_text_hex_injective(p.tool, q.tool);
        lemma_text_hex_injective(p.target, q.target);
        lemma_text_hex_injective(p.diff_sha256, q.diff_sha256);
        lemma_text_hex_injective(p.bundle_version, q.bundle_version);
        lemma_parse_decimal(p.issued_at, u64::MAX as nat);
        lemma_parse_decimal(q.issued_at, u64::MAX as nat);
        lemma_parse_decimal(p.ttl_secs, u64::MAX as nat);
        lemma_parse_decimal(q.ttl_secs, u64::MAX as nat);
    }
}

proof fn lemma_fields_split(id: Seq<u8>, p: PayloadView)
    requires
        p.issued_at <= u64::MAX,
        p.ttl_secs <= u64::MAX,
    ensures
        split_on(joined(token_fields(id, p), seq!['.']), '.') == token_fields(id, p),
{
    let fields = token_fields(id, p);
    lemma_hex_text_has_no_stop(id);
    lemma_hex_text_has_no_stop(encode_utf8(p.tool));
    lemma_hex_text_has_no_stop(encode_utf8(p.target));
    lemma_hex_text_has_no_stop(encode_utf8(p.diff_sha256));
    lemma_hex_text_has_no_stop(encode_utf8(p.bundle_version));
    lemma_parse_decimal(p.issued_at, u64::MAX as nat);
    lemma_parse_decimal(p.ttl_secs, u64::MAX as nat);
    assert forall|i: int| 0 <= i < fields.len() implies !(#[trigger] fields[i]).contains('.') by {
        assert(i == 0 || i == 1 || i == 2 || i == 3 || i == 4 || i == 5 || i == 6);
    }
    lemma_split_joined(fields, '.');
}

/// Only what carries this session's authentication code is accepted: whatever else the text
/// says, its last part is the code of the parts before it.
pub proof fn law_accepted_texts_carry_the_code(
    s: SessionView,
    text: Seq<char>,
    ctx: ContextView,
    now: nat,
)
    requires
        s.verdict(text, ctx, now) is Ok,
    ensures
        ({
            let parts = split_on(text, '.');
            &&& parts.len() == 8
            &&& parts[7] == hex_text(
                hmac(s.key, encode_utf8(joined(parts.take(7), seq!['.']))),
            )
            &&& parts[0] == hex_text(s.id)
            &&& parts[1] == text_hex(ctx.tool)
            &&& parts[3] == text_hex(ctx.diff_sha256)
            &&& parts[4] == text_hex(ctx.bundle_version)
            &&& !s.consumed.contains(text)
        }),
{
}

} // verus!
