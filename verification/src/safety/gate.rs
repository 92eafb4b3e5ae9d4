//! What every change of the live state has to pass: live writes must be allowed,
//! and a confirmation token must be accepted.

use vstd::prelude::*;
use crate::safety::session::{Session, SessionView};
use crate::safety::token::{ContextView, VerifyContext};
use crate::text::{concat, opt_text};

verus! {

/// Why a change is refused, if it is. `live_write` says whether live writes are
/// allowed, `before` stands before what is said of the token.
pub open spec fn refused(
    s: SessionView,
    live_write: Result<(), String>,
    token: Seq<char>,
    ctx: ContextView,
    now: nat,
    before: Seq<char>,
) -> Option<Seq<char>> {
    match live_write {
        Err(e) => Some(e@),
        Ok(_) => match s.verdict(token, ctx, now) {
            Err(e) => Some(before + e.says()),
            Ok(_) => None,
        },
    }
}

/// The session after a change was asked for: where live writes are not allowed, the
/// token is not looked at.
pub open spec fn session_after(
    s: SessionView,
    live_write: Result<(), String>,
    token: Seq<char>,
    ctx: ContextView,
    now: nat,
) -> SessionView {
    if live_write is Ok {
        s.after(token, ctx, now)
    } else {
        s
    }
}

/// Asks whether a change may be made.
pub fn pass(
    session: &mut Session,
    live_write: Result<(), String>,
    token: &str,
    ctx: &VerifyContext,
    now: u64,
    before: &str,
) -> (r: Option<String>)
    ensures
        opt_text(r) == refused(old(session)@, live_write, token@, ctx@, now as nat, before@),
        final(session)@ == session_after(old(session)@, live_write, token@, ctx@, now as nat),
{
    match live_write {
        Err(e) => Some(e),
        Ok(()) => match session.verify_at(token, ctx, now) {
            Ok(()) => None,
            Err(e) => Some(concat(before, e.message().as_str())),
        },
    }
}

/// Nothing passes without an accepted token, and what passes uses the token up.
pub proof fn law_only_accepted_tokens_pass(
    s: SessionView,
    live_write: Result<(), String>,
    token: Seq<char>,
    ctx: ContextView,
    now: nat,
    before: Seq<char>,
)
    requires
        refused(s, live_write, token, ctx, now, before) is None,
    ensures
        live_write is Ok,
        s.verdict(token, ctx, now) is Ok,
        session_after(s, live_write, token, ctx, now).consumed.contains(token),
        refused(
            session_after(s, live_write, token, ctx, now),
            live_write,
            token,
            ctx,
            now,
            before,
        ) is Some,
{
}

/// A change passes just if changes are allowed and the token is accepted; if it does not, the
/// session stays as it was.
pub proof fn law_what_passes(
    s: SessionView,
    live_write: Result<(), String>,
    token: Seq<char>,
    ctx: ContextView,
    now: nat,
    before: Seq<char>,
)
    ensures
        refused(s, live_write, token, ctx, now, before) is None <==> live_write is Ok && s.verdict(
            token,
            ctx,
            now,
        ) is Ok,
        refused(s, live_write, token, ctx, now, before) is Some ==> session_after(
            s,
            live_write,
            token,
            ctx,
            now,
        ) == s,
        live_write matches Err(e) ==> refused(s, live_write, token, ctx, now, before) == Some(e@),
{
}

} // verus!
