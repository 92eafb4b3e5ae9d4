//! Switching single entries of subscribed blocklists off and on again.
//!
//! The rule set has three overlay lists: an entry that stands in one of them is
//! switched off in the blocklists, which themselves are never touched. Both
//! directions can be repeated: switching off what is off, or on what is on,
//! changes nothing.

use vstd::prelude::*;
use crate::hash::{collide, json_sha256, json_sha256_of, lemma_json_digests};
use crate::json::{compact_text, jsons, member, nests_within, reads_as, Json, JsonView};
use crate::model::{copy_jsons, Model, ModelView};
use crate::safety::session::{law_issued_token, Session, SessionView};
use crate::safety::token::{
    context, payload, payload_for, ContextView, PayloadView, TokenError, VerifyContext,
    DEFAULT_TTL_SECS,
};
use crate::text::{concat, decimal, str_eq, u64_to_string};

verus! {

/// Which overlay list an entry belongs to.
#[derive(Debug, Clone, Copy, PartialEq, Eq, Structural)]
pub enum BlocklistEntryKind {
    /// `disabledDomainsInLists`.
    Domain,
    /// `disabledHostNamesInLists`.
    Host,
    /// `disabledIPAddressRangesInLists`.
    Address,
}

impl BlocklistEntryKind {
    /// The overlay list of this kind.
    pub open spec fn array(self, m: ModelView) -> Seq<JsonView> {
        match self {
            BlocklistEntryKind::Domain => m.disabled_domains_in_lists,
            BlocklistEntryKind::Host => m.disabled_host_names_in_lists,
            BlocklistEntryKind::Address => m.disabled_ip_address_ranges_in_lists,
        }
    }

    /// The rule set with another overlay list of this kind.
    pub open spec fn with_array(self, m: ModelView, a: Seq<JsonView>) -> ModelView {
        match self {
            BlocklistEntryKind::Domain => ModelView { disabled_domains_in_lists: a, ..m },
            BlocklistEntryKind::Host => ModelView { disabled_host_names_in_lists: a, ..m },
            BlocklistEntryKind::Address => ModelView {
                disabled_ip_address_ranges_in_lists: a,
                ..m
            },
        }
    }

    /// The overlay list of this kind.
    pub fn array_mut<'a>(self, model: &'a mut Model) -> (r: &'a mut Vec<Json>)
        ensures
            jsons(r@) == self.array(old(model)@),
            final(model)@ == self.with_array(old(model)@, jsons(final(r)@)),
    {
        match self {
            BlocklistEntryKind::Domain => &mut model.disabled_domains_in_lists,
            BlocklistEntryKind::Host => &mut model.disabled_host_names_in_lists,
            BlocklistEntryKind::Address => &mut model.disabled_ip_address_ranges_in_lists,
        }
    }

    /// The word that stands for the kind.
    pub open spec fn word(self) -> Seq<char> {
        match self {
            BlocklistEntryKind::Domain => "domain"@,
            BlocklistEntryKind::Host => "host"@,
            BlocklistEntryKind::Address => "address"@,
        }
    }

    /// The word that stands for the kind.
    pub fn label(self) -> (r: &'static str)
        ensures
            r@ == self.word(),
    {
        match self {
            BlocklistEntryKind::Domain => "domain",
            BlocklistEntryKind::Host => "host",
            BlocklistEntryKind::Address => "address",
        }
    }
}

/// The three overlay lists.
#[derive(Debug)]
pub struct ListOverlaysResult {
    pub disabled_domains: Vec<Json>,
    pub disabled_hosts: Vec<Json>,
    pub disabled_addresses: Vec<Json>,
}

/// What a proposal is given.
#[derive(Debug)]
pub struct PrepareOverlayArgs {
    pub entry: String,
    pub kind: BlocklistEntryKind,
}

/// What the tools that write are given.
#[derive(Debug)]
pub struct OverlayWriteArgs {
    pub entry: String,
    pub kind: BlocklistEntryKind,
    pub token: String,
}

/// What a proposal returns.
#[derive(Debug)]
pub struct OverlayPrepareResult {
    pub token: String,
    pub diff: Json,
    pub expires_in_seconds: u64,
}

/// What can go wrong.
#[derive(Debug)]
pub enum OverlayError {
    Token(TokenError),
}

impl OverlayError {
    /// What the error says.
    pub fn message(&self) -> (r: String)
        ensures
            r@ == "token verify failed: "@ + self->Token_0.says(),
    {
        match self {
            OverlayError::Token(e) => concat("token verify failed: ", e.message().as_str()),
        }
    }
}

/// All three overlay lists.
pub fn list_overlays(model: &Model) -> (r: ListOverlaysResult)
    ensures
        jsons(r.disabled_domains@) == model@.disabled_domains_in_lists,
        jsons(r.disabled_hosts@) == model@.disabled_host_names_in_lists,
        jsons(r.disabled_addresses@) == model@.disabled_ip_address_ranges_in_lists,
{
    ListOverlaysResult {
        disabled_domains: copy_jsons(&model.disabled_domains_in_lists),
        disabled_hosts: copy_jsons(&model.disabled_host_names_in_lists),
        disabled_addresses: copy_jsons(&model.disabled_ip_address_ranges_in_lists),
    }
}

/// Whether a list holds an entry. Only a text can be one; a value of any other
/// shape is no entry.
pub open spec fn holds(a: Seq<JsonView>, entry: Seq<char>) -> bool {
    a.contains(JsonView::Text(entry))
}

/// The list without the entry, wherever it stands; the others in their order.
pub open spec fn without(a: Seq<JsonView>, entry: Seq<char>) -> Seq<JsonView>
    decreases a.len(),
{
    if a.len() == 0 {
        a
    } else if a.last() == JsonView::Text(entry) {
        without(a.drop_last(), entry)
    } else {
        without(a.drop_last(), entry).push(a.last())
    }
}

/// The rule set with the entry switched off: it stands at the end of its list,
/// unless the list holds it already.
pub open spec fn disabled(m: ModelView, entry: Seq<char>, kind: BlocklistEntryKind) -> ModelView {
    if holds(kind.array(m), entry) {
        m
    } else {
        kind.with_array(m, kind.array(m).push(JsonView::Text(entry)))
    }
}

/// The rule set with the entry switched on: its list does not hold it.
pub open spec fn enabled(m: ModelView, entry: Seq<char>, kind: BlocklistEntryKind) -> ModelView {
    kind.with_array(m, without(kind.array(m), entry))
}

fn entry_value_matches(v: &Json, entry: &str) -> (r: bool)
    ensures
        r == (v@ == JsonView::Text(entry@)),
{
    match v {
        Json::Text(s) => str_eq(s.as_str(), entry),
        _ => false,
    }
}

fn entry_present(arr: &Vec<Json>, entry: &str) -> (r: bool)
    ensures
        r == holds(jsons(arr@), entry@),
{
    for i in 0..arr.len()
        invariant
            forall|j: int| 0 <= j < i ==> (#[trigger] arr@[j])@ != JsonView::Text(entry@),
    {
        if entry_value_matches(&arr[i], entry) {
            proof {
                assert(jsons(arr@)[i as int] == JsonView::Text(entry@));
            }
            return true;
        }
    }
    false
}

/// Switches an entry off. The answer says whether anything changed.
pub fn disable_pure(model: &mut Model, entry: &str, kind: BlocklistEntryKind) -> (r: bool)
    ensures
        final(model)@ == disabled(old(model)@, entry@, kind),
        r == !holds(kind.array(old(model)@), entry@),
{
    let arr: &mut Vec<Json> = kind.array_mut(model);
    if entry_present(arr, entry) {
        return false;
    }
    let ghost prior = arr@;
    arr.push(Json::Text(entry.to_owned()));
    proof {
        assert(jsons(arr@) =~= jsons(prior).push(JsonView::Text(entry@)));
    }
    true
}

/// Switches an entry on. The answer says whether anything changed.
pub fn enable_pure(model: &mut Model, entry: &str, kind: BlocklistEntryKind) -> (r: bool)
    ensures
        final(model)@ == enabled(old(model)@, entry@, kind),
        r == holds(kind.array(old(model)@), entry@),
{
    let arr: &mut Vec<Json> = kind.array_mut(model);
    let ghost prior = arr@;
    let before: usize = arr.len();
    let mut kept: Vec<Json> = Vec::new();
    let mut i: usize = 0;
    proof {
        assert(jsons(kept@) =~= without(jsons(prior).take(0), entry@));
    }
    while i < arr.len()
        invariant
            i <= arr.len(),
            arr@ == prior,
            jsons(kept@) == without(jsons(prior).take(i as int), entry@),
        decreases arr.len() - i,
    {
        let ghost so_far = jsons(prior).take(i + 1);
        let ghost kept0 = kept@;
        proof {
            assert(so_far.drop_last() == jsons(prior).take(i as int));
            assert(so_far.last() == prior[i as int]@);
        }
        if !entry_value_matches(&arr[i], entry) {
            kept.push(arr[i].copy());
            proof {
                assert(jsons(kept@) =~= jsons(kept0).push(prior[i as int]@));
            }
        }
        i = i + 1;
    }
    proof {
        assert(jsons(prior).take(prior.len() as int) == jsons(prior));
        lemma_without(jsons(prior), entry@);
    }
    let changed: bool = kept.len() != before;
    *arr = kept;
    changed
}

/// Removing an entry shortens the list if and only if the list holds it.
proof fn lemma_without(a: Seq<JsonView>, entry: Seq<char>)
    ensures
        !holds(without(a, entry), entry),
        without(a, entry).len() <= a.len(),
        holds(a, entry) <==> without(a, entry).len() < a.len(),
        !holds(a, entry) ==> without(a, entry) == a,
    decreases a.len(),
{
    if a.len() > 0 {
        let b = a.drop_last();
        lemma_without(b, entry);
        let t = JsonView::Text(entry);
        if a.contains(t) && a.last() != t {
            let i = choose|i: int| 0 <= i < a.len() && a[i] == t;
            assert(b[i] == t);
        }
        if b.contains(t) {
            let i = choose|i: int| 0 <= i < b.len() && b[i] == t;
            assert(a[i] == t);
        }
        if a.last() == t {
            assert(a[a.len() - 1] == t);
        }
        if !holds(a, entry) {
            assert(b.push(a.last()) == a);
        }
        let w = without(a, entry);
        if w.contains(t) {
            let i = choose|i: int| 0 <= i < w.len() && w[i] == t;
            assert(without(b, entry).contains(t) || a.last() == t) by {
                if i < without(b, entry).len() {
                    assert(without(b, entry)[i] == t);
                }
            }
        }
    }
}

/// The two directions.
#[derive(Debug, Clone, Copy, PartialEq, Eq, Structural)]
pub enum OverlayOp {
    Disable,
    Enable,
}

impl OverlayOp {
    /// The tool that does it.
    pub open spec fn tool(self) -> Seq<char> {
        match self {
            OverlayOp::Disable => "disable_blocklist_entry"@,
            OverlayOp::Enable => "enable_blocklist_entry"@,
        }
    }

    /// The rule set after it.
    pub open spec fn done(self, m: ModelView, entry: Seq<char>, kind: BlocklistEntryKind) -> ModelView {
        match self {
            OverlayOp::Disable => disabled(m, entry, kind),
            OverlayOp::Enable => enabled(m, entry, kind),
        }
    }
}

/// The tool that does it.
pub fn tool_name(op: OverlayOp) -> (r: &'static str)
    ensures
        r@ == op.tool(),
{
    match op {
        OverlayOp::Disable => "disable_blocklist_entry",
        OverlayOp::Enable => "enable_blocklist_entry",
    }
}

/// What would change.
pub open spec fn overlay_diff(op: OverlayOp, entry: Seq<char>, kind: BlocklistEntryKind) -> JsonView {
    JsonView::Object(
        Map::empty().insert("kind"@, JsonView::Text(op.tool())).insert(
            "entry"@,
            JsonView::Text(entry),
        ).insert("entry_kind"@, JsonView::Text(kind.word())),
    )
}

/// What would change.
pub fn build_diff(op: OverlayOp, entry: &str, kind: BlocklistEntryKind) -> (r: Json)
    ensures
        r@ == overlay_diff(op, entry@, kind),
{
    let mut doc: Json = Json::object();
    doc.insert("kind".to_owned(), Json::text(tool_name(op)));
    doc.insert("entry".to_owned(), Json::text(entry));
    doc.insert("entry_kind".to_owned(), Json::text(kind.label()));
    doc
}

/// Whether the text that the digest of a change is made of is read back as the change.
pub open spec fn is_read_back(op: OverlayOp, entry: Seq<char>, kind: BlocklistEntryKind) -> bool {
    reads_as(compact_text(overlay_diff(op, entry, kind)), overlay_diff(op, entry, kind))
}

proof fn lemma_diff_is_shallow(op: OverlayOp, entry: Seq<char>, kind: BlocklistEntryKind)
    ensures
        nests_within(overlay_diff(op, entry, kind), 127),
{
    reveal_with_fuel(nests_within, 2);
}

/// Different entries or kinds are different changes.
proof fn lemma_diffs_differ(
    op: OverlayOp,
    entry: Seq<char>,
    kind: BlocklistEntryKind,
    other: Seq<char>,
    other_kind: BlocklistEntryKind,
)
    requires
        other != entry || other_kind != kind,
    ensures
        overlay_diff(op, other, other_kind) != overlay_diff(op, entry, kind),
{
    reveal_strlit("entry");
    reveal_strlit("entry_kind");
    reveal_strlit("domain");
    reveal_strlit("host");
    reveal_strlit("address");
    assert("entry"@.len() != "entry_kind"@.len());
    let (a, b) = (
        overlay_diff(op, entry, kind)->Object_0,
        overlay_diff(op, other, other_kind)->Object_0,
    );
    if a == b {
        assert(a["entry"@] == JsonView::Text(entry));
        assert(b["entry"@] == JsonView::Text(other));
        assert(a["entry_kind"@] == JsonView::Text(kind.word()));
        assert(b["entry_kind"@] == JsonView::Text(other_kind.word()));
        assert(kind.word().len() == other_kind.word().len());
    }
}

/// What the change is about.
pub open spec fn overlay_target(
    op: OverlayOp,
    entry: Seq<char>,
    kind: BlocklistEntryKind,
) -> JsonView {
    JsonView::Object(
        Map::empty().insert("op"@, JsonView::Text(op.tool())).insert(
            "kind"@,
            JsonView::Text(kind.word()),
        ).insert("entry"@, JsonView::Text(entry)),
    )
}

/// What the token for a change is bound to.
pub open spec fn overlay_payload(
    op: OverlayOp,
    entry: Seq<char>,
    kind: BlocklistEntryKind,
    current: ModelView,
    now: nat,
) -> PayloadView {
    payload_for(
        op.tool(),
        overlay_target(op, entry, kind),
        json_sha256(overlay_diff(op, entry, kind)),
        decimal(current.bundle_version as nat),
        now,
        DEFAULT_TTL_SECS as nat,
    )
}

/// What a token for a change is held against.
pub open spec fn overlay_context(
    op: OverlayOp,
    entry: Seq<char>,
    kind: BlocklistEntryKind,
    current: ModelView,
) -> ContextView {
    context(
        op.tool(),
        json_sha256(overlay_diff(op, entry, kind)),
        decimal(current.bundle_version as nat),
    )
}

/// Proposes to switch an entry off.
pub fn prepare_disable(
    session: &Session,
    args: PrepareOverlayArgs,
    current: &Model,
    now_unix_secs: u64,
) -> (r: OverlayPrepareResult)
    ensures
        r.token@ == session@.token(
            overlay_payload(
                OverlayOp::Disable,
                args.entry@,
                args.kind,
                current@,
                now_unix_secs as nat,
            ),
        ),
        r.diff@ == overlay_diff(OverlayOp::Disable, args.entry@, args.kind),
        r.expires_in_seconds == DEFAULT_TTL_SECS,
        is_read_back(OverlayOp::Disable, args.entry@, args.kind),
{
    prepare_op(session, args.entry, args.kind, OverlayOp::Disable, current, now_unix_secs)
}

/// Proposes to switch an entry on.
pub fn prepare_enable(
    session: &Session,
    args: PrepareOverlayArgs,
    current: &Model,
    now_unix_secs: u64,
) -> (r: OverlayPrepareResult)
    ensures
        r.token@ == session@.token(
            overlay_payload(
                OverlayOp::Enable,
                args.entry@,
                args.kind,
                current@,
                now_unix_secs as nat,
            ),
        ),
        r.diff@ == overlay_diff(OverlayOp::Enable, args.entry@, args.kind),
        r.expires_in_seconds == DEFAULT_TTL_SECS,
        is_read_back(OverlayOp::Enable, args.entry@, args.kind),
{
    prepare_op(session, args.entry, args.kind, OverlayOp::Enable, current, now_unix_secs)
}

fn prepare_op(
    session: &Session,
    entry: String,
    kind: BlocklistEntryKind,
    op: OverlayOp,
    current: &Model,
    now_unix_secs: u64,
) -> (r: OverlayPrepareResult)
    ensures
        r.token@ == session@.token(
            overlay_payload(op, entry@, kind, current@, now_unix_secs as nat),
        ),
        r.diff@ == overlay_diff(op, entry@, kind),
        r.expires_in_seconds == DEFAULT_TTL_SECS,
        is_read_back(op, entry@, kind),
{
    let diff: Json = build_diff(op, entry.as_str(), kind);
    proof {
        lemma_diff_is_shallow(op, entry@, kind);
    }
    let sha: String = json_sha256_of(&diff);
    let mut target: Json = Json::object();
    target.insert("op".to_owned(), Json::text(tool_name(op)));
    target.insert("kind".to_owned(), Json::text(kind.label()));
    target.insert("entry".to_owned(), Json::text(entry.as_str()));
    let token: String = session.issue(
        &payload(
            tool_name(op),
            &target,
            sha.as_str(),
            u64_to_string(current.bundle_version).as_str(),
            now_unix_secs,
            DEFAULT_TTL_SECS,
        ),
    );
    OverlayPrepareResult { token, diff, expires_in_seconds: DEFAULT_TTL_SECS }
}

fn verify_token(
    current: &Model,
    entry: &str,
    kind: BlocklistEntryKind,
    op: OverlayOp,
    token_str: String,
    session: &mut Session,
    now_unix_secs: u64,
) -> (r: Result<(), OverlayError>)
    ensures
        ({
            let ctx = overlay_context(op, entry@, kind, current@);
            &&& final(session)@ == old(session)@.after(token_str@, ctx, now_unix_secs as nat)
            &&& match old(session)@.verdict(token_str@, ctx, now_unix_secs as nat) {
                Err(e) => r == Err::<(), OverlayError>(OverlayError::Token(e)),
                Ok(_) => r is Ok,
            }
        }),
        is_read_back(op, entry@, kind),
{
    proof {
        lemma_diff_is_shallow(op, entry@, kind);
    }
    let sha: String = json_sha256_of(&build_diff(op, entry, kind));
    let bundle_version: String = u64_to_string(current.bundle_version);
    let ctx: VerifyContext = VerifyContext {
        tool: tool_name(op),
        current_diff_sha256: sha.as_str(),
        current_bundle_version: bundle_version.as_str(),
    };
    match session.verify_at(token_str.as_str(), &ctx, now_unix_secs) {
        Ok(()) => Ok(()),
        Err(e) => Err(OverlayError::Token(e)),
    }
}

/// Switches an entry off, if the token is accepted for that. The token is used up
/// even where the entry is off already.
pub fn apply_disable_pure(
    current: Model,
    entry: String,
    kind: BlocklistEntryKind,
    token_str: String,
    session: &mut Session,
    now_unix_secs: u64,
) -> (r: Result<Model, OverlayError>)
    ensures
        ({
            let ctx = overlay_context(OverlayOp::Disable, entry@, kind, current@);
            &&& final(session)@ == old(session)@.after(token_str@, ctx, now_unix_secs as nat)
            &&& match old(session)@.verdict(token_str@, ctx, now_unix_secs as nat) {
                Err(e) => r == Err::<Model, OverlayError>(OverlayError::Token(e)),
                Ok(_) => r is Ok && r->Ok_0@ == disabled(current@, entry@, kind),
            }
        }),
        is_read_back(OverlayOp::Disable, entry@, kind),
{
    let mut current: Model = current;
    match verify_token(
        &current,
        entry.as_str(),
        kind,
        OverlayOp::Disable,
        token_str,
        session,
        now_unix_secs,
    ) {
        Ok(()) => {},
        Err(e) => {
            return Err(e);
        },
    }
    disable_pure(&mut current, entry.as_str(), kind);
    Ok(current)
}

/// Switches an entry on, if the token is accepted for that.
pub fn apply_enable_pure(
    current: Model,
    entry: String,
    kind: BlocklistEntryKind,
    token_str: String,
    session: &mut Session,
    now_unix_secs: u64,
) -> (r: Result<Model, OverlayError>)
    ensures
        ({
            let ctx = overlay_context(OverlayOp::Enable, entry@, kind, current@);
            &&& final(session)@ == old(session)@.after(token_str@, ctx, now_unix_secs as nat)
            &&& match old(session)@.verdict(token_str@, ctx, now_unix_secs as nat) {
                Err(e) => r == Err::<Model, OverlayError>(OverlayError::Token(e)),
                Ok(_) => r is Ok && r->Ok_0@ == enabled(current@, entry@, kind),
            }
        }),
        is_read_back(OverlayOp::Enable, entry@, kind),
{
    let mut current: Model = current;
    match verify_token(
        &current,
        entry.as_str(),
        kind,
        OverlayOp::Enable,
        token_str,
        session,
        now_unix_secs,
    ) {
        Ok(()) => {},
        Err(e) => {
            return Err(e);
        },
    }
    enable_pure(&mut current, entry.as_str(), kind);
    Ok(current)
}

/// Switching an entry off and on again gives the rule set back, where the entry
/// was on.
pub proof fn law_enable_undoes_disable(m: ModelView, entry: Seq<char>, kind: BlocklistEntryKind)
    requires
        !holds(kind.array(m), entry),
    ensures
        enabled(disabled(m, entry, kind), entry, kind) == m,
{
    let a = kind.array(m);
    let b = a.push(JsonView::Text(entry));
    lemma_without(a, entry);
    assert(b.drop_last() == a);
    assert(without(b, entry) == a);
}

/// Switching off what is off changes nothing, and switching on what is on changes
/// nothing.
pub proof fn law_overlay_is_idempotent(m: ModelView, entry: Seq<char>, kind: BlocklistEntryKind)
    ensures
        disabled(disabled(m, entry, kind), entry, kind) == disabled(m, entry, kind),
        enabled(enabled(m, entry, kind), entry, kind) == enabled(m, entry, kind),
        !holds(kind.array(m), entry) ==> enabled(m, entry, kind) == m,
        holds(kind.array(m), entry) ==> disabled(m, entry, kind) == m,
{
    let a = kind.array(m);
    let b = a.push(JsonView::Text(entry));
    assert(b[a.len() as int] == JsonView::Text(entry));
    assert(holds(kind.array(disabled(m, entry, kind)), entry));
    lemma_without(a, entry);
    lemma_without(without(a, entry), entry);
}

/// After switching an entry off its list holds it, after switching it on the list
/// does not.
pub proof fn law_overlay_takes_effect(m: ModelView, entry: Seq<char>, kind: BlocklistEntryKind)
    ensures
        holds(kind.array(disabled(m, entry, kind)), entry),
        !holds(kind.array(enabled(m, entry, kind)), entry),
{
    let a = kind.array(m);
    assert(a.push(JsonView::Text(entry))[a.len() as int] == JsonView::Text(entry));
    lemma_without(a, entry);
}

/// Neither direction touches the overlay lists of the other kinds, the rules, the
/// groups or anything else.
pub proof fn law_overlay_keeps_the_rest(
    m: ModelView,
    entry: Seq<char>,
    kind: BlocklistEntryKind,
    other: BlocklistEntryKind,
    op: OverlayOp,
)
    ensures
        other != kind ==> other.array(op.done(m, entry, kind)) == other.array(m),
        op.done(m, entry, kind).rules == m.rules,
        op.done(m, entry, kind).groups == m.groups,
        op.done(m, entry, kind).rest == m.rest,
        op.done(m, entry, kind).bundle_version == m.bundle_version,
{
}

/// Neither direction touches the other entries of the list: each stands in it as
/// often as before.
pub proof fn law_overlay_keeps_other_entries(
    m: ModelView,
    entry: Seq<char>,
    kind: BlocklistEntryKind,
    v: JsonView,
    op: OverlayOp,
)
    requires
        v != JsonView::Text(entry),
    ensures
        kind.array(op.done(m, entry, kind)).to_multiset().count(v) == kind.array(
            m,
        ).to_multiset().count(v),
{
    broadcast use vstd::seq_lib::group_to_multiset_ensures;

    let a = kind.array(m);
    match op {
        OverlayOp::Disable => {},
        OverlayOp::Enable => {
            lemma_without_counts(a, entry, v);
        },
    }
}

proof fn lemma_without_counts(a: Seq<JsonView>, entry: Seq<char>, v: JsonView)
    requires
        v != JsonView::Text(entry),
    ensures
        without(a, entry).to_multiset().count(v) == a.to_multiset().count(v),
    decreases a.len(),
{
    broadcast use vstd::seq_lib::group_to_multiset_ensures;

    if a.len() > 0 {
        lemma_without_counts(a.drop_last(), entry, v);
        assert(a == a.drop_last().push(a.last()));
    }
}

/// A proposed switch goes through: with the version as it was, the token of the
/// proposal is accepted until its time is over or it has been used.
pub proof fn law_prepared_switch_applies(
    s: SessionView,
    op: OverlayOp,
    entry: Seq<char>,
    kind: BlocklistEntryKind,
    current: ModelView,
    prepared: nat,
    now: nat,
)
    requires
        prepared <= u64::MAX,
        prepared <= now < prepared + DEFAULT_TTL_SECS,
        !s.consumed.contains(s.token(overlay_payload(op, entry, kind, current, prepared))),
    ensures
        s.verdict(
            s.token(overlay_payload(op, entry, kind, current, prepared)),
            overlay_context(op, entry, kind, current),
            now,
        ) is Ok,
{
    law_issued_token(
        s,
        overlay_payload(op, entry, kind, current, prepared),
        overlay_context(op, entry, kind, current),
        now,
    );
}

/// A token for one entry is refused for another entry or another kind, with the error that
/// says so, unless two different texts with the same SHA-256 have been found.
pub proof fn law_tokens_are_for_one_entry(
    s: SessionView,
    op: OverlayOp,
    entry: Seq<char>,
    kind: BlocklistEntryKind,
    other: Seq<char>,
    other_kind: BlocklistEntryKind,
    current: ModelView,
    prepared: nat,
    now: nat,
)
    requires
        prepared <= u64::MAX,
        other != entry || other_kind != kind,
        is_read_back(op, entry, kind),
        is_read_back(op, other, other_kind),
    ensures
        s.verdict(
            s.token(overlay_payload(op, entry, kind, current, prepared)),
            overlay_context(op, other, other_kind, current),
            now,
        ) == Err::<(), TokenError>(TokenError::DiffDrift) || collide(
            compact_text(overlay_diff(op, other, other_kind)),
            compact_text(overlay_diff(op, entry, kind)),
        ),
{
    lemma_diffs_differ(op, entry, kind, other, other_kind);
    lemma_json_digests(overlay_diff(op, other, other_kind), overlay_diff(op, entry, kind));
    law_issued_token(
        s,
        overlay_payload(op, entry, kind, current, prepared),
        overlay_context(op, other, other_kind, current),
        now,
    );
}

/// A token is used up by the switch it was issued for, whether or not the switch changed
/// anything: a second time it is refused as used.
pub proof fn law_switch_uses_the_token(
    s: SessionView,
    op: OverlayOp,
    entry: Seq<char>,
    kind: BlocklistEntryKind,
    current: ModelView,
    prepared: nat,
    now: nat,
)
    requires
        prepared <= u64::MAX,
        prepared <= now < prepared + DEFAULT_TTL_SECS,
        !s.consumed.contains(s.token(overlay_payload(op, entry, kind, current, prepared))),
    ensures
        ({
            let token = s.token(overlay_payload(op, entry, kind, current, prepared));
            let ctx = overlay_context(op, entry, kind, current);
            let then = overlay_context(op, entry, kind, op.done(current, entry, kind));
            s.after(token, ctx, now).verdict(token, then, now) == Err::<(), TokenError>(
                TokenError::Replay,
            )
        }),
{
    law_prepared_switch_applies(s, op, entry, kind, current, prepared, now);
}

/// A domain is switched off in the list of domains, a host in that of hosts and an address in
/// that of addresses, behind what stands there; the other lists and the rest of the rule set
/// stay as they are.
pub proof fn law_each_kind_has_its_list(m: ModelView, entry: Seq<char>, kind: BlocklistEntryKind)
    ensures
        ({
            let after = disabled(m, entry, kind);
            let text = JsonView::Text(entry);
            let is_in = |list: Seq<JsonView>| list.contains(text);
            &&& kind is Domain && !is_in(m.disabled_domains_in_lists)
                ==> after.disabled_domains_in_lists == m.disabled_domains_in_lists.push(text)
            &&& kind is Host && !is_in(m.disabled_host_names_in_lists)
                ==> after.disabled_host_names_in_lists == m.disabled_host_names_in_lists.push(text)
            &&& kind is Address && !is_in(m.disabled_ip_address_ranges_in_lists)
                ==> after.disabled_ip_address_ranges_in_lists
                == m.disabled_ip_address_ranges_in_lists.push(text)
            &&& !(kind is Domain) ==> after.disabled_domains_in_lists == m.disabled_domains_in_lists
            &&& !(kind is Host) ==> after.disabled_host_names_in_lists
                == m.disabled_host_names_in_lists
            &&& !(kind is Address) ==> after.disabled_ip_address_ranges_in_lists
                == m.disabled_ip_address_ranges_in_lists
            &&& after.factory_rule_set_version == m.factory_rule_set_version
        }),
        ({
            let after = enabled(m, entry, kind);
            let text = JsonView::Text(entry);
            &&& kind is Domain ==> !after.disabled_domains_in_lists.contains(text)
            &&& kind is Host ==> !after.disabled_host_names_in_lists.contains(text)
            &&& kind is Address ==> !after.disabled_ip_address_ranges_in_lists.contains(text)
            &&& !(kind is Domain) ==> after.disabled_domains_in_lists == m.disabled_domains_in_lists
            &&& !(kind is Host) ==> after.disabled_host_names_in_lists
                == m.disabled_host_names_in_lists
            &&& !(kind is Address) ==> after.disabled_ip_address_ranges_in_lists
                == m.disabled_ip_address_ranges_in_lists
            &&& after.factory_rule_set_version == m.factory_rule_set_version
        }),
{
    law_overlay_takes_effect(m, entry, kind);
}

/// What is proposed names what is done, the entry and its kind.
pub proof fn law_overlay_diff_says_what_is_done(
    op: OverlayOp,
    entry: Seq<char>,
    kind: BlocklistEntryKind,
)
    ensures
        ({
            let j = overlay_diff(op, entry, kind);
            &&& member(j, "entry"@) == Some(JsonView::Text(entry))
            &&& op is Disable ==> member(j, "kind"@) == Some(
                JsonView::Text("disable_blocklist_entry"@),
            )
            &&& op is Enable ==> member(j, "kind"@) == Some(
                JsonView::Text("enable_blocklist_entry"@),
            )
            &&& kind is Domain ==> member(j, "entry_kind"@) == Some(JsonView::Text("domain"@))
            &&& kind is Host ==> member(j, "entry_kind"@) == Some(JsonView::Text("host"@))
            &&& kind is Address ==> member(j, "entry_kind"@) == Some(JsonView::Text("address"@))
        }),
{
    reveal_strlit("entry");
    reveal_strlit("kind");
    reveal_strlit("entry_kind");
    assert("entry"@.len() == 5 && "kind"@.len() == 4 && "entry_kind"@.len() == 10);
}

} // verus!
