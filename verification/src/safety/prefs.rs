//! Which preferences may be written, and which are not shown.

use vstd::prelude::*;
use crate::grouping::is_listed;
use crate::json::{Json, JsonView};
use crate::text::{concat, debug_form, opt_text, quoted, texts};

verus! {

/// Which preferences may be written and which may not, and whose values are secret.
#[derive(Debug)]
pub struct PreferencePolicy {
    /// Those that may be written.
    pub writable: Vec<String>,
    /// Those that are never written, whatever else is said.
    pub denied: Vec<String>,
    /// Those whose values are not shown.
    pub secret: Vec<String>,
}

/// Why a preference may not be written, if it may not.
pub open spec fn unwritable(policy: PreferencePolicy, key: Seq<char>) -> Option<Seq<char>> {
    if texts(policy.denied@).contains(key) {
        Some("preference "@ + debug_form(key) + " must not be written"@)
    } else if !texts(policy.writable@).contains(key) {
        Some("preference "@ + debug_form(key) + " is not on the write allowlist"@)
    } else {
        None
    }
}

/// Why a preference may not be written, if it may not.
pub fn require_writable(policy: &PreferencePolicy, key: &str) -> (r: Option<String>)
    ensures
        opt_text(r) == unwritable(*policy, key@),
{
    if is_listed(&policy.denied, key) {
        let mut out: String = concat("preference ", quoted(key).as_str());
        out.push_str(" must not be written");
        return Some(out);
    }
    if !is_listed(&policy.writable, key) {
        let mut out: String = concat("preference ", quoted(key).as_str());
        out.push_str(" is not on the write allowlist");
        return Some(out);
    }
    None
}

/// What is shown of a preference's value.
pub open spec fn redacted(policy: PreferencePolicy, key: Seq<char>, value: JsonView) -> JsonView {
    if texts(policy.secret@).contains(key) {
        JsonView::Text("<redacted: "@ + key + ">"@)
    } else {
        value
    }
}

/// What is shown of a preference's value.
pub fn redact(policy: &PreferencePolicy, key: &str, value: Json) -> (r: Json)
    ensures
        r@ == redacted(*policy, key@, value@),
{
    if is_listed(&policy.secret, key) {
        let mut out: String = concat("<redacted: ", key);
        out.push_str(">");
        return Json::Text(out);
    }
    value
}

/// What is shown of a secret preference does not depend on its value.
pub proof fn law_secrets_are_not_shown(
    policy: PreferencePolicy,
    key: Seq<char>,
    a: JsonView,
    b: JsonView,
)
    requires
        texts(policy.secret@).contains(key),
    ensures
        redacted(policy, key, a) == redacted(policy, key, b),
{
}

/// A preference is written just if it is one of those that may be written and none of those
/// that never are.
pub proof fn law_which_preferences_are_written(policy: PreferencePolicy, key: Seq<char>)
    ensures
        unwritable(policy, key) is None <==> texts(policy.writable@).contains(key) && !texts(
            policy.denied@,
        ).contains(key),
{
}

/// A value that is no secret is shown as it is.
pub proof fn law_other_values_are_shown(
    policy: PreferencePolicy,
    key: Seq<char>,
    value: JsonView,
)
    ensures
        redacted(policy, key, value) == value || texts(policy.secret@).contains(key),
{
}

} // verus!
