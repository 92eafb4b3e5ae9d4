//! Telling which rule matched a connection, and why.

use vstd::prelude::*;
use crate::model::{Action, Direction, Model, ModelView, Priority};
use crate::text::{
    begins_with, concat, debug_form, decimal, law_occurs_in, occurs_in, opt_text, quoted, str_eq,
    u64_to_string,
};

verus! {

/// What the tool is given.
#[derive(Debug)]
pub struct ExplainRuleMatchArgs {
    /// Path of the program that would connect.
    pub process: String,
    /// Name of the remote host.
    pub remote_hostname: Option<String>,
    /// Address of the remote host.
    pub remote_ip: Option<String>,
    /// Remote port.
    pub port: Option<u16>,
    /// `outgoing`, `incoming` or `both`; `outgoing` if it is left out.
    pub direction: Option<String>,
    /// `tcp`, `udp` and the like.
    pub protocol: Option<String>,
}

/// What the tool returns.
#[derive(Debug)]
pub struct ExplainRuleMatchResult {
    /// How far the answer can be relied on.
    pub simulator_status: &'static str,
    /// A warning to go with every answer.
    pub warning: &'static str,
    /// Whether a rule matched.
    pub matched: bool,
    /// Position of the rule.
    pub rule_index: Option<usize>,
    /// What the rule does.
    pub action: Option<String>,
    /// The explanation.
    pub explanation: String,
}

/// What decided between the rule that matched and the next-best one.
#[derive(Debug, Clone, Copy, PartialEq, Eq, Structural)]
pub enum DecidingKey {
    PriorityTier,
    SpecificityScore,
    GroupPrecedence,
    DeclarationOrder,
}

/// Why a rule matched.
#[derive(Debug, Clone, Copy, PartialEq, Eq, Structural)]
pub struct MatchReason {
    pub priority: Priority,
    pub specificity_score: u32,
    /// What decided over the next-best rule; `None` if no other rule applied.
    pub deciding_key: Option<DecidingKey>,
}

/// The rule that matched a connection.
#[derive(Debug, Clone, Copy, PartialEq, Eq, Structural)]
pub struct RuleMatch {
    /// Position of the rule.
    pub index: usize,
    pub why: MatchReason,
}

/// How far an answer can be relied on.
pub const SIMULATOR_STATUS: &'static str = "unverified-against-live-ls";

/// A warning to go with every answer.
pub const SIMULATOR_WARNING: &'static str = "This answer is computed by a simulator implementing the documented LS rule-matching algorithm. The specificity weights and tiebreakers have NOT been verified against live LS behavior — for production decisions, run `little-snitch rules-list` and validate manually. Track verification at https://github.com/torsday/little-snitch-mcp/issues/29.";

/// The direction that a word stands for; `outgoing` for every word but two.
pub open spec fn direction_of(s: Option<Seq<char>>) -> Direction {
    if s == Some("incoming"@) {
        Direction::Incoming
    } else if s == Some("both"@) {
        Direction::Both
    } else {
        Direction::Outgoing
    }
}

/// The direction that a word stands for.
pub fn parse_direction(s: Option<&str>) -> (r: Direction)
    ensures
        r == direction_of(borrowed(s)),
{
    match s {
        Some(t) => if str_eq(t, "incoming") {
            Direction::Incoming
        } else if str_eq(t, "both") {
            Direction::Both
        } else {
            Direction::Outgoing
        },
        None => Direction::Outgoing,
    }
}

/// An action as a word.
pub fn action_str(a: Action) -> (r: &'static str)
    ensures
        r@ == a.word(),
{
    a.as_str()
}

/// A priority as a word.
pub fn priority_str(p: Priority) -> (r: &'static str)
    ensures
        r@ == p.word(),
{
    p.as_str()
}

/// What decided, in words.
pub open spec fn deciding_key_words(k: DecidingKey) -> Seq<char> {
    match k {
        DecidingKey::PriorityTier => "priority tier"@,
        DecidingKey::SpecificityScore => "specificity score"@,
        DecidingKey::GroupPrecedence => "group precedence"@,
        DecidingKey::DeclarationOrder => "declaration order (earlier rule wins)"@,
    }
}

/// What decided, in words.
pub fn deciding_key_str(k: DecidingKey) -> (r: &'static str)
    ensures
        r@ == deciding_key_words(k),
{
    match k {
        DecidingKey::PriorityTier => "priority tier",
        DecidingKey::SpecificityScore => "specificity score",
        DecidingKey::GroupPrecedence => "group precedence",
        DecidingKey::DeclarationOrder => "declaration order (earlier rule wins)",
    }
}

/// A connection that a rule is looked for.
#[derive(Debug)]
pub struct ConnectionQuery<'a> {
    pub process: &'a str,
    pub remote_hostname: Option<&'a str>,
    pub remote_ip: Option<&'a str>,
    pub port: Option<u16>,
    pub direction: Direction,
    pub protocol: Option<&'a str>,
}

/// The text of a borrowed text that may be missing.
pub open spec fn borrowed(o: Option<&str>) -> Option<Seq<char>> {
    match o {
        Some(s) => Some(s@),
        None => None,
    }
}

fn borrow(o: &Option<String>) -> (r: Option<&str>)
    ensures
        borrowed(r) == opt_text(*o),
{
    match o {
        Some(s) => Some(s.as_str()),
        None => None,
    }
}

/// The connection that the tool is asked about.
pub fn query(args: &ExplainRuleMatchArgs) -> (r: ConnectionQuery<'_>)
    ensures
        r.process@ == args.process@,
        borrowed(r.remote_hostname) == opt_text(args.remote_hostname),
        borrowed(r.remote_ip) == opt_text(args.remote_ip),
        r.port == args.port,
        r.direction == direction_of(opt_text(args.direction)),
        borrowed(r.protocol) == opt_text(args.protocol),
{
    ConnectionQuery {
        process: args.process.as_str(),
        remote_hostname: borrow(&args.remote_hostname),
        remote_ip: borrow(&args.remote_ip),
        port: args.port,
        direction: parse_direction(borrow(&args.direction)),
        protocol: borrow(&args.protocol),
    }
}

/// A text that may be missing, in the notation of `Debug`.
pub open spec fn opt_debug(o: Option<Seq<char>>) -> Seq<char> {
    match o {
        Some(s) => "Some("@ + debug_form(s) + ")"@,
        None => "None"@,
    }
}

fn opt_quoted(o: &Option<String>) -> (r: String)
    ensures
        r@ == opt_debug(opt_text(*o)),
{
    match o {
        Some(s) => {
            let mut out: String = concat("Some(", quoted(s.as_str()).as_str());
            out.push_str(")");
            out
        },
        None => "None".to_owned(),
    }
}

/// A port that may be missing, in the notation of `Debug`.
pub open spec fn port_debug(o: Option<u16>) -> Seq<char> {
    match o {
        Some(p) => "Some("@ + decimal(p as nat) + ")"@,
        None => "None"@,
    }
}

fn port_text(o: Option<u16>) -> (r: String)
    ensures
        r@ == port_debug(o),
{
    match o {
        Some(p) => {
            let mut out: String = concat("Some(", u64_to_string(p as u64).as_str());
            out.push_str(")");
            out
        },
        None => "None".to_owned(),
    }
}

/// The explanation of a match with a rule that does `action`.
pub open spec fn explained(m: RuleMatch, action: Action, args: ExplainRuleMatchArgs) -> Seq<char> {
    "Rule at index "@ + decimal(m.index as nat) + " matched. Action: "@ + action.word()
        + ".\n\nWhy:\n  - Priority tier: "@ + m.why.priority.word()
        + "\n  - Specificity score: "@ + decimal(m.why.specificity_score as nat) + (
    match m.why.deciding_key {
        Some(k) => "\n  - Decided over the next-best rule by: "@ + deciding_key_words(k),
        None => "\n  - No other rule was applicable to this query."@,
    }) + "\n\nQuery: process="@ + args.process@ + ", remote_hostname="@ + opt_debug(
        opt_text(args.remote_hostname),
    ) + ", remote_ip="@ + opt_debug(opt_text(args.remote_ip)) + ", port="@ + port_debug(args.port)
}

/// The explanation of a match with a rule that does `action`.
pub fn explain(m: &RuleMatch, action: Action, args: &ExplainRuleMatchArgs) -> (r: String)
    ensures
        r@ == explained(*m, action, *args),
{
    let mut out: String = concat("Rule at index ", u64_to_string(m.index as u64).as_str());
    out.push_str(" matched. Action: ");
    out.push_str(action_str(action));
    out.push_str(".\n\nWhy:\n  - Priority tier: ");
    out.push_str(priority_str(m.why.priority));
    out.push_str("\n  - Specificity score: ");
    out.push_str(u64_to_string(m.why.specificity_score as u64).as_str());
    let decided: String = match m.why.deciding_key {
        Some(k) => concat("\n  - Decided over the next-best rule by: ", deciding_key_str(k)),
        None => "\n  - No other rule was applicable to this query.".to_owned(),
    };
    out.push_str(decided.as_str());
    out.push_str("\n\nQuery: process=");
    out.push_str(args.process.as_str());
    out.push_str(", remote_hostname=");
    out.push_str(opt_quoted(&args.remote_hostname).as_str());
    out.push_str(", remote_ip=");
    out.push_str(opt_quoted(&args.remote_ip).as_str());
    out.push_str(", port=");
    out.push_str(port_text(args.port).as_str());
    out
}

/// The explanation where no rule matched.
pub open spec fn unmatched(args: ExplainRuleMatchArgs) -> Seq<char> {
    "No rule applied to the query: process="@ + debug_form(args.process@) + ", remote_hostname="@
        + opt_debug(opt_text(args.remote_hostname)) + ", remote_ip="@ + opt_debug(
        opt_text(args.remote_ip),
    ) + ", port="@ + port_debug(args.port) + ", direction="@ + opt_debug(opt_text(args.direction))
        + ". LS would fall back to its default policy (typically: ask, then deny if unanswered)."@
}

fn explain_unmatched(args: &ExplainRuleMatchArgs) -> (r: String)
    ensures
        r@ == unmatched(*args),
{
    let mut out: String = concat(
        "No rule applied to the query: process=",
        quoted(args.process.as_str()).as_str(),
    );
    out.push_str(", remote_hostname=");
    out.push_str(opt_quoted(&args.remote_hostname).as_str());
    out.push_str(", remote_ip=");
    out.push_str(opt_quoted(&args.remote_ip).as_str());
    out.push_str(", port=");
    out.push_str(port_text(args.port).as_str());
    out.push_str(", direction=");
    out.push_str(opt_quoted(&args.direction).as_str());
    out.push_str(
        ". LS would fall back to its default policy (typically: ask, then deny if unanswered).",
    );
    out
}

/// Whether a match is with a rule of the rule set.
pub open spec fn is_of(found: Option<RuleMatch>, model: ModelView) -> bool {
    match found {
        Some(m) => m.index < model.rules.len(),
        None => true,
    }
}

/// Explains which rule of the rule set matched. `found` is the rule that matched the
/// connection of [`query`], if one did.
pub fn run(args: ExplainRuleMatchArgs, model: &Model, found: Option<RuleMatch>) -> (r:
    ExplainRuleMatchResult)
    requires
        is_of(found, model@),
    ensures
        r.simulator_status@ == SIMULATOR_STATUS@,
        r.warning@ == SIMULATOR_WARNING@,
        match found {
            Some(m) => ({
                let action = model@.rules[m.index as int].action;
                &&& r.matched
                &&& r.rule_index == Some(m.index)
                &&& opt_text(r.action) == Some(action.word())
                &&& r.explanation@ == explained(m, action, args)
            }),
            None => !r.matched && r.rule_index is None && r.action is None && r.explanation@
                == unmatched(args),
        },
{
    match found {
        Some(m) => {
            let action: Action = model.rules[m.index].action;
            let explanation: String = explain(&m, action, &args);
            ExplainRuleMatchResult {
                simulator_status: SIMULATOR_STATUS,
                warning: SIMULATOR_WARNING,
                matched: true,
                rule_index: Some(m.index),
                action: Some(action_str(action).to_owned()),
                explanation,
            }
        },
        None => {
            let explanation: String = explain_unmatched(&args);
            ExplainRuleMatchResult {
                simulator_status: SIMULATOR_STATUS,
                warning: SIMULATOR_WARNING,
                matched: false,
                rule_index: None,
                action: None,
                explanation,
            }
        },
    }
}

/// A direction is the one that its word names, and outgoing where no other is named.
pub proof fn law_directions(s: Option<Seq<char>>)
    ensures
        direction_of(s) == Direction::Incoming <==> s == Some("incoming"@),
        direction_of(s) == Direction::Both <==> s == Some("both"@),
{
    reveal_strlit("incoming");
    reveal_strlit("both");
    assert("incoming"@.len() == 8 && "both"@.len() == 4);
}

/// An explanation begins with the position of the rule and what the rule does.
pub proof fn law_explanation_names_the_rule(
    m: RuleMatch,
    action: Action,
    args: ExplainRuleMatchArgs,
)
    ensures
        begins_with(
            explained(m, action, args),
            "Rule at index "@ + decimal(m.index as nat) + " matched. Action: "@ + action.word(),
        ),
        occurs_in(explained(m, action, args), args.process@),
{
    let a = "Rule at index "@ + decimal(m.index as nat) + " matched. Action: "@ + action.word();
    let b = a + ".\n\nWhy:\n  - Priority tier: "@ + m.why.priority.word()
        + "\n  - Specificity score: "@ + decimal(m.why.specificity_score as nat) + (
    match m.why.deciding_key {
        Some(k) => "\n  - Decided over the next-best rule by: "@ + deciding_key_words(k),
        None => "\n  - No other rule was applicable to this query."@,
    }) + "\n\nQuery: process="@;
    let c = b + args.process@;
    let e = explained(m, action, args);
    let rest = e.skip(c.len() as int);
    assert(e.take(c.len() as int) =~= c);
    assert(e =~= c + rest);
    assert(e.take(a.len() as int) =~= a);
    law_occurs_in(e, args.process@, b, rest);
}

} // verus!
