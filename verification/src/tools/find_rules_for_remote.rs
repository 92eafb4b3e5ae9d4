//! Finding the rules whose remote covers an address, a range of addresses, a host
//! or a domain.

use vstd::prelude::*;
use crate::cli::{exported, load_model, CliRun};
use crate::grouping::{
    distinct, find_positions, in_order, insertion_point, lemma_insert_once, lemma_lists_once_trans,
    lemma_positions_of, lemma_positions_total, lists_once, positions, positions_of,
    positions_total,
};
use crate::model::{opt_strings, Model, ModelView, Rule, RuleView, StringOrVec, StringsView};
use crate::net::{address, network, parse_address, parse_network, AddressRange};
use crate::safety::resolver::{display_name_for, shown_active, shown_name};
use crate::text::{
    ascii_lower, chars_of, concat, copy_opt, ends_in, ends_with, opt_text, str_eq, string_of,
    text_le, texts, to_ascii_lowercase,
};

verus! {

/// What the tool is given.
#[derive(Debug)]
pub struct FindRulesForRemoteArgs {
    /// An address, a range of addresses in prefix notation, a host or a domain.
    pub remote: String,
    /// Whether rules that name no remote but one of the special values, such as
    /// `any`, are found too.
    pub include_catch_all: bool,
}

/// How a rule's remote covers what was asked for.
#[derive(Debug, Clone, Copy, PartialEq, Eq, Structural)]
pub enum MatchKind {
    /// By an address or a range of addresses.
    Address,
    /// By a host.
    Host,
    /// By a domain.
    Domain,
    /// By a special value.
    CatchAll,
}

/// A rule that was found.
#[derive(Debug)]
pub struct MatchedRule {
    /// The rule's position in the rule set.
    pub global_index: usize,
    pub action: String,
    pub direction: Option<String>,
    /// The remote of the rule that covers what was asked for.
    pub matched_remote: String,
    pub match_kind: MatchKind,
    pub process: Option<String>,
    pub creation_date: String,
    pub modification_date: String,
    /// Whether the rule's group is switched on.
    pub group_active: bool,
}

/// What a [`MatchedRule`] means.
#[verifier::ext_equal]
pub struct MatchedRuleView {
    pub global_index: int,
    pub action: Seq<char>,
    pub direction: Option<Seq<char>>,
    pub matched_remote: Seq<char>,
    pub match_kind: MatchKind,
    pub process: Option<Seq<char>>,
    pub creation_date: Seq<char>,
    pub modification_date: Seq<char>,
    pub group_active: bool,
}

impl View for MatchedRule {
    type V = MatchedRuleView;

    open spec fn view(&self) -> MatchedRuleView {
        MatchedRuleView {
            global_index: self.global_index as int,
            action: self.action@,
            direction: opt_text(self.direction),
            matched_remote: self.matched_remote@,
            match_kind: self.match_kind,
            process: opt_text(self.process),
            creation_date: self.creation_date@,
            modification_date: self.modification_date@,
            group_active: self.group_active,
        }
    }
}

/// The rules of one group that were found.
#[derive(Debug)]
pub struct GroupBucket {
    pub group_id: String,
    pub display_name: String,
    pub is_active: bool,
    pub rules: Vec<MatchedRule>,
}

/// What the tool returns.
#[derive(Debug)]
pub struct FindRulesForRemoteResult {
    /// What was asked for.
    pub remote: String,
    /// How many rules were found.
    pub total_count: usize,
    /// The rules by their groups, in the order of the names.
    pub groups: Vec<GroupBucket>,
}

/// What is asked for.
pub enum QueryKind {
    /// One address.
    Ip(AddressRange),
    /// A range of addresses.
    Net(AddressRange),
    /// A host or a domain, in small letters.
    Name(String),
}

/// What a [`QueryKind`] means.
#[verifier::ext_equal]
pub enum QueryView {
    Ip(AddressRange),
    Net(AddressRange),
    Name(Seq<char>),
}

impl View for QueryKind {
    type V = QueryView;

    open spec fn view(&self) -> QueryView {
        match self {
            QueryKind::Ip(a) => QueryView::Ip(*a),
            QueryKind::Net(a) => QueryView::Net(*a),
            QueryKind::Name(s) => QueryView::Name(s@),
        }
    }
}

/// What a text asks for: an address, or else a range of addresses, or else a name.
pub open spec fn query(s: Seq<char>) -> QueryView {
    if address(s) is Some {
        QueryView::Ip(address(s)->0)
    } else if network(s) is Some {
        QueryView::Net(network(s)->0)
    } else {
        QueryView::Name(ascii_lower(s))
    }
}

/// What a text asks for.
pub fn parse_query(s: &str) -> (r: QueryKind)
    ensures
        r@ == query(s@),
{
    if let Some(a) = parse_address(s) {
        return QueryKind::Ip(a);
    }
    if let Some(n) = parse_network(s) {
        return QueryKind::Net(n);
    }
    QueryKind::Name(to_ascii_lowercase(s))
}

/// Whether a rule's address or range of addresses covers an address.
pub open spec fn covers_ip(stored: Seq<char>, ip: AddressRange) -> bool {
    if network(stored) is Some {
        network(stored)->0.covers(ip)
    } else if address(stored) is Some {
        address(stored)->0 == ip
    } else {
        false
    }
}

/// Whether a rule's address or range of addresses covers an address.
pub fn address_covers_ip(stored: &str, query_ip: AddressRange) -> (r: bool)
    ensures
        r == covers_ip(stored@, query_ip),
{
    if let Some(net) = parse_network(stored) {
        return net.contains(&query_ip);
    }
    if let Some(addr) = parse_address(stored) {
        return addr == query_ip;
    }
    false
}

/// Whether a rule's range of addresses holds a range or lies in it, or a rule's
/// address lies in the range.
pub open spec fn covers_net(stored: Seq<char>, net: AddressRange) -> bool {
    if network(stored) is Some {
        network(stored)->0.covers(net) || net.covers(network(stored)->0)
    } else if address(stored) is Some {
        net.covers(address(stored)->0)
    } else {
        false
    }
}

/// Whether a rule's range of addresses holds a range or lies in it, or a rule's
/// address lies in the range.
pub fn address_covers_net(stored: &str, query_net: &AddressRange) -> (r: bool)
    ensures
        r == covers_net(stored@, *query_net),
{
    if let Some(net) = parse_network(stored) {
        return net.contains(query_net) || query_net.contains(&net);
    }
    if let Some(addr) = parse_address(stored) {
        return query_net.contains(&addr);
    }
    false
}

/// A name without the full stops at its beginning.
pub open spec fn undotted(s: Seq<char>) -> Seq<char>
    decreases s.len(),
{
    if s.len() > 0 && s[0] == '.' {
        undotted(s.drop_first())
    } else {
        s
    }
}

fn trim_dots(s: &str) -> (r: String)
    ensures
        r@ == undotted(s@),
{
    let v: Vec<char> = chars_of(s);
    let mut from: usize = 0;
    proof {
        assert(v@.skip(0) == s@);
    }
    while from < v.len() && v[from] == '.'
        invariant
            from <= v.len(),
            undotted(s@) == undotted(v@.skip(from as int)),
        decreases v.len() - from,
    {
        proof {
            assert(v@.skip(from as int).drop_first() == v@.skip(from + 1));
        }
        from = from + 1;
    }
    let n: usize = v.len();
    proof {
        assert(v@.subrange(from as int, n as int) == v@.skip(from as int));
    }
    string_of(&v, from, n)
}

/// Whether a name is a domain or stands below it.
pub open spec fn in_domain(domain: Seq<char>, name: Seq<char>) -> bool {
    let d = undotted(domain);
    let q = undotted(name);
    q == d || ends_in(q, "."@ + d)
}

/// Whether a name is a domain or stands below it.
pub fn domain_covers(stored_domain: &str, query_name: &str) -> (r: bool)
    ensures
        r == in_domain(stored_domain@, query_name@),
{
    let d: String = trim_dots(stored_domain);
    let q: String = trim_dots(query_name);
    q == d || ends_with(q.as_str(), concat(".", d.as_str()).as_str())
}

/// Whether a rule's domain is the name asked for or stands below it.
pub fn query_covers_stored_domain(stored_domain: &str, query_name: &str) -> (r: bool)
    ensures
        r == in_domain(query_name@, stored_domain@),
{
    domain_covers(query_name, stored_domain)
}

/// The first of some texts for which `f` holds.
pub open spec fn first_where(v: Seq<Seq<char>>, f: spec_fn(Seq<char>) -> bool) -> Option<Seq<char>>
    decreases v.len(),
{
    if v.len() == 0 {
        None
    } else if f(v[0]) {
        Some(v[0])
    } else {
        first_where(v.drop_first(), f)
    }
}

/// Whether an entry of a rule's addresses, hosts or domains covers what is asked
/// for.
pub open spec fn entry_hits(kind: MatchKind, q: QueryView) -> spec_fn(Seq<char>) -> bool {
    |stored: Seq<char>|
        match (kind, q) {
            (MatchKind::Address, QueryView::Ip(ip)) => covers_ip(stored, ip),
            (MatchKind::Address, QueryView::Net(net)) => covers_net(stored, net),
            (MatchKind::Host, QueryView::Name(name)) => ascii_lower(stored) == name,
            (MatchKind::Domain, QueryView::Name(name)) => in_domain(ascii_lower(stored), name)
                || in_domain(name, ascii_lower(stored)),
            _ => false,
        }
}

fn entry_matches(kind: MatchKind, q: &QueryKind, stored: &str) -> (r: bool)
    ensures
        r == entry_hits(kind, q@)(stored@),
{
    match (kind, q) {
        (MatchKind::Address, QueryKind::Ip(ip)) => address_covers_ip(stored, *ip),
        (MatchKind::Address, QueryKind::Net(net)) => address_covers_net(stored, net),
        (MatchKind::Host, QueryKind::Name(name)) => str_eq(
            to_ascii_lowercase(stored).as_str(),
            name.as_str(),
        ),
        (MatchKind::Domain, QueryKind::Name(name)) => {
            let lower: String = to_ascii_lowercase(stored);
            domain_covers(lower.as_str(), name.as_str()) || query_covers_stored_domain(
                lower.as_str(),
                name.as_str(),
            )
        },
        _ => false,
    }
}

/// The first entry of a rule's list that covers what is asked for.
pub open spec fn list_hit(list: Option<StringsView>, kind: MatchKind, q: QueryView) -> Option<
    Seq<char>,
> {
    match list {
        Some(v) => first_where(v.all(), entry_hits(kind, q)),
        None => None,
    }
}

fn find_in_list(list: &Option<StringOrVec>, kind: MatchKind, q: &QueryKind) -> (r: Option<String>)
    ensures
        opt_text(r) == list_hit(opt_strings(*list), kind, q@),
{
    let v: &StringOrVec = match list {
        Some(v) => v,
        None => {
            return None;
        },
    };
    let ghost all = v@.all();
    let ghost f = entry_hits(kind, q@);
    let n: usize = v.len();
    proof {
        assert(all.skip(0) == all);
    }
    for i in 0..n
        invariant
            n == all.len(),
            all == v@.all(),
            f == entry_hits(kind, q@),
            first_where(all, f) == first_where(all.skip(i as int), f),
            opt_strings(*list) == Some(v@),
    {
        proof {
            assert(all.skip(i as int)[0] == all[i as int]);
            assert(all.skip(i as int).drop_first() == all.skip(i + 1));
        }
        if entry_matches(kind, q, v.item(i).as_str()) {
            return Some(v.item(i).clone());
        }
    }
    None
}

/// Whether a remote is one of the special values, which stand for many remotes at once.
pub open spec fn is_special(remote: Seq<char>) -> bool {
    ||| remote == "any"@
    ||| remote == "local-net"@
    ||| remote == "multicast"@
    ||| remote == "broadcast"@
    ||| remote == "bonjour"@
    ||| remote == "dns-servers"@
    ||| remote == "bpf"@
}

fn special(remote: &str) -> (r: bool)
    ensures
        r == is_special(remote@),
{
    str_eq(remote, "any") || str_eq(remote, "local-net") || str_eq(remote, "multicast") || str_eq(
        remote,
        "broadcast",
    ) || str_eq(remote, "bonjour") || str_eq(remote, "dns-servers") || str_eq(remote, "bpf")
}

/// How a rule covers what is asked for, and by which of its remotes: by an
/// address, else by a host, else by a domain; and by its special value if that is
/// wanted and nothing else does.
pub open spec fn match_of(r: RuleView, q: QueryView, include_catch_all: bool) -> Option<
    (MatchKind, Seq<char>),
> {
    let by_address = list_hit(r.remote_addresses, MatchKind::Address, q);
    let by_host = list_hit(r.remote_hosts, MatchKind::Host, q);
    let by_domain = list_hit(r.remote_domains, MatchKind::Domain, q);
    if by_address is Some {
        Some((MatchKind::Address, by_address->0))
    } else if by_host is Some {
        Some((MatchKind::Host, by_host->0))
    } else if by_domain is Some {
        Some((MatchKind::Domain, by_domain->0))
    } else if include_catch_all && r.remote is Some && is_special(r.remote->0) {
        Some((MatchKind::CatchAll, r.remote->0))
    } else {
        None
    }
}

/// How a rule covers what is asked for, and by which of its remotes.
pub fn rule_matches(rule: &Rule, q: &QueryKind, include_catch_all: bool) -> (r: Option<
    (MatchKind, String),
>)
    ensures
        match r {
            Some((kind, remote)) => match_of(rule@, q@, include_catch_all) == Some((kind, remote@)),
            None => match_of(rule@, q@, include_catch_all) is None,
        },
{
    if let Some(s) = find_in_list(&rule.remote_addresses, MatchKind::Address, q) {
        return Some((MatchKind::Address, s));
    }
    if let Some(s) = find_in_list(&rule.remote_hosts, MatchKind::Host, q) {
        return Some((MatchKind::Host, s));
    }
    if let Some(s) = find_in_list(&rule.remote_domains, MatchKind::Domain, q) {
        return Some((MatchKind::Domain, s));
    }
    if include_catch_all {
        if let Some(s) = &rule.remote {
            if special(s.as_str()) {
                return Some((MatchKind::CatchAll, s.clone()));
            }
        }
    }
    None
}

/// A rule that was found: its position, how it matched and by which remote.
pub struct Hit {
    pub index: usize,
    pub kind: MatchKind,
    pub remote: String,
}

/// What a [`Hit`] means.
#[verifier::ext_equal]
pub struct HitView {
    pub index: int,
    pub kind: MatchKind,
    pub remote: Seq<char>,
}

impl View for Hit {
    type V = HitView;

    open spec fn view(&self) -> HitView {
        HitView { index: self.index as int, kind: self.kind, remote: self.remote@ }
    }
}

/// The views of several hits.
pub open spec fn hits_view(v: Seq<Hit>) -> Seq<HitView> {
    Seq::new(v.len(), |i: int| v[i]@)
}

/// The rules that cover what is asked for, in their order.
pub open spec fn found(rules: Seq<RuleView>, q: QueryView, include_catch_all: bool) -> Seq<HitView>
    decreases rules.len(),
{
    if rules.len() == 0 {
        Seq::empty()
    } else {
        let before = found(rules.drop_last(), q, include_catch_all);
        match match_of(rules.last(), q, include_catch_all) {
            Some((kind, remote)) => before.push(
                HitView { index: rules.len() - 1, kind, remote },
            ),
            None => before,
        }
    }
}

/// The positions of the rules that were found are those of rules.
pub proof fn lemma_found(rules: Seq<RuleView>, q: QueryView, include_catch_all: bool)
    ensures
        found(rules, q, include_catch_all).len() <= rules.len(),
        forall|i: int|
            0 <= i < found(rules, q, include_catch_all).len() ==> 0 <= (#[trigger] found(
                rules,
                q,
                include_catch_all,
            )[i]).index < rules.len(),
    decreases rules.len(),
{
    if rules.len() > 0 {
        lemma_found(rules.drop_last(), q, include_catch_all);
    }
}

fn find_hits(model: &Model, q: &QueryKind, include_catch_all: bool) -> (r: Vec<Hit>)
    ensures
        hits_view(r@) == found(model@.rules, q@, include_catch_all),
{
    let mut out: Vec<Hit> = Vec::new();
    let ghost rules = model@.rules;
    proof {
        assert(hits_view(out@) =~= found(rules.take(0), q@, include_catch_all));
    }
    for i in 0..model.rules.len()
        invariant
            rules == model@.rules,
            hits_view(out@) == found(rules.take(i as int), q@, include_catch_all),
    {
        let ghost prior = out@;
        proof {
            assert(rules.take(i + 1).drop_last() == rules.take(i as int));
            assert(rules.take(i + 1).last() == model.rules@[i as int]@);
        }
        if let Some((kind, remote)) = rule_matches(&model.rules[i], q, include_catch_all) {
            let hit: Hit = Hit { index: i, kind, remote };
            out.push(hit);
            proof {
                assert(hits_view(out@) =~= hits_view(prior).push(hit@));
            }
        }
    }
    proof {
        assert(rules.take(rules.len() as int) == rules);
    }
    out
}

/// The key of a rule's group.
pub open spec fn group_key(r: RuleView) -> Seq<char> {
    match r.group {
        Some(g) => g,
        None => "<no-group>"@,
    }
}

/// The key of a rule's group.
pub fn group_key_of(r: &Rule) -> (k: String)
    ensures
        k@ == group_key(r@),
{
    match &r.group {
        Some(g) => g.clone(),
        None => "<no-group>".to_owned(),
    }
}

/// The name and the state of the group under a key, as the buckets show them.
pub open spec fn bucket_name(m: ModelView, key: Seq<char>) -> (Seq<char>, bool) {
    if key == "<no-group>"@ {
        ("<no-group>"@, true)
    } else {
        (shown_name(key, m.group(key)), shown_active(m.group(key)))
    }
}

/// The name and the state of the group under a key, as the buckets show them.
pub fn name_bucket(model: &Model, key: &str) -> (r: (String, bool))
    ensures
        (r.0@, r.1) == bucket_name(model@, key@),
{
    if str_eq(key, "<no-group>") {
        ("<no-group>".to_owned(), true)
    } else {
        display_name_for(key, model)
    }
}

/// The group keys of the rules that were found.
pub open spec fn hit_keys(m: ModelView, hits: Seq<HitView>) -> Seq<Seq<char>> {
    Seq::new(hits.len(), |i: int| group_key(m.rules[hits[i].index]))
}

/// A rule that was found, as it is shown.
pub open spec fn shown(m: ModelView, hit: HitView, active: bool) -> MatchedRuleView {
    let r = m.rules[hit.index];
    MatchedRuleView {
        global_index: hit.index,
        action: r.action.word(),
        direction: match r.direction {
            Some(d) => Some(d.word()),
            None => None,
        },
        matched_remote: hit.remote,
        match_kind: hit.kind,
        process: r.process,
        creation_date: r.creation_date,
        modification_date: r.modification_date,
        group_active: active,
    }
}

fn show(model: &Model, hit: &Hit, active: bool) -> (r: MatchedRule)
    requires
        hit.index < model.rules.len(),
    ensures
        r@ == shown(model@, hit@, active),
{
    let rule: &Rule = &model.rules[hit.index];
    MatchedRule {
        global_index: hit.index,
        action: rule.action.as_str().to_owned(),
        direction: match rule.direction {
            Some(d) => Some(d.as_str().to_owned()),
            None => None,
        },
        matched_remote: hit.remote.clone(),
        match_kind: hit.kind,
        process: copy_opt(&rule.process),
        creation_date: rule.creation_date.clone(),
        modification_date: rule.modification_date.clone(),
        group_active: active,
    }
}

/// The views of several rules that were found.
pub open spec fn matched_view(v: Seq<MatchedRule>) -> Seq<MatchedRuleView> {
    Seq::new(v.len(), |i: int| v[i]@)
}

/// The rules of one group among those that were found, as they are shown.
pub open spec fn bucket_rules(m: ModelView, hits: Seq<HitView>, key: Seq<char>) -> Seq<
    MatchedRuleView,
> {
    let at = positions_of(hit_keys(m, hits), key);
    Seq::new(at.len(), |i: int| shown(m, hits[at[i]], bucket_name(m, key).1))
}

/// Whether a bucket holds what its key calls for.
pub open spec fn is_bucket(b: GroupBucket, m: ModelView, hits: Seq<HitView>) -> bool {
    &&& b.display_name@ == bucket_name(m, b.group_id@).0
    &&& b.is_active == bucket_name(m, b.group_id@).1
    &&& matched_view(b.rules@) == bucket_rules(m, hits, b.group_id@)
}

/// The keys of some buckets.
pub open spec fn bucket_ids(v: Seq<GroupBucket>) -> Seq<Seq<char>> {
    Seq::new(v.len(), |i: int| v[i].group_id@)
}

/// The names of some buckets.
pub open spec fn bucket_names(v: Seq<GroupBucket>) -> Seq<Seq<char>> {
    Seq::new(v.len(), |i: int| v[i].display_name@)
}

/// How many rules stand in some buckets.
pub open spec fn rules_in(v: Seq<GroupBucket>) -> nat
    decreases v.len(),
{
    if v.len() == 0 {
        0
    } else {
        rules_in(v.drop_last()) + v.last().rules@.len()
    }
}

/// Whether the buckets show the rules that were found: one bucket for each group
/// that has any, with these rules in their order, and the buckets in the order of
/// their names. Buckets with the same name may stand in either order.
pub open spec fn are_buckets(v: Seq<GroupBucket>, m: ModelView, hits: Seq<HitView>) -> bool {
    &&& lists_once(bucket_ids(v), hit_keys(m, hits))
    &&& forall|i: int| 0 <= i < v.len() ==> is_bucket(#[trigger] v[i], m, hits)
    &&& in_order(bucket_names(v))
}

/// No rule is lost and none is shown twice.
pub proof fn lemma_rules_in(v: Seq<GroupBucket>, m: ModelView, hits: Seq<HitView>)
    requires
        forall|i: int| 0 <= i < v.len() ==> is_bucket(#[trigger] v[i], m, hits),
    ensures
        rules_in(v) == positions_total(bucket_ids(v), hit_keys(m, hits)),
    decreases v.len(),
{
    if v.len() > 0 {
        let w = v.drop_last();
        assert forall|i: int| 0 <= i < w.len() implies is_bucket(#[trigger] w[i], m, hits) by {
            assert(is_bucket(v[i], m, hits));
        }
        lemma_rules_in(w, m, hits);
        assert(bucket_ids(v).drop_last() =~= bucket_ids(w));
        assert(is_bucket(v[v.len() - 1], m, hits));
        assert(matched_view(v.last().rules@).len() == v.last().rules@.len());
    }
}

fn build_bucket(model: &Model, hits: &Vec<Hit>, keys: &Vec<String>, key: &str) -> (r: GroupBucket)
    requires
        texts(keys@) == hit_keys(model@, hits_view(hits@)),
        forall|i: int| 0 <= i < hits.len() ==> (#[trigger] hits@[i]).index < model.rules.len(),
    ensures
        r.group_id@ == key@,
        is_bucket(r, model@, hits_view(hits@)),
{
    let (display_name, is_active): (String, bool) = name_bucket(model, key);
    let at: Vec<usize> = find_positions(keys, key);
    let ghost want = bucket_rules(model@, hits_view(hits@), key@);
    proof {
        lemma_positions_of(texts(keys@), key@);
    }
    let mut rules: Vec<MatchedRule> = Vec::new();
    for i in 0..at.len()
        invariant
            texts(keys@) == hit_keys(model@, hits_view(hits@)),
            positions(at@) == positions_of(texts(keys@), key@),
            forall|j: int|
                0 <= j < positions(at@).len() ==> 0 <= #[trigger] positions(at@)[j] < keys@.len(),
            forall|j: int| 0 <= j < hits.len() ==> (#[trigger] hits@[j]).index < model.rules.len(),
            keys@.len() == hits@.len(),
            is_active == bucket_name(model@, key@).1,
            want == bucket_rules(model@, hits_view(hits@), key@),
            want.len() == at@.len(),
            matched_view(rules@) == want.take(i as int),
    {
        let ghost prior = rules@;
        proof {
            assert(positions(at@)[i as int] == at@[i as int]);
        }
        let rule: MatchedRule = show(model, &hits[at[i]], is_active);
        rules.push(rule);
        proof {
            assert(want[i as int] == rule@);
            assert(matched_view(rules@) =~= matched_view(prior).push(rule@));
            assert(want.take(i + 1) =~= want.take(i as int).push(rule@));
        }
    }
    proof {
        assert(want.take(at@.len() as int) == want);
    }
    GroupBucket { group_id: key.to_owned(), display_name, is_active, rules }
}

fn build_buckets(model: &Model, hits: &Vec<Hit>) -> (r: Vec<GroupBucket>)
    requires
        forall|i: int| 0 <= i < hits.len() ==> (#[trigger] hits@[i]).index < model.rules.len(),
    ensures
        are_buckets(r@, model@, hits_view(hits@)),
{
    let mut keys: Vec<String> = Vec::new();
    let ghost want = hit_keys(model@, hits_view(hits@));
    for i in 0..hits.len()
        invariant
            forall|j: int| 0 <= j < hits.len() ==> (#[trigger] hits@[j]).index < model.rules.len(),
            want == hit_keys(model@, hits_view(hits@)),
            texts(keys@) == want.take(i as int),
    {
        let ghost prior = keys@;
        let key: String = group_key_of(&model.rules[hits[i].index]);
        keys.push(key);
        proof {
            assert(want[i as int] == key@);
            assert(texts(keys@) =~= texts(prior).push(key@));
            assert(want.take(i + 1) =~= want.take(i as int).push(key@));
        }
    }
    proof {
        assert(want.take(hits@.len() as int) == want);
    }
    let different: Vec<String> = distinct(&keys);
    let ghost d = texts(different@);
    let mut out: Vec<GroupBucket> = Vec::new();
    let mut names: Vec<String> = Vec::new();
    proof {
        assert(bucket_ids(out@) =~= d.take(0));
        assert(texts(names@) =~= bucket_names(out@));
    }
    for i in 0..different.len()
        invariant
            d == texts(different@),
            d.no_duplicates(),
            texts(keys@) == hit_keys(model@, hits_view(hits@)),
            forall|j: int| 0 <= j < hits.len() ==> (#[trigger] hits@[j]).index < model.rules.len(),
            lists_once(bucket_ids(out@), d.take(i as int)),
            forall|j: int|
                0 <= j < out@.len() ==> is_bucket(#[trigger] out@[j], model@, hits_view(hits@)),
            texts(names@) == bucket_names(out@),
            in_order(texts(names@)),
            names@.len() == out@.len(),
    {
        let ghost prior = out@;
        let ghost names0 = names@;
        let bucket: GroupBucket = build_bucket(model, hits, &keys, different[i].as_str());
        let name: String = bucket.display_name.clone();
        let at: usize = insertion_point(&names, name.as_str());
        proof {
            lemma_insert_once(bucket_ids(prior), d, i as int, at as int);
        }
        names.insert(at, name);
        out.insert(at, bucket);
        proof {
            assert(texts(names@) =~= texts(names0).insert(at as int, name@));
            assert(bucket_ids(out@) =~= bucket_ids(prior).insert(at as int, d[i as int]));
            assert(bucket_names(out@) =~= bucket_names(prior).insert(at as int, name@));
            assert forall|j: int| 0 <= j < out@.len() implies is_bucket(
                #[trigger] out@[j],
                model@,
                hits_view(hits@),
            ) by {
                if j < at {
                    assert(out@[j] == prior[j]);
                } else if j > at {
                    assert(out@[j] == prior[j - 1]);
                }
            }
        }
    }
    proof {
        assert(d.take(d.len() as int) == d);
        lemma_lists_once_trans(bucket_ids(out@), d, texts(keys@));
    }
    out
}

/// Finds the rules of the rule set that cover the remote.
pub fn run_with_model(args: FindRulesForRemoteArgs, model: &Model) -> (r: FindRulesForRemoteResult)
    ensures
        is_answer(r, args.remote@, args.include_catch_all, model@),
{
    let q: QueryKind = parse_query(args.remote.as_str());
    let hits: Vec<Hit> = find_hits(model, &q, args.include_catch_all);
    let total_count: usize = hits.len();
    proof {
        lemma_found(model@.rules, q@, args.include_catch_all);
        assert forall|i: int| 0 <= i < hits@.len() implies (#[trigger] hits@[i]).index
            < model.rules.len() by {
            assert(hits_view(hits@)[i] == hits@[i]@);
        }
    }
    let groups: Vec<GroupBucket> = build_buckets(model, &hits);
    proof {
        let h = hits_view(hits@);
        lemma_rules_in(groups@, model@, h);
        lemma_positions_total(bucket_ids(groups@), hit_keys(model@, h));
    }
    FindRulesForRemoteResult { remote: args.remote, total_count, groups }
}

/// What the tool returns for a rule set.
pub open spec fn is_answer(
    r: FindRulesForRemoteResult,
    remote: Seq<char>,
    include_catch_all: bool,
    m: ModelView,
) -> bool {
    let hits = found(m.rules, query(remote), include_catch_all);
    &&& r.remote@ == remote
    &&& r.total_count == hits.len()
    &&& are_buckets(r.groups@, m, hits)
    &&& rules_in(r.groups@) == r.total_count
}

/// Finds the rules of the live rule set that cover the remote.
pub fn run(args: FindRulesForRemoteArgs, export: CliRun) -> (r: Result<
    FindRulesForRemoteResult,
    String,
>)
    ensures
        if args.remote@.len() == 0 {
            r is Err && r->Err_0@ == "remote must not be empty"@
        } else {
            match exported(export, "model JSON invalid"@) {
                Ok(m) => r is Ok && is_answer(
                    r->Ok_0,
                    args.remote@,
                    args.include_catch_all,
                    m,
                ),
                Err(e) => r is Err && r->Err_0@ == e,
            }
        },
{
    if args.remote.as_str().is_empty() {
        return Err("remote must not be empty".to_owned());
    }
    match load_model(export, "model JSON invalid") {
        Ok(m) => Ok(run_with_model(args, &m)),
        Err(e) => Err(e),
    }
}

/// A name is in the domain of the same name, and a name below a name of a domain
/// is in the domain.
pub proof fn law_domain_covers(domain: Seq<char>, name: Seq<char>, below: Seq<char>)
    ensures
        in_domain(domain, domain),
        in_domain(domain, name) && in_domain(name, below) ==> in_domain(domain, below),
{
    let (d, n, b) = (undotted(domain), undotted(name), undotted(below));
    if in_domain(domain, name) && in_domain(name, below) && n != d && b != n {
        reveal_strlit(".");
        let (x, y) = ("."@ + d, "."@ + n);
        assert(b.skip(b.len() - y.len()) == y);
        assert(n.skip(n.len() - x.len()) == x);
        assert forall|i: int| 0 <= i < x.len() implies b.skip(b.len() - x.len())[i] == x[i] by {
            let k = n.len() - x.len() + i;
            assert(n.skip(n.len() - x.len())[i] == n[k]);
            assert(y[k + 1] == n[k]);
            assert(b.skip(b.len() - y.len())[k + 1] == b[b.len() - y.len() + k + 1]);
        }
        assert(b.skip(b.len() - x.len()) =~= x);
    }
}

/// Asking for the special values too loses nothing: a rule that is found without
/// them is found with them, in the same way; and it adds nothing but special values.
pub proof fn law_catch_all_adds(r: RuleView, q: QueryView)
    ensures
        match_of(r, q, false) is Some ==> match_of(r, q, true) == match_of(r, q, false),
        match_of(r, q, false) matches Some((kind, _)) ==> kind != MatchKind::CatchAll,
        match_of(r, q, true) matches Some((kind, remote)) ==> (kind == MatchKind::CatchAll ==>
            is_special(remote)),
{
}

/// A range that holds a range holds every address of it.
pub proof fn law_ranges_nest(a: AddressRange, b: AddressRange, c: AddressRange)
    requires
        a.covers(b),
        b.covers(c),
    ensures
        a.covers(c),
{
}

/// Nothing but full stops is left out at the beginning of a name, and all of these are.
pub proof fn law_only_leading_stops_are_left_out(s: Seq<char>)
    ensures
        ({
            let u = undotted(s);
            &&& u.len() <= s.len()
            &&& s.skip(s.len() - u.len()) == u
            &&& forall|i: int| 0 <= i < s.len() - u.len() ==> #[trigger] s[i] == '.'
            &&& u.len() > 0 ==> u[0] != '.'
        }),
    decreases s.len(),
{
    if s.len() > 0 && s[0] == '.' {
        let t = s.drop_first();
        law_only_leading_stops_are_left_out(t);
        let u = undotted(s);
        assert(s.skip(s.len() - u.len()) =~= t.skip(t.len() - u.len()));
        assert forall|i: int| 0 <= i < s.len() - u.len() implies #[trigger] s[i] == '.' by {
            if i > 0 {
                assert(s[i] == t[i - 1]);
            }
        }
    } else {
        assert(s.skip(0) == s);
    }
}

/// Whether a name stands below another: it is something, a full stop, and the other.
pub open spec fn is_below(a: Seq<char>, b: Seq<char>) -> bool {
    exists|before: Seq<char>| a == #[trigger] (before + seq!['.']) + b
}

proof fn lemma_below(a: Seq<char>, b: Seq<char>)
    ensures
        is_below(a, b) <==> ends_in(a, "."@ + b),
{
    reveal_strlit(".");
    let x = "."@ + b;
    assert(x =~= seq!['.'] + b);
    if ends_in(a, x) {
        let before = a.take(a.len() - x.len());
        assert(a =~= before + a.skip(a.len() - x.len()));
        assert(a =~= (before + seq!['.']) + b);
    }
    if is_below(a, b) {
        let before = choose|before: Seq<char>| a == #[trigger] (before + seq!['.']) + b;
        assert(a.skip(a.len() - x.len()) =~= x);
    }
}

/// Whether two names are the same or one stands below the other, in letters of either case and
/// whatever full stops they begin with.
pub open spec fn are_related(a: Seq<char>, b: Seq<char>) -> bool {
    let (x, y) = (undotted(ascii_lower(a)), undotted(ascii_lower(b)));
    x == y || is_below(x, y) || is_below(y, x)
}

proof fn lemma_related(stored: Seq<char>, remote: Seq<char>)
    ensures
        entry_hits(MatchKind::Domain, QueryView::Name(ascii_lower(remote)))(stored) <==> are_related(
            stored,
            remote,
        ),
{
    let (x, y) = (undotted(ascii_lower(stored)), undotted(ascii_lower(remote)));
    lemma_below(x, y);
    lemma_below(y, x);
}

/// The texts of a list; none where there is no list.
pub open spec fn entries_of(list: Option<StringsView>) -> Seq<Seq<char>> {
    match list {
        Some(v) => v.all(),
        None => Seq::empty(),
    }
}

/// Whether an address or a range of addresses has something to do with a range: it holds the
/// range, or lies in it.
pub open spec fn meets(stored: AddressRange, asked: AddressRange) -> bool {
    &&& stored.v6 == asked.v6
    &&& {
        ||| stored.first <= asked.first && asked.last <= stored.last
        ||| asked.first <= stored.first && stored.last <= asked.last
    }
}

/// Whether a rule is one that is looked for: one of its addresses or ranges holds the address
/// asked for, or meets the range asked for; or one of its hosts is the name asked for; or one
/// of its domains is related to the name; or its remote is a special value, and these are
/// wanted too.
pub open spec fn is_looked_for(r: RuleView, remote: Seq<char>, include_catch_all: bool) -> bool {
    let is_name = address(remote) is None && network(remote) is None;
    ||| address(remote) is Some && exists|i: int|
        {
            let s = #[trigger] entries_of(r.remote_addresses)[i];
            let ip = address(remote)->0;
            &&& 0 <= i < entries_of(r.remote_addresses).len()
            &&& match network(s) {
                Some(net) => net.v6 == ip.v6 && net.first <= ip.first && ip.last <= net.last,
                None => address(s) == Some(ip),
            }
        }
    ||| address(remote) is None && network(remote) is Some && exists|i: int|
        {
            let s = #[trigger] entries_of(r.remote_addresses)[i];
            let asked = network(remote)->0;
            &&& 0 <= i < entries_of(r.remote_addresses).len()
            &&& match network(s) {
                Some(net) => meets(net, asked),
                None => address(s) is Some && address(s)->0.v6 == asked.v6 && asked.first
                    <= address(s)->0.first && address(s)->0.last <= asked.last,
            }
        }
    ||| is_name && exists|i: int|
        0 <= i < entries_of(r.remote_hosts).len() && ascii_lower(
            #[trigger] entries_of(r.remote_hosts)[i],
        ) == ascii_lower(remote)
    ||| is_name && exists|i: int|
        0 <= i < entries_of(r.remote_domains).len() && are_related(
            #[trigger] entries_of(r.remote_domains)[i],
            remote,
        )
    ||| include_catch_all && (r.remote == Some("any"@) || r.remote == Some("local-net"@) || r.remote
        == Some("multicast"@) || r.remote == Some("broadcast"@) || r.remote == Some("bonjour"@)
        || r.remote == Some("dns-servers"@) || r.remote == Some("bpf"@))
}

/// The first text for which something holds is one of the texts, it does hold of it, and it
/// holds of none before it; there is none only if it holds of no text.
pub proof fn law_first_where(v: Seq<Seq<char>>, f: spec_fn(Seq<char>) -> bool)
    ensures
        match first_where(v, f) {
            Some(s) => exists|i: int|
                0 <= i < v.len() && #[trigger] v[i] == s && f(s) && forall|j: int|
                    0 <= j < i ==> !f(#[trigger] v[j]),
            None => forall|i: int| 0 <= i < v.len() ==> !f(#[trigger] v[i]),
        },
    decreases v.len(),
{
    if v.len() > 0 && !f(v[0]) {
        let w = v.drop_first();
        law_first_where(w, f);
        match first_where(v, f) {
            Some(s) => {
                let i = choose|i: int|
                    0 <= i < w.len() && #[trigger] w[i] == s && f(s) && forall|j: int|
                        0 <= j < i ==> !f(#[trigger] w[j]);
                assert(v[i + 1] == s);
                assert forall|j: int| 0 <= j < i + 1 implies !f(#[trigger] v[j]) by {
                    if j > 0 {
                        assert(w[j - 1] == v[j]);
                    }
                }
            },
            None => {
                assert forall|i: int| 0 <= i < v.len() implies !f(#[trigger] v[i]) by {
                    if i > 0 {
                        assert(w[i - 1] == v[i]);
                    }
                }
            },
        }
    } else if v.len() > 0 {
        assert(v[0] == v[0]);
    }
}

proof fn lemma_list_hit(list: Option<StringsView>, kind: MatchKind, q: QueryView)
    ensures
        list_hit(list, kind, q) is Some <==> exists|i: int|
            0 <= i < entries_of(list).len() && entry_hits(kind, q)(#[trigger] entries_of(list)[i]),
{
    law_first_where(entries_of(list), entry_hits(kind, q));
}

/// A rule covers what is asked for if and only if it is one that is looked for.
pub proof fn law_which_rules_match(r: RuleView, remote: Seq<char>, include_catch_all: bool)
    ensures
        match_of(r, query(remote), include_catch_all) is Some <==> is_looked_for(
            r,
            remote,
            include_catch_all,
        ),
{
    let q = query(remote);
    lemma_list_hit(r.remote_addresses, MatchKind::Address, q);
    lemma_list_hit(r.remote_hosts, MatchKind::Host, q);
    lemma_list_hit(r.remote_domains, MatchKind::Domain, q);
    assert forall|i: int| #![trigger entries_of(r.remote_domains)[i]]
        q is Name implies entry_hits(MatchKind::Domain, q)(entries_of(r.remote_domains)[i])
        == are_related(entries_of(r.remote_domains)[i], remote) by {
        lemma_related(entries_of(r.remote_domains)[i], remote);
    }
}

/// What a rule is said to be found by is one of its own: an entry of its addresses, hosts or
/// domains, as the kind says, or its special value.
pub proof fn law_matched_remote_is_the_rules_own(
    r: RuleView,
    remote: Seq<char>,
    include_catch_all: bool,
)
    requires
        match_of(r, query(remote), include_catch_all) is Some,
    ensures
        ({
            let (kind, by) = match_of(r, query(remote), include_catch_all)->0;
            match kind {
                MatchKind::Address => entries_of(r.remote_addresses).contains(by),
                MatchKind::Host => entries_of(r.remote_hosts).contains(by) && ascii_lower(by)
                    == ascii_lower(remote),
                MatchKind::Domain => entries_of(r.remote_domains).contains(by) && are_related(
                    by,
                    remote,
                ),
                MatchKind::CatchAll => include_catch_all && r.remote == Some(by),
            }
        }),
{
    let q = query(remote);
    let (kind, by) = match_of(r, q, include_catch_all)->0;
    law_first_where(entries_of(r.remote_addresses), entry_hits(MatchKind::Address, q));
    law_first_where(entries_of(r.remote_hosts), entry_hits(MatchKind::Host, q));
    law_first_where(entries_of(r.remote_domains), entry_hits(MatchKind::Domain, q));
    lemma_related(by, remote);
}

/// Rules are found wherever they stand, each once and in their order.
pub proof fn law_found(rules: Seq<RuleView>, q: QueryView, include_catch_all: bool)
    ensures
        ({
            let hits = found(rules, q, include_catch_all);
            &&& forall|k: int|
                0 <= k < hits.len() ==> 0 <= (#[trigger] hits[k]).index < rules.len() && match_of(
                    rules[hits[k].index],
                    q,
                    include_catch_all,
                ) == Some((hits[k].kind, hits[k].remote))
            &&& forall|k: int, l: int|
                0 <= k < l < hits.len() ==> (#[trigger] hits[k]).index < (#[trigger] hits[l]).index
            &&& forall|i: int|
                0 <= i < rules.len() && match_of(#[trigger] rules[i], q, include_catch_all)
                    is Some ==> is_hit(hits, i)
        }),
    decreases rules.len(),
{
    if rules.len() > 0 {
        let less = rules.drop_last();
        law_found(less, q, include_catch_all);
        let before = found(less, q, include_catch_all);
        let hits = found(rules, q, include_catch_all);
        assert forall|k: int| 0 <= k < hits.len() implies 0 <= (#[trigger] hits[k]).index
            < rules.len() && match_of(rules[hits[k].index], q, include_catch_all) == Some(
            (hits[k].kind, hits[k].remote),
        ) by {
            if k < before.len() {
                assert(hits[k] == before[k]);
                assert(less[before[k].index] == rules[before[k].index]);
            }
        }
        assert forall|k: int, l: int| 0 <= k < l < hits.len() implies (#[trigger] hits[k]).index < (
        #[trigger] hits[l]).index by {
            assert(hits[k] == before[k]);
            if l < before.len() {
                assert(hits[l] == before[l]);
            }
        }
        assert forall|i: int|
            0 <= i < rules.len() && match_of(#[trigger] rules[i], q, include_catch_all)
                is Some implies is_hit(hits, i) by {
            if i < less.len() {
                assert(less[i] == rules[i]);
                assert(is_hit(before, i));
                let k = choose|k: int|
                    0 <= k < before.len() && (#[trigger] before[k]).index == i;
                assert(hits[k] == before[k]);
            } else {
                assert(hits[before.len() as int].index == i);
            }
        }
    }
}

/// Whether the rule at position `i` is among those that were found.
pub open spec fn is_hit(hits: Seq<HitView>, i: int) -> bool {
    exists|k: int| 0 <= k < hits.len() && (#[trigger] hits[k]).index == i
}

/// Whether the rule at position `i` is shown, in the bucket at `b` as the one at `k`.
pub open spec fn is_shown_at(r: FindRulesForRemoteResult, i: int, b: int, k: int) -> bool {
    &&& 0 <= b < r.groups@.len()
    &&& 0 <= k < r.groups@[b].rules@.len()
    &&& r.groups@[b].rules@[k].global_index == i
}

/// Whether the rule at position `i` is shown.
pub open spec fn is_shown(r: FindRulesForRemoteResult, i: int) -> bool {
    exists|b: int, k: int| is_shown_at(r, i, b, k)
}

/// A rule that is shown is one of the rule set, in the bucket of its group, as it is and with
/// what it was found by.
pub proof fn law_shown_rules_are_right(
    r: FindRulesForRemoteResult,
    remote: Seq<char>,
    include_catch_all: bool,
    m: ModelView,
    i: int,
    b: int,
    k: int,
)
    requires
        is_answer(r, remote, include_catch_all, m),
        is_shown_at(r, i, b, k),
    ensures
        0 <= i < m.rules.len(),
        ({
            let rule = m.rules[i];
            let shown = r.groups@[b].rules@[k]@;
            &&& is_looked_for(rule, remote, include_catch_all)
            &&& match_of(rule, query(remote), include_catch_all) == Some(
                (shown.match_kind, shown.matched_remote),
            )
            &&& rule.group matches Some(g) ==> r.groups@[b].group_id@ == g
            &&& rule.group is None ==> r.groups@[b].group_id@ == "<no-group>"@
            &&& shown.action == rule.action.word()
            &&& shown.direction is Some <==> rule.direction is Some
            &&& rule.direction matches Some(d) ==> shown.direction == Some(d.word())
            &&& shown.process == rule.process
            &&& shown.creation_date == rule.creation_date
            &&& shown.modification_date == rule.modification_date
            &&& shown.group_active == r.groups@[b].is_active
        }),
{
    let hits = found(m.rules, query(remote), include_catch_all);
    let bucket = r.groups@[b];
    let key = bucket.group_id@;
    law_found(m.rules, query(remote), include_catch_all);
    assert(is_bucket(bucket, m, hits));
    let at = positions_of(hit_keys(m, hits), key);
    lemma_positions_of(hit_keys(m, hits), key);
    assert(matched_view(bucket.rules@).len() == bucket.rules@.len());
    assert(bucket_rules(m, hits, key).len() == at.len());
    assert(matched_view(bucket.rules@)[k] == bucket.rules@[k]@);
    assert(0 <= at[k] < hits.len());
    assert(bucket_rules(m, hits, key)[k] == shown(m, hits[at[k]], bucket_name(m, key).1));
    assert(hit_keys(m, hits)[at[k]] == group_key(m.rules[hits[at[k]].index]));
    law_which_rules_match(m.rules[i], remote, include_catch_all);
}

/// The search finds what is looked for and nothing else: a rule is shown if and only if it is
/// one that is looked for.
pub proof fn law_search_is_complete(
    r: FindRulesForRemoteResult,
    remote: Seq<char>,
    include_catch_all: bool,
    m: ModelView,
    i: int,
)
    requires
        is_answer(r, remote, include_catch_all, m),
    ensures
        is_shown(r, i) <==> 0 <= i < m.rules.len() && is_looked_for(
            m.rules[i],
            remote,
            include_catch_all,
        ),
{
    let hits = found(m.rules, query(remote), include_catch_all);
    if is_shown(r, i) {
        let (b, k) = choose|b: int, k: int| is_shown_at(r, i, b, k);
        law_shown_rules_are_right(r, remote, include_catch_all, m, i, b, k);
    }
    if 0 <= i < m.rules.len() && is_looked_for(m.rules[i], remote, include_catch_all) {
        law_which_rules_match(m.rules[i], remote, include_catch_all);
        law_found(m.rules, query(remote), include_catch_all);
        assert(is_hit(hits, i));
        let h = choose|h: int| 0 <= h < hits.len() && (#[trigger] hits[h]).index == i;
        let keys = hit_keys(m, hits);
        let key = keys[h];
        let ids = bucket_ids(r.groups@);
        assert(ids.contains(key));
        let b = choose|b: int| 0 <= b < ids.len() && ids[b] == key;
        let bucket = r.groups@[b];
        assert(bucket.group_id@ == key);
        assert(is_bucket(bucket, m, hits));
        lemma_positions_of(keys, key);
        let at = positions_of(keys, key);
        assert(at.contains(h));
        let k = choose|k: int| 0 <= k < at.len() && at[k] == h;
        assert(bucket_rules(m, hits, key)[k] == shown(m, hits[at[k]], bucket_name(m, key).1));
        assert(matched_view(bucket.rules@).len() == bucket.rules@.len());
        assert(bucket_rules(m, hits, key).len() == at.len());
        assert(matched_view(bucket.rules@)[k] == bucket.rules@[k]@);
        assert(is_shown_at(r, i, b, k));
    }
}

/// A rule on a domain is shown whenever the name that is asked for is the domain, stands below
/// it, or stands above it.
pub proof fn law_domain_rules_are_found(
    r: FindRulesForRemoteResult,
    remote: Seq<char>,
    include_catch_all: bool,
    m: ModelView,
    i: int,
    domain: Seq<char>,
    between: Seq<char>,
)
    requires
        is_answer(r, remote, include_catch_all, m),
        address(remote) is None,
        network(remote) is None,
        0 <= i < m.rules.len(),
        m.rules[i].remote_domains is Some,
        m.rules[i].remote_domains->0.all().contains(domain),
        ({
            let d = undotted(ascii_lower(domain));
            let n = undotted(ascii_lower(remote));
            ||| d == n
            ||| d == (between + seq!['.']) + n
            ||| n == (between + seq!['.']) + d
        }),
    ensures
        is_shown(r, i),
{
    let all = entries_of(m.rules[i].remote_domains);
    let e = choose|e: int| 0 <= e < all.len() && all[e] == domain;
    assert(are_related(all[e], remote));
    law_search_is_complete(r, remote, include_catch_all, m, i);
}

/// A rule with this one domain.
pub open spec fn on_domain(r: RuleView, domain: Seq<char>) -> RuleView {
    RuleView { remote_domains: Some(StringsView::One(domain)), ..r }
}

/// Looking for domains goes both ways: a rule on one domain is found for another just if a
/// rule on the other is found for the one.
pub proof fn law_domain_search_is_symmetric(r: RuleView, a: Seq<char>, b: Seq<char>)
    requires
        address(a) is None,
        network(a) is None,
        address(b) is None,
        network(b) is None,
        r.remote_addresses is None,
        r.remote_hosts is None,
    ensures
        match_of(on_domain(r, a), query(b), false) is Some <==> match_of(
            on_domain(r, b),
            query(a),
            false,
        ) is Some,
        match_of(on_domain(r, a), query(a), false) is Some,
{
    let (x, y) = (on_domain(r, a), on_domain(r, b));
    law_which_rules_match(x, b, false);
    law_which_rules_match(y, a, false);
    law_which_rules_match(x, a, false);
    assert(entries_of(x.remote_domains)[0] == a);
    assert(entries_of(y.remote_domains)[0] == b);
}

/// A bucket is called what its group is called and is switched on if its group is, and the
/// buckets stand in the order of their names.
pub proof fn law_buckets_are_those_of_groups(
    r: FindRulesForRemoteResult,
    remote: Seq<char>,
    include_catch_all: bool,
    m: ModelView,
    b: int,
    c: int,
)
    requires
        is_answer(r, remote, include_catch_all, m),
        0 <= b < r.groups@.len(),
    ensures
        ({
            let bucket = r.groups@[b];
            let id = bucket.group_id@;
            &&& bucket.rules@.len() > 0
            &&& id != "<no-group>"@ && m.groups.dom().contains(id) ==> {
                &&& m.groups[id].name matches Some(n) ==> bucket.display_name@ == n
                &&& bucket.is_active <==> m.groups[id].is_active != Some(false)
            }
            &&& id != "<no-group>"@ && !m.groups.dom().contains(id) ==> bucket.display_name@ == id
                && bucket.is_active
            &&& id == "<no-group>"@ ==> bucket.display_name@ == id && bucket.is_active
            &&& b < c < r.groups@.len() ==> text_le(
                bucket.display_name@,
                r.groups@[c].display_name@,
            ) && r.groups@[c].group_id@ != id
        }),
{
    let hits = found(m.rules, query(remote), include_catch_all);
    let bucket = r.groups@[b];
    assert(is_bucket(bucket, m, hits));
    let keys = hit_keys(m, hits);
    lemma_positions_of(keys, bucket.group_id@);
    assert(bucket_ids(r.groups@)[b] == bucket.group_id@);
    assert(matched_view(bucket.rules@).len() == bucket.rules@.len());
    if b < c < r.groups@.len() {
        assert(bucket_names(r.groups@)[b] == bucket.display_name@);
        assert(bucket_names(r.groups@)[c] == r.groups@[c].display_name@);
        assert(bucket_ids(r.groups@)[c] == r.groups@[c].group_id@);
    }
}

/// A rule is found by the first of its entries that does, by a host rather than by a domain,
/// and by its special value only if nothing else does.
pub proof fn law_how_a_rule_is_found(
    r: RuleView,
    remote: Seq<char>,
    include_catch_all: bool,
    i: int,
)
    requires
        address(remote) is None,
        network(remote) is None,
    ensures
        ({
            let how = match_of(r, query(remote), include_catch_all);
            let (hosts, domains) = (entries_of(r.remote_hosts), entries_of(r.remote_domains));
            let no_host = forall|j: int|
                0 <= j < hosts.len() ==> ascii_lower(#[trigger] hosts[j]) != ascii_lower(remote);
            &&& 0 <= i < hosts.len() && ascii_lower(hosts[i]) == ascii_lower(remote) && (forall|
                j: int,
            |
                0 <= j < i ==> ascii_lower(#[trigger] hosts[j]) != ascii_lower(remote)) ==> how
                == Some((MatchKind::Host, hosts[i]))
            &&& no_host && 0 <= i < domains.len() && are_related(domains[i], remote) && (forall|
                j: int,
            |
                0 <= j < i ==> !are_related(#[trigger] domains[j], remote)) ==> how == Some(
                (MatchKind::Domain, domains[i]),
            )
        }),
{
    let q = query(remote);
    let (hosts, domains) = (entries_of(r.remote_hosts), entries_of(r.remote_domains));
    law_first_where(entries_of(r.remote_addresses), entry_hits(MatchKind::Address, q));
    law_first_where(hosts, entry_hits(MatchKind::Host, q));
    law_first_where(domains, entry_hits(MatchKind::Domain, q));
    assert forall|j: int| #![trigger domains[j]]
        entry_hits(MatchKind::Domain, q)(domains[j]) == are_related(domains[j], remote) by {
        lemma_related(domains[j], remote);
    }
    if 0 <= i < hosts.len() && ascii_lower(hosts[i]) == ascii_lower(remote) && (forall|j: int|
        0 <= j < i ==> ascii_lower(#[trigger] hosts[j]) != ascii_lower(remote)) {
        lemma_first_is(hosts, entry_hits(MatchKind::Host, q), i);
    }
    if 0 <= i < domains.len() && are_related(domains[i], remote) && (forall|j: int|
        0 <= j < i ==> !are_related(#[trigger] domains[j], remote)) {
        lemma_first_is(domains, entry_hits(MatchKind::Domain, q), i);
    }
}

proof fn lemma_first_is(v: Seq<Seq<char>>, f: spec_fn(Seq<char>) -> bool, i: int)
    requires
        0 <= i < v.len(),
        f(v[i]),
        forall|j: int| 0 <= j < i ==> !f(#[trigger] v[j]),
    ensures
        first_where(v, f) == Some(v[i]),
{
    law_first_where(v, f);
    let s = first_where(v, f)->0;
    let k = choose|k: int|
        0 <= k < v.len() && #[trigger] v[k] == s && f(s) && forall|j: int|
            0 <= j < k ==> !f(#[trigger] v[j]);
    if k < i {
        assert(!f(v[k]));
    } else if i < k {
        assert(!f(v[i]));
    }
}

/// As many rules are counted as are shown, and none just if none is looked for.
pub proof fn law_the_count_is_that_of_the_rules(
    r: FindRulesForRemoteResult,
    remote: Seq<char>,
    include_catch_all: bool,
    m: ModelView,
    i: int,
)
    requires
        is_answer(r, remote, include_catch_all, m),
    ensures
        r.total_count == rules_in(r.groups@),
        r.total_count <= m.rules.len(),
        0 <= i < m.rules.len() && is_looked_for(m.rules[i], remote, include_catch_all)
            ==> r.total_count > 0,
        r.groups@.len() == 0 <==> r.total_count == 0,
        r.remote@ == remote,
{
    let hits = found(m.rules, query(remote), include_catch_all);
    lemma_found(m.rules, query(remote), include_catch_all);
    law_found(m.rules, query(remote), include_catch_all);
    let ids = bucket_ids(r.groups@);
    if 0 <= i < m.rules.len() && is_looked_for(m.rules[i], remote, include_catch_all) {
        law_which_rules_match(m.rules[i], remote, include_catch_all);
        assert(is_hit(hits, i));
    }
    if r.groups@.len() > 0 {
        assert(ids[0] == r.groups@[0].group_id@);
        assert(hit_keys(m, hits).contains(ids[0]));
    }
    if hits.len() > 0 {
        assert(ids.contains(hit_keys(m, hits)[0]));
    }
}

} // verus!
