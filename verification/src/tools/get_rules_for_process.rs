//! Finding the rules for a process.

use vstd::prelude::*;
use crate::cli::{exported, load_model, CliRun};
use crate::grouping::{
    distinct, find_positions, in_order, insertion_point, lemma_insert_once, lemma_lists_once_trans,
    lemma_positions_of, lemma_positions_total, lists_once, positions, positions_of,
    positions_total,
};
use crate::model::{Direction, Model, ModelView, Rule, RuleView};
use crate::text::{join, joined, opt_is, opt_text, text_le, texts};
use crate::tools::find_rules_for_remote::{bucket_name, group_key, group_key_of, name_bucket};

verus! {

/// What the tool is given.
#[derive(Debug)]
pub struct GetRulesForProcessArgs {
    /// The path of an executable, `any`, or a team and an identifier.
    pub process: String,
}

/// A rule for the process.
#[derive(Debug)]
pub struct RuleEntry {
    /// The rule's position among those of its group that are shown.
    pub index: usize,
    pub action: String,
    pub direction: Option<String>,
    /// The rule's remote as text.
    pub remote: Option<String>,
    pub creation_date: String,
    pub modification_date: String,
    /// Whether the rule's group is switched on.
    pub group_active: bool,
}

/// What a [`RuleEntry`] means.
#[verifier::ext_equal]
pub struct RuleEntryView {
    pub index: int,
    pub action: Seq<char>,
    pub direction: Option<Seq<char>>,
    pub remote: Option<Seq<char>>,
    pub creation_date: Seq<char>,
    pub modification_date: Seq<char>,
    pub group_active: bool,
}

impl View for RuleEntry {
    type V = RuleEntryView;

    open spec fn view(&self) -> RuleEntryView {
        RuleEntryView {
            index: self.index as int,
            action: self.action@,
            direction: opt_text(self.direction),
            remote: opt_text(self.remote),
            creation_date: self.creation_date@,
            modification_date: self.modification_date@,
            group_active: self.group_active,
        }
    }
}

/// The rules of one group that are for the process.
#[derive(Debug)]
pub struct GroupBucket {
    /// The key of the group, or `<no-group>`.
    pub group_id: String,
    pub display_name: String,
    pub is_active: bool,
    pub rules: Vec<RuleEntry>,
}

/// What the tool returns.
#[derive(Debug)]
pub struct GetRulesForProcessResult {
    /// What was asked for.
    pub process: String,
    /// How many rules were found.
    pub total_count: usize,
    /// The rules by their groups, in the order of the names.
    pub groups: Vec<GroupBucket>,
}

/// The positions of the rules for a process, in order.
pub open spec fn rules_for(rules: Seq<RuleView>, process: Seq<char>) -> Seq<int>
    decreases rules.len(),
{
    if rules.len() == 0 {
        Seq::empty()
    } else {
        let before = rules_for(rules.drop_last(), process);
        if rules.last().process == Some(process) {
            before.push(rules.len() - 1)
        } else {
            before
        }
    }
}

/// The rules for a process are those that name it, each once, in order.
pub proof fn law_rules_for(rules: Seq<RuleView>, process: Seq<char>)
    ensures
        rules_for(rules, process).len() <= rules.len(),
        forall|i: int|
            0 <= i < rules_for(rules, process).len() ==> 0 <= #[trigger] rules_for(
                rules,
                process,
            )[i] < rules.len() && rules[rules_for(rules, process)[i]].process == Some(process),
        forall|i: int, j: int|
            0 <= i < j < rules_for(rules, process).len() ==> rules_for(rules, process)[i]
                < rules_for(rules, process)[j],
        forall|p: int|
            0 <= p < rules.len() && (#[trigger] rules[p]).process == Some(process) ==> rules_for(
                rules,
                process,
            ).contains(p),
    decreases rules.len(),
{
    if rules.len() > 0 {
        let k = rules.drop_last();
        law_rules_for(k, process);
        let now = rules_for(rules, process);
        let before = rules_for(k, process);
        assert forall|i: int| 0 <= i < now.len() implies 0 <= #[trigger] now[i] < rules.len()
            && rules[now[i]].process == Some(process) by {
            if i < before.len() {
                assert(now[i] == before[i]);
                assert(k[before[i]].process == Some(process));
            }
        }
        assert forall|p: int|
            0 <= p < rules.len() && (#[trigger] rules[p]).process == Some(process) implies now.contains(
            p,
        ) by {
            if p < k.len() {
                assert(k[p] == rules[p]);
                let i = choose|i: int| 0 <= i < before.len() && before[i] == p;
                assert(now[i] == p);
            } else {
                assert(now[before.len() as int] == p);
            }
        }
    }
}

fn find_rules(model: &Model, process: &str) -> (r: Vec<usize>)
    ensures
        positions(r@) == rules_for(model@.rules, process@),
{
    let mut out: Vec<usize> = Vec::new();
    let ghost rules = model@.rules;
    proof {
        assert(positions(out@) =~= rules_for(rules.take(0), process@));
    }
    for i in 0..model.rules.len()
        invariant
            rules == model@.rules,
            positions(out@) == rules_for(rules.take(i as int), process@),
    {
        let ghost prior = out@;
        proof {
            assert(rules.take(i + 1).drop_last() == rules.take(i as int));
            assert(rules.take(i + 1).last() == model.rules@[i as int]@);
        }
        if opt_is(&model.rules[i].process, process) {
            out.push(i);
            proof {
                assert(positions(out@) =~= positions(prior).push(i as int));
            }
        }
    }
    proof {
        assert(rules.take(rules.len() as int) == rules);
    }
    out
}

/// A rule's remote as text: its special value, or else its domains, hosts or
/// addresses with commas between them.
pub open spec fn remote_text(r: RuleView) -> Option<Seq<char>> {
    if r.remote is Some {
        r.remote
    } else if r.remote_domains is Some {
        Some(joined(r.remote_domains->0.all(), ", "@))
    } else if r.remote_hosts is Some {
        Some(joined(r.remote_hosts->0.all(), ", "@))
    } else if r.remote_addresses is Some {
        Some(joined(r.remote_addresses->0.all(), ", "@))
    } else {
        None
    }
}

fn remote_text_of(r: &Rule) -> (t: Option<String>)
    ensures
        opt_text(t) == remote_text(r@),
{
    if let Some(s) = &r.remote {
        return Some(s.clone());
    }
    if let Some(v) = &r.remote_domains {
        return Some(join(&v.to_list(), ", "));
    }
    if let Some(v) = &r.remote_hosts {
        return Some(join(&v.to_list(), ", "));
    }
    if let Some(v) = &r.remote_addresses {
        return Some(join(&v.to_list(), ", "));
    }
    None
}

/// The group keys of the rules that were found.
pub open spec fn hit_keys(m: ModelView, hits: Seq<int>) -> Seq<Seq<char>> {
    Seq::new(hits.len(), |i: int| group_key(m.rules[hits[i]]))
}

/// A rule, as it is shown at a position of its bucket.
pub open spec fn shown(r: RuleView, index: int, active: bool) -> RuleEntryView {
    RuleEntryView {
        index,
        action: r.action.word(),
        direction: match r.direction {
            Some(d) => Some(d.word()),
            None => None,
        },
        remote: remote_text(r),
        creation_date: r.creation_date,
        modification_date: r.modification_date,
        group_active: active,
    }
}

fn show(rule: &Rule, index: usize, active: bool) -> (r: RuleEntry)
    ensures
        r@ == shown(rule@, index as int, active),
{
    RuleEntry {
        index,
        action: rule.action.as_str().to_owned(),
        direction: match rule.direction {
            Some(d) => Some(d.as_str().to_owned()),
            None => None,
        },
        remote: remote_text_of(rule),
        creation_date: rule.creation_date.clone(),
        modification_date: rule.modification_date.clone(),
        group_active: active,
    }
}

/// The views of several rules that were found.
pub open spec fn entries_view(v: Seq<RuleEntry>) -> Seq<RuleEntryView> {
    Seq::new(v.len(), |i: int| v[i]@)
}

/// The rules of one group among those that were found, as they are shown.
pub open spec fn bucket_rules(m: ModelView, hits: Seq<int>, key: Seq<char>) -> Seq<RuleEntryView> {
    let at = positions_of(hit_keys(m, hits), key);
    Seq::new(at.len(), |i: int| shown(m.rules[hits[at[i]]], i, bucket_name(m, key).1))
}

/// Whether a bucket holds what its key calls for.
pub open spec fn is_bucket(b: GroupBucket, m: ModelView, hits: Seq<int>) -> bool {
    &&& b.display_name@ == bucket_name(m, b.group_id@).0
    &&& b.is_active == bucket_name(m, b.group_id@).1
    &&& entries_view(b.rules@) == bucket_rules(m, hits, b.group_id@)
}

/// The keys of some buckets.
pub open spec fn bucket_ids(v: Seq<GroupBucket>) -> Seq<Seq<char>> {
    Seq::new(v.len(), |i: int| v[i].group_id@)
}

/// The names of some buckets.
pub open spec fn bucket_names(v: Seq<GroupBucket>) -> Seq<Seq<char>> {
    Seq::new(v.len(), |i: int| v[i].display_name@)
}

/// How many rules stand in some buckets.
pub open spec fn rules_in(v: Seq<GroupBucket>) -> nat
    decreases v.len(),
{
    if v.len() == 0 {
        0
    } else {
        rules_in(v.drop_last()) + v.last().rules@.len()
    }
}

/// Whether the buckets show the rules that were found: one bucket for each group
/// that has any, with these rules in their order, and the buckets in the order of
/// their names. Buckets with the same name may stand in either order.
pub open spec fn are_buckets(v: Seq<GroupBucket>, m: ModelView, hits: Seq<int>) -> bool {
    &&& lists_once(bucket_ids(v), hit_keys(m, hits))
    &&& forall|i: int| 0 <= i < v.len() ==> is_bucket(#[trigger] v[i], m, hits)
    &&& in_order(bucket_names(v))
}

/// No rule is lost and none is shown twice.
pub proof fn lemma_rules_in(v: Seq<GroupBucket>, m: ModelView, hits: Seq<int>)
    requires
        forall|i: int| 0 <= i < v.len() ==> is_bucket(#[trigger] v[i], m, hits),
    ensures
        rules_in(v) == positions_total(bucket_ids(v), hit_keys(m, hits)),
    decreases v.len(),
{
    if v.len() > 0 {
        let w = v.drop_last();
        assert forall|i: int| 0 <= i < w.len() implies is_bucket(#[trigger] w[i], m, hits) by {
            assert(is_bucket(v[i], m, hits));
        }
        lemma_rules_in(w, m, hits);
        assert(bucket_ids(v).drop_last() =~= bucket_ids(w));
        assert(is_bucket(v[v.len() - 1], m, hits));
        assert(entries_view(v.last().rules@).len() == v.last().rules@.len());
    }
}

fn build_bucket(model: &Model, hits: &Vec<usize>, keys: &Vec<String>, key: &str) -> (r: GroupBucket)
    requires
        texts(keys@) == hit_keys(model@, positions(hits@)),
        forall|i: int| 0 <= i < hits.len() ==> (#[trigger] hits@[i]) < model.rules.len(),
    ensures
        r.group_id@ == key@,
        is_bucket(r, model@, positions(hits@)),
{
    let (display_name, is_active): (String, bool) = name_bucket(model, key);
    let at: Vec<usize> = find_positions(keys, key);
    let ghost want = bucket_rules(model@, positions(hits@), key@);
    proof {
        lemma_positions_of(texts(keys@), key@);
    }
    let mut rules: Vec<RuleEntry> = Vec::new();
    for i in 0..at.len()
        invariant
            texts(keys@) == hit_keys(model@, positions(hits@)),
            positions(at@) == positions_of(texts(keys@), key@),
            forall|j: int|
                0 <= j < positions(at@).len() ==> 0 <= #[trigger] positions(at@)[j] < keys@.len(),
            forall|j: int| 0 <= j < hits.len() ==> (#[trigger] hits@[j]) < model.rules.len(),
            keys@.len() == hits@.len(),
            is_active == bucket_name(model@, key@).1,
            want == bucket_rules(model@, positions(hits@), key@),
            want.len() == at@.len(),
            entries_view(rules@) == want.take(i as int),
    {
        let ghost prior = rules@;
        proof {
            assert(positions(at@)[i as int] == at@[i as int]);
        }
        let rule: RuleEntry = show(&model.rules[hits[at[i]]], i, is_active);
        rules.push(rule);
        proof {
            assert(want[i as int] == rule@);
            assert(entries_view(rules@) =~= entries_view(prior).push(rule@));
            assert(want.take(i + 1) =~= want.take(i as int).push(rule@));
        }
    }
    proof {
        assert(want.take(at@.len() as int) == want);
    }
    GroupBucket { group_id: key.to_owned(), display_name, is_active, rules }
}

fn build_buckets(model: &Model, hits: &Vec<usize>) -> (r: Vec<GroupBucket>)
    requires
        forall|i: int| 0 <= i < hits.len() ==> (#[trigger] hits@[i]) < model.rules.len(),
    ensures
        are_buckets(r@, model@, positions(hits@)),
{
    let mut keys: Vec<String> = Vec::new();
    let ghost want = hit_keys(model@, positions(hits@));
    for i in 0..hits.len()
        invariant
            forall|j: int| 0 <= j < hits.len() ==> (#[trigger] hits@[j]) < model.rules.len(),
            want == hit_keys(model@, positions(hits@)),
            texts(keys@) == want.take(i as int),
    {
        let ghost prior = keys@;
        let key: String = group_key_of(&model.rules[hits[i]]);
        keys.push(key);
        proof {
            assert(want[i as int] == key@);
            assert(texts(keys@) =~= texts(prior).push(key@));
            assert(want.take(i + 1) =~= want.take(i as int).push(key@));
        }
    }
    proof {
        assert(want.take(hits@.len() as int) == want);
    }
    let different: Vec<String> = distinct(&keys);
    let ghost d = texts(different@);
    let mut out: Vec<GroupBucket> = Vec::new();
    let mut names: Vec<String> = Vec::new();
    proof {
        assert(bucket_ids(out@) =~= d.take(0));
        assert(texts(names@) =~= bucket_names(out@));
    }
    for i in 0..different.len()
        invariant
            d == texts(different@),
            d.no_duplicates(),
            texts(keys@) == hit_keys(model@, positions(hits@)),
            forall|j: int| 0 <= j < hits.len() ==> (#[trigger] hits@[j]) < model.rules.len(),
            lists_once(bucket_ids(out@), d.take(i as int)),
            forall|j: int|
                0 <= j < out@.len() ==> is_bucket(#[trigger] out@[j], model@, positions(hits@)),
            texts(names@) == bucket_names(out@),
            in_order(texts(names@)),
            names@.len() == out@.len(),
    {
        let ghost prior = out@;
        let ghost names0 = names@;
        let bucket: GroupBucket = build_bucket(model, hits, &keys, different[i].as_str());
        let name: String = bucket.display_name.clone();
        let at: usize = insertion_point(&names, name.as_str());
        proof {
            lemma_insert_once(bucket_ids(prior), d, i as int, at as int);
        }
        names.insert(at, name);
        out.insert(at, bucket);
        proof {
            assert(texts(names@) =~= texts(names0).insert(at as int, name@));
            assert(bucket_ids(out@) =~= bucket_ids(prior).insert(at as int, d[i as int]));
            assert(bucket_names(out@) =~= bucket_names(prior).insert(at as int, name@));
            assert forall|j: int| 0 <= j < out@.len() implies is_bucket(
                #[trigger] out@[j],
                model@,
                positions(hits@),
            ) by {
                if j < at {
                    assert(out@[j] == prior[j]);
                } else if j > at {
                    assert(out@[j] == prior[j - 1]);
                }
            }
        }
    }
    proof {
        assert(d.take(d.len() as int) == d);
        lemma_lists_once_trans(bucket_ids(out@), d, texts(keys@));
    }
    out
}

/// What the tool returns for a rule set.
pub open spec fn is_answer(r: GetRulesForProcessResult, process: Seq<char>, m: ModelView) -> bool {
    let hits = rules_for(m.rules, process);
    &&& r.process@ == process
    &&& r.total_count == hits.len()
    &&& are_buckets(r.groups@, m, hits)
    &&& rules_in(r.groups@) == r.total_count
}

/// Finds the rules of the rule set that are for the process.
pub fn run_with_model(args: GetRulesForProcessArgs, model: &Model) -> (r: GetRulesForProcessResult)
    ensures
        is_answer(r, args.process@, model@),
{
    let hits: Vec<usize> = find_rules(model, args.process.as_str());
    let total_count: usize = hits.len();
    proof {
        law_rules_for(model@.rules, args.process@);
        assert forall|i: int| 0 <= i < hits@.len() implies (#[trigger] hits@[i])
            < model.rules.len() by {
            assert(positions(hits@)[i] == hits@[i]);
        }
    }
    let groups: Vec<GroupBucket> = build_buckets(model, &hits);
    proof {
        let h = positions(hits@);
        lemma_rules_in(groups@, model@, h);
        lemma_positions_total(bucket_ids(groups@), hit_keys(model@, h));
    }
    GetRulesForProcessResult { process: args.process, total_count, groups }
}

/// Finds the rules of the live rule set that are for the process.
pub fn run(args: GetRulesForProcessArgs, export: CliRun) -> (r: Result<
    GetRulesForProcessResult,
    String,
>)
    ensures
        if args.process@.len() == 0 {
            r is Err && r->Err_0@ == "process must not be empty"@
        } else {
            match exported(export, "model JSON invalid"@) {
                Ok(m) => r is Ok && is_answer(r->Ok_0, args.process@, m),
                Err(e) => r is Err && r->Err_0@ == e,
            }
        },
{
    if args.process.as_str().is_empty() {
        return Err("process must not be empty".to_owned());
    }
    match load_model(export, "model JSON invalid") {
        Ok(m) => Ok(run_with_model(args, &m)),
        Err(e) => Err(e),
    }
}

/// Whether the rule at position `i` is shown in the bucket at `b` as the one at `k`: the bucket
/// is that of its group, and so many rules for the process come before it in the group.
pub open spec fn shows(
    r: GetRulesForProcessResult,
    m: ModelView,
    process: Seq<char>,
    i: int,
    b: int,
    k: int,
) -> bool {
    &&& 0 <= i < m.rules.len()
    &&& m.rules[i].process == Some(process)
    &&& 0 <= b < r.groups@.len()
    &&& 0 <= k < r.groups@[b].rules@.len()
    &&& m.rules[i].group matches Some(g) ==> r.groups@[b].group_id@ == g
    &&& m.rules[i].group is None ==> r.groups@[b].group_id@ == "<no-group>"@
    &&& is_entry(r.groups@[b].rules@[k]@, m.rules[i], k, r.groups@[b].is_active)
}

/// Whether an entry shows a rule as it is.
pub open spec fn is_entry(e: RuleEntryView, r: RuleView, index: int, active: bool) -> bool {
    &&& e.index == index
    &&& r.action is Allow ==> e.action == "allow"@
    &&& r.action is Deny ==> e.action == "deny"@
    &&& r.action is Ask ==> e.action == "ask"@
    &&& e.direction is Some <==> r.direction is Some
    &&& r.direction == Some(Direction::Incoming) ==> e.direction == Some("incoming"@)
    &&& r.direction == Some(Direction::Outgoing) ==> e.direction == Some("outgoing"@)
    &&& r.direction == Some(Direction::Both) ==> e.direction == Some("both"@)
    &&& r.remote is Some ==> e.remote == r.remote
    &&& r.remote is None && r.remote_domains is Some ==> e.remote == Some(
        joined(r.remote_domains->0.all(), ", "@),
    )
    &&& r.remote is None && r.remote_domains is None && r.remote_hosts is Some ==> e.remote == Some(
        joined(r.remote_hosts->0.all(), ", "@),
    )
    &&& r.remote is None && r.remote_domains is None && r.remote_hosts is None
        && r.remote_addresses is Some ==> e.remote == Some(
        joined(r.remote_addresses->0.all(), ", "@),
    )
    &&& r.remote is None && r.remote_domains is None && r.remote_hosts is None
        && r.remote_addresses is None ==> e.remote is None
    &&& e.creation_date == r.creation_date
    &&& e.modification_date == r.modification_date
    &&& e.group_active == active
}

/// Every rule for the process is shown, in the bucket of its group, as it is.
pub proof fn law_every_rule_for_a_process_is_shown(
    r: GetRulesForProcessResult,
    process: Seq<char>,
    m: ModelView,
    i: int,
)
    requires
        is_answer(r, process, m),
        0 <= i < m.rules.len(),
        m.rules[i].process == Some(process),
    ensures
        exists|b: int, k: int| shows(r, m, process, i, b, k),
{
    let hits = rules_for(m.rules, process);
    law_rules_for(m.rules, process);
    assert(hits.contains(i));
    let h = choose|h: int| 0 <= h < hits.len() && hits[h] == i;
    let keys = hit_keys(m, hits);
    let key = keys[h];
    let ids = bucket_ids(r.groups@);
    assert(ids.contains(key));
    let b = choose|b: int| 0 <= b < ids.len() && ids[b] == key;
    let bucket = r.groups@[b];
    assert(bucket.group_id@ == key);
    assert(is_bucket(bucket, m, hits));
    lemma_positions_of(keys, key);
    let at = positions_of(keys, key);
    assert(at.contains(h));
    let k = choose|k: int| 0 <= k < at.len() && at[k] == h;
    assert(entries_view(bucket.rules@).len() == bucket.rules@.len());
    assert(bucket_rules(m, hits, key).len() == at.len());
    assert(bucket_rules(m, hits, key)[k] == shown(m.rules[hits[at[k]]], k, bucket_name(m, key).1));
    assert(entries_view(bucket.rules@)[k] == bucket.rules@[k]@);
    assert(shows(r, m, process, i, b, k));
}

/// Nothing else is shown: every entry is that of a rule for the process.
pub proof fn law_only_rules_for_the_process_are_shown(
    r: GetRulesForProcessResult,
    process: Seq<char>,
    m: ModelView,
    b: int,
    k: int,
)
    requires
        is_answer(r, process, m),
        0 <= b < r.groups@.len(),
        0 <= k < r.groups@[b].rules@.len(),
    ensures
        exists|i: int| shows(r, m, process, i, b, k),
{
    let hits = rules_for(m.rules, process);
    law_rules_for(m.rules, process);
    let bucket = r.groups@[b];
    let key = bucket.group_id@;
    assert(is_bucket(bucket, m, hits));
    let keys = hit_keys(m, hits);
    lemma_positions_of(keys, key);
    let at = positions_of(keys, key);
    assert(entries_view(bucket.rules@).len() == bucket.rules@.len());
    assert(bucket_rules(m, hits, key).len() == at.len());
    assert(entries_view(bucket.rules@)[k] == bucket.rules@[k]@);
    assert(0 <= at[k] < hits.len() && keys[at[k]] == key);
    assert(bucket_rules(m, hits, key)[k] == shown(m.rules[hits[at[k]]], k, bucket_name(m, key).1));
    assert(0 <= hits[at[k]] < m.rules.len());
    assert(shows(r, m, process, hits[at[k]], b, k));
}

/// A bucket is called what its group is called and is switched on if its group is, and the
/// buckets stand in the order of their names; as many rules are counted as are shown.
pub proof fn law_buckets_are_those_of_groups(
    r: GetRulesForProcessResult,
    process: Seq<char>,
    m: ModelView,
    b: int,
    c: int,
)
    requires
        is_answer(r, process, m),
        0 <= b < r.groups@.len(),
    ensures
        ({
            let bucket = r.groups@[b];
            let id = bucket.group_id@;
            &&& id != "<no-group>"@ && m.groups.dom().contains(id) ==> {
                &&& m.groups[id].name matches Some(n) ==> bucket.display_name@ == n
                &&& bucket.is_active <==> m.groups[id].is_active != Some(false)
            }
            &&& id != "<no-group>"@ && !m.groups.dom().contains(id) ==> bucket.display_name@ == id
                && bucket.is_active
            &&& id == "<no-group>"@ ==> bucket.display_name@ == id && bucket.is_active
            &&& b < c < r.groups@.len() ==> text_le(
                bucket.display_name@,
                r.groups@[c].display_name@,
            ) && r.groups@[c].group_id@ != id
            &&& r.total_count == rules_in(r.groups@)
            &&& r.process@ == process
        }),
{
    let hits = rules_for(m.rules, process);
    let bucket = r.groups@[b];
    assert(is_bucket(bucket, m, hits));
    assert(bucket_ids(r.groups@)[b] == bucket.group_id@);
    if b < c < r.groups@.len() {
        assert(bucket_names(r.groups@)[b] == bucket.display_name@);
        assert(bucket_names(r.groups@)[c] == r.groups@[c].display_name@);
        assert(bucket_ids(r.groups@)[c] == r.groups@[c].group_id@);
    }
}

} // verus!
