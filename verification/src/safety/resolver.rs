//! The names of rule groups.

use vstd::prelude::*;
use crate::model::{Group, GroupView, Model};
use crate::text::{opt_is, str_eq, texts};

verus! {

/// The name of a group that comes with the system, by its kind.
pub open spec fn seed_name(kind: Seq<char>) -> Option<Seq<char>> {
    if kind == "builtinMacOSServices"@ {
        Some("macOS Services"@)
    } else if kind == "builtinICloudServices"@ {
        Some("iCloud Services"@)
    } else {
        None
    }
}

/// The name of a group that comes with the system, by its kind.
pub fn seed_kind_name(kind: &str) -> (r: Option<&'static str>)
    ensures
        match r {
            Some(n) => seed_name(kind@) == Some(n@),
            None => seed_name(kind@) is None,
        },
{
    if str_eq(kind, "builtinMacOSServices") {
        Some("macOS Services")
    } else if str_eq(kind, "builtinICloudServices") {
        Some("iCloud Services")
    } else {
        None
    }
}

/// The name that a group is shown under: its own, or that of its kind, or its
/// kind, or the key it stands under.
pub open spec fn shown_name(id: Seq<char>, g: Option<GroupView>) -> Seq<char> {
    match g {
        None => id,
        Some(g) => if g.name is Some {
            g.name->0
        } else {
            match g.any_kind() {
                None => id,
                Some(k) => match seed_name(k) {
                    Some(n) => n,
                    None => k,
                },
            }
        },
    }
}

/// Whether a group is switched on: it is, unless it says that it is not.
pub open spec fn shown_active(g: Option<GroupView>) -> bool {
    match g {
        None => true,
        Some(g) => match g.is_active {
            None => true,
            Some(b) => b,
        },
    }
}

/// The name that a group is shown under.
pub fn group_shown_name(id: &str, g: Option<&Group>) -> (r: String)
    ensures
        r@ == shown_name(
            id@,
            match g {
                Some(x) => Some(x@),
                None => None,
            },
        ),
{
    match g {
        None => id.to_owned(),
        Some(g) => match &g.name {
            Some(n) => n.clone(),
            None => match g.any_kind() {
                None => id.to_owned(),
                Some(k) => match seed_kind_name(k.as_str()) {
                    Some(n) => n.to_owned(),
                    None => k.clone(),
                },
            },
        },
    }
}

/// The name that the group under `group_id` is shown under, and whether it is
/// switched on.
pub fn display_name_for(group_id: &str, model: &Model) -> (r: (String, bool))
    ensures
        r.0@ == shown_name(group_id@, model@.group(group_id@)),
        r.1 == shown_active(model@.group(group_id@)),
{
    let g: Option<&Group> = model.group(group_id);
    let active: bool = match g {
        None => true,
        Some(x) => match x.is_active {
            None => true,
            Some(b) => b,
        },
    };
    (group_shown_name(group_id, g), active)
}

/// What a group's name, kind or key is resolved to.
#[derive(Debug)]
pub enum ResolveResult {
    /// The name of a group of the rule set.
    Verified(String),
    /// No group has a name; what was asked for, as it stands.
    BestEffort(String),
    /// There is no such group; the names that there are.
    NotFound { candidates: Vec<String> },
}

/// The position of the first group for which `f` holds.
pub open spec fn first_group(v: Seq<(String, Group)>, f: spec_fn(Seq<char>, GroupView) -> bool) -> Option<
    int,
>
    decreases v.len(),
{
    if v.len() == 0 {
        None
    } else {
        match first_group(v.drop_last(), f) {
            Some(i) => Some(i),
            None => if f(v.last().0@, v.last().1@) {
                Some(v.len() - 1)
            } else {
                None
            },
        }
    }
}

/// By what a group is asked for.
#[derive(Debug, Clone, Copy, PartialEq, Eq, Structural)]
pub enum GroupField {
    Name,
    Kind,
    Key,
}

/// Whether a group is the one asked for by one of its fields.
pub open spec fn has_field(field: GroupField, input: Seq<char>) -> spec_fn(
    Seq<char>,
    GroupView,
) -> bool {
    |id: Seq<char>, g: GroupView|
        match field {
            GroupField::Name => g.name == Some(input),
            GroupField::Kind => g.any_kind() == Some(input),
            GroupField::Key => id == input,
        }
}

fn group_has(field: GroupField, input: &str, id: &str, g: &Group) -> (r: bool)
    ensures
        r == has_field(field, input@)(id@, g@),
{
    match field {
        GroupField::Name => opt_is(&g.name, input),
        GroupField::Kind => match g.any_kind() {
            Some(k) => str_eq(k.as_str(), input),
            None => false,
        },
        GroupField::Key => str_eq(id, input),
    }
}

proof fn lemma_first_group(v: Seq<(String, Group)>, f: spec_fn(Seq<char>, GroupView) -> bool, n: int)
    requires
        0 <= n <= v.len(),
        first_group(v.take(n), f) is Some,
    ensures
        first_group(v, f) == first_group(v.take(n), f),
    decreases v.len() - n,
{
    if n < v.len() {
        assert(v.take(n + 1).drop_last() == v.take(n));
        lemma_first_group(v, f, n + 1);
    } else {
        assert(v.take(n) == v);
    }
}

fn find_group(v: &Vec<(String, Group)>, field: GroupField, input: &str) -> (r: Option<usize>)
    ensures
        match r {
            Some(i) => first_group(v@, has_field(field, input@)) == Some(i as int) && i < v.len(),
            None => first_group(v@, has_field(field, input@)) is None,
        },
{
    let ghost f = has_field(field, input@);
    for i in 0..v.len()
        invariant
            f == has_field(field, input@),
            first_group(v@.take(i as int), f) is None,
    {
        proof {
            assert(v@.take(i + 1).drop_last() == v@.take(i as int));
            assert(v@.take(i + 1).last() == v@[i as int]);
        }
        if group_has(field, input, v[i].0.as_str(), &v[i].1) {
            proof {
                lemma_first_group(v@, f, i + 1);
            }
            return Some(i);
        }
    }
    proof {
        assert(v@.take(v@.len() as int) == v@);
    }
    None
}

/// The names that groups have, in their order.
pub open spec fn group_names(v: Seq<(String, Group)>) -> Seq<Seq<char>>
    decreases v.len(),
{
    if v.len() == 0 {
        Seq::empty()
    } else {
        let before = group_names(v.drop_last());
        match v.last().1@.name {
            Some(n) => before.push(n),
            None => before,
        }
    }
}

fn find_names(v: &Vec<(String, Group)>) -> (r: Vec<String>)
    ensures
        texts(r@) == group_names(v@),
{
    let mut out: Vec<String> = Vec::new();
    proof {
        assert(texts(out@) =~= group_names(v@.take(0)));
    }
    for i in 0..v.len()
        invariant
            texts(out@) == group_names(v@.take(i as int)),
    {
        let ghost prior = out@;
        proof {
            assert(v@.take(i + 1).drop_last() == v@.take(i as int));
            assert(v@.take(i + 1).last() == v@[i as int]);
        }
        if let Some(n) = &v[i].1.name {
            out.push(n.clone());
            proof {
                assert(texts(out@) =~= texts(prior).push(n@));
            }
        }
    }
    proof {
        assert(v@.take(v@.len() as int) == v@);
    }
    out
}

/// What a [`ResolveResult`] means.
#[verifier::ext_equal]
pub enum ResolvedView {
    Verified(Seq<char>),
    BestEffort(Seq<char>),
    NotFound { candidates: Seq<Seq<char>> },
}

impl View for ResolveResult {
    type V = ResolvedView;

    open spec fn view(&self) -> ResolvedView {
        match self {
            ResolveResult::Verified(s) => ResolvedView::Verified(s@),
            ResolveResult::BestEffort(s) => ResolvedView::BestEffort(s@),
            ResolveResult::NotFound { candidates } => ResolvedView::NotFound {
                candidates: texts(candidates@),
            },
        }
    }
}

/// What a group is resolved to: by its name, else by its kind, else by its key. A
/// rule set in which no group has a name takes the input as it stands.
pub open spec fn resolved(input: Seq<char>, groups: Seq<(String, Group)>) -> ResolvedView {
    let by_kind = first_group(groups, has_field(GroupField::Kind, input));
    let by_key = first_group(groups, has_field(GroupField::Key, input));
    if first_group(groups, has_field(GroupField::Name, input)) is Some {
        ResolvedView::Verified(input)
    } else if by_kind is Some {
        ResolvedView::Verified(
            shown_name(groups[by_kind->0].0@, Some(groups[by_kind->0].1@)),
        )
    } else if by_key is Some {
        ResolvedView::Verified(shown_name(groups[by_key->0].0@, Some(groups[by_key->0].1@)))
    } else if group_names(groups).len() == 0 {
        ResolvedView::BestEffort(input)
    } else {
        ResolvedView::NotFound { candidates: group_names(groups) }
    }
}

/// Resolves a group by its name, its kind or its key.
pub fn resolve_group(input: &str, model: &Model) -> (r: ResolveResult)
    ensures
        r@ == resolved(input@, model.groups@),
{
    if find_group(&model.groups, GroupField::Name, input).is_some() {
        return ResolveResult::Verified(input.to_owned());
    }
    if let Some(i) = find_group(&model.groups, GroupField::Kind, input) {
        return ResolveResult::Verified(
            group_shown_name(model.groups[i].0.as_str(), Some(&model.groups[i].1)),
        );
    }
    if let Some(i) = find_group(&model.groups, GroupField::Key, input) {
        return ResolveResult::Verified(
            group_shown_name(model.groups[i].0.as_str(), Some(&model.groups[i].1)),
        );
    }
    let candidates: Vec<String> = find_names(&model.groups);
    proof {
        assert(texts(candidates@).len() == candidates@.len());
    }
    if candidates.len() == 0 {
        ResolveResult::BestEffort(input.to_owned())
    } else {
        ResolveResult::NotFound { candidates }
    }
}

/// The first group for which something holds: it does, and it holds of none before; there is
/// none only if it holds of no group.
pub proof fn law_first_group(v: Seq<(String, Group)>, f: spec_fn(Seq<char>, GroupView) -> bool)
    ensures
        match first_group(v, f) {
            Some(i) => 0 <= i < v.len() && f(v[i].0@, v[i].1@) && forall|j: int|
                0 <= j < i ==> !f((#[trigger] v[j]).0@, v[j].1@),
            None => forall|j: int| 0 <= j < v.len() ==> !f((#[trigger] v[j]).0@, v[j].1@),
        },
    decreases v.len(),
{
    if v.len() > 0 {
        let w = v.drop_last();
        law_first_group(w, f);
        assert forall|j: int| 0 <= j < w.len() implies w[j] == v[j] by {}
        match first_group(v, f) {
            Some(i) => {
                assert forall|j: int| 0 <= j < i implies !f((#[trigger] v[j]).0@, v[j].1@) by {
                    assert(w[j] == v[j]);
                }
            },
            None => {
                assert forall|j: int| 0 <= j < v.len() implies !f(
                    (#[trigger] v[j]).0@,
                    v[j].1@,
                ) by {
                    if j < w.len() {
                        assert(w[j] == v[j]);
                    }
                }
            },
        }
    }
}

/// Whether some group has this name.
pub open spec fn is_a_name(v: Seq<(String, Group)>, name: Seq<char>) -> bool {
    exists|i: int| 0 <= i < v.len() && (#[trigger] v[i]).1@.name == Some(name)
}

/// Whether a group's kind, or what older versions wrote for it, is this.
pub open spec fn is_of_kind(g: GroupView, kind: Seq<char>) -> bool {
    g.kind == Some(kind) || (g.kind is None && g.kind_legacy == Some(kind))
}

/// The names that are offered are just those that groups have.
pub proof fn law_names_are_those_of_groups(v: Seq<(String, Group)>, name: Seq<char>)
    ensures
        group_names(v).contains(name) <==> is_a_name(v, name),
    decreases v.len(),
{
    if v.len() == 0 {
        assert(group_names(v).len() == 0);
    } else {
        let w = v.drop_last();
        law_names_are_those_of_groups(w, name);
        let (before, now) = (group_names(w), group_names(v));
        if is_a_name(v, name) {
            let i = choose|i: int| 0 <= i < v.len() && (#[trigger] v[i]).1@.name == Some(name);
            if i < w.len() {
                assert(w[i] == v[i]);
                let k = choose|k: int| 0 <= k < before.len() && before[k] == name;
                assert(now[k] == name);
            } else {
                assert(now[before.len() as int] == name);
            }
        }
        if now.contains(name) {
            let k = choose|k: int| 0 <= k < now.len() && now[k] == name;
            if k < before.len() {
                assert(before[k] == name);
                let i = choose|i: int| 0 <= i < w.len() && (#[trigger] w[i]).1@.name == Some(name);
                assert(v[i].1@.name == Some(name));
            } else {
                assert(v[v.len() - 1].1@.name == Some(name));
            }
        }
    }
}

/// The name of a group stands for the group, whatever else it may be.
pub proof fn law_a_name_is_resolved_to_itself(input: Seq<char>, groups: Seq<(String, Group)>)
    requires
        is_a_name(groups, input),
    ensures
        resolved(input, groups) == ResolvedView::Verified(input),
{
    law_first_group(groups, has_field(GroupField::Name, input));
}

/// The kind of a group stands for the first group of that kind, if it is no name; the key of
/// a group stands for that group, if it is neither. The group is then called by the name that
/// it is shown under.
pub proof fn law_a_kind_or_a_key_is_resolved_to_its_group(
    input: Seq<char>,
    groups: Seq<(String, Group)>,
    i: int,
)
    requires
        !is_a_name(groups, input),
        0 <= i < groups.len(),
        ({
            ||| is_of_kind(groups[i].1@, input) && forall|j: int|
                0 <= j < i ==> !is_of_kind((#[trigger] groups[j]).1@, input)
            ||| groups[i].0@ == input && (forall|j: int|
                0 <= j < i ==> (#[trigger] groups[j]).0@ != input) && (forall|j: int|
                0 <= j < groups.len() ==> !is_of_kind((#[trigger] groups[j]).1@, input))
        }),
    ensures
        resolved(input, groups) == ResolvedView::Verified(
            shown_name(groups[i].0@, Some(groups[i].1@)),
        ),
{
    law_first_group(groups, has_field(GroupField::Name, input));
    law_first_group(groups, has_field(GroupField::Kind, input));
    law_first_group(groups, has_field(GroupField::Key, input));
    let f = has_field(GroupField::Kind, input);
    assert forall|j: int| 0 <= j < groups.len() implies f((#[trigger] groups[j]).0@, groups[j].1@)
        == is_of_kind(groups[j].1@, input) by {}
}

/// What is neither name nor kind nor key of a group is not found, and just the names that
/// there are, are offered; where no group has a name, it is taken as it stands.
pub proof fn law_the_rest_is_not_found(input: Seq<char>, groups: Seq<(String, Group)>)
    requires
        forall|j: int|
            0 <= j < groups.len() ==> (#[trigger] groups[j]).1@.name != Some(input) && !is_of_kind(
                groups[j].1@,
                input,
            ) && groups[j].0@ != input,
    ensures
        match resolved(input, groups) {
            ResolvedView::Verified(_) => false,
            ResolvedView::BestEffort(s) => s == input && forall|name: Seq<char>|
                !is_a_name(groups, name),
            ResolvedView::NotFound { candidates } => candidates.len() > 0 && forall|name: Seq<char>|
                candidates.contains(name) <==> is_a_name(groups, name),
        },
{
    law_first_group(groups, has_field(GroupField::Name, input));
    law_first_group(groups, has_field(GroupField::Kind, input));
    law_first_group(groups, has_field(GroupField::Key, input));
    assert forall|name: Seq<char>| group_names(groups).contains(name) <==> is_a_name(
        groups,
        name,
    ) by {
        law_names_are_those_of_groups(groups, name);
    }
}

/// A group is shown under its name if it has one, and is taken to be switched on unless it says
/// that it is not.
pub proof fn law_how_groups_are_shown(id: Seq<char>, g: GroupView)
    ensures
        g.name matches Some(n) ==> shown_name(id, Some(g)) == n,
        g.name is None && is_of_kind(g, "builtinMacOSServices"@) ==> shown_name(id, Some(g))
            == "macOS Services"@,
        g.name is None && is_of_kind(g, "builtinICloudServices"@) ==> shown_name(id, Some(g))
            == "iCloud Services"@,
        g.name is None && g.kind is None && g.kind_legacy is None ==> shown_name(id, Some(g)) == id,
        shown_name(id, None) == id,
        shown_active(None),
        shown_active(Some(g)) <==> g.is_active != Some(false),
{
    reveal_strlit("builtinMacOSServices");
    reveal_strlit("builtinICloudServices");
    assert("builtinMacOSServices"@[7] == 'M' && "builtinICloudServices"@[7] == 'I');
}

} // verus!
