//! What a new configuration changes.
use crate::config::{keys_distinct, lemma_position, position, ClusterConfig, ServiceDef};
use crate::seqs::{lemma_select_take, lemma_selected, select};
use vstd::prelude::*;

verus! {

/// Plan produced by comparing old and new cluster configurations.
pub struct DeployPlan {
    /// Services present in the new config but not the old.
    pub added: Vec<(String, ServiceDef)>,
    /// Service names present in the old config but not the new.
    pub removed: Vec<String>,
    /// Services present in both but with a different definition (carries the new def).
    pub changed: Vec<(String, ServiceDef)>,
    /// Service names present in both with identical definitions.
    pub unchanged: Vec<String>,
}

/// Whether the old configuration has a service of the given name.
pub open spec fn had(old: Option<ClusterConfig>, name: Seq<char>) -> bool {
    old is Some && old->0.has_service(name)
}

/// Entries that the old configuration does not have.
pub open spec fn is_added(old: Option<ClusterConfig>) -> spec_fn((String, ServiceDef)) -> bool {
    |e: (String, ServiceDef)| !had(old, e.0@)
}

/// Entries that the old configuration has with another definition.
pub open spec fn is_changed(old: Option<ClusterConfig>) -> spec_fn((String, ServiceDef)) -> bool {
    |e: (String, ServiceDef)| had(old, e.0@) && old->0.service(e.0@)@ != e.1@
}

/// Entries that the old configuration has with the same definition.
pub open spec fn is_unchanged(old: Option<ClusterConfig>) -> spec_fn((String, ServiceDef)) -> bool {
    |e: (String, ServiceDef)| had(old, e.0@) && old->0.service(e.0@)@ == e.1@
}

/// Entries that the new configuration does not have.
pub open spec fn is_removed(new: ClusterConfig) -> spec_fn((String, ServiceDef)) -> bool {
    |e: (String, ServiceDef)| !new.has_service(e.0@)
}

/// The services of an optional configuration.
pub open spec fn services_of(config: Option<ClusterConfig>) -> Seq<(String, ServiceDef)> {
    match config {
        Some(c) => c.services@,
        None => Seq::empty(),
    }
}

/// Whether two lists have the same names with definitions that say the same.
pub open spec fn same_entries(a: Seq<(String, ServiceDef)>, b: Seq<(String, ServiceDef)>) -> bool {
    &&& a.len() == b.len()
    &&& forall|i: int|
        0 <= i < a.len() ==> (#[trigger] a[i]).0 == b[i].0 && a[i].1@ == b[i].1@ && a[i].1.wf()
            == b[i].1.wf()
}

/// The names of entries.
pub open spec fn names(s: Seq<(String, ServiceDef)>) -> Seq<String> {
    Seq::new(s.len(), |i: int| s[i].0)
}

/// The plan that leads from an old configuration to a new one.
pub open spec fn is_plan(
    plan: DeployPlan,
    old: Option<ClusterConfig>,
    new: ClusterConfig,
) -> bool {
    &&& same_entries(plan.added@, select(new.services@, is_added(old)))
    &&& same_entries(plan.changed@, select(new.services@, is_changed(old)))
    &&& plan.unchanged@ == names(select(new.services@, is_unchanged(old)))
    &&& plan.removed@ == names(select(services_of(old), is_removed(new)))
}

fn push_entry(
    out: &mut Vec<(String, ServiceDef)>,
    entry: &(String, ServiceDef),
    Ghost(sel): Ghost<Seq<(String, ServiceDef)>>,
)
    requires
        same_entries(old(out)@, sel),
    ensures
        same_entries(final(out)@, sel.push(*entry)),
{
    out.push((entry.0.clone(), entry.1.clone()));
}

/// Compares old and new configurations. On the first deploy, with no old
/// configuration, every service is added.
pub fn diff_config(old: Option<&ClusterConfig>, new: &ClusterConfig) -> (res: DeployPlan)
    requires
        old is Some ==> old->0.wf(),
        new.wf(),
    ensures
        is_plan(
            res,
            match old {
                Some(c) => Some(*c),
                None => None,
            },
            *new,
        ),
{
    let ghost before: Option<ClusterConfig> = match old {
        Some(c) => Some(*c),
        None => None,
    };
    let ghost all = new.services@;
    let mut added: Vec<(String, ServiceDef)> = Vec::new();
    let mut changed: Vec<(String, ServiceDef)> = Vec::new();
    let mut unchanged: Vec<String> = Vec::new();
    let mut i: usize = 0;
    assert(names(select(all.take(0), is_unchanged(before))) =~= Seq::<String>::empty());
    while i < new.services.len()
        invariant
            i <= all.len(),
            all == new.services@,
            before == (match old {
                Some(c) => Some(*c),
                None => None,
            }),
            old is Some ==> old->0.wf(),
            new.wf(),
            same_entries(added@, select(all.take(i as int), is_added(before))),
            same_entries(changed@, select(all.take(i as int), is_changed(before))),
            unchanged@ == names(select(all.take(i as int), is_unchanged(before))),
        decreases all.len() - i,
    {
        let entry = &new.services[i];
        proof {
            lemma_select_take(all, is_added(before), i as int);
            lemma_select_take(all, is_changed(before), i as int);
            lemma_select_take(all, is_unchanged(before), i as int);
        }
        let found = match old {
            Some(c) => c.find_service(&entry.0),
            None => None,
        };
        match found {
            None => {
                push_entry(
                    &mut added,
                    entry,
                    Ghost(select(all.take(i as int), is_added(before))),
                );
            },
            Some(def) => {
                if def.same(&entry.1) {
                    let ghost sel = select(all.take(i as int), is_unchanged(before));
                    unchanged.push(entry.0.clone());
                    assert(unchanged@ =~= names(sel.push(*entry)));
                } else {
                    push_entry(
                        &mut changed,
                        entry,
                        Ghost(select(all.take(i as int), is_changed(before))),
                    );
                }
            },
        }
        i = i + 1;
    }
    assert(all.take(i as int) =~= all);
    let mut removed: Vec<String> = Vec::new();
    if let Some(c) = old {
        let ghost gone = c.services@;
        let mut i: usize = 0;
        assert(names(select(gone.take(0), is_removed(*new))) =~= Seq::<String>::empty());
        while i < c.services.len()
            invariant
                i <= gone.len(),
                gone == c.services@,
                removed@ == names(select(gone.take(i as int), is_removed(*new))),
            decreases gone.len() - i,
        {
            proof {
                lemma_select_take(gone, is_removed(*new), i as int);
            }
            if new.find_service(&c.services[i].0).is_none() {
                let ghost sel = select(gone.take(i as int), is_removed(*new));
                removed.push(c.services[i].0.clone());
                assert(removed@ =~= names(sel.push(gone[i as int])));
            }
            i = i + 1;
        }
        assert(gone.take(i as int) =~= gone);
    }
    assert(before is None ==> removed@ =~= names(select(services_of(before), is_removed(*new))));
    DeployPlan { added, removed, changed, unchanged }
}

/// Whether a name stands among the entries.
pub open spec fn among(s: Seq<(String, ServiceDef)>, name: Seq<char>) -> bool {
    exists|i: int| 0 <= i < s.len() && (#[trigger] s[i]).0@ == name
}

proof fn lemma_among_selected(
    s: Seq<(String, ServiceDef)>,
    p: spec_fn((String, ServiceDef)) -> bool,
    name: Seq<char>,
)
    requires
        keys_distinct(s),
    ensures
        among(select(s, p), name) <==> among(s, name) && p(s[position(s, name)]),
{
    lemma_selected(s, p);
    lemma_position(s, name);
    let sel = select(s, p);
    if among(sel, name) {
        let i = choose|i: int| 0 <= i < sel.len() && (#[trigger] sel[i]).0@ == name;
        let k = choose|k: int| 0 <= k < s.len() && s[k] == sel[i];
        assert(s[k].0@ == name);
        assert(k == position(s, name));
    }
    if among(s, name) && p(s[position(s, name)]) {
        let k = position(s, name);
        assert(sel.contains(s[k]));
        let i = choose|i: int| 0 <= i < sel.len() && sel[i] == s[k];
        assert(sel[i].0@ == name);
    }
}

/// A plan puts every service of the new configuration in exactly one of
/// added, changed and unchanged, and removes the services of the old one
/// that the new one does not have, and no others.
pub proof fn plan_partitions_services(
    old: Option<ClusterConfig>,
    new: ClusterConfig,
    name: Seq<char>,
)
    requires
        old is Some ==> old->0.wf(),
        new.wf(),
    ensures
        ({
            let added = among(select(new.services@, is_added(old)), name);
            let changed = among(select(new.services@, is_changed(old)), name);
            let unchanged = among(select(new.services@, is_unchanged(old)), name);
            let removed = among(select(services_of(old), is_removed(new)), name);
            &&& new.has_service(name) <==> added || changed || unchanged
            &&& !(added && changed) && !(added && unchanged) && !(changed && unchanged)
            &&& removed <==> had(old, name) && !new.has_service(name)
        }),
{
    lemma_among_selected(new.services@, is_added(old), name);
    lemma_among_selected(new.services@, is_changed(old), name);
    lemma_among_selected(new.services@, is_unchanged(old), name);
    lemma_among_selected(services_of(old), is_removed(new), name);
    lemma_position(new.services@, name);
    lemma_position(services_of(old), name);
}

proof fn lemma_select_all<T>(s: Seq<T>, p: spec_fn(T) -> bool)
    requires
        forall|i: int| 0 <= i < s.len() ==> p(#[trigger] s[i]),
    ensures
        select(s, p) == s,
    decreases s.len(),
{
    if s.len() > 0 {
        lemma_select_all(s.drop_last(), p);
        assert(s.drop_last().push(s.last()) =~= s);
    }
}

proof fn lemma_select_none<T>(s: Seq<T>, p: spec_fn(T) -> bool)
    requires
        forall|i: int| 0 <= i < s.len() ==> !p(#[trigger] s[i]),
    ensures
        select(s, p).len() == 0,
    decreases s.len(),
{
    if s.len() > 0 {
        lemma_select_none(s.drop_last(), p);
    }
}

/// On the first deploy every service is added.
pub proof fn first_deploy_adds_all(plan: DeployPlan, new: ClusterConfig)
    requires
        is_plan(plan, None, new),
    ensures
        same_entries(plan.added@, new.services@),
        plan.changed@.len() == 0,
        plan.unchanged@.len() == 0,
        plan.removed@.len() == 0,
{
    lemma_select_all(new.services@, is_added(None));
    lemma_select_none(new.services@, is_changed(None));
    lemma_select_none(new.services@, is_unchanged(None));
}

/// Deploying the configuration that is in place changes nothing.
pub proof fn same_config_changes_nothing(plan: DeployPlan, config: ClusterConfig)
    requires
        config.wf(),
        is_plan(plan, Some(config), config),
    ensures
        plan.added@.len() == 0,
        plan.changed@.len() == 0,
        plan.removed@.len() == 0,
        plan.unchanged@ == names(config.services@),
{
    let s = config.services@;
    assert forall|i: int| 0 <= i < s.len() implies config.has_service((#[trigger] s[i]).0@)
        && position(s, s[i].0@) == i by {
        lemma_position(s, s[i].0@);
    }
    lemma_select_none(s, is_added(Some(config)));
    lemma_select_none(s, is_changed(Some(config)));
    lemma_select_all(s, is_unchanged(Some(config)));
    lemma_select_none(s, is_removed(config));
}

/// A plan adds exactly the services that are new, with their new definitions,
/// and removes exactly those that are gone.
pub proof fn plans_add_the_new_and_remove_the_gone(
    plan: DeployPlan,
    old: Option<ClusterConfig>,
    new: ClusterConfig,
    name: Seq<char>,
)
    requires
        old is Some ==> old->0.wf(),
        new.wf(),
        is_plan(plan, old, new),
    ensures
        (exists|k: int| 0 <= k < plan.added@.len() && (#[trigger] plan.added@[k]).0@ == name) <==> (
        exists|i: int| 0 <= i < new.services@.len() && (#[trigger] new.services@[i]).0@ == name)
            && (old is None || forall|j: int|
            0 <= j < old->0.services@.len() ==> (#[trigger] old->0.services@[j]).0@ != name),
        (exists|k: int| 0 <= k < plan.removed@.len() && (#[trigger] plan.removed@[k])@ == name)
            <==> (forall|i: int|
            0 <= i < new.services@.len() ==> (#[trigger] new.services@[i]).0@ != name) && (old
            is Some && exists|j: int|
            0 <= j < old->0.services@.len() && (#[trigger] old->0.services@[j]).0@ == name),
        forall|k: int, i: int|
            0 <= k < plan.added@.len() && 0 <= i < new.services@.len() && (
            #[trigger] plan.added@[k]).0@ == (#[trigger] new.services@[i]).0@ ==> plan.added@[k].1@
                == new.services@[i].1@,
{
    plan_partitions_services(old, new, name);
    lemma_among_selected(new.services@, is_added(old), name);
    let added = select(new.services@, is_added(old));
    let removed = select(services_of(old), is_removed(new));
    lemma_same_names(plan.added@, added, name);
    assert((exists|k: int| 0 <= k < plan.removed@.len() && (#[trigger] plan.removed@[k])@ == name)
        == among(removed, name)) by {
        if among(removed, name) {
            let k = choose|k: int| 0 <= k < removed.len() && (#[trigger] removed[k]).0@ == name;
            assert(plan.removed@[k]@ == name);
        }
        if exists|k: int| 0 <= k < plan.removed@.len() && (#[trigger] plan.removed@[k])@ == name {
            let k = choose|k: int|
                0 <= k < plan.removed@.len() && (#[trigger] plan.removed@[k])@ == name;
            assert(removed[k].0@ == name);
        }
    }
    lemma_position(new.services@, name);
    if old is Some {
        lemma_position(old->0.services@, name);
    }
    lemma_definitions_kept(plan.added@, new.services@, is_added(old));
}

proof fn lemma_same_names(
    a: Seq<(String, ServiceDef)>,
    b: Seq<(String, ServiceDef)>,
    name: Seq<char>,
)
    requires
        same_entries(a, b),
    ensures
        (exists|k: int| 0 <= k < a.len() && (#[trigger] a[k]).0@ == name) <==> among(b, name),
{
    if among(b, name) {
        let k = choose|k: int| 0 <= k < b.len() && (#[trigger] b[k]).0@ == name;
        assert(a[k].0@ == name);
    }
    if exists|k: int| 0 <= k < a.len() && (#[trigger] a[k]).0@ == name {
        let k = choose|k: int| 0 <= k < a.len() && (#[trigger] a[k]).0@ == name;
        assert(b[k].0@ == name);
    }
}

proof fn lemma_definitions_kept(
    a: Seq<(String, ServiceDef)>,
    s: Seq<(String, ServiceDef)>,
    p: spec_fn((String, ServiceDef)) -> bool,
)
    requires
        keys_distinct(s),
        same_entries(a, select(s, p)),
    ensures
        forall|k: int, i: int|
            0 <= k < a.len() && 0 <= i < s.len() && (#[trigger] a[k]).0@ == (#[trigger] s[i]).0@
                ==> a[k].1@ == s[i].1@,
{
    lemma_selected(s, p);
    let sel = select(s, p);
    assert forall|k: int, i: int|
        0 <= k < a.len() && 0 <= i < s.len() && (#[trigger] a[k]).0@ == (
        #[trigger] s[i]).0@ implies a[k].1@ == s[i].1@ by {
        let m = s.index_of(sel[k]);
        assert(s[m].0@ == s[i].0@);
        assert(m == i);
    }
}

/// A service that both configurations have is changed exactly where its two
/// definitions do not say the same, and unchanged exactly where they do; a
/// changed one carries its new definition.
pub proof fn plans_change_what_differs(
    plan: DeployPlan,
    old: ClusterConfig,
    new: ClusterConfig,
    i: int,
    j: int,
)
    requires
        old.wf(),
        new.wf(),
        is_plan(plan, Some(old), new),
        0 <= i < new.services@.len(),
        0 <= j < old.services@.len(),
        new.services@[i].0@ == old.services@[j].0@,
    ensures
        (exists|k: int|
            0 <= k < plan.changed@.len() && (#[trigger] plan.changed@[k]).0@
                == new.services@[i].0@ && plan.changed@[k].1@ == new.services@[i].1@) <==> !(
        new.services@[i].1@ == old.services@[j].1@),
        (exists|k: int|
            0 <= k < plan.unchanged@.len() && (#[trigger] plan.unchanged@[k])@
                == new.services@[i].0@) <==> new.services@[i].1@ == old.services@[j].1@,
{
    let name = new.services@[i].0@;
    let before = Some(old);
    lemma_among_selected(new.services@, is_changed(before), name);
    lemma_among_selected(new.services@, is_unchanged(before), name);
    lemma_position(new.services@, name);
    lemma_position(old.services@, name);
    assert(position(new.services@, name) == i);
    assert(position(old.services@, name) == j);
    let changed = select(new.services@, is_changed(before));
    let unchanged = select(new.services@, is_unchanged(before));
    lemma_same_names(plan.changed@, changed, name);
    lemma_definitions_kept(plan.changed@, new.services@, is_changed(before));
    if among(unchanged, name) {
        let k = choose|k: int| 0 <= k < unchanged.len() && (#[trigger] unchanged[k]).0@ == name;
        assert(plan.unchanged@[k]@ == name);
    }
    if exists|k: int| 0 <= k < plan.unchanged@.len() && (#[trigger] plan.unchanged@[k])@ == name {
        let k = choose|k: int|
            0 <= k < plan.unchanged@.len() && (#[trigger] plan.unchanged@[k])@ == name;
        assert(unchanged[k].0@ == name);
    }
    if !(new.services@[i].1@ == old.services@[j].1@) {
        assert(among(new.services@, name));
        assert(among(changed, name));
        let k = choose|k: int|
            0 <= k < plan.changed@.len() && (#[trigger] plan.changed@[k]).0@ == name;
        assert(plan.changed@[k].1@ == new.services@[i].1@);
    }
    assert(among(new.services@, name));
}

} // verus!
