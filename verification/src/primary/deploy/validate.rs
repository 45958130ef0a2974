//! Checks on a configuration before anything is changed.
use crate::config::{
    ClusterConfig, EnvPart, EnvValue, NodeResources, Resources, ServiceDef, TaskDef,
};
use crate::error::DeployError;
use crate::text::{join, joined, texts};
use vstd::prelude::*;
use vstd::string::*;

verus! {

/// Whether a name is among the given ones.
pub open spec fn knows(known: Seq<String>, name: Seq<char>) -> bool {
    exists|i: int| 0 <= i < known.len() && (#[trigger] known[i])@ == name
}

/// The secrets that the parts refer to and that are not known, each written
/// behind the name of what needs it.
pub open spec fn missing_in_parts(
    parts: Seq<EnvPart>,
    known: Seq<String>,
    context: Seq<char>,
) -> Seq<Seq<char>>
    decreases parts.len(),
{
    if parts.len() == 0 {
        Seq::empty()
    } else {
        let before = missing_in_parts(parts.drop_last(), known, context);
        match parts.last() {
            EnvPart::Secret { name } => if knows(known, name@) {
                before
            } else {
                before.push(context + "/"@ + name@)
            },
            _ => before,
        }
    }
}

/// The unknown secrets of one value.
pub open spec fn missing_in_value(
    value: EnvValue,
    known: Seq<String>,
    context: Seq<char>,
) -> Seq<Seq<char>> {
    match value {
        EnvValue::Literal(_) => Seq::empty(),
        EnvValue::Interpolated { parts } => missing_in_parts(parts@, known, context),
    }
}

/// The unknown secrets of environment variables.
pub open spec fn missing_in_env(
    env: Seq<(String, EnvValue)>,
    known: Seq<String>,
    context: Seq<char>,
) -> Seq<Seq<char>>
    decreases env.len(),
{
    if env.len() == 0 {
        Seq::empty()
    } else {
        missing_in_env(env.drop_last(), known, context) + missing_in_value(
            env.last().1,
            known,
            context,
        )
    }
}

/// The unknown secrets of services.
pub open spec fn missing_in_services(
    services: Seq<(String, ServiceDef)>,
    known: Seq<String>,
) -> Seq<Seq<char>>
    decreases services.len(),
{
    if services.len() == 0 {
        Seq::empty()
    } else {
        missing_in_services(services.drop_last(), known) + missing_in_env(
            services.last().1.env@,
            known,
            services.last().0@,
        )
    }
}

/// The unknown secrets of tasks.
pub open spec fn missing_in_tasks(tasks: Seq<(String, TaskDef)>, known: Seq<String>) -> Seq<
    Seq<char>,
>
    decreases tasks.len(),
{
    if tasks.len() == 0 {
        Seq::empty()
    } else {
        missing_in_tasks(tasks.drop_last(), known) + missing_in_env(
            tasks.last().1.env@,
            known,
            tasks.last().0@,
        )
    }
}

/// The unknown secrets of a configuration.
pub open spec fn missing_secrets(config: ClusterConfig, known: Seq<String>) -> Seq<Seq<char>> {
    missing_in_services(config.services@, known) + missing_in_tasks(config.tasks@, known)
}

fn is_known(known: &Vec<String>, name: &String) -> (res: bool)
    ensures
        res == knows(known@, name@),
{
    let mut i: usize = 0;
    while i < known.len()
        invariant
            i <= known@.len(),
            forall|j: int| 0 <= j < i ==> (#[trigger] known@[j])@ != name@,
        decreases known@.len() - i,
    {
        if known[i] == *name {
            return true;
        }
        i = i + 1;
    }
    false
}

/// Appends the unknown secrets of environment variables.
fn collect_missing_secrets(
    env: &Vec<(String, EnvValue)>,
    known: &Vec<String>,
    context: &String,
    missing: &mut Vec<String>,
)
    ensures
        texts(final(missing)@) == texts(old(missing)@) + missing_in_env(env@, known@, context@),
{
    let ghost start = texts(missing@);
    let mut i: usize = 0;
    assert(start + missing_in_env(env@.take(0), known@, context@) =~= start);
    while i < env.len()
        invariant
            i <= env@.len(),
            texts(missing@) == start + missing_in_env(env@.take(i as int), known@, context@),
        decreases env@.len() - i,
    {
        let ghost before = texts(missing@);
        assert(env@.take(i + 1).drop_last() =~= env@.take(i as int));
        match &env[i].1 {
            EnvValue::Literal(_) => {},
            EnvValue::Interpolated { parts } => {
                let mut k: usize = 0;
                assert(before + missing_in_parts(parts@.take(0), known@, context@) =~= before);
                while k < parts.len()
                    invariant
                        k <= parts@.len(),
                        texts(missing@) == before + missing_in_parts(
                            parts@.take(k as int),
                            known@,
                            context@,
                        ),
                    decreases parts@.len() - k,
                {
                    let ghost now = texts(missing@);
                    assert(parts@.take(k + 1).drop_last() =~= parts@.take(k as int));
                    if let EnvPart::Secret { name } = &parts[k] {
                        if !is_known(known, name) {
                            let mut item = context.clone();
                            item.append("/");
                            item.append(name.as_str());
                            missing.push(item);
                            assert(texts(missing@) =~= now.push(item@));
                        }
                    }
                    k = k + 1;
                    assert(texts(missing@) =~= before + missing_in_parts(
                        parts@.take(k as int),
                        known@,
                        context@,
                    ));
                }
                assert(parts@.take(k as int) =~= parts@);
            },
        }
        i = i + 1;
        assert(texts(missing@) =~= start + missing_in_env(env@.take(i as int), known@, context@));
    }
    assert(env@.take(i as int) =~= env@);
}

/// Checks that every secret that the configuration refers to is known.
pub fn validate_secret_refs(config: &ClusterConfig, known_secrets: &Vec<String>) -> (res: Result<
    (),
    DeployError,
>)
    ensures
        res is Ok <==> missing_secrets(*config, known_secrets@).len() == 0,
        res matches Err(e) ==> e matches DeployError::ValidationFailed(words) && words@
            == "unknown secrets: "@ + joined(missing_secrets(*config, known_secrets@), ", "@),
{
    let mut missing: Vec<String> = Vec::new();
    let mut i: usize = 0;
    assert(texts(missing@) =~= missing_in_services(config.services@.take(0), known_secrets@));
    while i < config.services.len()
        invariant
            i <= config.services@.len(),
            texts(missing@) == missing_in_services(
                config.services@.take(i as int),
                known_secrets@,
            ),
        decreases config.services@.len() - i,
    {
        let (name, def) = &config.services[i];
        assert(config.services@.take(i + 1).drop_last() =~= config.services@.take(i as int));
        collect_missing_secrets(&def.env, known_secrets, name, &mut missing);
        i = i + 1;
    }
    assert(config.services@.take(i as int) =~= config.services@);
    let ghost first = missing_in_services(config.services@, known_secrets@);
    let mut i: usize = 0;
    assert(texts(missing@) =~= first + missing_in_tasks(config.tasks@.take(0), known_secrets@));
    while i < config.tasks.len()
        invariant
            i <= config.tasks@.len(),
            texts(missing@) == first + missing_in_tasks(
                config.tasks@.take(i as int),
                known_secrets@,
            ),
        decreases config.tasks@.len() - i,
    {
        let (name, def) = &config.tasks[i];
        assert(config.tasks@.take(i + 1).drop_last() =~= config.tasks@.take(i as int));
        let ghost before = texts(missing@);
        collect_missing_secrets(&def.env, known_secrets, name, &mut missing);
        i = i + 1;
        assert(texts(missing@) =~= first + missing_in_tasks(
            config.tasks@.take(i as int),
            known_secrets@,
        ));
    }
    assert(config.tasks@.take(i as int) =~= config.tasks@);
    if missing.len() == 0 {
        Ok(())
    } else {
        let mut words = "unknown secrets: ".to_owned();
        words.append(join(&missing, ", ").as_str());
        Err(DeployError::ValidationFailed(words))
    }
}

/// Whether something fits on none of the nodes, were they empty.
pub open spec fn is_oversized(need: Resources, nodes: Seq<NodeResources>) -> bool {
    forall|i: int|
        0 <= i < nodes.len() ==> need.cpu > (#[trigger] nodes[i]).cpu_total || need.memory
            > nodes[i].memory_total
}

fn needs_too_much(need: &Resources, nodes: &Vec<NodeResources>) -> (res: bool)
    ensures
        res == is_oversized(*need, nodes@),
{
    let mut i: usize = 0;
    while i < nodes.len()
        invariant
            i <= nodes@.len(),
            forall|j: int|
                0 <= j < i ==> need.cpu > (#[trigger] nodes@[j]).cpu_total || need.memory
                    > nodes@[j].memory_total,
        decreases nodes@.len() - i,
    {
        if need.cpu <= nodes[i].cpu_total && need.memory <= nodes[i].memory_total {
            return false;
        }
        i = i + 1;
    }
    true
}

/// The names of the services that need too much.
pub open spec fn oversized_services(
    services: Seq<(String, ServiceDef)>,
    nodes: Seq<NodeResources>,
) -> Seq<Seq<char>>
    decreases services.len(),
{
    if services.len() == 0 {
        Seq::empty()
    } else if is_oversized(services.last().1.resources, nodes) {
        oversized_services(services.drop_last(), nodes).push(services.last().0@)
    } else {
        oversized_services(services.drop_last(), nodes)
    }
}

/// The names of the tasks that need too much.
pub open spec fn oversized_tasks(
    tasks: Seq<(String, TaskDef)>,
    nodes: Seq<NodeResources>,
) -> Seq<Seq<char>>
    decreases tasks.len(),
{
    if tasks.len() == 0 {
        Seq::empty()
    } else if is_oversized(tasks.last().1.resources, nodes) {
        oversized_tasks(tasks.drop_last(), nodes).push(tasks.last().0@)
    } else {
        oversized_tasks(tasks.drop_last(), nodes)
    }
}

/// The names of everything that needs too much.
pub open spec fn oversized(config: ClusterConfig, nodes: Seq<NodeResources>) -> Seq<Seq<char>> {
    oversized_services(config.services@, nodes) + oversized_tasks(config.tasks@, nodes)
}

/// Checks that every service and task can fit on at least one of the nodes.
pub fn validate_resource_capacity(config: &ClusterConfig, nodes: &Vec<NodeResources>) -> (res: Result<
    (),
    DeployError,
>)
    ensures
        res is Ok <==> nodes@.len() > 0 && oversized(*config, nodes@).len() == 0,
        res matches Err(e) ==> e matches DeployError::ValidationFailed(words) && words@
            == if nodes@.len() == 0 {
            "no ready nodes in cluster"@
        } else {
            "resources exceed largest node capacity: "@ + joined(oversized(*config, nodes@), ", "@)
        },
{
    if nodes.len() == 0 {
        return Err(DeployError::ValidationFailed("no ready nodes in cluster".to_owned()));
    }
    let mut large: Vec<String> = Vec::new();
    let mut i: usize = 0;
    assert(texts(large@) =~= oversized_services(config.services@.take(0), nodes@));
    while i < config.services.len()
        invariant
            i <= config.services@.len(),
            texts(large@) == oversized_services(config.services@.take(i as int), nodes@),
        decreases config.services@.len() - i,
    {
        let (name, def) = &config.services[i];
        assert(config.services@.take(i + 1).drop_last() =~= config.services@.take(i as int));
        let ghost before = texts(large@);
        if needs_too_much(&def.resources, nodes) {
            large.push(name.clone());
            assert(texts(large@) =~= before.push(name@));
        }
        i = i + 1;
    }
    assert(config.services@.take(i as int) =~= config.services@);
    let ghost first = oversized_services(config.services@, nodes@);
    let mut i: usize = 0;
    assert(texts(large@) =~= first + oversized_tasks(config.tasks@.take(0), nodes@));
    while i < config.tasks.len()
        invariant
            i <= config.tasks@.len(),
            texts(large@) == first + oversized_tasks(config.tasks@.take(i as int), nodes@),
        decreases config.tasks@.len() - i,
    {
        let (name, def) = &config.tasks[i];
        assert(config.tasks@.take(i + 1).drop_last() =~= config.tasks@.take(i as int));
        let ghost before = texts(large@);
        if needs_too_much(&def.resources, nodes) {
            large.push(name.clone());
            assert(texts(large@) =~= before.push(name@));
        }
        i = i + 1;
        assert(texts(large@) =~= first + oversized_tasks(config.tasks@.take(i as int), nodes@));
    }
    assert(config.tasks@.take(i as int) =~= config.tasks@);
    if large.len() == 0 {
        Ok(())
    } else {
        let mut words = "resources exceed largest node capacity: ".to_owned();
        words.append(join(&large, ", ").as_str());
        Err(DeployError::ValidationFailed(words))
    }
}

/// Every service of a configuration without missing secrets refers to known
/// secrets only.
pub proof fn validated_secrets_are_known(
    config: ClusterConfig,
    known: Seq<String>,
    service: int,
    var: int,
    part: int,
)
    requires
        missing_secrets(config, known).len() == 0,
        0 <= service < config.services@.len(),
        0 <= var < config.services@[service].1.env@.len(),
        config.services@[service].1.env@[var].1 is Interpolated,
        0 <= part < config.services@[service].1.env@[var].1->parts@.len(),
        config.services@[service].1.env@[var].1->parts@[part] is Secret,
    ensures
        knows(known, config.services@[service].1.env@[var].1->parts@[part]->name@),
{
    let (name, def) = config.services@[service];
    lemma_none_in_services(config.services@, known, service);
    lemma_none_in_env(def.env@, known, name@, var);
    lemma_none_in_parts(def.env@[var].1->parts@, known, name@, part);
}

/// Every task of a configuration without missing secrets refers to known
/// secrets only.
pub proof fn validated_task_secrets_are_known(
    config: ClusterConfig,
    known: Seq<String>,
    task: int,
    var: int,
    part: int,
)
    requires
        missing_secrets(config, known).len() == 0,
        0 <= task < config.tasks@.len(),
        0 <= var < config.tasks@[task].1.env@.len(),
        config.tasks@[task].1.env@[var].1 is Interpolated,
        0 <= part < config.tasks@[task].1.env@[var].1->parts@.len(),
        config.tasks@[task].1.env@[var].1->parts@[part] is Secret,
    ensures
        knows(known, config.tasks@[task].1.env@[var].1->parts@[part]->name@),
{
    let (name, def) = config.tasks@[task];
    lemma_none_in_tasks(config.tasks@, known, task);
    lemma_none_in_env(def.env@, known, name@, var);
    lemma_none_in_parts(def.env@[var].1->parts@, known, name@, part);
}

proof fn lemma_none_in_tasks(s: Seq<(String, TaskDef)>, known: Seq<String>, i: int)
    requires
        missing_in_tasks(s, known).len() == 0,
        0 <= i < s.len(),
    ensures
        missing_in_env(s[i].1.env@, known, s[i].0@).len() == 0,
    decreases s.len(),
{
    if i < s.len() - 1 {
        lemma_none_in_tasks(s.drop_last(), known, i);
    }
}

proof fn lemma_none_in_services(s: Seq<(String, ServiceDef)>, known: Seq<String>, i: int)
    requires
        missing_in_services(s, known).len() == 0,
        0 <= i < s.len(),
    ensures
        missing_in_env(s[i].1.env@, known, s[i].0@).len() == 0,
    decreases s.len(),
{
    if i < s.len() - 1 {
        lemma_none_in_services(s.drop_last(), known, i);
    }
}

proof fn lemma_none_in_env(
    s: Seq<(String, EnvValue)>,
    known: Seq<String>,
    context: Seq<char>,
    i: int,
)
    requires
        missing_in_env(s, known, context).len() == 0,
        0 <= i < s.len(),
    ensures
        missing_in_value(s[i].1, known, context).len() == 0,
    decreases s.len(),
{
    if i < s.len() - 1 {
        lemma_none_in_env(s.drop_last(), known, context, i);
    }
}

proof fn lemma_none_in_parts(s: Seq<EnvPart>, known: Seq<String>, context: Seq<char>, i: int)
    requires
        missing_in_parts(s, known, context).len() == 0,
        0 <= i < s.len(),
    ensures
        s[i] is Secret ==> knows(known, s[i]->name@),
    decreases s.len(),
{
    if i < s.len() - 1 {
        lemma_none_in_parts(s.drop_last(), known, context, i);
    }
}

/// A configuration in which nothing needs too much fits: each service and each
/// task has a node that could hold all of its CPU and all of its memory at once.
pub proof fn checked_configurations_fit(config: ClusterConfig, nodes: Seq<NodeResources>)
    requires
        oversized(config, nodes).len() == 0,
    ensures
        forall|s: int|
            #![trigger config.services@[s]]
            0 <= s < config.services@.len() ==> exists|i: int|
                0 <= i < nodes.len() && config.services@[s].1.resources.cpu <= (
                #[trigger] nodes[i]).cpu_total && config.services@[s].1.resources.memory
                    <= nodes[i].memory_total,
        forall|t: int|
            #![trigger config.tasks@[t]]
            0 <= t < config.tasks@.len() ==> exists|i: int|
                0 <= i < nodes.len() && config.tasks@[t].1.resources.cpu <= (
                #[trigger] nodes[i]).cpu_total && config.tasks@[t].1.resources.memory
                    <= nodes[i].memory_total,
{
    assert forall|s: int|
        #![trigger config.services@[s]]
        0 <= s < config.services@.len() implies exists|i: int|
        0 <= i < nodes.len() && config.services@[s].1.resources.cpu <= (
        #[trigger] nodes[i]).cpu_total && config.services@[s].1.resources.memory
            <= nodes[i].memory_total by {
        lemma_no_large_service(config.services@, nodes, s);
    }
    assert forall|t: int|
        #![trigger config.tasks@[t]]
        0 <= t < config.tasks@.len() implies exists|i: int|
        0 <= i < nodes.len() && config.tasks@[t].1.resources.cpu <= (
        #[trigger] nodes[i]).cpu_total && config.tasks@[t].1.resources.memory
            <= nodes[i].memory_total by {
        lemma_no_large_task(config.tasks@, nodes, t);
    }
}

proof fn lemma_no_large_service(
    services: Seq<(String, ServiceDef)>,
    nodes: Seq<NodeResources>,
    s: int,
)
    requires
        oversized_services(services, nodes).len() == 0,
        0 <= s < services.len(),
    ensures
        !is_oversized(services[s].1.resources, nodes),
    decreases services.len(),
{
    if s < services.len() - 1 {
        lemma_no_large_service(services.drop_last(), nodes, s);
    }
}

proof fn lemma_no_large_task(tasks: Seq<(String, TaskDef)>, nodes: Seq<NodeResources>, t: int)
    requires
        oversized_tasks(tasks, nodes).len() == 0,
        0 <= t < tasks.len(),
    ensures
        !is_oversized(tasks[t].1.resources, nodes),
    decreases tasks.len(),
{
    if t < tasks.len() - 1 {
        lemma_no_large_task(tasks.drop_last(), nodes, t);
    }
}

/// What is named as too large fits on none of the nodes: each name is that of a
/// service or a task that needs more CPU or more memory than every single one
/// has.
pub proof fn only_what_fits_nowhere_is_refused(
    config: ClusterConfig,
    nodes: Seq<NodeResources>,
    k: int,
)
    requires
        0 <= k < oversized(config, nodes).len(),
    ensures
        ({
            ||| exists|s: int|
                0 <= s < config.services@.len() && (#[trigger] config.services@[s]).0@ == oversized(
                    config,
                    nodes,
                )[k] && forall|i: int|
                    0 <= i < nodes.len() ==> config.services@[s].1.resources.cpu > (
                    #[trigger] nodes[i]).cpu_total || config.services@[s].1.resources.memory
                        > nodes[i].memory_total
            ||| exists|t: int|
                0 <= t < config.tasks@.len() && (#[trigger] config.tasks@[t]).0@ == oversized(
                    config,
                    nodes,
                )[k] && forall|i: int|
                    0 <= i < nodes.len() ==> config.tasks@[t].1.resources.cpu > (
                    #[trigger] nodes[i]).cpu_total || config.tasks@[t].1.resources.memory
                        > nodes[i].memory_total
        }),
{
    let first = oversized_services(config.services@, nodes);
    if k < first.len() {
        let s = lemma_large_service(config.services@, nodes, k);
        assert(config.services@[s].0@ == first[k]);
    } else {
        let t = lemma_large_task(config.tasks@, nodes, k - first.len());
        assert(config.tasks@[t].0@ == oversized(config, nodes)[k]);
    }
}

proof fn lemma_large_service(
    services: Seq<(String, ServiceDef)>,
    nodes: Seq<NodeResources>,
    k: int,
) -> (s: int)
    requires
        0 <= k < oversized_services(services, nodes).len(),
    ensures
        0 <= s < services.len(),
        services[s].0@ == oversized_services(services, nodes)[k],
        is_oversized(services[s].1.resources, nodes),
    decreases services.len(),
{
    let before = oversized_services(services.drop_last(), nodes);
    if k < before.len() {
        lemma_large_service(services.drop_last(), nodes, k)
    } else {
        services.len() - 1
    }
}

proof fn lemma_large_task(tasks: Seq<(String, TaskDef)>, nodes: Seq<NodeResources>, k: int) -> (t:
    int)
    requires
        0 <= k < oversized_tasks(tasks, nodes).len(),
    ensures
        0 <= t < tasks.len(),
        tasks[t].0@ == oversized_tasks(tasks, nodes)[k],
        is_oversized(tasks[t].1.resources, nodes),
    decreases tasks.len(),
{
    let before = oversized_tasks(tasks.drop_last(), nodes);
    if k < before.len() {
        lemma_large_task(tasks.drop_last(), nodes, k)
    } else {
        tasks.len() - 1
    }
}

/// Whether variables refer to a secret that is not known, and `words` names it
/// behind the name of what needs it.
pub open spec fn refers_to_unknown(
    env: Seq<(String, EnvValue)>,
    known: Seq<String>,
    context: Seq<char>,
    words: Seq<char>,
) -> bool {
    exists|v: int, p: int|
        {
            &&& 0 <= v < env.len()
            &&& (#[trigger] env[v]).1 is Interpolated
            &&& 0 <= p < env[v].1->parts@.len()
            &&& (#[trigger] env[v].1->parts@[p]) matches EnvPart::Secret { name }
            &&& words == context + "/"@ + name@
            &&& forall|k: int| 0 <= k < known.len() ==> (#[trigger] known[k])@ != name@
        }
}

/// A secret is named as missing only where a service or a task refers to it and
/// it is not known.
pub proof fn only_unknown_secrets_are_refused(
    config: ClusterConfig,
    known: Seq<String>,
    k: int,
)
    requires
        0 <= k < missing_secrets(config, known).len(),
    ensures
        ({
            let words = missing_secrets(config, known)[k];
            ||| exists|s: int|
                0 <= s < config.services@.len() && refers_to_unknown(
                    (#[trigger] config.services@[s]).1.env@,
                    known,
                    config.services@[s].0@,
                    words,
                )
            ||| exists|t: int|
                0 <= t < config.tasks@.len() && refers_to_unknown(
                    (#[trigger] config.tasks@[t]).1.env@,
                    known,
                    config.tasks@[t].0@,
                    words,
                )
        }),
{
    let first = missing_in_services(config.services@, known);
    if k < first.len() {
        let s = lemma_missing_service(config.services@, known, k);
        assert(refers_to_unknown(
            config.services@[s].1.env@,
            known,
            config.services@[s].0@,
            first[k],
        ));
    } else {
        let t = lemma_missing_task(config.tasks@, known, k - first.len());
        assert(refers_to_unknown(
            config.tasks@[t].1.env@,
            known,
            config.tasks@[t].0@,
            missing_secrets(config, known)[k],
        ));
    }
}

proof fn lemma_missing_service(
    services: Seq<(String, ServiceDef)>,
    known: Seq<String>,
    k: int,
) -> (s: int)
    requires
        0 <= k < missing_in_services(services, known).len(),
    ensures
        0 <= s < services.len(),
        refers_to_unknown(
            services[s].1.env@,
            known,
            services[s].0@,
            missing_in_services(services, known)[k],
        ),
    decreases services.len(),
{
    let before = missing_in_services(services.drop_last(), known);
    if k < before.len() {
        lemma_missing_service(services.drop_last(), known, k)
    } else {
        lemma_missing_env(
            services.last().1.env@,
            known,
            services.last().0@,
            k - before.len(),
        );
        services.len() - 1
    }
}

proof fn lemma_missing_task(tasks: Seq<(String, TaskDef)>, known: Seq<String>, k: int) -> (t: int)
    requires
        0 <= k < missing_in_tasks(tasks, known).len(),
    ensures
        0 <= t < tasks.len(),
        refers_to_unknown(
            tasks[t].1.env@,
            known,
            tasks[t].0@,
            missing_in_tasks(tasks, known)[k],
        ),
    decreases tasks.len(),
{
    let before = missing_in_tasks(tasks.drop_last(), known);
    if k < before.len() {
        lemma_missing_task(tasks.drop_last(), known, k)
    } else {
        lemma_missing_env(tasks.last().1.env@, known, tasks.last().0@, k - before.len());
        tasks.len() - 1
    }
}

proof fn lemma_missing_env(
    env: Seq<(String, EnvValue)>,
    known: Seq<String>,
    context: Seq<char>,
    k: int,
)
    requires
        0 <= k < missing_in_env(env, known, context).len(),
    ensures
        refers_to_unknown(env, known, context, missing_in_env(env, known, context)[k]),
    decreases env.len(),
{
    let rest = env.drop_last();
    let before = missing_in_env(rest, known, context);
    let words = missing_in_env(env, known, context)[k];
    if k < before.len() {
        lemma_missing_env(rest, known, context, k);
        let (v, p) = choose|v: int, p: int|
            {
                &&& 0 <= v < rest.len()
                &&& (#[trigger] rest[v]).1 is Interpolated
                &&& 0 <= p < rest[v].1->parts@.len()
                &&& (#[trigger] rest[v].1->parts@[p]) matches EnvPart::Secret { name }
                &&& words == context + "/"@ + name@
                &&& forall|k: int| 0 <= k < known.len() ==> (#[trigger] known[k])@ != name@
            };
        assert(env[v] == rest[v]);
        assert(env[v].1->parts@[p] is Secret);
    } else {
        let parts = env.last().1->parts@;
        let p = lemma_missing_part(parts, known, context, k - before.len());
        let v = env.len() - 1;
        assert(env[v].1->parts@[p] is Secret);
    }
}

proof fn lemma_missing_part(
    parts: Seq<EnvPart>,
    known: Seq<String>,
    context: Seq<char>,
    k: int,
) -> (p: int)
    requires
        0 <= k < missing_in_parts(parts, known, context).len(),
    ensures
        0 <= p < parts.len(),
        parts[p] is Secret,
        missing_in_parts(parts, known, context)[k] == context + "/"@ + parts[p]->name@,
        forall|k: int| 0 <= k < known.len() ==> (#[trigger] known[k])@ != parts[p]->name@,
    decreases parts.len(),
{
    let before = missing_in_parts(parts.drop_last(), known, context);
    if k < before.len() {
        lemma_missing_part(parts.drop_last(), known, context, k)
    } else {
        parts.len() - 1
    }
}

} // verus!
