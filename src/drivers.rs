//! The workload variants ("drivers") and what each decides without asking the
//! cluster.
//!
//! A driver is chosen by the exact match of its name; the orchestration never
//! branches on which driver it runs.
use vstd::prelude::*;
use crate::settings::{
    edit_views, graphscope_edits, keys_of, neo4j_edits, neo4j_values_files, settings_edits, values_file_name, ScalePlan,
    ValuesFile,
};
use crate::text::{decimal, push_decimal, push_str};

verus! {

/// The GraphScope platform.
#[derive(Clone, Copy, Debug, PartialEq, Eq, Structural)]
pub struct Graphscope;

/// The Neo4j platform.
#[derive(Clone, Copy, Debug, PartialEq, Eq, Structural)]
pub struct Neo4j;

/// The registry of drivers.
#[derive(Clone, Copy, Debug, PartialEq, Eq, Structural)]
pub enum Driver {
    Graphscope,
    Neo4j,
}

pub open spec fn graphscope_name() -> Seq<char> {
    seq!['g', 'r', 'a', 'p', 'h', 's', 'c', 'o', 'p', 'e']
}

pub open spec fn neo4j_name() -> Seq<char> {
    seq!['n', 'e', 'o', '4', 'j']
}

impl Driver {
    pub open spec fn spec_name(self) -> Seq<char> {
        match self {
            Driver::Graphscope => graphscope_name(),
            Driver::Neo4j => neo4j_name(),
        }
    }

    /// The driver's name.
    pub fn name(&self) -> (s: String)
        ensures
            s@ == self.spec_name(),
    {
        match self {
            Driver::Graphscope => Graphscope.name(),
            Driver::Neo4j => Neo4j.name(),
        }
    }
}

impl Driver {
    /// How many ready units to wait for before a tier of `nodes` nodes can
    /// run: GraphScope's coordinator pod, or every Neo4j instance.
    pub open spec fn spec_ready_target(self, nodes: nat) -> nat {
        match self {
            Driver::Graphscope => 1,
            Driver::Neo4j => Neo4j::spec_instances(nodes),
        }
    }

    pub fn ready_target(&self, nodes: usize) -> (n: usize)
        ensures
            n == self.spec_ready_target(nodes as nat),
    {
        match self {
            Driver::Graphscope => 1,
            Driver::Neo4j => Neo4j::instances(nodes),
        }
    }
}

/// One readiness report while `count` of `wanted` units have been seen
/// ready: the new count, and whether the wait is over.
pub fn ready_step(count: usize, wanted: usize, ready: bool) -> (r: (usize, bool))
    requires
        count < wanted,
    ensures
        r.0 == (if ready { count + 1 } else { count as int }),
        r.1 == (r.0 == wanted),
{
    let c = if ready { count + 1 } else { count };
    (c, c == wanted)
}

/// A pod is ready when its first container is: `statuses` are the readiness
/// of its containers, in order.
pub fn first_container_ready(statuses: &Vec<bool>) -> (r: bool)
    ensures
        r == (statuses@.len() > 0 && statuses@[0]),
{
    statuses.len() > 0 && statuses[0]
}

/// A stateful set is ready when all its replicas are available.
pub fn replicas_ready(available: Option<i32>, replicas: i32) -> (r: bool)
    ensures
        r == (available == Some(replicas)),
{
    match available {
        Some(a) => a == replicas,
        None => false,
    }
}

/// The driver named `name`, if there is one.
pub fn get_driver_config(name: &str) -> (d: Option<Driver>)
    ensures
        d matches Some(x) ==> x.spec_name() == name@,
        d is None ==> name@ != graphscope_name() && name@ != neo4j_name(),
{
    let n = name.to_owned();
    if n == Graphscope.name() {
        Some(Driver::Graphscope)
    } else if n == Neo4j.name() {
        Some(Driver::Neo4j)
    } else {
        None
    }
}

/// A name of a driver in the registry.
pub open spec fn is_driver_name(name: Seq<char>) -> bool {
    name == graphscope_name() || name == neo4j_name()
}

/// The drivers named `names`, in order; or the index of the first name that
/// no driver has. Nothing in the cluster should change before this succeeds.
pub fn resolve_drivers(names: &Vec<String>) -> (r: Result<Vec<Driver>, usize>)
    ensures
        r matches Ok(ds) ==> ds@.len() == names@.len() && forall|i: int|
            0 <= i < ds@.len() ==> (#[trigger] ds@[i]).spec_name() == names@[i]@,
        r matches Err(k) ==> k < names@.len() && !is_driver_name(names@[k as int]@) && forall|i: int|
            0 <= i < k ==> is_driver_name(#[trigger] names@[i]@),
        r is Err <==> exists|i: int| 0 <= i < names@.len() && !is_driver_name(#[trigger] names@[i]@),
{
    let mut ds: Vec<Driver> = Vec::new();
    let mut i: usize = 0;
    while i < names.len()
        invariant
            i <= names@.len(),
            ds@.len() == i,
            forall|k: int| 0 <= k < i ==> (#[trigger] ds@[k]).spec_name() == names@[k]@,
            forall|k: int| 0 <= k < i ==> is_driver_name(#[trigger] names@[k]@),
        decreases names@.len() - i,
    {
        match get_driver_config(names[i].as_str()) {
            Some(d) => {
                ds.push(d);
            },
            None => {
                return Err(i);
            },
        }
        i = i + 1;
    }
    Ok(ds)
}

/// The algorithms run when the configuration names none.
pub open spec fn default_algorithms() -> Seq<Seq<char>> {
    seq!["bfs"@, "pr"@, "wcc"@, "cdlp"@, "lcc"@, "sssp"@]
}

/// The algorithms to run: those configured, or else every one of
/// [`default_algorithms`].
pub fn algorithms_or_default(configured: Option<Vec<String>>) -> (r: Vec<String>)
    ensures
        configured matches Some(v) ==> r@ == v@,
        configured is None ==> r@.map_values(|a: String| a@) == default_algorithms(),
{
    match configured {
        Some(v) => v,
        None => {
            let mut r: Vec<String> = Vec::new();
            r.push(text_of("bfs"));
            r.push(text_of("pr"));
            r.push(text_of("wcc"));
            r.push(text_of("cdlp"));
            r.push(text_of("lcc"));
            r.push(text_of("sssp"));
            assert(r@.map_values(|a: String| a@) =~= default_algorithms());
            r
        },
    }
}

/// One entry of a platform configuration.
pub open spec fn entry(key: Seq<char>, value: Seq<char>) -> (Seq<char>, Seq<char>) {
    (key, value)
}

pub open spec fn entries(pairs: Seq<(String, String)>) -> Seq<(Seq<char>, Seq<char>)> {
    pairs.map_values(|p: (String, String)| (p.0@, p.1@))
}

fn text_of(t: &str) -> (s: String)
    ensures
        s@ == t@,
{
    let mut s = String::new();
    push_str(&mut s, t);
    assert(s@ =~= t@);
    s
}

impl Graphscope {
    /// The driver's name.
    pub fn name(&self) -> (s: String)
        ensures
            s@ == graphscope_name(),
    {
        let s = text_of("graphscope");
        proof {
            reveal_strlit("graphscope");
        }
        assert(s@ =~= graphscope_name());
        s
    }

    pub open spec fn spec_platform_config(port: i32) -> Seq<(Seq<char>, Seq<char>)> {
        seq![
            entry("host"@, "coordinator-service-graphscope"@),
            entry("port"@, crate::text::signed_decimal(port as int)),
        ]
    }

    /// The platform configuration for a run: the coordinator service and
    /// `port`, the port that the cluster gave it.
    pub fn get_platform_config(&self, port: i32) -> (c: Vec<(String, String)>)
        ensures
            entries(c@) == Self::spec_platform_config(port),
    {
        let host = text_of("coordinator-service-graphscope");
        let mut p = String::new();
        crate::text::push_signed(&mut p, port);
        let mut c: Vec<(String, String)> = Vec::new();
        c.push((text_of("host"), host));
        c.push((text_of("port"), p));
        assert(entries(c@) =~= Self::spec_platform_config(port));
        c
    }

    /// What scaling to a tier of `nodes` nodes does to the settings, where
    /// the options `option_keys` are configured: the edits are written back
    /// to `values.yaml`, and the set-up takes no extra parameters.
    pub fn scale_service(&self, nodes: usize, option_keys: &Vec<String>) -> (p: ScalePlan)
        ensures
            edit_views(p.edits@) == graphscope_edits(nodes as nat, keys_of(option_keys@)),
            p.targets@.len() == 1,
            p.targets@[0].name@ == "values.yaml"@,
            p.targets@[0].without is None,
            p.extra_vars@.len() == 0,
    {
        let edits = settings_edits(Driver::Graphscope, nodes, option_keys, "");
        let mut targets: Vec<ValuesFile> = Vec::new();
        targets.push(ValuesFile { name: text_of("values.yaml"), without: None });
        ScalePlan { edits, targets, extra_vars: Vec::new() }
    }

    /// The label of the pod whose readiness tells that the platform is up.
    pub fn pod_ready_label(&self) -> (s: String)
        ensures
            s@ == "graphscope.components=coordinator"@,
    {
        text_of("graphscope.components=coordinator")
    }
}

impl Neo4j {
    /// The driver's name.
    pub fn name(&self) -> (s: String)
        ensures
            s@ == neo4j_name(),
    {
        let s = text_of("neo4j");
        proof {
            reveal_strlit("neo4j");
        }
        assert(s@ =~= neo4j_name());
        s
    }

    /// The number of Neo4j instances for a tier of `nodes` nodes: a cluster
    /// of two is run as three, the smallest Neo4j cluster.
    pub open spec fn spec_instances(nodes: nat) -> nat {
        if nodes == 2 {
            3
        } else {
            nodes
        }
    }

    pub fn instances(nodes: usize) -> (n: usize)
        ensures
            n == Self::spec_instances(nodes as nat),
    {
        if nodes == 2 {
            3
        } else {
            nodes
        }
    }

    pub open spec fn spec_platform_config(nodes: nat) -> Seq<(Seq<char>, Seq<char>)> {
        seq![
            entry("host"@, "neo-lb-neo4j"@),
            entry("port"@, "7687"@),
            entry("user"@, neo4j_name()),
            entry("password"@, "graph_benchmarks"@),
            entry("neo_instances"@, decimal(Self::spec_instances(nodes))),
        ]
    }

    /// The platform configuration for a run at a tier of `nodes` nodes.
    pub fn get_platform_config(&self, nodes: usize) -> (c: Vec<(String, String)>)
        ensures
            entries(c@) == Self::spec_platform_config(nodes as nat),
    {
        let mut inst = String::new();
        push_decimal(&mut inst, Self::instances(nodes) as u64);
        let mut c: Vec<(String, String)> = Vec::new();
        c.push((text_of("host"), text_of("neo-lb-neo4j")));
        c.push((text_of("port"), text_of("7687")));
        c.push((text_of("user"), self.name()));
        c.push((text_of("password"), text_of("graph_benchmarks")));
        c.push((text_of("neo_instances"), inst));
        assert(entries(c@) =~= Self::spec_platform_config(nodes as nat));
        c
    }

    /// What scaling to a tier of `nodes` nodes does to the settings, where
    /// the options `option_keys` are configured and the shared storage is
    /// served at `nfs_ip`: one settings file per instance, and the number of
    /// instances as the set-up parameter `num_nodes=<n>`.
    pub fn scale_service(&self, nodes: usize, option_keys: &Vec<String>, nfs_ip: &str) -> (p: ScalePlan)
        ensures
            edit_views(p.edits@) == neo4j_edits(nodes as nat, keys_of(option_keys@), nfs_ip@),
            p.targets@.len() == Self::spec_instances(nodes as nat),
            forall|i: int|
                0 <= i < p.targets@.len() ==> {
                    &&& (#[trigger] p.targets@[i]).name@ == values_file_name((i + 1) as nat)
                    &&& (i == 0 ==> p.targets@[i].without is None)
                    &&& (i > 0 ==> (p.targets@[i].without matches Some(w) && w@ == "volumes.import"@))
                },
            p.extra_vars@.len() == 1,
            p.extra_vars@[0]@ == "num_nodes="@ + decimal(Self::spec_instances(nodes as nat)),
    {
        let edits = settings_edits(Driver::Neo4j, nodes, option_keys, nfs_ip);
        let targets = neo4j_values_files(nodes);
        let mut v = text_of("num_nodes=");
        push_decimal(&mut v, Self::instances(nodes) as u64);
        let mut extra_vars: Vec<String> = Vec::new();
        extra_vars.push(v);
        ScalePlan { edits, targets, extra_vars }
    }
}

} // verus!
