//! The benchmark configuration and the run configuration handed to each unit
//! of work.
use vstd::prelude::*;
use crate::runs::{ids_text, names_text, join_ids, join_names};
use crate::text::push_str;

verus! {

/// Options of the `benchmark` command: none.
#[derive(Clone, Copy, Debug, PartialEq, Eq, Structural)]
pub struct BenchmarkArgs {}

/// What a dataset's own descriptor says of it.
#[derive(Clone, Debug)]
pub struct DatasetUserConfig {
    pub weights: bool,
    pub directed: bool,
    pub start_vertex: usize,
    pub skip_algos: Option<Vec<String>>,
}

/// The dataset part of a run configuration.
#[derive(Clone, Debug)]
pub struct DatasetConfig {
    pub vertex: String,
    pub edges: String,
    pub name: String,
    pub directed: bool,
    pub weights: bool,
    pub start_vertex: usize,
}

/// The run part of a run configuration: the run-ids and algorithms of the
/// batch, in step, where the log goes, and the tier size.
#[derive(Clone, Debug)]
pub struct RunConfig {
    pub ids: String,
    pub algos: String,
    pub log_file: String,
    pub nodes: usize,
}

/// Settings for debugging the benchmark units of work.
#[derive(Clone, Copy, Debug, PartialEq, Eq, Structural)]
pub struct DebugOptions {
    /// Seconds a finished unit of work is kept before it is deleted.
    pub bench_ttl: Option<i32>,
    pub skip_join_nodes: Option<bool>,
}

impl Default for DebugOptions {
    /// Finished units of work are deleted at once, and nodes are joined.
    fn default() -> (d: DebugOptions)
        ensures
            d.bench_ttl == Some(0i32),
            d.skip_join_nodes == Some(false),
    {
        DebugOptions { bench_ttl: Some(0), skip_join_nodes: Some(false) }
    }
}

/// Options of the cluster set-up.
#[derive(Clone, Copy, Debug, PartialEq, Eq, Structural)]
pub struct KubeSetup {
    pub dashboard: Option<bool>,
}

/// What is needed to provision a platform.
#[derive(Clone, Debug)]
pub struct PlatformArgs {
    pub host_username: Option<String>,
    pub platform: String,
    pub node_configs: Vec<usize>,
}

/// The `/attached/<dataset><ext>` path of a dataset file.
pub open spec fn attached_path(dataset: Seq<char>, ext: Seq<char>) -> Seq<char> {
    "/attached/"@ + dataset + ext
}

fn attached(dataset: &str, ext: &str) -> (s: String)
    ensures
        s@ == attached_path(dataset@, ext@),
{
    let mut s = String::new();
    push_str(&mut s, "/attached/");
    push_str(&mut s, dataset);
    push_str(&mut s, ext);
    assert(s@ =~= attached_path(dataset@, ext@));
    s
}

/// The dataset part of the run configuration of dataset `name`: its vertex
/// and edge files on the shared storage, and what its descriptor says.
pub fn dataset_config(name: &String, user: &DatasetUserConfig) -> (d: DatasetConfig)
    ensures
        d.name@ == name@,
        d.vertex@ == attached_path(name@, ".v"@),
        d.edges@ == attached_path(name@, ".e"@),
        d.weights == user.weights,
        d.directed == user.directed,
        d.start_vertex == user.start_vertex,
{
    DatasetConfig {
        vertex: attached(name.as_str(), ".v"),
        edges: attached(name.as_str(), ".e"),
        name: name.clone(),
        directed: user.directed,
        weights: user.weights,
        start_vertex: user.start_vertex,
    }
}

/// The run part of the run configuration of a batch: its run-ids and its
/// algorithms, each separated by commas, the log file and the tier size.
pub fn run_config(run_ids: &Vec<i32>, algos: &Vec<String>, nodes: usize) -> (c: RunConfig)
    ensures
        c.ids@ == ids_text(run_ids@),
        c.algos@ == names_text(algos@.map_values(|a: String| a@)),
        c.log_file@ == "/attached/log"@,
        c.nodes == nodes,
{
    let mut log_file = String::new();
    push_str(&mut log_file, "/attached/log");
    assert(log_file@ =~= "/attached/log"@);
    RunConfig { ids: join_ids(run_ids), algos: join_names(algos), log_file, nodes }
}

} // verus!
