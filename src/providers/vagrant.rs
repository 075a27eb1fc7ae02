//! The settings document of the Vagrant provider.
use vstd::prelude::*;
use crate::providers::{max_of, worker_count};

verus! {

#[derive(Clone, Debug, Default)]
pub struct Root {
    pub network: Network,
    pub nodes: Nodes,
    pub software: Software,
}

#[derive(Clone, Debug, Default)]
pub struct Network {
    pub dns_servers: Vec<String>,
}

#[derive(Clone, Debug, Default)]
pub struct Nodes {
    pub disk_size: usize,
    pub control: Control,
    pub workers: Workers,
    pub storage_pool_name: String,
}

#[derive(Clone, Copy, Debug, Default, PartialEq, Eq, Structural)]
pub struct Control {
    pub cpu: usize,
    pub memory: usize,
}

#[derive(Clone, Copy, Debug, Default, PartialEq, Eq, Structural)]
pub struct Workers {
    pub count: usize,
    pub cpu: usize,
    pub memory: usize,
}

#[derive(Clone, Debug, Default)]
pub struct Software {
    pub box_field: String,
}

impl Root {
    /// Provisions as many worker machines as the largest tier needs, the
    /// master being one of its nodes; the rest of the settings stay.
    pub fn apply_node_configs(&mut self, node_configs: &Vec<usize>)
        requires
            max_of(node_configs@) >= 1,
        ensures
            final(self).nodes.workers.count == max_of(node_configs@) - 1,
            final(self).nodes.workers.cpu == old(self).nodes.workers.cpu,
            final(self).nodes.workers.memory == old(self).nodes.workers.memory,
            final(self).nodes.control == old(self).nodes.control,
            final(self).nodes.disk_size == old(self).nodes.disk_size,
            final(self).nodes.storage_pool_name@ == old(self).nodes.storage_pool_name@,
    {
        self.nodes.workers.count = worker_count(node_configs);
    }
}

} // verus!
