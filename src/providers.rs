//! The providers that provision a cluster, and their settings documents.
use vstd::prelude::*;
use crate::text::{decimal, push_char, push_decimal, push_str};

pub mod terraform;
pub mod vagrant;

verus! {

/// Provisioning with Terraform.
#[derive(Clone, Copy, Debug, PartialEq, Eq, Structural)]
pub struct Terraform;

/// Provisioning with Vagrant.
#[derive(Clone, Copy, Debug, PartialEq, Eq, Structural)]
pub struct Vagrant;

/// The registry of providers.
#[derive(Clone, Copy, Debug, PartialEq, Eq, Structural)]
pub enum Provider {
    Terraform,
    Vagrant,
}

impl Provider {
    pub open spec fn spec_name(self) -> Seq<char> {
        match self {
            Provider::Terraform => "terraform"@,
            Provider::Vagrant => "vagrant"@,
        }
    }

    pub fn name(&self) -> (s: String)
        ensures
            s@ == self.spec_name(),
    {
        match self {
            Provider::Terraform => Terraform.name(),
            Provider::Vagrant => Vagrant.name(),
        }
    }
}

impl Terraform {
    pub fn name(&self) -> (s: String)
        ensures
            s@ == "terraform"@,
    {
        let mut s = String::new();
        push_str(&mut s, "terraform");
        assert(s@ =~= "terraform"@);
        s
    }
}

impl Vagrant {
    pub fn name(&self) -> (s: String)
        ensures
            s@ == "vagrant"@,
    {
        let mut s = String::new();
        push_str(&mut s, "vagrant");
        assert(s@ =~= "vagrant"@);
        s
    }
}

/// The provider named `name`, if there is one.
pub fn provider_by_name(name: &str) -> (p: Option<Provider>)
    ensures
        p matches Some(x) ==> x.spec_name() == name@,
        p is None ==> name@ != "terraform"@ && name@ != "vagrant"@,
{
    let n = name.to_owned();
    if n == Terraform.name() {
        Some(Provider::Terraform)
    } else if n == Vagrant.name() {
        Some(Provider::Vagrant)
    } else {
        None
    }
}

/// The name of the `i`-th machine: `master` for the first, `worker-<i>` for
/// the others.
pub open spec fn machine_name(i: nat) -> Seq<char> {
    if i == 0 {
        "master"@
    } else {
        "worker-"@ + decimal(i)
    }
}

pub fn machine_name_of(i: u64) -> (s: String)
    ensures
        s@ == machine_name(i as nat),
{
    let mut s = String::new();
    if i == 0 {
        push_str(&mut s, "master");
        assert(s@ =~= "master"@);
    } else {
        push_str(&mut s, "worker-");
        push_decimal(&mut s, i);
        assert(s@ =~= "worker-"@ + decimal(i as nat));
    }
    s
}

/// The largest of the tier sizes.
pub open spec fn max_of(s: Seq<usize>) -> nat
    decreases s.len(),
{
    if s.len() == 0 {
        0
    } else {
        let m = max_of(s.drop_last());
        if s.last() as nat > m {
            s.last() as nat
        } else {
            m
        }
    }
}

/// The number of worker machines to provision: one fewer than the largest
/// tier, the master being the other one.
pub fn worker_count(node_configs: &Vec<usize>) -> (n: usize)
    requires
        max_of(node_configs@) >= 1,
    ensures
        n == max_of(node_configs@) - 1,
{
    let mut m: usize = 0;
    let mut i: usize = 0;
    while i < node_configs.len()
        invariant
            i <= node_configs@.len(),
            m == max_of(node_configs@.take(i as int)),
        decreases node_configs@.len() - i,
    {
        assert(node_configs@.take(i + 1).drop_last() =~= node_configs@.take(i as int));
        if node_configs[i] > m {
            m = node_configs[i];
        }
        i = i + 1;
    }
    assert(node_configs@.take(node_configs@.len() as int) =~= node_configs@);
    m - 1
}

} // verus!
