//! The output document of the Terraform provider.
use vstd::prelude::*;

verus! {

#[derive(Debug, Default)]
pub struct Root {
    pub key_data: KeyData,
    pub ips: LinuxVirtualMachineIps,
}

#[derive(Clone, Debug, Default)]
pub struct KeyData {
    pub sensitive: bool,
    pub type_field: String,
    pub value: String,
}

#[derive(Debug, Default)]
pub struct LinuxVirtualMachineIps {
    pub sensitive: bool,
    pub type_field: (String, Vec<(String, Vec<String>)>),
    pub value: Vec<Vec<String>>,
}

#[derive(Debug, Default)]
pub struct LinuxVirtualMachineNames {
    pub sensitive: bool,
    pub type_field: (String, Vec<(String, Vec<String>)>),
    pub value: Vec<Vec<String>>,
}

#[derive(Clone, Debug, Default)]
pub struct ResourceGroupName {
    pub sensitive: bool,
    pub type_field: String,
    pub value: String,
}

impl Root {
    /// The address of the master: the first address listed for the first
    /// machine, if there is one.
    pub fn master_address(&self) -> (r: Option<String>)
        ensures
            self.ips.value@.len() > 0 && self.ips.value@[0]@.len() > 0 ==> (r matches Some(a) && a@
                == self.ips.value@[0]@[0]@),
            !(self.ips.value@.len() > 0 && self.ips.value@[0]@.len() > 0) ==> r is None,
    {
        if self.ips.value.len() > 0 && self.ips.value[0].len() > 0 {
            Some(self.ips.value[0][0].clone())
        } else {
            None
        }
    }
}

} // verus!
