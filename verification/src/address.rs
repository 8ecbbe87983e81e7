//! Resource addresses: cluster + namespace + name.

use vstd::prelude::*;

verus! {

/// The address of one resource, as `lava_outcome_chain::ResourceAddress`
/// holds it.
#[derive(Debug, PartialEq, Eq)]
pub struct ResourceAddress {
    pub cluster: String,
    pub namespace: String,
    pub name: String,
}

impl ResourceAddress {
    pub fn new(cluster: String, namespace: String, name: String) -> (a: ResourceAddress)
        ensures
            a.cluster == cluster,
            a.namespace == namespace,
            a.name == name,
    {
        ResourceAddress { cluster, namespace, name }
    }
}

impl Clone for ResourceAddress {
    fn clone(&self) -> (c: Self)
        ensures
            c == *self,
    {
        ResourceAddress {
            cluster: self.cluster.clone(),
            namespace: self.namespace.clone(),
            name: self.name.clone(),
        }
    }
}

} // verus!
