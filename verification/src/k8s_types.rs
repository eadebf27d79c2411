//! Plain descriptions of orchestrator objects as the library reads them.

use vstd::prelude::*;
use crate::aggregator::contains_string;
use vstd::string::StringExecFns;

verus! {

/// A pod as the orchestrator reports it, reduced to plain values.
#[derive(Debug, Clone)]
pub struct PodInfo {
    pub name: String,
    pub namespace: String,
    pub uid: String,
    pub node_name: Option<String>,
    pub pod_ip: Option<String>,
    pub phase: String,
    pub has_gpu: bool,
}

/// A node's identity.
#[derive(Debug, Clone)]
pub struct NodeInfo {
    pub name: String,
    pub hostname: String,
    pub kernel_version: String,
}

/// Whether a container's resource-limit keys ask for an accelerator.
pub fn gpu_in_limits(limit_keys: &Vec<String>) -> (r: bool)
    ensures
        r == (exists|i: int|
            0 <= i < limit_keys@.len() && ((#[trigger] limit_keys@[i])@ == "nvidia.com/gpu"@
                || limit_keys@[i]@ == "amd.com/gpu"@ || limit_keys@[i]@
                == "aws.amazon.com/neuron"@)),
{
    let nvidia = String::from_str("nvidia.com/gpu");
    let amd = String::from_str("amd.com/gpu");
    let neuron = String::from_str("aws.amazon.com/neuron");
    let r = contains_string(limit_keys.as_slice(), &nvidia) || contains_string(
        limit_keys.as_slice(),
        &amd,
    ) || contains_string(limit_keys.as_slice(), &neuron);
    r
}

} // verus!
