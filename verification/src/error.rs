//! The library's error type. Each variant carries what the message
//! needs; `message` renders the human-readable text.

use vstd::prelude::*;
use vstd::string::StringExecFns;

verus! {

/// Everything that can go wrong across the agent.
#[derive(Debug, Clone)]
pub enum Orb8Error {
    EbpfError(String),
    ProgramLoadFailed(String),
    AttachFailed(String),
    KubernetesError(String),
    PodNotFound { name: String, namespace: String },
    MetricsError(String),
    ConfigError(String),
    IoError(String),
    KernelVersionTooOld { version: String, min_version: String },
    BtfNotAvailable,
    UnsupportedFeature(String),
}

impl Orb8Error {
    /// The message text of the error.
    pub open spec fn message_spec(&self) -> Seq<char> {
        match *self {
            Orb8Error::EbpfError(ref s) => "eBPF error: "@ + s@,
            Orb8Error::ProgramLoadFailed(ref s) => "Failed to load eBPF program: "@ + s@,
            Orb8Error::AttachFailed(ref s) => "Failed to attach eBPF program: "@ + s@,
            Orb8Error::KubernetesError(ref s) => "Kubernetes error: "@ + s@,
            Orb8Error::PodNotFound { ref name, ref namespace } => "Pod not found: "@ + name@
                + " in namespace "@ + namespace@,
            Orb8Error::MetricsError(ref s) => "Metrics error: "@ + s@,
            Orb8Error::ConfigError(ref s) => "Configuration error: "@ + s@,
            Orb8Error::IoError(ref s) => "IO error: "@ + s@,
            Orb8Error::KernelVersionTooOld { ref version, ref min_version } => "Kernel version "@
                + version@ + " is too old. Minimum required: "@ + min_version@,
            Orb8Error::BtfNotAvailable =>
                "BTF not available. Ensure kernel is compiled with CONFIG_DEBUG_INFO_BTF"@,
            Orb8Error::UnsupportedFeature(ref s) => "Unsupported feature on this system: "@ + s@,
        }
    }

    /// Render the error as its message text.
    pub fn message(&self) -> (r: String)
        ensures
            r@ == self.message_spec(),
    {
        match self {
            Orb8Error::EbpfError(s) => {
                let mut m = String::from_str("eBPF error: ");
                m.append(s.as_str());
                m
            },
            Orb8Error::ProgramLoadFailed(s) => {
                let mut m = String::from_str("Failed to load eBPF program: ");
                m.append(s.as_str());
                m
            },
            Orb8Error::AttachFailed(s) => {
                let mut m = String::from_str("Failed to attach eBPF program: ");
                m.append(s.as_str());
                m
            },
            Orb8Error::KubernetesError(s) => {
                let mut m = String::from_str("Kubernetes error: ");
                m.append(s.as_str());
                m
            },
            Orb8Error::PodNotFound { name, namespace } => {
                let mut m = String::from_str("Pod not found: ");
                m.append(name.as_str());
                m.append(" in namespace ");
                m.append(namespace.as_str());
                m
            },
            Orb8Error::MetricsError(s) => {
                let mut m = String::from_str("Metrics error: ");
                m.append(s.as_str());
                m
            },
            Orb8Error::ConfigError(s) => {
                let mut m = String::from_str("Configuration error: ");
                m.append(s.as_str());
                m
            },
            Orb8Error::IoError(s) => {
                let mut m = String::from_str("IO error: ");
                m.append(s.as_str());
                m
            },
            Orb8Error::KernelVersionTooOld { version, min_version } => {
                let mut m = String::from_str("Kernel version ");
                m.append(version.as_str());
                m.append(" is too old. Minimum required: ");
                m.append(min_version.as_str());
                m
            },
            Orb8Error::BtfNotAvailable => String::from_str(
                "BTF not available. Ensure kernel is compiled with CONFIG_DEBUG_INFO_BTF",
            ),
            Orb8Error::UnsupportedFeature(s) => {
                let mut m = String::from_str("Unsupported feature on this system: ");
                m.append(s.as_str());
                m
            },
        }
    }
}

} // verus!
