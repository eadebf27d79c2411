//! Probe object bookkeeping: where probe object files live and whether a
//! probe is attached. The caller reports whether the file exists; loading
//! the object into the kernel is its business.

use vstd::prelude::*;
use vstd::string::StringExecFns;
use crate::error::Orb8Error;

verus! {

/// The kinds of probe the agent can run.
#[derive(Debug, Clone, Copy, PartialEq, Eq, Structural)]
pub enum ProbeType {
    Network,
    Syscall,
    Gpu,
}

impl ProbeType {
    /// The probe kind's name.
    pub fn as_str(&self) -> (r: &'static str)
        ensures
            *self is Network ==> r@ == "network"@,
            *self is Syscall ==> r@ == "syscall"@,
            *self is Gpu ==> r@ == "gpu"@,
    {
        match self {
            ProbeType::Network => "network",
            ProbeType::Syscall => "syscall",
            ProbeType::Gpu => "gpu",
        }
    }
}

/// Locates probe object files under a directory.
pub struct ProbeLoader {
    probes_dir: String,
}

/// The path of a probe's object file under a directory.
pub open spec fn probe_path_spec(dir: Seq<char>, name: Seq<char>) -> Seq<char> {
    dir + "/"@ + name + ".o"@
}

impl ProbeLoader {
    /// The directory the loader looks under.
    pub closed spec fn dir(&self) -> Seq<char> {
        self.probes_dir@
    }

    /// A loader over the given directory.
    pub fn new(probes_dir: String) -> (r: Self)
        ensures
            r.dir() == probes_dir@,
    {
        ProbeLoader { probes_dir }
    }

    /// A loader over the default probe directory.
    pub fn with_default_path() -> (r: Self)
        ensures
            r.dir() == "/usr/lib/orb8/probes"@,
    {
        ProbeLoader { probes_dir: String::from_str("/usr/lib/orb8/probes") }
    }

    /// The object file path for a probe name.
    pub fn probe_path(&self, name: &str) -> (r: String)
        ensures
            r@ == probe_path_spec(self.dir(), name@),
    {
        let mut p = self.probes_dir.clone();
        p.append("/");
        p.append(name);
        p.append(".o");
        p
    }

    /// Register a probe whose object file the caller has looked for:
    /// a missing file is a load failure naming the path.
    pub fn load_probe(&self, name: &str, file_exists: bool) -> (r: Result<LoadedProbe, Orb8Error>)
        ensures
            file_exists <==> r is Ok,
            r matches Ok(p) ==> p.name@ == name@ && p.path@ == probe_path_spec(self.dir(), name@)
                && !p.attached,
            r matches Err(e) ==> e matches Orb8Error::ProgramLoadFailed(s) && s@
                == "Probe file not found: "@ + probe_path_spec(self.dir(), name@),
    {
        let path = self.probe_path(name);
        if !file_exists {
            let mut msg = String::from_str("Probe file not found: ");
            msg.append(path.as_str());
            return Err(Orb8Error::ProgramLoadFailed(msg));
        }
        Ok(LoadedProbe { name: String::from_str(name), path, attached: false })
    }
}

/// A probe the loader registered.
#[derive(Debug)]
pub struct LoadedProbe {
    pub name: String,
    pub path: String,
    pub attached: bool,
}

impl LoadedProbe {
    /// Mark the probe attached.
    pub fn attach(&mut self) -> (r: Result<(), Orb8Error>)
        ensures
            r is Ok,
            final(self).attached,
            final(self).name == old(self).name,
            final(self).path == old(self).path,
    {
        self.attached = true;
        Ok(())
    }

    /// Mark the probe detached.
    pub fn detach(&mut self) -> (r: Result<(), Orb8Error>)
        ensures
            r is Ok,
            !final(self).attached,
            final(self).name == old(self).name,
            final(self).path == old(self).path,
    {
        self.attached = false;
        Ok(())
    }
}

} // verus!
