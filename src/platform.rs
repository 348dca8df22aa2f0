//! What the agent knows of the machine it runs on: operating system, container, and
//! privileges; and the per-OS platforms that carry it.

use vstd::prelude::*;
use crate::error::msg;

verus! {

/// The container the agent runs in, if any.
#[derive(Debug, Clone, Copy, PartialEq, Eq, Structural)]
pub enum ContainerEnvironment {
    NoContainer,
    Docker,
    Kubernetes,
    Podman,
    Unknown,
}

/// Facts about the machine, gathered by the caller from the file system and the
/// environment.
#[derive(Debug, Clone)]
pub struct EnvironmentFacts {
    pub os: String,
    pub os_version: String,
    pub kernel_version: Option<String>,
    /// `/.dockerenv` exists.
    pub dockerenv_exists: bool,
    /// `KUBERNETES_SERVICE_HOST` is set.
    pub kubernetes_host_set: bool,
    /// The value of `container`, if set.
    pub container_var: Option<String>,
    /// The contents of `/proc/1/cgroup`, if readable.
    pub init_cgroup: Option<String>,
    /// The effective user id is 0.
    pub is_root: bool,
}

/// Platform information.
#[derive(Debug, Clone)]
pub struct PlatformInfo {
    pub os: String,
    pub os_version: String,
    pub container: ContainerEnvironment,
    pub is_privileged: bool,
    pub kernel_version: Option<String>,
}

pub open spec fn container_suffix(c: ContainerEnvironment) -> Seq<char> {
    match c {
        ContainerEnvironment::NoContainer => ""@,
        ContainerEnvironment::Docker => " (Docker)"@,
        ContainerEnvironment::Kubernetes => " (Kubernetes)"@,
        ContainerEnvironment::Podman => " (Podman)"@,
        ContainerEnvironment::Unknown => " (Container)"@,
    }
}

/// Whether `needle` occurs in `hay`.
pub open spec fn contains_text(hay: Seq<char>, needle: Seq<char>) -> bool {
    exists|i: int| 0 <= i && i + needle.len() <= hay.len() && #[trigger] hay.subrange(i, i + needle.len()) == needle
}

/// Whether `needle` occurs in `hay`.
pub fn contains(hay: &str, needle: &str) -> (r: bool)
    ensures
        r == contains_text(hay@, needle@),
{
    let n = hay.unicode_len();
    let m = needle.unicode_len();
    if m > n {
        return false;
    }
    let mut i: usize = 0;
    while i <= n - m
        invariant
            n == hay@.len(),
            m == needle@.len(),
            m <= n,
            i <= n - m + 1,
            forall|j: int| 0 <= j < i ==> #[trigger] hay@.subrange(j, j + m) != needle@,
        decreases n - m + 1 - i,
    {
        let mut k: usize = 0;
        let mut same = true;
        while k < m
            invariant
                n == hay@.len(),
                m == needle@.len(),
                i + m <= n,
                k <= m,
                same == forall|q: int| 0 <= q < k ==> hay@[i + q] == needle@[q],
            decreases m - k,
        {
            if hay.get_char(i + k) != needle.get_char(k) {
                same = false;
            }
            k = k + 1;
        }
        if same {
            assert(hay@.subrange(i as int, i + m) =~= needle@);
            return true;
        }
        assert(hay@.subrange(i as int, i + m) != needle@) by {
            let q = choose|q: int| 0 <= q < m && hay@[i + q] != needle@[q];
            assert(hay@.subrange(i as int, i + m)[q] == hay@[i + q]);
        }
        i = i + 1;
    }
    assert forall|j: int| 0 <= j && j + m <= n implies #[trigger] hay@.subrange(j, j + m) != needle@ by {
        assert(j < i);
    }
    false
}

/// The container the facts point to: `/.dockerenv`, then the Kubernetes variable, then
/// `container=podman`, then what the init process's cgroup names.
pub open spec fn container_of(f: EnvironmentFacts) -> ContainerEnvironment {
    if f.dockerenv_exists {
        ContainerEnvironment::Docker
    } else if f.kubernetes_host_set {
        ContainerEnvironment::Kubernetes
    } else if f.container_var matches Some(v) && v@ == "podman"@ {
        ContainerEnvironment::Podman
    } else {
        match f.init_cgroup {
            Some(c) => if contains_text(c@, "docker"@) {
                ContainerEnvironment::Docker
            } else if contains_text(c@, "kubepods"@) {
                ContainerEnvironment::Kubernetes
            } else if contains_text(c@, "podman"@) {
                ContainerEnvironment::Podman
            } else if contains_text(c@, "/lxc/"@) || contains_text(c@, "/docker/"@) {
                ContainerEnvironment::Unknown
            } else {
                ContainerEnvironment::NoContainer
            },
            None => ContainerEnvironment::NoContainer,
        }
    }
}

/// Works out the container from the gathered facts.
pub fn detect_container(f: &EnvironmentFacts) -> (r: ContainerEnvironment)
    ensures
        r == container_of(*f),
{
    if f.dockerenv_exists {
        return ContainerEnvironment::Docker;
    }
    if f.kubernetes_host_set {
        return ContainerEnvironment::Kubernetes;
    }
    match &f.container_var {
        Some(v) => {
            if crate::tunnel::string_eq(v, "podman") {
                return ContainerEnvironment::Podman;
            }
        },
        None => {},
    }
    match &f.init_cgroup {
        Some(c) => {
            let c = c.as_str();
            if contains(c, "docker") {
                ContainerEnvironment::Docker
            } else if contains(c, "kubepods") {
                ContainerEnvironment::Kubernetes
            } else if contains(c, "podman") {
                ContainerEnvironment::Podman
            } else if contains(c, "/lxc/") || contains(c, "/docker/") {
                ContainerEnvironment::Unknown
            } else {
                ContainerEnvironment::NoContainer
            }
        },
        None => ContainerEnvironment::NoContainer,
    }
}

/// Platform information from the gathered facts.
pub fn detect_environment(f: &EnvironmentFacts) -> (r: PlatformInfo)
    ensures
        r.os == f.os,
        r.os_version == f.os_version,
        r.kernel_version == f.kernel_version,
        r.container == container_of(*f),
        r.is_privileged == f.is_root,
{
    PlatformInfo {
        os: f.os.clone(),
        os_version: f.os_version.clone(),
        container: detect_container(f),
        is_privileged: f.is_root,
        kernel_version: match &f.kernel_version {
            Some(k) => Some(k.clone()),
            None => None,
        },
    }
}

impl PlatformInfo {
    /// Information for an operating system, before anything is detected.
    pub fn new(os: String) -> (r: PlatformInfo)
        ensures
            r.os == os,
            r.os_version@.len() == 0,
            r.container == ContainerEnvironment::NoContainer,
            !r.is_privileged,
            r.kernel_version is None,
    {
        PlatformInfo {
            os,
            os_version: String::new(),
            container: ContainerEnvironment::NoContainer,
            is_privileged: false,
            kernel_version: None,
        }
    }

    /// Running inside any container.
    pub fn is_containerized(&self) -> (r: bool)
        ensures
            r == (self.container != ContainerEnvironment::NoContainer),
    {
        match self.container {
            ContainerEnvironment::NoContainer => false,
            _ => true,
        }
    }

    /// "<os> <version><container>", with `unknown` for a missing version.
    pub fn description(&self) -> (r: String)
        ensures
            r@ == self.os@ + " "@ + (if self.os_version@.len() == 0 {
                "unknown"@
            } else {
                self.os_version@
            }) + container_suffix(self.container),
    {
        let mut s = self.os.clone();
        s.append(" ");
        if self.os_version.as_str().is_empty() {
            s.append("unknown");
        } else {
            s.append(self.os_version.as_str());
        }
        let suffix = match self.container {
            ContainerEnvironment::NoContainer => "",
            ContainerEnvironment::Docker => " (Docker)",
            ContainerEnvironment::Kubernetes => " (Kubernetes)",
            ContainerEnvironment::Podman => " (Podman)",
            ContainerEnvironment::Unknown => " (Container)",
        };
        s.append(suffix);
        s
    }
}

/// The Linux platform; its OS commands are run by the caller.
#[derive(Debug, Clone)]
pub struct LinuxPlatform {
    info: PlatformInfo,
}

impl LinuxPlatform {
    pub fn new(info: PlatformInfo) -> (r: LinuxPlatform)
        ensures
            r.info() == info,
    {
        LinuxPlatform { info }
    }

    pub closed spec fn info(&self) -> PlatformInfo {
        self.info
    }

    pub fn platform_info(&self) -> (r: &PlatformInfo)
        ensures
            *r == self.info(),
    {
        &self.info
    }
}

/// The macOS platform; its OS commands are run by the caller.
#[derive(Debug, Clone)]
pub struct MacOsPlatform {
    info: PlatformInfo,
}

impl MacOsPlatform {
    pub fn new(info: PlatformInfo) -> (r: MacOsPlatform)
        ensures
            r.info() == info,
    {
        MacOsPlatform { info }
    }

    pub closed spec fn info(&self) -> PlatformInfo {
        self.info
    }

    pub fn platform_info(&self) -> (r: &PlatformInfo)
        ensures
            *r == self.info(),
    {
        &self.info
    }
}

/// The Windows platform; its OS commands are run by the caller.
#[derive(Debug, Clone)]
pub struct WindowsPlatform {
    info: PlatformInfo,
}

impl WindowsPlatform {
    pub fn new(info: PlatformInfo) -> (r: WindowsPlatform)
        ensures
            r.info() == info,
    {
        WindowsPlatform { info }
    }

    pub closed spec fn info(&self) -> PlatformInfo {
        self.info
    }

    pub fn platform_info(&self) -> (r: &PlatformInfo)
        ensures
            *r == self.info(),
    {
        &self.info
    }
}

} // verus!
