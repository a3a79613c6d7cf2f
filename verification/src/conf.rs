//! The deployment kind of a system and its configuration (`sys-prj.yml`).

use vstd::prelude::*;
use crate::addr::DependencySet;

verus! {

/// How a system is deployed: it decides whether the download, install,
/// start, stop, status and diagnose commands go to the GXL workflows or to
/// docker compose.
#[derive(Clone, Copy, Debug, PartialEq, Eq, Structural)]
pub enum SysKind {
    /// A modular system run by GXL workflows (the default).
    Gxl,
    /// A declarative docker compose system.
    DockerCompose,
}

impl Default for SysKind {
    fn default() -> (r: SysKind)
        ensures
            r == SysKind::Gxl,
    {
        SysKind::Gxl
    }
}

impl SysKind {
    /// The default kind, GXL.
    pub fn default_kind() -> (r: SysKind)
        ensures
            r == SysKind::Gxl,
    {
        SysKind::Gxl
    }

    /// The kind is GXL (the default, left out when a definition is written).
    pub fn is_gxl(&self) -> (r: bool)
        ensures
            r == (*self == SysKind::Gxl),
    {
        match self {
            SysKind::Gxl => true,
            SysKind::DockerCompose => false,
        }
    }

    /// The name of the kind in configuration files.
    pub fn label(&self) -> (r: &'static str)
        ensures
            *self == SysKind::Gxl ==> r@ == "gxl"@,
            *self == SysKind::DockerCompose ==> r@ == "docker-compose"@,
    {
        match self {
            SysKind::Gxl => "gxl",
            SysKind::DockerCompose => "docker-compose",
        }
    }
}

/// The configuration of a system: its kind and its test environments.
pub struct SysConf {
    kind: SysKind,
    test_envs: DependencySet,
}

impl SysConf {
    /// A GXL system with the given test environments.
    pub fn new(local_res: DependencySet) -> (r: Self)
        ensures
            r.spec_kind() == SysKind::Gxl,
            r.spec_test_envs() == local_res,
    {
        SysConf { kind: SysKind::Gxl, test_envs: local_res }
    }

    pub closed spec fn spec_kind(&self) -> SysKind {
        self.kind
    }

    pub closed spec fn spec_test_envs(&self) -> DependencySet {
        self.test_envs
    }

    /// The same configuration with kind `kind`.
    pub fn with_kind(self, kind: SysKind) -> (r: Self)
        ensures
            r.spec_kind() == kind,
            r.spec_test_envs() == self.spec_test_envs(),
    {
        SysConf { kind, test_envs: self.test_envs }
    }

    /// The deployment kind.
    pub fn kind(&self) -> (r: SysKind)
        ensures
            r == self.spec_kind(),
    {
        self.kind
    }

    /// The system is deployed with docker compose.
    pub fn is_docker_compose(&self) -> (r: bool)
        ensures
            r == (self.spec_kind() == SysKind::DockerCompose),
    {
        self.kind == SysKind::DockerCompose
    }

    /// The test environments.
    pub fn test_envs(&self) -> (r: &DependencySet)
        ensures
            *r == self.spec_test_envs(),
    {
        &self.test_envs
    }
}

} // verus!
