//! Configuration data model of the control panel.
//!
//! Loading the configuration file is I/O and happens outside the library;
//! here stand the configuration types themselves and the lookups the pool
//! makes against them.

use vstd::prelude::*;
use vstd::string::StringExecFns;

use crate::strutil::str_eq;

verus! {

/// Main configuration structure.
#[derive(Debug, Clone)]
pub struct Config {
    pub server: ServerConfig,
    pub auth: AuthConfig,
    pub ssh: SshConfig,
    pub proxmox: ProxmoxConfig,
    pub dotfiles: DotfilesConfig,
    pub docker_nodes: Vec<DockerNode>,
    pub profiles: Vec<ProfileConfig>,
    pub grafana: Option<GrafanaConfig>,
}

#[derive(Debug, Clone)]
pub struct ServerConfig {
    pub host: String,
    pub port: u16,
}

#[derive(Debug, Clone)]
pub struct AuthConfig {
    pub username: String,
    pub password: String,
}

#[derive(Debug, Clone)]
pub struct SshConfig {
    pub private_key_path: String,
    pub default_user: String,
}

#[derive(Debug, Clone)]
pub struct ProxmoxConfig {
    pub host: String,
    pub user: String,
}

#[derive(Debug, Clone)]
pub struct DotfilesConfig {
    pub path: String,
}

/// One registered target: a named node reachable over SSH.
#[derive(Debug, Clone)]
pub struct DockerNode {
    pub name: String,
    pub host: String,
    pub ctid: u32,
    pub user: Option<String>,
}

/// One machine profile known to the panel.
#[derive(Debug, Clone)]
pub struct ProfileConfig {
    pub name: String,
    pub profile_type: String,
    pub hostname: String,
    pub ip: Option<String>,
    pub ctid: Option<u32>,
    pub base_profile: Option<String>,
}

#[derive(Debug, Clone)]
pub struct GrafanaConfig {
    pub base_url: String,
    pub dashboards: Vec<GrafanaDashboard>,
}

#[derive(Debug, Clone)]
pub struct GrafanaDashboard {
    pub name: String,
    pub uid: String,
    pub slug: String,
}

/// The index of the first node with the given name, if any.
pub open spec fn spec_node_index(nodes: Seq<DockerNode>, name: Seq<char>) -> Option<int>
    decreases nodes.len(),
{
    if nodes.len() == 0 {
        None
    } else if nodes[0].name@ == name {
        Some(0)
    } else {
        match spec_node_index(nodes.drop_first(), name) {
            Some(i) => Some(i + 1),
            None => None,
        }
    }
}

/// The first node index is in range, carries the name, and no earlier
/// node does; absence means no node carries the name.
pub proof fn lemma_node_index(nodes: Seq<DockerNode>, name: Seq<char>)
    ensures
        match spec_node_index(nodes, name) {
            Some(i) => 0 <= i < nodes.len() && nodes[i].name@ == name && (forall|j: int|
                0 <= j < i ==> nodes[j].name@ != name),
            None => forall|j: int| 0 <= j < nodes.len() ==> nodes[j].name@ != name,
        },
    decreases nodes.len(),
{
    if nodes.len() > 0 && nodes[0].name@ != name {
        let rest = nodes.drop_first();
        lemma_node_index(rest, name);
        match spec_node_index(rest, name) {
            Some(i) => {
                assert(nodes[i + 1] == rest[i]);
                assert forall|j: int| 0 <= j < i + 1 implies nodes[j].name@ != name by {
                    if j >= 1 {
                        assert(nodes[j] == rest[j - 1]);
                    }
                }
            },
            None => {
                assert forall|j: int| 0 <= j < nodes.len() implies nodes[j].name@ != name by {
                    if j >= 1 {
                        assert(nodes[j] == rest[j - 1]);
                    }
                }
            },
        }
    }
}

/// The index of the first profile with the given name, if any.
pub open spec fn spec_profile_index(profiles: Seq<ProfileConfig>, name: Seq<char>) -> Option<int>
    decreases profiles.len(),
{
    if profiles.len() == 0 {
        None
    } else if profiles[0].name@ == name {
        Some(0)
    } else {
        match spec_profile_index(profiles.drop_first(), name) {
            Some(i) => Some(i + 1),
            None => None,
        }
    }
}

pub proof fn lemma_profile_index(profiles: Seq<ProfileConfig>, name: Seq<char>)
    ensures
        match spec_profile_index(profiles, name) {
            Some(i) => 0 <= i < profiles.len() && profiles[i].name@ == name && (forall|j: int|
                0 <= j < i ==> profiles[j].name@ != name),
            None => forall|j: int| 0 <= j < profiles.len() ==> profiles[j].name@ != name,
        },
    decreases profiles.len(),
{
    if profiles.len() > 0 && profiles[0].name@ != name {
        let rest = profiles.drop_first();
        lemma_profile_index(rest, name);
        match spec_profile_index(rest, name) {
            Some(i) => {
                assert(profiles[i + 1] == rest[i]);
                assert forall|j: int| 0 <= j < i + 1 implies profiles[j].name@ != name by {
                    if j >= 1 {
                        assert(profiles[j] == rest[j - 1]);
                    }
                }
            },
            None => {
                assert forall|j: int| 0 <= j < profiles.len() implies profiles[j].name@ != name by {
                    if j >= 1 {
                        assert(profiles[j] == rest[j - 1]);
                    }
                }
            },
        }
    }
}

impl Config {
    /// The SSH user of a node: its own override, or the default.
    pub open spec fn spec_ssh_user(self, node: DockerNode) -> Seq<char> {
        match node.user {
            Some(u) => u@,
            None => self.ssh.default_user@,
        }
    }

    /// The host a profile name resolves to: the docker node of that name
    /// first, else the profile's own address, if it has one.
    pub open spec fn spec_profile_host(self, name: Seq<char>) -> Option<Seq<char>> {
        match spec_node_index(self.docker_nodes@, name) {
            Some(i) => Some(self.docker_nodes@[i].host@),
            None => match spec_profile_index(self.profiles@, name) {
                Some(i) => match self.profiles@[i].ip {
                    Some(ip) => Some(ip@),
                    None => None,
                },
                None => None,
            },
        }
    }

    /// Gets a docker node by name: the first node carrying it.
    pub fn get_docker_node(&self, name: &str) -> (r: Option<&DockerNode>)
        ensures
            match spec_node_index(self.docker_nodes@, name@) {
                Some(i) => r matches Some(node) && *node == self.docker_nodes@[i],
                None => r is None,
            },
    {
        proof {
            lemma_node_index(self.docker_nodes@, name@);
        }
        let mut i: usize = 0;
        while i < self.docker_nodes.len()
            invariant
                0 <= i <= self.docker_nodes@.len(),
                forall|j: int| 0 <= j < i ==> self.docker_nodes@[j].name@ != name@,
                match spec_node_index(self.docker_nodes@, name@) {
                    Some(k) => 0 <= k < self.docker_nodes@.len()
                        && self.docker_nodes@[k].name@ == name@ && (forall|j: int|
                        0 <= j < k ==> self.docker_nodes@[j].name@ != name@),
                    None => forall|j: int|
                        0 <= j < self.docker_nodes@.len() ==> self.docker_nodes@[j].name@ != name@,
                },
            decreases self.docker_nodes@.len() - i,
        {
            if str_eq(self.docker_nodes[i].name.as_str(), name) {
                proof {
                    assert(spec_node_index(self.docker_nodes@, name@) == Some(i as int));
                }
                return Some(&self.docker_nodes[i]);
            }
            i = i + 1;
        }
        None
    }

    /// Gets a profile by name: the first profile carrying it.
    pub fn get_profile(&self, name: &str) -> (r: Option<&ProfileConfig>)
        ensures
            match spec_profile_index(self.profiles@, name@) {
                Some(i) => r matches Some(p) && *p == self.profiles@[i],
                None => r is None,
            },
    {
        proof {
            lemma_profile_index(self.profiles@, name@);
        }
        let mut i: usize = 0;
        while i < self.profiles.len()
            invariant
                0 <= i <= self.profiles@.len(),
                forall|j: int| 0 <= j < i ==> self.profiles@[j].name@ != name@,
                match spec_profile_index(self.profiles@, name@) {
                    Some(k) => 0 <= k < self.profiles@.len() && self.profiles@[k].name@ == name@
                        && (forall|j: int| 0 <= j < k ==> self.profiles@[j].name@ != name@),
                    None => forall|j: int|
                        0 <= j < self.profiles@.len() ==> self.profiles@[j].name@ != name@,
                },
            decreases self.profiles@.len() - i,
        {
            if str_eq(self.profiles[i].name.as_str(), name) {
                proof {
                    assert(spec_profile_index(self.profiles@, name@) == Some(i as int));
                }
                return Some(&self.profiles[i]);
            }
            i = i + 1;
        }
        None
    }

    /// The SSH user for a docker node: its override, or the default user.
    pub fn get_ssh_user<'a>(&'a self, node: &'a DockerNode) -> (r: &'a str)
        ensures
            r@ == self.spec_ssh_user(*node),
    {
        match &node.user {
            Some(u) => u.as_str(),
            None => self.ssh.default_user.as_str(),
        }
    }

    /// The host address a profile name resolves to, for SSH connections.
    pub fn get_profile_host(&self, profile_name: &str) -> (r: Option<String>)
        ensures
            match self.spec_profile_host(profile_name@) {
                Some(h) => r matches Some(s) && s@ == h,
                None => r is None,
            },
    {
        if let Some(node) = self.get_docker_node(profile_name) {
            return Some(node.host.clone());
        }
        if let Some(profile) = self.get_profile(profile_name) {
            return match &profile.ip {
                Some(ip) => Some(ip.clone()),
                None => None,
            };
        }
        None
    }
}

impl Default for ServerConfig {
    /// The default server binding.
    fn default() -> (r: Self)
        ensures
            r.host@ == "0.0.0.0"@,
            r.port == 3100,
    {
        ServerConfig { host: String::from_str("0.0.0.0"), port: 3100 }
    }
}

impl Default for AuthConfig {
    /// The default credentials, meant to be overridden.
    fn default() -> (r: Self)
        ensures
            r.username@ == "admin"@,
            r.password@ == "admin"@,
    {
        AuthConfig { username: String::from_str("admin"), password: String::from_str("admin") }
    }
}

impl Default for SshConfig {
    /// No key path yet, and the fleet's usual remote user.
    fn default() -> (r: Self)
        ensures
            r.private_key_path@.len() == 0,
            r.default_user@ == "akunito"@,
    {
        SshConfig { private_key_path: String::new(), default_user: String::from_str("akunito") }
    }
}

impl Default for ProxmoxConfig {
    /// The hypervisor's usual address and root login.
    fn default() -> (r: Self)
        ensures
            r.host@ == "192.168.8.82"@,
            r.user@ == "root"@,
    {
        ProxmoxConfig {
            host: String::from_str("192.168.8.82"),
            user: String::from_str("root"),
        }
    }
}

impl Default for GrafanaConfig {
    /// The fleet's Grafana base URL, with no dashboards configured.
    fn default() -> (r: Self)
        ensures
            r.base_url@ == "https://grafana.local.akunito.com"@,
            r.dashboards@.len() == 0,
    {
        GrafanaConfig {
            base_url: String::from_str("https://grafana.local.akunito.com"),
            dashboards: Vec::new(),
        }
    }
}

} // verus!
