//! Profile graph data generation for the infrastructure visualization.

use vstd::prelude::*;
use vstd::string::StringExecFns;

use crate::config::{Config, ProfileConfig};
use crate::infra::{spec_profile_type_of, NodeStatus, ProfileNode, ProfileType};
use crate::strutil::{clone_opt_string, lower_of, str_eq};

verus! {

/// Graph data for the visualization.
#[derive(Debug)]
pub struct GraphData {
    pub nodes: Vec<GraphNode>,
    pub links: Vec<GraphLink>,
}

/// Node in the graph.
#[derive(Debug)]
pub struct GraphNode {
    pub id: String,
    pub label: String,
    pub group: String,
    pub color: String,
    pub hostname: String,
    pub ip: Option<String>,
    pub ctid: Option<u32>,
    pub status: String,
}

/// Link in the graph.
#[derive(Debug)]
pub struct GraphLink {
    pub source: String,
    pub target: String,
    pub value: u32,
}

/// The mathematical value of a graph node: its fields as sequences.
pub ghost struct GNodeView {
    pub id: Seq<char>,
    pub label: Seq<char>,
    pub group: Seq<char>,
    pub color: Seq<char>,
    pub hostname: Seq<char>,
    pub ip: Option<Seq<char>>,
    pub ctid: Option<u32>,
    pub status: Seq<char>,
}

/// The mathematical value of a graph link.
pub ghost struct GLinkView {
    pub source: Seq<char>,
    pub target: Seq<char>,
    pub value: u32,
}

impl GraphNode {
    pub open spec fn view_of(self) -> GNodeView {
        GNodeView {
            id: self.id@,
            label: self.label@,
            group: self.group@,
            color: self.color@,
            hostname: self.hostname@,
            ip: match self.ip {
                Some(s) => Some(s@),
                None => None,
            },
            ctid: self.ctid,
            status: self.status@,
        }
    }
}

impl GraphLink {
    pub open spec fn view_of(self) -> GLinkView {
        GLinkView { source: self.source@, target: self.target@, value: self.value }
    }
}

/// The views of a node list.
pub open spec fn node_views(v: Seq<GraphNode>) -> Seq<GNodeView> {
    v.map_values(|n: GraphNode| n.view_of())
}

/// The views of a link list.
pub open spec fn link_views(v: Seq<GraphLink>) -> Seq<GLinkView> {
    v.map_values(|l: GraphLink| l.view_of())
}

/// One fixed node of the graph's scaffolding.
pub open spec fn spec_fixed_node(
    id: Seq<char>,
    label: Seq<char>,
    group: Seq<char>,
    color: Seq<char>,
    status: Seq<char>,
) -> GNodeView {
    GNodeView {
        id: id,
        label: label,
        group: group,
        color: color,
        hostname: Seq::empty(),
        ip: None,
        ctid: None,
        status: status,
    }
}

/// The scaffolding nodes: the root, one node per category, and the three
/// base profiles.
pub open spec fn spec_prelude_nodes() -> Seq<GNodeView> {
    seq![
        spec_fixed_node("_root"@, "Infrastructure"@, "root"@, "#3b82f6"@, "root"@),
        spec_fixed_node(
            "_cat_desktop"@,
            "Desktops"@,
            "category-desktop"@,
            "#4f46e5"@,
            "category"@,
        ),
        spec_fixed_node("_cat_laptop"@, "Laptops"@, "category-laptop"@, "#0ea5e9"@, "category"@),
        spec_fixed_node(
            "_cat_lxc"@,
            "LXC Containers"@,
            "category-lxc"@,
            "#22c55e"@,
            "category"@,
        ),
        spec_fixed_node(
            "_cat_vm"@,
            "Virtual Machines"@,
            "category-vm"@,
            "#f59e0b"@,
            "category"@,
        ),
        spec_fixed_node("_cat_darwin"@, "macOS"@, "category-darwin"@, "#8b5cf6"@, "category"@),
        spec_fixed_node("LXC-base-config"@, "LXC Base"@, "base"@, "#6b7280"@, "base"@),
        spec_fixed_node("LAPTOP-base"@, "Laptop Base"@, "base"@, "#6b7280"@, "base"@),
        spec_fixed_node("MACBOOK-base"@, "MacBook Base"@, "base"@, "#6b7280"@, "base"@),
    ]
}

/// The scaffolding links: the categories hang off the root, the base
/// profiles off their categories.
pub open spec fn spec_prelude_links() -> Seq<GLinkView> {
    seq![
        GLinkView { source: "_root"@, target: "_cat_desktop"@, value: 2u32 },
        GLinkView { source: "_root"@, target: "_cat_laptop"@, value: 2u32 },
        GLinkView { source: "_root"@, target: "_cat_lxc"@, value: 2u32 },
        GLinkView { source: "_root"@, target: "_cat_vm"@, value: 2u32 },
        GLinkView { source: "_root"@, target: "_cat_darwin"@, value: 2u32 },
        GLinkView { source: "_cat_lxc"@, target: "LXC-base-config"@, value: 1u32 },
        GLinkView { source: "_cat_laptop"@, target: "LAPTOP-base"@, value: 1u32 },
        GLinkView { source: "_cat_darwin"@, target: "MACBOOK-base"@, value: 1u32 },
    ]
}

/// The category node a profile type name hangs off.
pub open spec fn spec_category_id(t: Seq<char>) -> Seq<char> {
    if t == "desktop"@ {
        "_cat_desktop"@
    } else if t == "laptop"@ {
        "_cat_laptop"@
    } else if t == "lxc"@ {
        "_cat_lxc"@
    } else if t == "vm"@ {
        "_cat_vm"@
    } else if t == "darwin"@ {
        "_cat_darwin"@
    } else {
        "_root"@
    }
}

/// The graph node of one profile: coloured by its type, status not yet
/// known.
pub open spec fn spec_profile_node(p: ProfileConfig) -> GNodeView {
    GNodeView {
        id: p.name@,
        label: p.name@,
        group: p.profile_type@,
        color: spec_profile_type_of(lower_of(p.profile_type@)).spec_css_color(),
        hostname: p.hostname@,
        ip: match p.ip {
            Some(s) => Some(s@),
            None => None,
        },
        ctid: p.ctid,
        status: "unknown"@,
    }
}

/// The link of one profile: to its base profile when it has one, else to
/// its category.
pub open spec fn spec_profile_link(p: ProfileConfig) -> GLinkView {
    match p.base_profile {
        Some(b) => GLinkView { source: b@, target: p.name@, value: 1u32 },
        None => GLinkView { source: spec_category_id(p.profile_type@), target: p.name@, value: 1u32 },
    }
}

/// All nodes of the graph of a configuration.
pub open spec fn spec_graph_nodes(c: Config) -> Seq<GNodeView> {
    spec_prelude_nodes() + c.profiles@.map_values(|p: ProfileConfig| spec_profile_node(p))
}

/// All links of the graph of a configuration.
pub open spec fn spec_graph_links(c: Config) -> Seq<GLinkView> {
    spec_prelude_links() + c.profiles@.map_values(|p: ProfileConfig| spec_profile_link(p))
}

fn fixed_node(id: &str, label: &str, group: &str, color: &str, status: &str) -> (r: GraphNode)
    ensures
        r.view_of() == spec_fixed_node(id@, label@, group@, color@, status@),
{
    let r = GraphNode {
        id: String::from_str(id),
        label: String::from_str(label),
        group: String::from_str(group),
        color: String::from_str(color),
        hostname: String::new(),
        ip: None,
        ctid: None,
        status: String::from_str(status),
    };
    proof {
        assert(r.view_of() =~= spec_fixed_node(id@, label@, group@, color@, status@));
    }
    r
}

fn fixed_link(source: &str, target: &str, value: u32) -> (r: GraphLink)
    ensures
        r.view_of() == (GLinkView { source: source@, target: target@, value: value }),
{
    GraphLink { source: String::from_str(source), target: String::from_str(target), value }
}

/// The category node id of a profile type name.
fn category_id(t: &str) -> (r: String)
    ensures
        r@ == spec_category_id(t@),
{
    if str_eq(t, "desktop") {
        String::from_str("_cat_desktop")
    } else if str_eq(t, "laptop") {
        String::from_str("_cat_laptop")
    } else if str_eq(t, "lxc") {
        String::from_str("_cat_lxc")
    } else if str_eq(t, "vm") {
        String::from_str("_cat_vm")
    } else if str_eq(t, "darwin") {
        String::from_str("_cat_darwin")
    } else {
        String::from_str("_root")
    }
}

/// Generates the graph of a configuration: the fixed scaffolding — root,
/// categories, base profiles — then one node and one link per profile.
#[verifier::rlimit(100)]
pub fn generate_graph_data(config: &Config) -> (r: GraphData)
    ensures
        node_views(r.nodes@) == spec_graph_nodes(*config),
        link_views(r.links@) == spec_graph_links(*config),
{
    let mut nodes: Vec<GraphNode> = Vec::new();
    let mut links: Vec<GraphLink> = Vec::new();
    nodes.push(fixed_node("_root", "Infrastructure", "root", "#3b82f6", "root"));
    nodes.push(fixed_node("_cat_desktop", "Desktops", "category-desktop", "#4f46e5", "category"));
    nodes.push(fixed_node("_cat_laptop", "Laptops", "category-laptop", "#0ea5e9", "category"));
    nodes.push(fixed_node("_cat_lxc", "LXC Containers", "category-lxc", "#22c55e", "category"));
    nodes.push(fixed_node("_cat_vm", "Virtual Machines", "category-vm", "#f59e0b", "category"));
    nodes.push(fixed_node("_cat_darwin", "macOS", "category-darwin", "#8b5cf6", "category"));
    nodes.push(fixed_node("LXC-base-config", "LXC Base", "base", "#6b7280", "base"));
    nodes.push(fixed_node("LAPTOP-base", "Laptop Base", "base", "#6b7280", "base"));
    nodes.push(fixed_node("MACBOOK-base", "MacBook Base", "base", "#6b7280", "base"));
    links.push(fixed_link("_root", "_cat_desktop", 2));
    links.push(fixed_link("_root", "_cat_laptop", 2));
    links.push(fixed_link("_root", "_cat_lxc", 2));
    links.push(fixed_link("_root", "_cat_vm", 2));
    links.push(fixed_link("_root", "_cat_darwin", 2));
    links.push(fixed_link("_cat_lxc", "LXC-base-config", 1));
    links.push(fixed_link("_cat_laptop", "LAPTOP-base", 1));
    links.push(fixed_link("_cat_darwin", "MACBOOK-base", 1));
    proof {
        assert forall|j: int| 0 <= j < 9 implies (#[trigger] nodes@[j]).view_of()
            == spec_prelude_nodes()[j] by {
        }
        assert forall|j: int| 0 <= j < 8 implies (#[trigger] links@[j]).view_of()
            == spec_prelude_links()[j] by {
        }
    }
    let mut i: usize = 0;
    while i < config.profiles.len()
        invariant
            0 <= i <= config.profiles@.len(),
            nodes@.len() == 9 + i,
            links@.len() == 8 + i,
            forall|j: int|
                0 <= j < 9 ==> (#[trigger] nodes@[j]).view_of() == spec_prelude_nodes()[j],
            forall|j: int|
                0 <= j < 8 ==> (#[trigger] links@[j]).view_of() == spec_prelude_links()[j],
            forall|j: int|
                9 <= j < nodes@.len() ==> (#[trigger] nodes@[j]).view_of() == spec_profile_node(
                    config.profiles@[j - 9],
                ),
            forall|j: int|
                8 <= j < links@.len() ==> (#[trigger] links@[j]).view_of() == spec_profile_link(
                    config.profiles@[j - 8],
                ),
        decreases config.profiles@.len() - i,
    {
        let p = &config.profiles[i];
        let ptype = ProfileType::from_str(p.profile_type.as_str());
        nodes.push(
            GraphNode {
                id: p.name.clone(),
                label: p.name.clone(),
                group: p.profile_type.clone(),
                color: String::from_str(ptype.css_color()),
                hostname: p.hostname.clone(),
                ip: clone_opt_string(&p.ip),
                ctid: p.ctid,
                status: String::from_str("unknown"),
            },
        );
        match &p.base_profile {
            Some(b) => {
                links.push(GraphLink { source: b.clone(), target: p.name.clone(), value: 1 });
            },
            None => {
                links.push(
                    GraphLink {
                        source: category_id(p.profile_type.as_str()),
                        target: p.name.clone(),
                        value: 1,
                    },
                );
            },
        }
        proof {
            assert(nodes@.last().view_of() =~= spec_profile_node(config.profiles@[i as int]));
            assert(links@.last().view_of() =~= spec_profile_link(config.profiles@[i as int]));
        }
        i = i + 1;
    }
    proof {
        assert(node_views(nodes@) =~= spec_graph_nodes(*config));
        assert(link_views(links@) =~= spec_graph_links(*config));
    }
    GraphData { nodes, links }
}

/// Simple profile info for list views.
#[derive(Debug, Clone)]
pub struct ProfileInfo {
    pub name: String,
    pub profile_type: ProfileType,
    pub hostname: String,
    pub ip: Option<String>,
    pub ctid: Option<u32>,
    pub base_profile: Option<String>,
}

/// The list form of the configured profiles, for plain list views.
pub fn get_profile_list(config: &Config) -> (r: Vec<ProfileInfo>)
    ensures
        r@.len() == config.profiles@.len(),
        forall|i: int|
            0 <= i < r@.len() ==> {
                let p = config.profiles@[i];
                &&& (#[trigger] r@[i]).name@ == p.name@
                &&& r@[i].profile_type == spec_profile_type_of(lower_of(p.profile_type@))
                &&& r@[i].hostname@ == p.hostname@
                &&& r@[i].ip == p.ip
                &&& r@[i].ctid == p.ctid
                &&& r@[i].base_profile == p.base_profile
            },
{
    let mut r: Vec<ProfileInfo> = Vec::new();
    let mut i: usize = 0;
    while i < config.profiles.len()
        invariant
            0 <= i <= config.profiles@.len(),
            r@.len() == i,
            forall|j: int|
                0 <= j < i ==> {
                    let p = config.profiles@[j];
                    &&& (#[trigger] r@[j]).name@ == p.name@
                    &&& r@[j].profile_type == spec_profile_type_of(lower_of(p.profile_type@))
                    &&& r@[j].hostname@ == p.hostname@
                    &&& r@[j].ip == p.ip
                    &&& r@[j].ctid == p.ctid
                    &&& r@[j].base_profile == p.base_profile
                },
        decreases config.profiles@.len() - i,
    {
        let p = &config.profiles[i];
        r.push(
            ProfileInfo {
                name: p.name.clone(),
                profile_type: ProfileType::from_str(p.profile_type.as_str()),
                hostname: p.hostname.clone(),
                ip: clone_opt_string(&p.ip),
                ctid: p.ctid,
                base_profile: clone_opt_string(&p.base_profile),
            },
        );
        i = i + 1;
    }
    r
}

/// The configured profiles as graph-ready nodes, status not yet known.
pub fn get_profile_nodes(config: &Config) -> (r: Vec<ProfileNode>)
    ensures
        r@.len() == config.profiles@.len(),
        forall|i: int|
            0 <= i < r@.len() ==> {
                let p = config.profiles@[i];
                &&& (#[trigger] r@[i]).id@ == p.name@
                &&& r@[i].profile_type == spec_profile_type_of(lower_of(p.profile_type@))
                &&& r@[i].hostname@ == p.hostname@
                &&& r@[i].ip == p.ip
                &&& r@[i].ctid == p.ctid
                &&& r@[i].status is Unknown
                &&& r@[i].base_profile == p.base_profile
            },
{
    let mut r: Vec<ProfileNode> = Vec::new();
    let mut i: usize = 0;
    while i < config.profiles.len()
        invariant
            0 <= i <= config.profiles@.len(),
            r@.len() == i,
            forall|j: int|
                0 <= j < i ==> {
                    let p = config.profiles@[j];
                    &&& (#[trigger] r@[j]).id@ == p.name@
                    &&& r@[j].profile_type == spec_profile_type_of(lower_of(p.profile_type@))
                    &&& r@[j].hostname@ == p.hostname@
                    &&& r@[j].ip == p.ip
                    &&& r@[j].ctid == p.ctid
                    &&& r@[j].status is Unknown
                    &&& r@[j].base_profile == p.base_profile
                },
        decreases config.profiles@.len() - i,
    {
        let p = &config.profiles[i];
        r.push(
            ProfileNode {
                id: p.name.clone(),
                profile_type: ProfileType::from_str(p.profile_type.as_str()),
                hostname: p.hostname.clone(),
                ip: clone_opt_string(&p.ip),
                ctid: p.ctid,
                status: NodeStatus::Unknown,
                base_profile: clone_opt_string(&p.base_profile),
            },
        );
        i = i + 1;
    }
    r
}

} // verus!
