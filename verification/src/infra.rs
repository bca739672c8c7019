//! Infrastructure data model: profiles, node status, git status.

use vstd::prelude::*;

use crate::strutil::{lower_of, str_eq, to_lowercase};

verus! {

/// Profile node for graph visualization.
#[derive(Debug, Clone)]
pub struct ProfileNode {
    pub id: String,
    pub profile_type: ProfileType,
    pub hostname: String,
    pub ip: Option<String>,
    pub ctid: Option<u32>,
    pub status: NodeStatus,
    pub base_profile: Option<String>,
}

/// Profile type.
#[derive(Debug, Clone, Copy, PartialEq, Eq, Structural)]
pub enum ProfileType {
    Desktop,
    Laptop,
    Lxc,
    Vm,
    Darwin,
}

/// The profile type a lowercased type name denotes; an unknown name
/// counts as a container.
pub open spec fn spec_profile_type_of(t: Seq<char>) -> ProfileType {
    if t == "desktop"@ {
        ProfileType::Desktop
    } else if t == "laptop"@ {
        ProfileType::Laptop
    } else if t == "lxc"@ {
        ProfileType::Lxc
    } else if t == "vm"@ {
        ProfileType::Vm
    } else if t == "darwin"@ {
        ProfileType::Darwin
    } else {
        ProfileType::Lxc
    }
}

impl ProfileType {
    /// The node colour of the type in the graph.
    pub open spec fn spec_css_color(self) -> Seq<char> {
        match self {
            ProfileType::Desktop => "#4f46e5"@,
            ProfileType::Laptop => "#0ea5e9"@,
            ProfileType::Lxc => "#22c55e"@,
            ProfileType::Vm => "#f59e0b"@,
            ProfileType::Darwin => "#8b5cf6"@,
        }
    }

    /// The display text of the type.
    pub open spec fn spec_display(self) -> Seq<char> {
        match self {
            ProfileType::Desktop => "Desktop"@,
            ProfileType::Laptop => "Laptop"@,
            ProfileType::Lxc => "LXC"@,
            ProfileType::Vm => "VM"@,
            ProfileType::Darwin => "macOS"@,
        }
    }

    /// Parses a profile type name, case-insensitively.
    pub fn from_str(s: &str) -> (r: Self)
        ensures
            r == spec_profile_type_of(lower_of(s@)),
    {
        let low = to_lowercase(s);
        if str_eq(low.as_str(), "desktop") {
            ProfileType::Desktop
        } else if str_eq(low.as_str(), "laptop") {
            ProfileType::Laptop
        } else if str_eq(low.as_str(), "lxc") {
            ProfileType::Lxc
        } else if str_eq(low.as_str(), "vm") {
            ProfileType::Vm
        } else if str_eq(low.as_str(), "darwin") {
            ProfileType::Darwin
        } else {
            ProfileType::Lxc
        }
    }

    pub fn css_color(&self) -> (r: &'static str)
        ensures
            r@ == self.spec_css_color(),
    {
        match self {
            ProfileType::Desktop => "#4f46e5",
            ProfileType::Laptop => "#0ea5e9",
            ProfileType::Lxc => "#22c55e",
            ProfileType::Vm => "#f59e0b",
            ProfileType::Darwin => "#8b5cf6",
        }
    }

    pub fn display(&self) -> (r: &'static str)
        ensures
            r@ == self.spec_display(),
    {
        match self {
            ProfileType::Desktop => "Desktop",
            ProfileType::Laptop => "Laptop",
            ProfileType::Lxc => "LXC",
            ProfileType::Vm => "VM",
            ProfileType::Darwin => "macOS",
        }
    }
}

/// Node status.
#[derive(Debug, Clone, Copy, PartialEq, Eq, Structural)]
pub enum NodeStatus {
    Online,
    Offline,
    Deploying,
    Error,
    Unknown,
}

impl NodeStatus {
    /// The CSS badge class of the status.
    pub open spec fn spec_css_class(self) -> Seq<char> {
        match self {
            NodeStatus::Online => "bg-green-500"@,
            NodeStatus::Offline => "bg-red-500"@,
            NodeStatus::Deploying => "bg-blue-500"@,
            NodeStatus::Error => "bg-orange-500"@,
            NodeStatus::Unknown => "bg-gray-500"@,
        }
    }

    /// The display text of the status.
    pub open spec fn spec_display(self) -> Seq<char> {
        match self {
            NodeStatus::Online => "Online"@,
            NodeStatus::Offline => "Offline"@,
            NodeStatus::Deploying => "Deploying"@,
            NodeStatus::Error => "Error"@,
            NodeStatus::Unknown => "Unknown"@,
        }
    }

    pub fn css_class(&self) -> (r: &'static str)
        ensures
            r@ == self.spec_css_class(),
    {
        match self {
            NodeStatus::Online => "bg-green-500",
            NodeStatus::Offline => "bg-red-500",
            NodeStatus::Deploying => "bg-blue-500",
            NodeStatus::Error => "bg-orange-500",
            NodeStatus::Unknown => "bg-gray-500",
        }
    }

    pub fn display(&self) -> (r: &'static str)
        ensures
            r@ == self.spec_display(),
    {
        match self {
            NodeStatus::Online => "Online",
            NodeStatus::Offline => "Offline",
            NodeStatus::Deploying => "Deploying",
            NodeStatus::Error => "Error",
            NodeStatus::Unknown => "Unknown",
        }
    }
}

/// Current state of the dotfiles repository's working tree.
#[derive(Debug, Clone)]
pub struct GitStatus {
    pub branch: String,
    pub ahead: u32,
    pub behind: u32,
    pub modified_files: Vec<String>,
    pub untracked_files: Vec<String>,
    pub staged_files: Vec<String>,
}

/// Parses the two counters of `git rev-list --left-right --count`:
/// exactly two white-space separated numbers, anything else counting as
/// zero.
pub fn parse_ahead_behind(s: &str) -> (r: (u32, u32))
    ensures
        ({
            let toks = crate::strutil::spec_split_ws(s@);
            if toks.len() == 2 {
                r == (
                    match crate::strutil::spec_parse_u32(toks[0]) {
                        Some(n) => n,
                        None => 0u32,
                    },
                    match crate::strutil::spec_parse_u32(toks[1]) {
                        Some(n) => n,
                        None => 0u32,
                    },
                )
            } else {
                r == (0u32, 0u32)
            }
        }),
{
    let v = crate::strutil::chars_vec(s);
    let toks = crate::strutil::split_ws(v.as_slice());
    if toks.len() == 2 {
        let ahead = match crate::strutil::parse_u32(toks[0].as_slice()) {
            Some(n) => n,
            None => 0,
        };
        let behind = match crate::strutil::parse_u32(toks[1].as_slice()) {
            Some(n) => n,
            None => 0,
        };
        (ahead, behind)
    } else {
        (0, 0)
    }
}

/// The lines of `ls`, empty ones dropped, in order.
pub open spec fn spec_nonempty(ls: Seq<Seq<char>>) -> Seq<Seq<char>>
    decreases ls.len(),
{
    if ls.len() == 0 {
        Seq::empty()
    } else if ls.last().len() > 0 {
        spec_nonempty(ls.drop_last()).push(ls.last())
    } else {
        spec_nonempty(ls.drop_last())
    }
}

/// The nonempty lines of a listing, one file name each, as the file
/// lists of `git diff --name-only` and its siblings arrive.
pub fn nonempty_lines(s: &str) -> (r: Vec<String>)
    ensures
        ({
            let kept = spec_nonempty(crate::strutil::spec_lines(s@));
            r@.len() == kept.len() && (forall|i: int|
                0 <= i < r@.len() ==> (#[trigger] r@[i])@ == kept[i])
        }),
{
    let lines = crate::strutil::lines_vec(s);
    let ghost ls = crate::strutil::spec_lines(s@);
    let mut r: Vec<String> = Vec::new();
    let mut i: usize = 0;
    proof {
        assert(ls.take(0) =~= Seq::<Seq<char>>::empty());
    }
    while i < lines.len()
        invariant
            0 <= i <= lines@.len(),
            lines@.len() == ls.len(),
            forall|j: int| 0 <= j < ls.len() ==> (#[trigger] lines@[j])@ == ls[j],
            r@.len() == spec_nonempty(ls.take(i as int)).len(),
            forall|j: int|
                0 <= j < r@.len() ==> (#[trigger] r@[j])@ == spec_nonempty(ls.take(i as int))[j],
        decreases lines@.len() - i,
    {
        proof {
            assert(ls.take(i as int + 1).drop_last() =~= ls.take(i as int));
            assert(ls.take(i as int + 1).last() == ls[i as int]);
        }
        if !lines[i].as_str().is_empty() {
            r.push(lines[i].clone());
        }
        i = i + 1;
    }
    proof {
        assert(ls.take(ls.len() as int) =~= ls);
    }
    r
}

} // verus!
