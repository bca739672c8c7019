//! The panels of the native UI and the messages passed between the UI
//! and its background worker, as plain data.

use vstd::prelude::*;
use vstd::string::StringExecFns;

use crate::deploy::DeploymentStatus;
use crate::docker::{Container, NodeSummary};
use crate::editor::ProfileConfig;
use crate::proxmox::{BackupJob, ContainerInfo};

verus! {

/// Commands that the UI sends to the background worker.
#[derive(Debug, Clone)]
pub enum AsyncCommand {
    RefreshDocker,
    RefreshDockerNode { node: String },
    StopContainer { node: String, container: String },
    StartContainer { node: String, container: String },
    RestartContainer { node: String, container: String },
    FetchLogs { node: String, container: String },
    RefreshProxmox,
    ProxmoxStart { ctid: u32 },
    ProxmoxStop { ctid: u32 },
    ProxmoxRestart { ctid: u32 },
    RefreshBackupJobs,
    RunBackupJob { job_id: String },
    GitPull,
    GitPush,
    GitCommit { message: String, files: Vec<String> },
    DeployDryRun { profile: String },
    Deploy { profile: String },
}

/// Results the background worker reports back to the UI.
#[derive(Debug)]
pub enum AsyncResult {
    DockerContainers { node: String, containers: Vec<Container> },
    DockerNodeSummaries(Vec<NodeSummary>),
    ContainerLogs { node: String, container: String, logs: String },
    DockerOperationSuccess { node: String, container: String, operation: String },
    DockerOperationError { node: String, container: String, operation: String, error: String },
    ProxmoxContainers(Vec<ContainerInfo>),
    BackupJobs(Vec<BackupJob>),
    ProxmoxOperationSuccess { ctid: u32, operation: String },
    ProxmoxOperationError { ctid: u32, operation: String, error: String },
    BackupJobStarted { job_id: String },
    BackupJobError { job_id: String, error: String },
    GitPullSuccess,
    GitPushSuccess,
    GitCommitSuccess { branch: String },
    GitOperationError { operation: String, error: String },
    DeploymentStatus(DeploymentStatus),
}

/// Active panel in the UI.
#[derive(Debug, Clone, Copy, PartialEq, Eq, Structural)]
pub enum Panel {
    Sway,
    Docker,
    Proxmox,
    Monitoring,
    Editor,
    Infrastructure,
}

impl Panel {
    /// The label of the panel in the navigation bar.
    pub open spec fn spec_label(self) -> Seq<char> {
        match self {
            Panel::Sway => "Sway"@,
            Panel::Docker => "Docker"@,
            Panel::Proxmox => "Proxmox"@,
            Panel::Monitoring => "Monitoring"@,
            Panel::Editor => "Editor"@,
            Panel::Infrastructure => "Infrastructure"@,
        }
    }

    pub fn label(&self) -> (r: &'static str)
        ensures
            r@ == self.spec_label(),
    {
        match self {
            Panel::Sway => "Sway",
            Panel::Docker => "Docker",
            Panel::Proxmox => "Proxmox",
            Panel::Monitoring => "Monitoring",
            Panel::Editor => "Editor",
            Panel::Infrastructure => "Infrastructure",
        }
    }

    /// All panels, in navigation order.
    pub fn all() -> (r: Vec<Panel>)
        ensures
            r@ == seq![
                Panel::Sway,
                Panel::Docker,
                Panel::Proxmox,
                Panel::Monitoring,
                Panel::Editor,
                Panel::Infrastructure,
            ],
    {
        let mut r: Vec<Panel> = Vec::new();
        r.push(Panel::Sway);
        r.push(Panel::Docker);
        r.push(Panel::Proxmox);
        r.push(Panel::Monitoring);
        r.push(Panel::Editor);
        r.push(Panel::Infrastructure);
        proof {
            assert(r@ =~= seq![
                Panel::Sway,
                Panel::Docker,
                Panel::Proxmox,
                Panel::Monitoring,
                Panel::Editor,
                Panel::Infrastructure,
            ]);
        }
        r
    }
}

/// The window-manager command that toggles an application: what the
/// desktop panel sends for one app button.
pub fn launch_command(app_id: &str, cmd: &str) -> (r: String)
    ensures
        r@ == "exec ~/.config/sway/scripts/app-toggle.sh "@ + app_id@ + " "@ + cmd@,
{
    let mut r = String::from_str("exec ~/.config/sway/scripts/app-toggle.sh ");
    r.append(app_id);
    r.append(" ");
    r.append(cmd);
    r
}

/// State of the profile editor panel.
pub struct EditorPanelState {
    pub profiles: Vec<String>,
    pub selected_profile: Option<String>,
    pub profile_config: Option<ProfileConfig>,
    pub loading: bool,
    pub error: Option<String>,
    pub success: Option<String>,
    pub search_filter: String,
    pub duplicate_dialog: DuplicateDialogState,
}

/// State of the duplicate-profile dialog.
pub struct DuplicateDialogState {
    pub open: bool,
    pub new_name: String,
    pub new_hostname: String,
    pub error: Option<String>,
}

/// Result of profile duplication.
#[derive(Debug, Clone)]
pub struct DuplicationResult {
    pub profile_name: String,
    pub profile_path: String,
    pub flake_created: bool,
    pub flake_path: Option<String>,
}

/// Template profile info.
#[derive(Debug, Clone)]
pub struct TemplateProfile {
    pub name: String,
    pub profile_type: String,
    pub has_flake: bool,
}

/// Git commit request body.
#[derive(Debug, Clone)]
pub struct GitCommitRequest {
    pub message: String,
    pub files: Vec<String>,
}

/// Auto-commit request body: commit to a feature branch and push.
#[derive(Debug, Clone)]
pub struct AutoCommitRequest {
    pub message: String,
    pub files: Vec<String>,
}

/// Query selecting a monitoring dashboard.
#[derive(Debug, Clone)]
pub struct DashboardQuery {
    pub uid: Option<String>,
}

/// Form data of the profile duplication page.
#[derive(Debug, Clone)]
pub struct DuplicateForm {
    pub new_name: String,
    pub new_hostname: String,
}

/// Form data of the commit page.
#[derive(Debug, Clone)]
pub struct CommitForm {
    pub message: String,
}

} // verus!
