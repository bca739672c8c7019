//! Deployment management: states, command lines, and the decisions of the
//! deployment workflows. The caller runs each command over SSH and hands
//! the outcome back; every judgment about it is made here.

use vstd::prelude::*;
use vstd::string::StringExecFns;

use crate::error::AppError;
use crate::output::CommandOutput;

verus! {

/// Deployment state.
#[derive(Debug, Clone, Copy, PartialEq, Eq, Structural)]
pub enum DeployState {
    Pending,
    DryRun,
    Building,
    Switching,
    Success,
    Failed,
}

impl DeployState {
    pub fn is_success(&self) -> (r: bool)
        ensures
            r == (*self is Success),
    {
        matches!(self, DeployState::Success)
    }

    pub fn is_failed(&self) -> (r: bool)
        ensures
            r == (*self is Failed),
    {
        matches!(self, DeployState::Failed)
    }
}

/// Deployment status. The timestamps are milliseconds of the Unix epoch,
/// taken by the caller's clock.
#[derive(Debug, Clone)]
pub struct DeploymentStatus {
    pub profile: String,
    pub status: DeployState,
    pub message: String,
    pub started_at: Option<i64>,
    pub finished_at: Option<i64>,
}

/// Result of a single deployment step.
#[derive(Debug, Clone)]
pub struct DeployStepResult {
    pub step: String,
    pub success: bool,
    pub output: String,
}

/// The dry-run build command of a profile.
pub fn dry_run_command(dotfiles_path: &str, profile: &str) -> (r: String)
    ensures
        r@ == "cd "@ + dotfiles_path@
            + " && nix build .#nixosConfigurations."@ + profile@
            + ".config.system.build.toplevel --dry-run 2>&1"@,
{
    let mut r = String::from_str("cd ");
    r.append(dotfiles_path);
    r.append(" && nix build .#nixosConfigurations.");
    r.append(profile);
    r.append(".config.system.build.toplevel --dry-run 2>&1");
    r
}

/// The pull command of a deployment: update the dotfiles first.
pub fn pull_command(dotfiles_path: &str) -> (r: String)
    ensures
        r@ == "cd "@ + dotfiles_path@ + " && git pull"@,
{
    String::from_str("cd ").concat(dotfiles_path).concat(" && git pull")
}

/// The build-and-switch command of a deployment.
pub fn switch_command(dotfiles_path: &str) -> (r: String)
    ensures
        r@ == "cd "@ + dotfiles_path@ + " && sudo nixos-rebuild switch --flake .#system 2>&1"@,
{
    String::from_str("cd ").concat(dotfiles_path).concat(
        " && sudo nixos-rebuild switch --flake .#system 2>&1",
    )
}

/// Judges a finished dry run: success when the build command succeeded,
/// else failure carrying the combined output.
pub fn dry_run_status(profile: &str, output: &CommandOutput, started_at: i64, finished_at: i64)
    -> (r: DeploymentStatus)
    ensures
        r.profile@ == profile@,
        r.started_at == Some(started_at),
        r.finished_at == Some(finished_at),
        output.exit_code == 0 ==> r.status is Success && r.message@
            == "Dry-run successful. Build is valid."@,
        output.exit_code != 0 ==> r.status is Failed && r.message@ == "Dry-run failed: "@
            + output.spec_combined(),
{
    if output.success() {
        DeploymentStatus {
            profile: profile.to_owned(),
            status: DeployState::Success,
            message: String::from_str("Dry-run successful. Build is valid."),
            started_at: Some(started_at),
            finished_at: Some(finished_at),
        }
    } else {
        DeploymentStatus {
            profile: profile.to_owned(),
            status: DeployState::Failed,
            message: String::from_str("Dry-run failed: ").concat(output.combined().as_str()),
            started_at: Some(started_at),
            finished_at: Some(finished_at),
        }
    }
}

/// Judges the pull step of a deployment: a failed pull aborts with its
/// combined output; a successful one lets the switch step follow.
pub fn pull_status(profile: &str, output: &CommandOutput, started_at: i64, finished_at: i64)
    -> (r: Option<DeploymentStatus>)
    ensures
        output.exit_code == 0 <==> r is None,
        r matches Some(s) ==> s.profile@ == profile@ && s.status is Failed && s.message@
            == "Git pull failed: "@ + output.spec_combined() && s.started_at == Some(started_at)
            && s.finished_at == Some(finished_at),
{
    if output.success() {
        None
    } else {
        Some(
            DeploymentStatus {
                profile: profile.to_owned(),
                status: DeployState::Failed,
                message: String::from_str("Git pull failed: ").concat(output.combined().as_str()),
                started_at: Some(started_at),
                finished_at: Some(finished_at),
            },
        )
    }
}

/// Judges a finished build-and-switch: success, or failure carrying the
/// combined output.
pub fn switch_status(profile: &str, output: &CommandOutput, started_at: i64, finished_at: i64)
    -> (r: DeploymentStatus)
    ensures
        r.profile@ == profile@,
        r.started_at == Some(started_at),
        r.finished_at == Some(finished_at),
        output.exit_code == 0 ==> r.status is Success && r.message@ == "Deployment successful"@,
        output.exit_code != 0 ==> r.status is Failed && r.message@ == "Deployment failed: "@
            + output.spec_combined(),
{
    if output.success() {
        DeploymentStatus {
            profile: profile.to_owned(),
            status: DeployState::Success,
            message: String::from_str("Deployment successful"),
            started_at: Some(started_at),
            finished_at: Some(finished_at),
        }
    } else {
        DeploymentStatus {
            profile: profile.to_owned(),
            status: DeployState::Failed,
            message: String::from_str("Deployment failed: ").concat(output.combined().as_str()),
            started_at: Some(started_at),
            finished_at: Some(finished_at),
        }
    }
}

/// The four steps of the container deployment workflow, in order: a
/// connectivity check, a fetch, a hard reset, and the install script.
#[derive(Debug, Clone, Copy, PartialEq, Eq, Structural)]
pub enum DeployLxcStep {
    SshCheck,
    GitFetch,
    GitReset,
    Install,
}

impl DeployLxcStep {
    /// The name the step reports itself under.
    pub open spec fn spec_name(self) -> Seq<char> {
        match self {
            DeployLxcStep::SshCheck => "ssh_check"@,
            DeployLxcStep::GitFetch => "git_fetch"@,
            DeployLxcStep::GitReset => "git_reset"@,
            DeployLxcStep::Install => "install"@,
        }
    }

    /// The step after this one, if any.
    pub fn next(&self) -> (r: Option<DeployLxcStep>)
        ensures
            match *self {
                DeployLxcStep::SshCheck => r == Some(DeployLxcStep::GitFetch),
                DeployLxcStep::GitFetch => r == Some(DeployLxcStep::GitReset),
                DeployLxcStep::GitReset => r == Some(DeployLxcStep::Install),
                DeployLxcStep::Install => r is None,
            },
    {
        match self {
            DeployLxcStep::SshCheck => Some(DeployLxcStep::GitFetch),
            DeployLxcStep::GitFetch => Some(DeployLxcStep::GitReset),
            DeployLxcStep::GitReset => Some(DeployLxcStep::Install),
            DeployLxcStep::Install => None,
        }
    }

    /// The remote command the step runs.
    pub fn command(&self, dotfiles_path: &str, profile: &str) -> (r: String)
        ensures
            match *self {
                DeployLxcStep::SshCheck => r@ == "echo ok"@,
                DeployLxcStep::GitFetch => r@ == "cd "@ + dotfiles_path@
                    + " && git fetch origin 2>&1"@,
                DeployLxcStep::GitReset => r@ == "cd "@ + dotfiles_path@
                    + " && git reset --hard origin/main 2>&1"@,
                DeployLxcStep::Install => r@ == "cd "@ + dotfiles_path@ + " && ./install.sh "@
                    + dotfiles_path@ + " "@ + profile@ + " -s -u -q 2>&1"@,
            },
    {
        match self {
            DeployLxcStep::SshCheck => String::from_str("echo ok"),
            DeployLxcStep::GitFetch => String::from_str("cd ").concat(dotfiles_path).concat(
                " && git fetch origin 2>&1",
            ),
            DeployLxcStep::GitReset => String::from_str("cd ").concat(dotfiles_path).concat(
                " && git reset --hard origin/main 2>&1",
            ),
            DeployLxcStep::Install => {
                let mut r = String::from_str("cd ");
                r.append(dotfiles_path);
                r.append(" && ./install.sh ");
                r.append(dotfiles_path);
                r.append(" ");
                r.append(profile);
                r.append(" -s -u -q 2>&1");
                r
            },
        }
    }

    /// The text a failing step reports before the combined output or the
    /// error message.
    pub open spec fn spec_failure_prefix(self, was_error: bool) -> Seq<char> {
        match self {
            DeployLxcStep::SshCheck => if was_error {
                "SSH connection failed: "@
            } else {
                "SSH check failed: "@
            },
            DeployLxcStep::GitFetch => if was_error {
                "Git fetch error: "@
            } else {
                "Git fetch failed: "@
            },
            DeployLxcStep::GitReset => if was_error {
                "Git reset error: "@
            } else {
                "Git reset failed: "@
            },
            DeployLxcStep::Install => if was_error {
                "install.sh error: "@
            } else {
                "install.sh failed: "@
            },
        }
    }

    fn failure_prefix(&self, was_error: bool) -> (r: &'static str)
        ensures
            r@ == self.spec_failure_prefix(was_error),
    {
        match self {
            DeployLxcStep::SshCheck => if was_error {
                "SSH connection failed: "
            } else {
                "SSH check failed: "
            },
            DeployLxcStep::GitFetch => if was_error {
                "Git fetch error: "
            } else {
                "Git fetch failed: "
            },
            DeployLxcStep::GitReset => if was_error {
                "Git reset error: "
            } else {
                "Git reset failed: "
            },
            DeployLxcStep::Install => if was_error {
                "install.sh error: "
            } else {
                "install.sh failed: "
            },
        }
    }

    /// Judges one finished step: its report, and whether the workflow
    /// goes on. A nonzero exit or a transport error stops the workflow; a
    /// successful connectivity check reports a fixed text, the other
    /// steps report their combined output.
    pub fn judge(&self, outcome: &Result<CommandOutput, AppError>) -> (r: (DeployStepResult, bool))
        ensures
            r.0.step@ == self.spec_name(),
            match outcome {
                Ok(out) => {
                    if out.exit_code == 0 {
                        &&& r.0.success
                        &&& r.1
                        &&& r.0.output@ == if *self is SshCheck {
                            "SSH connection OK"@
                        } else {
                            out.spec_combined()
                        }
                    } else {
                        &&& !r.0.success
                        &&& !r.1
                        &&& r.0.output@ == self.spec_failure_prefix(false) + out.spec_combined()
                    }
                },
                Err(e) => {
                    &&& !r.0.success
                    &&& !r.1
                    &&& r.0.output@ == self.spec_failure_prefix(true) + e.spec_message()
                },
            },
    {
        let name = match self {
            DeployLxcStep::SshCheck => String::from_str("ssh_check"),
            DeployLxcStep::GitFetch => String::from_str("git_fetch"),
            DeployLxcStep::GitReset => String::from_str("git_reset"),
            DeployLxcStep::Install => String::from_str("install"),
        };
        match outcome {
            Ok(out) => {
                if out.success() {
                    let output = if matches!(self, DeployLxcStep::SshCheck) {
                        String::from_str("SSH connection OK")
                    } else {
                        out.combined()
                    };
                    (DeployStepResult { step: name, success: true, output }, true)
                } else {
                    let output = String::from_str(self.failure_prefix(false)).concat(
                        out.combined().as_str(),
                    );
                    (DeployStepResult { step: name, success: false, output }, false)
                }
            },
            Err(e) => {
                let output = String::from_str(self.failure_prefix(true)).concat(
                    e.message().as_str(),
                );
                (DeployStepResult { step: name, success: false, output }, false)
            },
        }
    }
}

} // verus!
