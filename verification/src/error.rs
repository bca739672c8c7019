//! The error taxonomy of the control panel core.
//!
//! Three families matter to callers of the execution core and must stay
//! distinguishable: connection-category errors (handshake or
//! authentication failed, possibly transient), command-category errors
//! (channel or exec plumbing failed on a live session), and unknown
//! targets. A nonzero exit status of a remote command is never an error.

use vstd::prelude::*;
use vstd::string::StringExecFns;

verus! {

/// Application error type. Each variant carries its detail message.
#[derive(Debug, Clone)]
pub enum AppError {
    /// Handshake or authentication failure: possibly transient, safe to
    /// retry, safe to retry after `close_connection`.
    SshConnection(String),
    /// Channel or exec plumbing failure on an otherwise live session.
    SshCommand(String),
    Docker(String),
    /// Unknown target name: a caller error, not retryable without a
    /// configuration change.
    NodeNotFound(String),
    ContainerNotFound(String),
    Config(String),
    Internal(String),
    NotImplemented(String),
    Validation(String),
    Io(String),
}

impl AppError {
    /// The human-readable message of an error: a fixed prefix naming the
    /// family, then the detail.
    pub open spec fn spec_message(self) -> Seq<char> {
        match self {
            AppError::SshConnection(m) => "SSH connection failed: "@ + m@,
            AppError::SshCommand(m) => "SSH command failed: "@ + m@,
            AppError::Docker(m) => "Docker error: "@ + m@,
            AppError::NodeNotFound(m) => "Node not found: "@ + m@,
            AppError::ContainerNotFound(m) => "Container not found: "@ + m@,
            AppError::Config(m) => "Configuration error: "@ + m@,
            AppError::Internal(m) => "Internal error: "@ + m@,
            AppError::NotImplemented(m) => "Not implemented: "@ + m@,
            AppError::Validation(m) => "Validation error: "@ + m@,
            AppError::Io(m) => "IO error: "@ + m@,
        }
    }

    /// An error of the connection category: the caller may retry after a
    /// delay, or force a reconnect first.
    pub open spec fn spec_is_connection(self) -> bool {
        self is SshConnection
    }

    /// An error of the command category: the command itself, or the
    /// channel carrying it, is the likely problem.
    pub open spec fn spec_is_command(self) -> bool {
        self is SshCommand
    }

    /// Renders the error as text; see [`Self::spec_message`].
    pub fn message(&self) -> (r: String)
        ensures
            r@ == self.spec_message(),
    {
        match self {
            AppError::SshConnection(m) => String::from_str("SSH connection failed: ").concat(
                m.as_str(),
            ),
            AppError::SshCommand(m) => String::from_str("SSH command failed: ").concat(m.as_str()),
            AppError::Docker(m) => String::from_str("Docker error: ").concat(m.as_str()),
            AppError::NodeNotFound(m) => String::from_str("Node not found: ").concat(m.as_str()),
            AppError::ContainerNotFound(m) => String::from_str("Container not found: ").concat(
                m.as_str(),
            ),
            AppError::Config(m) => String::from_str("Configuration error: ").concat(m.as_str()),
            AppError::Internal(m) => String::from_str("Internal error: ").concat(m.as_str()),
            AppError::NotImplemented(m) => String::from_str("Not implemented: ").concat(m.as_str()),
            AppError::Validation(m) => String::from_str("Validation error: ").concat(m.as_str()),
            AppError::Io(m) => String::from_str("IO error: ").concat(m.as_str()),
        }
    }

    /// Whether the error belongs to the connection category.
    pub fn is_connection(&self) -> (r: bool)
        ensures
            r == self.spec_is_connection(),
    {
        match self {
            AppError::SshConnection(_) => true,
            _ => false,
        }
    }

    /// Whether the error belongs to the command category.
    pub fn is_command(&self) -> (r: bool)
        ensures
            r == self.spec_is_command(),
    {
        match self {
            AppError::SshCommand(_) => true,
            _ => false,
        }
    }
}

/// The connection error reported when the transport handshake to a host
/// fails, carrying the host and the transport's own words.
pub fn connect_error(host: &str, detail: &str) -> (r: AppError)
    ensures
        r matches AppError::SshConnection(m) && m@ == "Failed to connect to "@ + host@ + ": "@
            + detail@,
{
    let mut m = String::from_str("Failed to connect to ");
    m.append(host);
    m.append(": ");
    m.append(detail);
    AppError::SshConnection(m)
}

/// The connection error reported when the single key-file authentication
/// attempt fails.
pub fn key_auth_error(detail: &str) -> (r: AppError)
    ensures
        r matches AppError::SshConnection(m) && m@ == "Key authentication failed: "@ + detail@,
{
    AppError::SshConnection(String::from_str("Key authentication failed: ").concat(detail))
}

/// The connection error reported when the agent socket cannot be reached.
pub fn agent_connect_error(detail: &str) -> (r: AppError)
    ensures
        r matches AppError::SshConnection(m) && m@ == "Failed to connect to SSH agent: "@
            + detail@,
{
    AppError::SshConnection(String::from_str("Failed to connect to SSH agent: ").concat(detail))
}

/// The connection error reported when the agent cannot list identities.
pub fn agent_identities_error(detail: &str) -> (r: AppError)
    ensures
        r matches AppError::SshConnection(m) && m@ == "Failed to get identities from agent: "@
            + detail@,
{
    AppError::SshConnection(
        String::from_str("Failed to get identities from agent: ").concat(detail),
    )
}

/// The command error reported when no channel can be opened on a session:
/// the session is dead or exhausted, distinct from a failing command.
pub fn channel_open_error(detail: &str) -> (r: AppError)
    ensures
        r matches AppError::SshCommand(m) && m@ == "Failed to open channel: "@ + detail@,
{
    AppError::SshCommand(String::from_str("Failed to open channel: ").concat(detail))
}

/// The command error reported when the exec request itself fails.
pub fn exec_request_error(detail: &str) -> (r: AppError)
    ensures
        r matches AppError::SshCommand(m) && m@ == "Failed to execute command: "@ + detail@,
{
    AppError::SshCommand(String::from_str("Failed to execute command: ").concat(detail))
}

} // verus!
