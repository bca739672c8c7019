//! The credential resolver: how the pool authenticates.
//!
//! Two strategies exist, as a closed sum: a private key decoded from a
//! key file, or delegation to a running SSH agent. Key decoding is done
//! here, through russh; reading the key file and talking to the agent are
//! I/O and stay with the caller, which hands in the file text and whether
//! an agent socket is present.

use vstd::prelude::*;
use vstd::string::StringExecFns;

use crate::error::AppError;

verus! {

/// The private-key type of russh, carried opaquely through the library.
#[verifier::external_type_specification]
#[verifier::external_body]
pub struct ExPrivateKey(russh::keys::PrivateKey);

/// Whether russh's `decode_secret_key`, given no passphrase, accepts the
/// text as a private key; the outcome depends on the text alone.
pub uninterp spec fn key_decodes(s: Seq<char>) -> bool;

/// Relies on russh's `decode_secret_key` with no passphrase: parses the
/// text of a private-key file; malformed or passphrase-protected text is
/// an error.
#[verifier::external_body]
pub(crate) fn decode_key(text: &str) -> (r: Option<russh::keys::PrivateKey>)
    ensures
        r is Some <==> key_decodes(text@),
{
    russh::keys::decode_secret_key(text, None).ok()
}

/// The resolved means of authentication.
pub enum Credential {
    /// A decoded private key, offered once per connection attempt.
    Key(russh::keys::PrivateKey),
    /// Delegate to the SSH agent; the agent connection is made fresh per
    /// attempt.
    Agent,
}

/// The kind of a credential, without the key material.
#[derive(Clone, Copy, Debug, PartialEq, Eq, Structural)]
pub enum CredKind {
    Key,
    Agent,
}

impl Credential {
    /// The kind of this credential.
    pub open spec fn spec_kind(self) -> CredKind {
        match self {
            Credential::Key(_) => CredKind::Key,
            Credential::Agent => CredKind::Agent,
        }
    }

    pub fn kind(&self) -> (r: CredKind)
        ensures
            r == self.spec_kind(),
    {
        match self {
            Credential::Key(_) => CredKind::Key,
            Credential::Agent => CredKind::Agent,
        }
    }
}

/// The message given when neither a usable key nor an agent is available:
/// it names both failure modes.
pub open spec fn spec_no_auth_message() -> Seq<char> {
    "No SSH authentication available. Either provide an unencrypted key or run with SSH agent (ssh-agent with key added via ssh-add)."@
}

/// The message given when the agent holds no identities: it tells the
/// operator to load a key.
pub open spec fn spec_empty_agent_message() -> Seq<char> {
    "No keys available in SSH agent. Run: ssh-add"@
}

/// Resolves a credential from what the environment offers: the text of
/// the configured key file (when it was readable) and whether an agent
/// socket is present. The key is preferred; the agent is the fallback;
/// with neither, resolution fails with a message naming both absences.
pub fn resolve_credential(key_text: Option<&str>, agent_available: bool) -> (r: Result<
    Credential,
    AppError,
>)
    ensures
        match r {
            Ok(c) => {
                &&& (c is Key <==> (key_text matches Some(t) && key_decodes(t@)))
                &&& (c is Agent ==> agent_available)
            },
            Err(e) => {
                &&& !(key_text matches Some(t) && key_decodes(t@))
                &&& !agent_available
                &&& e matches AppError::SshConnection(m) && m@ == spec_no_auth_message()
            },
        },
{
    if let Some(text) = key_text {
        if let Some(key) = decode_key(text) {
            return Ok(Credential::Key(key));
        }
    }
    if agent_available {
        return Ok(Credential::Agent);
    }
    Err(
        AppError::SshConnection(
            String::from_str(
                "No SSH authentication available. Either provide an unencrypted key or run with SSH agent (ssh-agent with key added via ssh-add).",
            ),
        ),
    )
}

/// The outcome of offering one identity to the server.
#[derive(Clone, Copy, Debug, PartialEq, Eq, Structural)]
pub enum AgentAttempt {
    /// The server accepted the identity.
    Accepted,
    /// The server rejected the identity.
    Rejected,
    /// The offer itself failed; the next identity is still tried.
    Failed,
}

/// Decides whether agent authentication may begin: an agent holding zero
/// identities fails at once, telling the operator to load a key, and no
/// identity is ever offered.
pub fn plan_agent_auth(identity_count: usize) -> (r: Result<(), AppError>)
    ensures
        r is Ok <==> identity_count > 0,
        r matches Err(e) ==> e matches AppError::SshConnection(m) && m@
            == spec_empty_agent_message(),
{
    if identity_count == 0 {
        Err(AppError::SshConnection(String::from_str("No keys available in SSH agent. Run: ssh-add")))
    } else {
        Ok(())
    }
}

/// Whether one identity among those offered was accepted.
pub open spec fn spec_any_accepted(attempts: Seq<AgentAttempt>) -> bool {
    exists|i: int| 0 <= i < attempts.len() && attempts[i] is Accepted
}

/// Judges a finished round of authentication offers: it succeeded exactly
/// when some offer was accepted; otherwise the connection-category error
/// of a rejected authentication is returned.
pub fn auth_outcome(attempts: &Vec<AgentAttempt>) -> (r: Result<(), AppError>)
    ensures
        r is Ok <==> spec_any_accepted(attempts@),
        r matches Err(e) ==> e matches AppError::SshConnection(m) && m@
            == "Authentication rejected"@,
{
    let mut i: usize = 0;
    while i < attempts.len()
        invariant
            0 <= i <= attempts@.len(),
            forall|j: int| 0 <= j < i ==> !(attempts@[j] is Accepted),
        decreases attempts@.len() - i,
    {
        if matches!(attempts[i], AgentAttempt::Accepted) {
            return Ok(());
        }
        i = i + 1;
    }
    Err(AppError::SshConnection(String::from_str("Authentication rejected")))
}

/// After a server answer, the offer loop goes on only while nothing was
/// accepted yet.
pub fn continue_offers(last: &AgentAttempt) -> (r: bool)
    ensures
        r == !(*last is Accepted),
{
    !matches!(last, AgentAttempt::Accepted)
}

} // verus!
