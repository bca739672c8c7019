//! The connection pool: the only component callers interact with.
//!
//! The pool maps each registered target (a configured docker node) to one
//! connection slot, lazily populated with a session and reused until it is
//! explicitly closed. Ad-hoc targets (profiles resolved by address, the
//! hypervisor host) get one-shot sessions that are never stored.
//!
//! The pool decides; the caller performs the network work. An execute
//! call asks the pool for its next step — run on the stored session, or
//! handshake first — carries it out, and reports a fresh session back via
//! [`SshPool::note_connected`]. The caller must hold the target's slot
//! lock across the whole step, handshake and command alike: that
//! serializes commands per target and keeps two callers from
//! authenticating the same target at once.

use vstd::pervasive::VecAdditionalExecFns;
use vstd::prelude::*;
use vstd::string::StringExecFns;

use crate::auth::{resolve_credential, CredKind, Credential};
use crate::auth::{key_decodes, spec_no_auth_message};
use crate::config::{lemma_node_index, spec_node_index, Config};
use crate::error::AppError;

verus! {

/// The next thing an execute call must do.
#[derive(Debug)]
pub enum ExecStep {
    /// A live session is stored for the target: run the command on it.
    Run { slot: usize, session: u64 },
    /// The target's slot is empty: handshake to `host:22` as `user` with
    /// the pool's credential, store the session, then run.
    Handshake { slot: usize, host: String, user: String, cred: CredKind },
    /// An ad-hoc target: handshake, run, and discard the session, whatever
    /// the outcome.
    HandshakeEphemeral { host: String, user: String, cred: CredKind },
}

/// SSH connection pool for managing connections to multiple nodes.
pub struct SshPool {
    config: Config,
    auth_method: Option<Credential>,
    slots: Vec<Option<u64>>,
}

impl SshPool {
    /// The stored session of each registered target's slot.
    pub closed spec fn spec_slots(self) -> Seq<Option<u64>> {
        self.slots@
    }

    /// The pool's configuration.
    pub closed spec fn spec_config(self) -> Config {
        self.config
    }

    /// The kind of the cached credential, if one is cached.
    pub closed spec fn spec_auth_kind(self) -> Option<CredKind> {
        match self.auth_method {
            Some(c) => Some(c.spec_kind()),
            None => None,
        }
    }

    /// One slot per registered target.
    pub open spec fn wf(self) -> bool {
        self.spec_slots().len() == self.spec_config().docker_nodes@.len()
    }

    /// The slot index of a registered target name.
    pub open spec fn spec_target_index(self, name: Seq<char>) -> Option<int> {
        spec_node_index(self.spec_config().docker_nodes@, name)
    }

    /// What planning a command against `name` sees: the target's slot and
    /// its stored session, or nothing for an unknown name.
    pub open spec fn spec_plan(self, name: Seq<char>) -> Option<(int, Option<u64>)> {
        match self.spec_target_index(name) {
            Some(i) => Some((i, self.spec_slots()[i])),
            None => None,
        }
    }

    /// Creates a pool over a configuration: one empty slot per registered
    /// target, no credential resolved yet.
    pub fn new(config: Config) -> (r: SshPool)
        ensures
            r.wf(),
            r.spec_config() == config,
            r.spec_auth_kind() is None,
            forall|i: int| 0 <= i < r.spec_slots().len() ==> r.spec_slots()[i] is None,
    {
        let mut slots: Vec<Option<u64>> = Vec::new();
        let n = config.docker_nodes.len();
        let mut i: usize = 0;
        while i < n
            invariant
                0 <= i <= n,
                slots@.len() == i,
                forall|j: int| 0 <= j < i ==> slots@[j] is None,
            decreases n - i,
        {
            slots.push(None);
            i = i + 1;
        }
        SshPool { config, auth_method: None, slots }
    }

    /// Read access to the configuration.
    pub fn config(&self) -> (r: &Config)
        ensures
            *r == self.spec_config(),
    {
        &self.config
    }

    /// Resolves the credential if none is cached yet: the key file text is
    /// tried first, the agent is the fallback, and with neither the call
    /// fails fast, naming both absences. A successful resolution is cached;
    /// a failed one is not, so the next call retries from scratch.
    pub fn ensure_credential(&mut self, key_text: Option<&str>, agent_available: bool) -> (r:
        Result<CredKind, AppError>)
        ensures
            final(self).spec_config() == old(self).spec_config(),
            final(self).spec_slots() == old(self).spec_slots(),
            match old(self).spec_auth_kind() {
                Some(k) => r == Ok::<CredKind, AppError>(k) && final(self).spec_auth_kind()
                    == old(self).spec_auth_kind(),
                None => match r {
                    Ok(k) => {
                        &&& final(self).spec_auth_kind() == Some(k)
                        &&& (k == CredKind::Key <==> (key_text matches Some(t) && key_decodes(
                            t@,
                        )))
                        &&& (k == CredKind::Agent ==> agent_available)
                    },
                    Err(e) => {
                        &&& final(self).spec_auth_kind() is None
                        &&& !(key_text matches Some(t) && key_decodes(t@))
                        &&& !agent_available
                        &&& e matches AppError::SshConnection(m) && m@ == spec_no_auth_message()
                    },
                },
            },
    {
        if let Some(c) = &self.auth_method {
            return Ok(c.kind());
        }
        match resolve_credential(key_text, agent_available) {
            Ok(c) => {
                let k = c.kind();
                self.auth_method = Some(c);
                Ok(k)
            },
            Err(e) => Err(e),
        }
    }

    /// The decoded private key, when the cached credential is one: what a
    /// handshake offers for key authentication.
    pub fn key_for_auth(&self) -> (r: Option<&russh::keys::PrivateKey>)
        ensures
            r is Some <==> self.spec_auth_kind() == Some(CredKind::Key),
    {
        match &self.auth_method {
            Some(Credential::Key(k)) => Some(k),
            _ => None,
        }
    }

    /// Plans a command against a registered target: an unknown name is
    /// refused before anything else happens; a stored session is reused; an
    /// empty slot demands a handshake, for which the credential is
    /// resolved (and cached) here.
    pub fn begin_execute(&mut self, node_name: &str, key_text: Option<&str>, agent_available: bool)
        -> (r: Result<ExecStep, AppError>)
        requires
            old(self).wf(),
        ensures
            final(self).wf(),
            final(self).spec_config() == old(self).spec_config(),
            final(self).spec_slots() == old(self).spec_slots(),
            match old(self).spec_plan(node_name@) {
                None => {
                    &&& r matches Err(e) && e matches AppError::NodeNotFound(m) && m@
                        == node_name@
                    &&& final(self).spec_auth_kind() == old(self).spec_auth_kind()
                },
                Some((i, Some(s))) => {
                    &&& r matches Ok(step) && step matches ExecStep::Run { slot, session }
                        && slot as int == i && session == s
                    &&& final(self).spec_auth_kind() == old(self).spec_auth_kind()
                },
                Some((i, None)) => match r {
                    Ok(step) => {
                        &&& step matches ExecStep::Handshake { slot, host, user, cred } && slot
                            as int == i && host@ == old(self).spec_config().docker_nodes@[i].host@
                            && user@ == old(self).spec_config().spec_ssh_user(
                            old(self).spec_config().docker_nodes@[i],
                        ) && final(self).spec_auth_kind() == Some(cred)
                        &&& match old(self).spec_auth_kind() {
                            Some(k) => final(self).spec_auth_kind() == Some(k),
                            None => (final(self).spec_auth_kind() == Some(CredKind::Key) <==> (
                            key_text matches Some(t) && key_decodes(t@))),
                        }
                    },
                    Err(e) => {
                        &&& old(self).spec_auth_kind() is None
                        &&& !(key_text matches Some(t) && key_decodes(t@))
                        &&& !agent_available
                        &&& e matches AppError::SshConnection(m) && m@ == spec_no_auth_message()
                        &&& final(self).spec_auth_kind() is None
                    },
                },
            },
    {
        proof {
            lemma_node_index(self.config.docker_nodes@, node_name@);
        }
        if self.config.get_docker_node(node_name).is_none() {
            return Err(AppError::NodeNotFound(node_name.to_owned()));
        }
        let slot = self.find_slot(node_name);
        match self.slots[slot] {
            Some(session) => Ok(ExecStep::Run { slot, session }),
            None => {
                let node = self.config.get_docker_node(node_name).unwrap();
                let host = node.host.clone();
                let user = String::from_str(self.config.get_ssh_user(node));
                match self.ensure_credential(key_text, agent_available) {
                    Ok(cred) => Ok(ExecStep::Handshake { slot, host, user, cred }),
                    Err(e) => Err(e),
                }
            },
        }
    }

    /// The slot index of a registered target known to exist.
    fn find_slot(&self, node_name: &str) -> (r: usize)
        requires
            self.wf(),
            self.spec_target_index(node_name@) is Some,
        ensures
            Some(r as int) == self.spec_target_index(node_name@),
    {
        proof {
            lemma_node_index(self.config.docker_nodes@, node_name@);
        }
        let mut i: usize = 0;
        let n = self.config.docker_nodes.len();
        while i < n
            invariant
                0 <= i <= n,
                n == self.config.docker_nodes@.len(),
                self.spec_target_index(node_name@) matches Some(k) && 0 <= k < n
                    && self.config.docker_nodes@[k].name@ == node_name@ && (forall|j: int|
                    0 <= j < k ==> self.config.docker_nodes@[j].name@ != node_name@),
                forall|j: int| 0 <= j < i ==> self.config.docker_nodes@[j].name@ != node_name@,
            decreases n - i,
        {
            if crate::strutil::str_eq(self.config.docker_nodes[i].name.as_str(), node_name) {
                return i;
            }
            i = i + 1;
        }
        proof {
            assert(false);
        }
        0
    }

    /// Plans a command against an ad-hoc target: always a fresh
    /// handshake, never a stored slot, and the session is discarded
    /// afterwards. Only the credential is shared with the registered
    /// targets.
    pub fn plan_ephemeral(
        &mut self,
        host: &str,
        user: &str,
        key_text: Option<&str>,
        agent_available: bool,
    ) -> (r: Result<ExecStep, AppError>)
        ensures
            final(self).spec_config() == old(self).spec_config(),
            final(self).spec_slots() == old(self).spec_slots(),
            match r {
                Ok(step) => {
                    &&& step matches ExecStep::HandshakeEphemeral { host: h, user: u, cred }
                        && h@ == host@ && u@ == user@ && final(self).spec_auth_kind() == Some(
                        cred,
                    )
                    &&& match old(self).spec_auth_kind() {
                        Some(k) => final(self).spec_auth_kind() == Some(k),
                        None => (final(self).spec_auth_kind() == Some(CredKind::Key) <==> (
                        key_text matches Some(t) && key_decodes(t@))),
                    }
                },
                Err(e) => {
                    &&& old(self).spec_auth_kind() is None
                    &&& !(key_text matches Some(t) && key_decodes(t@))
                    &&& !agent_available
                    &&& e matches AppError::SshConnection(m) && m@ == spec_no_auth_message()
                    &&& final(self).spec_auth_kind() is None
                },
            },
    {
        match self.ensure_credential(key_text, agent_available) {
            Ok(cred) => Ok(
                ExecStep::HandshakeEphemeral { host: host.to_owned(), user: user.to_owned(), cred },
            ),
            Err(e) => Err(e),
        }
    }

    /// Plans a command against a profile name: the registered target of
    /// that name when one exists, else a one-shot session to the
    /// profile's address as the default user. A name that is neither is
    /// refused before anything else happens.
    pub fn plan_profile_execute(
        &mut self,
        profile_name: &str,
        key_text: Option<&str>,
        agent_available: bool,
    ) -> (r: Result<ExecStep, AppError>)
        requires
            old(self).wf(),
        ensures
            final(self).wf(),
            final(self).spec_config() == old(self).spec_config(),
            final(self).spec_slots() == old(self).spec_slots(),
            ({
                let reg = old(self).spec_target_index(profile_name@);
                let addr = old(self).spec_config().spec_profile_host(profile_name@);
                &&& (reg is None && addr is None ==> (r matches Err(e) && (
                e matches AppError::NodeNotFound(m) && m@ == "Profile "@ + profile_name@
                    + " not found or has no IP"@)))
                &&& (reg is None && addr is Some ==> match r {
                    Ok(step) => step matches ExecStep::HandshakeEphemeral { host, user, cred }
                        && Some(host@) == addr && user@ == old(
                        self,
                    ).spec_config().ssh.default_user@ && final(self).spec_auth_kind() == Some(
                        cred,
                    ),
                    Err(e) => !(key_text matches Some(t) && key_decodes(t@)) && !agent_available
                        && (e matches AppError::SshConnection(m) && m@
                        == spec_no_auth_message()),
                })
                &&& (reg matches Some(i) ==> match r {
                    Ok(step) => match old(self).spec_slots()[i] {
                        Some(s) => step matches ExecStep::Run { slot, session } && slot as int
                            == i && session == s,
                        None => step matches ExecStep::Handshake { slot, host, user, cred }
                            && slot as int == i && final(self).spec_auth_kind() == Some(cred),
                    },
                    Err(e) => e matches AppError::SshConnection(m) && m@
                        == spec_no_auth_message(),
                })
            }),
    {
        proof {
            lemma_node_index(self.config.docker_nodes@, profile_name@);
        }
        if self.config.get_docker_node(profile_name).is_some() {
            return self.begin_execute(profile_name, key_text, agent_available);
        }
        let host = match self.config.get_profile_host(profile_name) {
            Some(h) => h,
            None => {
                let mut m = String::from_str("Profile ");
                m.append(profile_name);
                m.append(" not found or has no IP");
                return Err(AppError::NodeNotFound(m));
            },
        };
        let user = self.config.ssh.default_user.clone();
        self.plan_ephemeral(host.as_str(), user.as_str(), key_text, agent_available)
    }

    /// Plans a command against the hypervisor host: always a one-shot
    /// session to the configured address and user.
    pub fn plan_proxmox_execute(&mut self, key_text: Option<&str>, agent_available: bool) -> (r:
        Result<ExecStep, AppError>)
        ensures
            final(self).spec_config() == old(self).spec_config(),
            final(self).spec_slots() == old(self).spec_slots(),
            match r {
                Ok(step) => step matches ExecStep::HandshakeEphemeral { host, user, cred } && host@
                    == old(self).spec_config().proxmox.host@ && user@ == old(
                    self,
                ).spec_config().proxmox.user@ && final(self).spec_auth_kind() == Some(cred),
                Err(e) => !(key_text matches Some(t) && key_decodes(t@)) && !agent_available && (
                e matches AppError::SshConnection(m) && m@ == spec_no_auth_message()),
            },
    {
        let host = self.config.proxmox.host.clone();
        let user = self.config.proxmox.user.clone();
        self.plan_ephemeral(host.as_str(), user.as_str(), key_text, agent_available)
    }

    /// Records the session a successful handshake produced for a
    /// registered target's slot. On a failed handshake nothing is recorded
    /// and the slot stays empty, so the next call retries cleanly.
    pub fn note_connected(&mut self, slot: usize, session: u64)
        requires
            old(self).wf(),
            slot < old(self).spec_slots().len(),
        ensures
            final(self).wf(),
            final(self).spec_config() == old(self).spec_config(),
            final(self).spec_auth_kind() == old(self).spec_auth_kind(),
            final(self).spec_slots() == old(self).spec_slots().update(
                slot as int,
                Some(session),
            ),
    {
        self.slots.set(slot, Some(session));
    }

    /// Forces the named target's slot back to empty, so the next execute
    /// reconnects from scratch; an unknown name changes nothing.
    pub fn close_connection(&mut self, node_name: &str)
        requires
            old(self).wf(),
        ensures
            final(self).wf(),
            final(self).spec_config() == old(self).spec_config(),
            final(self).spec_auth_kind() == old(self).spec_auth_kind(),
            match old(self).spec_target_index(node_name@) {
                Some(i) => final(self).spec_slots() == old(self).spec_slots().update(
                    i,
                    None::<u64>,
                ),
                None => final(self).spec_slots() == old(self).spec_slots(),
            },
    {
        proof {
            lemma_node_index(self.config.docker_nodes@, node_name@);
        }
        let has = self.config.get_docker_node(node_name).is_some();
        if has {
            let slot = self.find_slot(node_name);
            self.slots.set(slot, None);
        }
    }

    /// The session currently stored for a registered target, if any.
    pub fn stored_session(&self, node_name: &str) -> (r: Option<u64>)
        requires
            self.wf(),
        ensures
            match self.spec_plan(node_name@) {
                Some((i, s)) => r == s,
                None => r is None,
            },
    {
        proof {
            lemma_node_index(self.config.docker_nodes@, node_name@);
        }
        if self.config.get_docker_node(node_name).is_some() {
            let slot = self.find_slot(node_name);
            self.slots[slot]
        } else {
            None
        }
    }
}

/// After a handshake for a registered target stores a session, the plan
/// for the next command against that target is to run on that very
/// session: no second handshake happens until the slot is closed.
pub proof fn lemma_session_reuse(p0: SshPool, p1: SshPool, name: Seq<char>, i: int, s: u64)
    requires
        p0.wf(),
        p0.spec_target_index(name) == Some(i),
        p1.spec_config() == p0.spec_config(),
        p1.spec_slots() == p0.spec_slots().update(i, Some(s)),
    ensures
        p1.wf(),
        p1.spec_plan(name) == Some((i, Some(s))),
{
    lemma_node_index(p0.spec_config().docker_nodes@, name);
}

/// Closing a target's slot forces the next command against it to
/// handshake again: its plan then carries no session.
pub proof fn lemma_close_forces_reconnect(p0: SshPool, p1: SshPool, name: Seq<char>, i: int)
    requires
        p0.wf(),
        p0.spec_target_index(name) == Some(i),
        p1.spec_config() == p0.spec_config(),
        p1.spec_slots() == p0.spec_slots().update(i, None::<u64>),
    ensures
        p1.wf(),
        p1.spec_plan(name) == Some((i, None::<u64>)),
{
    lemma_node_index(p0.spec_config().docker_nodes@, name);
}

/// Two different registered targets always use two different slots, so a
/// command against one never waits on, or reuses a session of, the other.
/// Within one slot, the caller's lock serializes commands.
pub proof fn lemma_distinct_targets_distinct_slots(
    p: SshPool,
    n1: Seq<char>,
    n2: Seq<char>,
    i1: int,
    i2: int,
)
    requires
        p.wf(),
        n1 != n2,
        p.spec_target_index(n1) == Some(i1),
        p.spec_target_index(n2) == Some(i2),
    ensures
        i1 != i2,
{
    lemma_node_index(p.spec_config().docker_nodes@, n1);
    lemma_node_index(p.spec_config().docker_nodes@, n2);
}

} // verus!
