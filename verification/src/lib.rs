//! Core library for a fleet control panel.
//!
//! The heart of the library is the remote command execution core: a
//! connection pool that authenticates to many hosts over SSH, reuses
//! established sessions, falls back between key-file and agent
//! authentication, and captures stdout, stderr and the exit status of
//! each command. Around it stand the data model and the pure text
//! processing of the panel: parsers for remote tool output, profile
//! configuration parsing, graph generation and HTML fragments.
//!
//! Network and file I/O live outside this crate; the library makes every
//! decision and performs every computation on plain values.

pub mod auth;
pub mod config;
pub mod deploy;
pub mod docker;
pub mod editor;
pub mod error;
pub mod graph;
pub mod html;
pub mod infra;
pub mod monitoring;
pub mod output;
pub mod panel;
pub mod pool;
pub mod proxmox;
pub mod runner;
pub mod strutil;
pub mod webauth;
