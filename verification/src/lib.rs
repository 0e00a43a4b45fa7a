//! Connection trust and transfer bookkeeping for an SFTP client.
//!
//! The crate decides whether a remote host's key may be trusted, in which
//! order the stages of a connection run, how an authentication attempt ended
//! and how a streaming transfer advances. Network and file access are left to
//! the caller, which performs the actions that the functions here hand out.
//!
//! - [`config`], [`error`]: what a connection request holds, and the
//!   failures that are told apart.
//! - [`hostspec`], [`base64`], [`known_hosts`]: the known-hosts store and
//!   the text of its file.
//! - [`hostkey`]: the decision on an offered host key.
//! - [`auth`]: how an authentication attempt ended.
//! - [`connect`], [`attempt`]: the stages of a connection, step by step and
//!   as a whole.
//! - [`transfer`], [`progress`]: the course of a transfer and its counters.
//! - [`keys`]: lists of authorized keys.
//! - [`command`], [`registry`], [`cli`]: command lines and their dispatch.
//! - [`text`]: strings as sequences of characters.

pub mod text;
pub mod progress;
pub mod hostspec;
pub mod base64;
pub mod known_hosts;
pub mod error;
pub mod config;
pub mod hostkey;
pub mod auth;
pub mod keys;
pub mod connect;
pub mod attempt;
pub mod command;
pub mod registry;
pub mod transfer;
pub mod cli;
