//! Credential resolution and synchronization reporting for a git remote.
//!
//! The crate covers the logic a version-control tool needs around an outbound
//! network operation: decoding the percent-escaped secure-prompt protocol,
//! locating SSH keys, driving the passphrase/username fallback chain, turning
//! synchronization outcomes into diagnostics, and expanding configuration
//! paths.

pub mod assuan;
pub mod credentials;
pub mod paths;
pub mod pinentry;
pub mod prompter;
pub mod report;
pub mod ssh_keys;

use vstd::prelude::*;

verus! {

} // verus!
