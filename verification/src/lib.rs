//! Core of an unattended login tool for the XJTU campus network portal.
//!
//! The library resolves the TOML configuration into login targets, frames and
//! encrypts the portal v3 requests, classifies the portal's answers, cleans
//! session lists and decides which device to log out when an account reaches
//! its device limit. The network exchanges themselves are driven by callers,
//! which hand the answers back to the decision functions of this crate.

pub mod config;
pub mod crypto;
pub mod display;
pub mod error;
pub mod flow;
pub mod interface;
pub mod portal;
pub mod redirect;
pub mod session;
pub mod text;
pub mod urls;
pub mod selection;

pub use selection::{AccountLogout, AccountSessions, NamedSession};

use vstd::prelude::*;

verus! {

/// Overall result of running one or more login targets.
#[derive(Debug, Clone, Copy, PartialEq, Eq, Structural)]
pub enum RunStatus {
    /// Every requested target completed successfully.
    Success,
    /// At least one target failed while other target groups may have succeeded.
    PartialFailure,
}

impl RunStatus {
    /// The overall status of a run: partial failure when any target failed.
    pub fn from_failure(failed: bool) -> (r: RunStatus)
        ensures
            r == (if failed {
                RunStatus::PartialFailure
            } else {
                RunStatus::Success
            }),
    {
        if failed {
            RunStatus::PartialFailure
        } else {
            RunStatus::Success
        }
    }
}

} // verus!
