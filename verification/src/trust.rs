//! Trust in a workspace: what it is, and how the sidebar shows it.

use vstd::prelude::*;

verus! {

/// Whether the user trusts the workspace.
#[derive(Debug, Clone, Copy, PartialEq, Eq, Structural)]
pub enum WorkspaceTrustState {
    Trusted,
    Untrusted,
    /// It was trusted, and has changed since.
    Stale,
}

/// The trust with which a process is started: what the store says, and none
/// where there is no store or it cannot be read.
pub open spec fn start_trust(
    resolved: Option<Result<WorkspaceTrustState, String>>,
) -> WorkspaceTrustState {
    match resolved {
        Some(Ok(state)) => state,
        _ => WorkspaceTrustState::Untrusted,
    }
}

/// The trust with which a process is started. It is asked for at each start.
pub fn generation_trust(resolved: Option<Result<WorkspaceTrustState, String>>) -> (trust:
    WorkspaceTrustState)
    ensures
        trust == start_trust(resolved),
{
    match resolved {
        Some(Ok(state)) => state,
        _ => WorkspaceTrustState::Untrusted,
    }
}

/// The trust lines at the top of the sidebar.
#[derive(Debug, Clone, Copy, PartialEq, Eq, Structural)]
pub struct SidebarTrustChrome {
    pub state: WorkspaceTrustState,
    pub confirming: bool,
}

/// What a click on the trust lines is about.
#[derive(Debug, Clone, Copy, PartialEq, Eq, Structural)]
pub enum SidebarTrustTarget {
    Review,
    Revoke,
    ConfirmTrust,
    Cancel,
    Chrome,
}

/// How many rows the trust lines take.
pub open spec fn trust_rows(chrome: SidebarTrustChrome) -> nat {
    if chrome.confirming {
        4
    } else {
        1
    }
}

/// How many rows the trust lines take.
pub fn sidebar_trust_rows(chrome: SidebarTrustChrome) -> (rows: usize)
    ensures
        rows == trust_rows(chrome),
{
    if chrome.confirming {
        4
    } else {
        1
    }
}

/// What stands at a row of the trust lines. While the user is asked to confirm,
/// the warning comes first and the two answers below it.
pub open spec fn trust_target(chrome: SidebarTrustChrome, row: nat) -> Option<SidebarTrustTarget> {
    if row >= trust_rows(chrome) {
        None
    } else if chrome.confirming {
        Some(
            if row == 2 {
                SidebarTrustTarget::ConfirmTrust
            } else if row == 3 {
                SidebarTrustTarget::Cancel
            } else {
                SidebarTrustTarget::Chrome
            },
        )
    } else if chrome.state == WorkspaceTrustState::Trusted {
        Some(SidebarTrustTarget::Revoke)
    } else {
        Some(SidebarTrustTarget::Review)
    }
}

/// What a click on a row of the trust lines is about.
pub fn sidebar_trust_hit(chrome: SidebarTrustChrome, row: usize) -> (target: Option<
    SidebarTrustTarget,
>)
    ensures
        target == trust_target(chrome, row as nat),
{
    if chrome.confirming {
        return match row {
            0 => Some(SidebarTrustTarget::Chrome),
            1 => Some(SidebarTrustTarget::Chrome),
            2 => Some(SidebarTrustTarget::ConfirmTrust),
            3 => Some(SidebarTrustTarget::Cancel),
            _ => None,
        };
    }
    if row != 0 {
        return None;
    }
    match chrome.state {
        WorkspaceTrustState::Trusted => Some(SidebarTrustTarget::Revoke),
        _ => Some(SidebarTrustTarget::Review),
    }
}

/// Exactly the rows that the trust lines take are theirs, and trust is given
/// only from the confirmation.
pub proof fn law_trust_rows_are_the_hit_rows(chrome: SidebarTrustChrome, row: nat)
    ensures
        trust_target(chrome, row) is Some <==> row < trust_rows(chrome),
        trust_target(chrome, row) == Some(SidebarTrustTarget::ConfirmTrust) ==> chrome.confirming,
{
}

} // verus!
