//! The resource `GitHubUserSshKeys` of the API group
//! `source.fluxcd.yolodev.io`: the SSH keys of a GitHub user as a source.

use crate::acl::types::AccessFrom;
use crate::meta::annotations::ReconcileRequestStatus;
use crate::meta::duration::Duration;
use vstd::prelude::*;

verus! {

/// The API group of the resource.
pub const GROUP: &'static str = "source.fluxcd.yolodev.io";

/// The API version of the resource.
pub const VERSION: &'static str = "v1beta1";

/// The kind of the resource.
pub const KIND: &'static str = "GitHubUserSshKeys";

/// What is asked of a `GitHubUserSshKeys` resource.
#[derive(Clone, Debug)]
pub struct GitHubUserSshKeysSpec {
    /// GitHub user name.
    pub user: String,
    /// The interval at which to check for repository updates.
    pub interval: Duration,
    /// The timeout for fetching values, defaults to 60s.
    pub timeout: Option<Duration>,
    /// Suspend tells the controller to suspend the reconciliation of this source.
    /// This flag tells the controller to suspend the reconciliation of this source.
    pub suspend: bool,
    pub access_from: Option<AccessFrom>,
}

/// What is reported of a `GitHubUserSshKeys` resource.
#[derive(Clone, Debug)]
pub struct GitHubUserSshKeysStatus {
    pub reconcile_request_status: ReconcileRequestStatus,
}

/// The value of `suspend` where a resource does not say it.
pub fn const_false() -> (r: bool)
    ensures
        !r,
{
    false
}

} // verus!
