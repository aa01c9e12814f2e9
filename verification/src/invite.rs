//! Invitations: how often one may be used, and what becomes of it.

use vstd::prelude::*;

verus! {

/// How often an invitation may be used.
#[derive(Debug, Clone, Copy, PartialEq, Eq, Structural)]
pub enum UsagePolicy {
    UseOnce,
    UseForever,
    UseUpToCertainLimit(usize),
}

impl Default for UsagePolicy {
    fn default() -> (policy: Self)
        ensures
            policy == UsagePolicy::UseOnce,
    {
        UsagePolicy::UseOnce
    }
}

/// A request for a new invitation.
#[derive(Debug)]
pub struct GenerateInviteRequest {
    pub evaluation_license_type: String,
    pub evaluation_license_duration_days: isize,
    pub usage_policy: UsagePolicy,
}

/// Whether an invitation that was used so many times is used up.
pub open spec fn used_up(policy: UsagePolicy, uses: nat) -> bool {
    match policy {
        UsagePolicy::UseOnce => uses >= 1,
        UsagePolicy::UseUpToCertainLimit(limit) => uses >= limit,
        UsagePolicy::UseForever => false,
    }
}

/// Whether an invitation that was used `uses` times goes to the archive.
pub fn should_archive(policy: UsagePolicy, uses: usize) -> (archive: bool)
    ensures
        archive == used_up(policy, uses as nat),
{
    match policy {
        UsagePolicy::UseOnce => uses >= 1,
        UsagePolicy::UseUpToCertainLimit(limit) => uses >= limit,
        UsagePolicy::UseForever => false,
    }
}

/// Whether an invitation brings a trial licence: it lasts at least a day and
/// names a kind of licence.
pub fn grants_license(duration_days: isize, license_type: &str) -> (grants: bool)
    ensures
        grants == (duration_days > 0 && license_type@.len() > 0),
{
    duration_days > 0 && !license_type.is_empty()
}

} // verus!
