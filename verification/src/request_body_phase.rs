//! Shared request-body lifecycle configuration for filters that can run either
//! before request headers or after logical upstream binding.

use praxis_filter::BodyAccess;
use vstd::prelude::*;

verus! {

/// `praxis_filter::BodyAccess`, variants visible.
#[verifier::external_type_specification]
pub struct ExBodyAccess(praxis_filter::BodyAccess);

/// Request-body lifecycle used by provider-gateable filters.
#[derive(Debug, Clone, Copy, PartialEq, Eq, Structural)]
pub enum RequestBodyPhase {
    /// Preserve the original pre-read lifecycle for standalone and legacy
    /// pipelines that do not bind a logical upstream first.
    PreRead,
    /// Run once after an earlier router has bound the logical upstream.
    BoundUpstream,
}

impl Default for RequestBodyPhase {
    fn default() -> (phase: Self)
        ensures
            phase == RequestBodyPhase::PreRead,
    {
        RequestBodyPhase::PreRead
    }
}

impl RequestBodyPhase {
    /// The access in the pre-read lifecycle of a filter that wants `access`.
    pub open spec fn access_before_binding(self, access: BodyAccess) -> BodyAccess {
        match self {
            RequestBodyPhase::PreRead => access,
            RequestBodyPhase::BoundUpstream => BodyAccess::None,
        }
    }

    /// The access in the post-binding lifecycle of a filter that wants `access`.
    pub open spec fn access_after_binding(self, access: BodyAccess) -> BodyAccess {
        match self {
            RequestBodyPhase::PreRead => BodyAccess::None,
            RequestBodyPhase::BoundUpstream => access,
        }
    }

    /// Return body access for the ordinary pre-read lifecycle.
    pub fn pre_read_access(self, access: BodyAccess) -> (granted: BodyAccess)
        ensures
            granted == self.access_before_binding(access),
    {
        match self {
            RequestBodyPhase::PreRead => access,
            RequestBodyPhase::BoundUpstream => BodyAccess::None,
        }
    }

    /// Return body access for the post-binding lifecycle.
    pub fn bound_upstream_access(self, access: BodyAccess) -> (granted: BodyAccess)
        ensures
            granted == self.access_after_binding(access),
    {
        match self {
            RequestBodyPhase::PreRead => BodyAccess::None,
            RequestBodyPhase::BoundUpstream => access,
        }
    }
}

/// A filter reads the body in one lifecycle and never in both: one of the two
/// grants what the filter wants, the other grants nothing.
pub proof fn law_one_lifecycle_reads_the_body(phase: RequestBodyPhase, access: BodyAccess)
    ensures
        phase.access_before_binding(access) == BodyAccess::None
            || phase.access_after_binding(access) == BodyAccess::None,
        phase.access_before_binding(access) == access || phase.access_after_binding(access)
            == access,
{
}

/// The lifecycle that a phase names is the one that reads the body: pre-read
/// filters get what they want before binding and nothing after it, the others
/// nothing before binding and what they want after it.
pub proof fn law_phase_names_the_lifecycle_that_reads(access: BodyAccess)
    ensures
        RequestBodyPhase::PreRead.access_before_binding(access) == access,
        RequestBodyPhase::PreRead.access_after_binding(access) == BodyAccess::None,
        RequestBodyPhase::BoundUpstream.access_before_binding(access) == BodyAccess::None,
        RequestBodyPhase::BoundUpstream.access_after_binding(access) == access,
{
}

} // verus!
