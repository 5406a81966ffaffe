//! Body access in the two request-body lifecycles.

use praxis_filter::BodyAccess;
use praxis_openai::request_body_phase::RequestBodyPhase;

#[test]
fn default_phase_is_pre_read() {
    assert_eq!(RequestBodyPhase::default(), RequestBodyPhase::PreRead);
}

#[test]
fn access_is_granted_in_one_lifecycle() {
    for access in [BodyAccess::None, BodyAccess::ReadOnly, BodyAccess::ReadWrite] {
        assert_eq!(RequestBodyPhase::PreRead.pre_read_access(access), access);
        assert_eq!(RequestBodyPhase::PreRead.bound_upstream_access(access), BodyAccess::None);
        assert_eq!(RequestBodyPhase::BoundUpstream.pre_read_access(access), BodyAccess::None);
        assert_eq!(RequestBodyPhase::BoundUpstream.bound_upstream_access(access), access);
    }
}
