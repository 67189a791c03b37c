//! Service descriptors: the capability a job asks for and a worker offers.

use vstd::prelude::*;

verus! {

/// Identifies a client of the broker.
pub type ClientId = u32;

/// Identifies a job for the lifetime of one broker.
pub type JobId = u64;

/// Identifies a service.
pub type ServiceId = u32;

/// Identifies one version of a service.
pub type ServiceVersion = u32;

/// A service together with one of its versions. Two descriptors are the same
/// capability exactly when both numbers agree.
#[derive(Clone, Copy, Debug, PartialEq, Eq, Structural)]
pub struct ServiceDescriptor {
    pub service_id: ServiceId,
    pub service_version: ServiceVersion,
}

/// What a worker asks the broker for: a job of the service and version it
/// can execute.
pub type JobQuery = ServiceDescriptor;

impl ServiceDescriptor {
    /// Makes the descriptor of `service_version` of `service_id`.
    pub fn new(service_id: ServiceId, service_version: ServiceVersion) -> (descriptor: Self)
        ensures
            descriptor == (ServiceDescriptor { service_id, service_version }),
    {
        ServiceDescriptor { service_id, service_version }
    }
}

} // verus!
