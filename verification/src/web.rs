//! The read-only query surface served to external consumers: a greeting at
//! the root and a point-in-time listing of every service record.  The
//! transport (HTTP, a socket) lives outside the library; these functions
//! produce the payloads.

use vstd::prelude::*;
use crate::registry::{Registry, Service};

verus! {

/// Greeting served at the root route.
pub fn index() -> (r: String)
    ensures
        r@ == "Hello, world!"@,
{
    "Hello, world!".to_owned()
}

/// The records behind the service listing: a copy of every record, in
/// registry order.
pub fn services_internal(registry: &Registry) -> (r: Vec<Service>)
    ensures
        r@.len() == registry@.len(),
        forall|i: int| 0 <= i < registry@.len() ==> r@[i]@ == registry@[i],
{
    registry.snapshot()
}

/// The service listing served to external consumers.
pub fn services(registry: &Registry) -> (r: Vec<Service>)
    ensures
        r@.len() == registry@.len(),
        forall|i: int| 0 <= i < registry@.len() ==> r@[i]@ == registry@[i],
{
    services_internal(registry)
}

} // verus!
