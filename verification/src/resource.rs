//! A value kept between the calls that use it, shared by reference count.

use vstd::prelude::*;
use std::sync::Arc;

verus! {

/// `std::sync::Arc::clone`: the documentation states that it makes another
/// pointer to the same allocation, so it points to the same value.
#[verifier::external_body]
fn arc_clone<T>(a: &Arc<T>) -> (r: Arc<T>)
    ensures
        r == *a,
{
    Arc::clone(a)
}

/// A value shared between the calls that use it.
pub struct PluginResource<T> {
    resource: Arc<T>,
}

impl<T> PluginResource<T> {
    /// The shared value.
    pub closed spec fn value(&self) -> T {
        *self.resource
    }

    /// Shares `resource`.
    pub fn new(resource: T) -> (r: Self)
        ensures
            r.value() == resource,
    {
        PluginResource { resource: Arc::new(resource) }
    }

    /// Another handle to the shared value.
    pub fn get(&self) -> (r: Arc<T>)
        ensures
            *r == self.value(),
    {
        arc_clone(&self.resource)
    }
}

} // verus!
