//! The concurrent map and set of the `dashmap` crate, declared so that verified code can
//! hold them.
//! What a map holds is named per use, beside the functions that read and change it.
use vstd::prelude::*;

verus! {

/// `dashmap::DashMap`, held opaquely.
#[verifier::external_type_specification]
#[verifier::external_body]
#[verifier::reject_recursive_types(K)]
#[verifier::reject_recursive_types(V)]
#[verifier::reject_recursive_types(S)]
pub struct ExDashMap<K, V, S>(dashmap::DashMap<K, V, S>);

/// `dashmap::DashSet`, held opaquely.
#[verifier::external_type_specification]
#[verifier::external_body]
#[verifier::reject_recursive_types(K)]
#[verifier::reject_recursive_types(S)]
pub struct ExDashSet<K, S>(dashmap::DashSet<K, S>);

} // verus!
