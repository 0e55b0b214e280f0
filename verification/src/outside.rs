//! The functions of other crates that the library calls, and what it takes to
//! be true of them.

use bytes::Bytes;
use wasmtime::component::Resource;

use vstd::prelude::*;

verus! {

/// [`anyhow::Error`], an error of the host. The library carries it along.
#[verifier::external_type_specification]
#[verifier::external_body]
pub struct ExError(anyhow::Error);

/// [`bytes::Bytes`], a contiguous piece of memory.
#[verifier::external_type_specification]
#[verifier::external_body]
pub struct ExBytes(bytes::Bytes);

/// The bytes that a [`Bytes`] holds.
pub uninterp spec fn bytes_view(bytes: Bytes) -> Seq<u8>;

/// [`Bytes::len`] gives the number of bytes.
pub assume_specification[ Bytes::len ](bytes: &Bytes) -> (len: usize)
    ensures
        len == bytes_view(*bytes).len(),
;

/// `Bytes::from_iter`, from a vector: the result holds the bytes of the vector,
/// in their order.
#[verifier::external_body]
pub(crate) fn bytes_from_iter(vec: Vec<u8>) -> (bytes: Bytes)
    ensures
        bytes_view(bytes) == vec@,
{
    Bytes::from_iter(vec)
}

/// [`wasmtime::component::Resource`], a handle to a resource of the host.
#[verifier::external_type_specification]
#[verifier::external_body]
#[verifier::reject_recursive_types(T)]
pub struct ExResource<T>(wasmtime::component::Resource<T>);

/// [`Resource::rep`], so that specifications can speak of what it gives. Nothing
/// is claimed of it here; the library calls it through [`index`].
pub assume_specification<T: 'static>[ Resource::<T>::rep ](resource: &Resource<T>) -> (rep: u32);

/// The representation of a handle: what [`Resource::rep`] gives.
pub open spec fn rep_of<T: 'static>(resource: Resource<T>) -> u32 {
    choose|rep: u32| call_ensures(Resource::<T>::rep, (&resource,), rep)
}

/// [`Resource::rep`] can give `rep` for the handle, and nothing else.
pub open spec fn has_rep<T: 'static>(resource: Resource<T>, rep: u32) -> bool {
    &&& call_ensures(Resource::<T>::rep, (&resource,), rep)
    &&& forall|n: u32| #[trigger]
        call_ensures(Resource::<T>::rep, (&resource,), n) ==> n == rep
}

/// [`Resource::rep`] gives the representation of the handle, the same one every
/// time.
#[verifier::external_body]
pub(crate) fn index<T: 'static>(resource: &Resource<T>) -> (rep: u32)
    ensures
        has_rep(*resource, rep),
{
    resource.rep()
}

/// [`Resource::new_own`] makes a handle with the given representation.
pub assume_specification<T: 'static>[ Resource::<T>::new_own ](rep: u32) -> (resource: Resource<T>)
    ensures
        has_rep(resource, rep),
;

} // verus!
