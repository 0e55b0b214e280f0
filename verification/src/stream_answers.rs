//! What the methods that every stream has from the start answer.

use bytes::Bytes;

use vstd::prelude::*;
use vstd::string::*;

use crate::outside::bytes_view;
use crate::stream::{HostInputStream, HostOutputStream, StreamError};

verus! {

/// A stream that has of its own only what every stream must have; the rest is
/// what the traits provide.
pub struct PlainStream<S> {
    /// The stream that does the work.
    pub inner: S,
}

impl<S: HostInputStream> HostInputStream for PlainStream<S> {
    fn read(&mut self, size: usize) -> (r: Result<Bytes, StreamError>)
        ensures
            exists|inner: &mut S| #[trigger]
                call_ensures(S::read, (inner, size), r) && *inner == old(self).inner
                    && *final(inner) == final(self).inner,
    {
        self.inner.read(size)
    }
}

impl<S: HostOutputStream> HostOutputStream for PlainStream<S> {
    fn write(&mut self, bytes: Bytes) -> (r: Result<(), StreamError>)
        ensures
            exists|inner: &mut S| #[trigger]
                call_ensures(S::write, (inner, bytes), r) && *inner == old(self).inner
                    && *final(inner) == final(self).inner,
    {
        self.inner.write(bytes)
    }

    fn flush(&mut self) -> (r: Result<(), StreamError>)
        ensures
            exists|inner: &mut S| #[trigger]
                call_ensures(S::flush, (inner,), r) && *inner == old(self).inner && *final(inner)
                    == final(self).inner,
    {
        self.inner.flush()
    }
}

/// Skipping reads once, as many bytes as it is asked for, and answers how many
/// there were, or the error that came instead.
pub proof fn law_skip_answers<S: HostInputStream>(nelem: usize, r: Result<usize, StreamError>)
    ensures
        forall|s: &mut PlainStream<S>| #[trigger]
            call_ensures(
                <PlainStream<S> as HostInputStream>::skip,
                (s, nelem),
                r,
            ) ==> exists|inner: &mut S, read: Result<Bytes, StreamError>| #[trigger]
                call_ensures(S::read, (inner, nelem), read) && *inner == s.inner && *final(inner)
                    == final(s).inner && match read {
                    Ok(bytes) => r is Ok && r->Ok_0 == bytes_view(bytes).len(),
                    Err(e) => r == Err::<usize, _>(e),
                },
{
}

/// Writing zeroes writes once, as many bytes as it is asked for and each of them
/// zero, and hands the answer on.
pub proof fn law_write_zeroes_answers<S: HostOutputStream>(
    nelem: usize,
    r: Result<(), StreamError>,
)
    requires
        nelem <= isize::MAX,
    ensures
        forall|s: &mut PlainStream<S>| #[trigger]
            call_requires(<PlainStream<S> as HostOutputStream>::write_zeroes, (s, nelem)),
        forall|s: &mut PlainStream<S>| #[trigger]
            call_ensures(
                <PlainStream<S> as HostOutputStream>::write_zeroes,
                (s, nelem),
                r,
            ) ==> exists|inner: &mut S, bytes: Bytes| #[trigger]
                call_ensures(S::write, (inner, bytes), r) && *inner == s.inner && *final(inner)
                    == final(s).inner && bytes_view(bytes).len() == nelem && forall|i: int|
                    0 <= i < nelem ==> #[trigger] bytes_view(bytes)[i] == 0,
{
}

/// Every failure has its own message, which ends in what the error of the host
/// says, if there is one; and that error is found.
pub proof fn law_failures_are_told_apart(
    e: &StreamError,
    text: String,
    found: Option<&anyhow::Error>,
)
    requires
        call_ensures(StreamError::message, (e,), text),
        call_ensures(StreamError::error, (e,), found),
    ensures
        match *e {
            StreamError::Closed => text@ == "closed"@ && found is None,
            StreamError::LastOperationFailed(inner) => found == Some(&inner) && exists|
                said: String,
            | #[trigger]
                to_string_from_display_ensures::<anyhow::Error>(&inner, said) && text@
                    == "last operation failed: "@ + said@,
            StreamError::Trap(inner) => found == Some(&inner) && exists|said: String| #[trigger]
                to_string_from_display_ensures::<anyhow::Error>(&inner, said) && text@ == "trap: "@
                    + said@,
        },
{
}

} // verus!
