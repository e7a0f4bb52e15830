//! The TLS transport: an established TLS stream of any kind.
use vstd::prelude::*;

verus! {

/// A transport over an established TLS stream of type `S`; the application
/// reads and writes the stream.
pub struct TlsTransport<S> {
    stream: S,
}

impl<S> TlsTransport<S> {
    /// The stream that the transport reads and writes.
    pub closed spec fn inner(&self) -> S {
        self.stream
    }

    /// A transport over an already established TLS stream.
    pub fn from_stream(stream: S) -> (r: Self)
        ensures
            r.inner() == stream,
    {
        TlsTransport { stream }
    }

    /// The stream, for the transport's reads and writes.
    pub fn stream_mut(&mut self) -> (r: &mut S)
        ensures
            *r == old(self).inner(),
            final(self).inner() == *final(r),
    {
        &mut self.stream
    }

    /// The stream, for inspection.
    pub fn stream(&self) -> (r: &S)
        ensures
            *r == self.inner(),
    {
        &self.stream
    }
}

} // verus!
