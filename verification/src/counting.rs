//! A stream wrapper that adds every byte read through it to a shared counter, so that
//! the traffic of a tunnel's many connections adds up to one per-tunnel total.
use std::sync::atomic::{AtomicU64, Ordering};
use std::sync::Arc;
use vstd::prelude::*;

verus! {

/// Wraps a stream; the bytes read through it are added to `counter`.
pub struct CountingStream<T> {
    inner: T,
    counter: Arc<AtomicU64>,
}

/// The number of bytes a read added to a buffer filled from `before` to `after` bytes.
fn bytes_between(before: usize, after: usize) -> (n: u64)
    requires
        before <= after,
    ensures
        n == after - before,
{
    (after - before) as u64
}

impl<T> CountingStream<T> {
    /// The wrapped stream.
    pub closed spec fn stream(&self) -> T {
        self.inner
    }

    /// The shared counter that the bytes read are added to.
    pub closed spec fn shared_counter(&self) -> Arc<AtomicU64> {
        self.counter
    }

    /// Wraps `inner`, counting into `counter` itself (the shared one, not a copy).
    pub fn new(inner: T, counter: Arc<AtomicU64>) -> (s: Self)
        ensures
            s.stream() == inner,
            s.shared_counter() == counter,
    {
        CountingStream { inner, counter }
    }

    /// The wrapped stream, to read from or write to.
    pub fn inner_mut(&mut self) -> (inner: &mut T)
        ensures
            *inner == old(self).stream(),
            final(self).stream() == *final(inner),
            final(self).shared_counter() == old(self).shared_counter(),
    {
        &mut self.inner
    }

    /// Records a read that filled the buffer from `before` to `after` bytes: the
    /// difference is added to the shared counter, where it is not zero. Returns it.
    pub fn record_read(&self, before: usize, after: usize) -> (read: u64)
        requires
            before <= after,
        ensures
            read == after - before,
    {
        let read = bytes_between(before, after);
        if read > 0 {
            self.counter.fetch_add(read, Ordering::Relaxed);
        }
        read
    }
}

} // verus!
