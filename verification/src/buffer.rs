//! One buffer shared between a reader and any number of writers.
//!
//! [`create`] makes a [`Buffer`] and hands out its two ends. The buffer
//! lives behind a mutex: every call on an end locks it, works on the buffer
//! and unlocks it before it returns. What a call finds there depends on
//! what the other end did in the meantime, so the contracts of this module
//! state what holds of every outcome; what a call does to the buffer that it
//! finds is stated on [`Buffer::write`], [`Buffer::read`] and
//! [`Buffer::release_if_pinned`]. The size of the buffer does not depend on
//! what the ends do: it stands beside the mutex, and the ends know it.

use crate::tracker::ReadLease;
use crate::Buffer;
use crate::LeaseView;
use std::ops::DerefMut;
use std::sync::Arc;
use std::sync::Mutex;
use std::sync::MutexGuard;
use std::sync::PoisonError;
use vstd::prelude::*;

verus! {

/// `std::sync::Mutex`, as a type of which nothing is known.
#[verifier::external_type_specification]
#[verifier::external_body]
#[verifier::reject_recursive_types(T)]
pub struct ExMutex<T: ?Sized>(Mutex<T>);

/// `std::sync::MutexGuard`, as a type of which nothing is known.
#[verifier::external_type_specification]
#[verifier::external_body]
#[verifier::reject_recursive_types(T)]
pub struct ExMutexGuard<'a, T: ?Sized + 'a>(MutexGuard<'a, T>);

/// `std::sync::PoisonError`, as a type of which nothing is known.
#[verifier::external_type_specification]
#[verifier::external_body]
#[verifier::reject_recursive_types(T)]
pub struct ExPoisonError<T>(PoisonError<T>);

/// `Mutex::new`: a mutex that guards `t`. Nothing is claimed of it.
pub assume_specification<T>[ Mutex::<T>::new ](t: T) -> (mutex: Mutex<T>)
;

/// `Mutex::lock`: blocks until the mutex is free and returns its guard, or
/// the guard inside an error if a thread panicked while it held the mutex.
/// Nothing is claimed of the buffer behind the guard.
///
/// The standard library may panic or block for ever where the calling
/// thread holds the mutex already. No function of this module locks while it
/// holds a guard, and no guard leaves this module.
#[verifier::external_body]
fn lock<'a>(mutex: &'a Mutex<Buffer>) -> (locked: Result<
    MutexGuard<'a, Buffer>,
    PoisonError<MutexGuard<'a, Buffer>>,
>)
    opens_invariants none
    no_unwind
{
    mutex.lock()
}

/// `PoisonError::into_inner`: the guard that the error holds.
#[verifier::external_body]
fn into_guard<'a>(poisoned: PoisonError<MutexGuard<'a, Buffer>>) -> (guard: MutexGuard<'a, Buffer>)
    opens_invariants none
    no_unwind
{
    poisoned.into_inner()
}

/// `DerefMut::deref_mut` of a guard: the buffer that the mutex guards.
/// Nothing is claimed of what the buffer holds.
#[verifier::external_body]
fn guarded<'a, 'b>(guard: &'a mut MutexGuard<'b, Buffer>) -> (buffer: &'a mut Buffer)
    opens_invariants none
    no_unwind
{
    guard.deref_mut()
}

/// Locks `mutex`. A poisoned mutex is taken over: the buffer behind it is
/// well formed whatever became of the thread that held it.
fn acquire<'a>(mutex: &'a Mutex<Buffer>) -> (guard: MutexGuard<'a, Buffer>)
    opens_invariants none
    no_unwind
{
    match lock(mutex) {
        Ok(guard) => guard,
        Err(poisoned) => into_guard(poisoned),
    }
}

/// What the ends of a buffer share: the buffer behind its mutex, and
/// beside the mutex the size of the buffer, which never changes.
struct Shared {
    capacity: usize,
    buffer: Mutex<Buffer>,
}

/// The reading end of a shared buffer. There is one, and it lends one
/// lease at a time.
pub struct Reader(Arc<Shared>);

/// A writing end of a shared buffer. Clones write to the same buffer.
#[derive(Clone)]
pub struct Writer(Arc<Shared>);

/// Makes a buffer of `capacity` bytes and returns its two ends.
pub fn create(capacity: usize) -> (ends: (Reader, Writer))
    requires
        capacity > 0,
    ensures
        ends.0.capacity() == capacity,
        ends.1.capacity() == capacity,
        ends.0.shares(&ends.1),
{
    let shared = Arc::new(Shared { capacity, buffer: Mutex::new(Buffer::new(capacity)) });
    (Reader(shared.clone()), Writer(shared))
}

impl Writer {
    /// The size of the shared buffer.
    pub closed spec fn capacity(&self) -> nat {
        self.0.capacity as nat
    }

    /// Appends `p` to the shared buffer as a whole, or refuses it, as
    /// [`Buffer::write`] decides on the buffer that it finds. An empty
    /// payload is always accepted. A payload larger than the buffer is
    /// refused whatever the buffer holds, and without taking the lock. The
    /// end itself stays as it was.
    pub fn try_write(&mut self, p: &[u8]) -> (accepted: bool)
        ensures
            p@.len() == 0 ==> accepted,
            p@.len() > old(self).capacity() ==> !accepted,
            *final(self) == *old(self),
    {
        if p.len() > self.0.capacity {
            return false;
        }
        let mut guard = acquire(&self.0.buffer);
        let buffer = guarded(&mut guard);
        buffer.write(p)
    }
}

impl Reader {
    /// The size of the shared buffer.
    pub closed spec fn capacity(&self) -> nat {
        self.0.capacity as nat
    }

    /// Whether `writer` writes to the buffer that this end reads: both
    /// hold the same mutex.
    pub closed spec fn shares(&self, writer: &Writer) -> bool {
        self.0 == writer.0
    }

    /// Lends the oldest unread bytes of the shared buffer, as far as they
    /// are contiguous, or nothing if [`Buffer::read`] finds nothing unread.
    /// The lease keeps its bytes in place until it is dropped, and it is
    /// this end that it gives them back to. An end that lends nothing stays
    /// as it was.
    pub fn read(&mut self) -> (lent: Option<Lease<'_>>)
        ensures
            match lent {
                Some(l) => 0 < l@.bytes.len() == l@.span.len && l.lender() == *old(self),
                None => *final(self) == *old(self),
            },
    {
        let lent = {
            let mut guard = acquire(&self.0.buffer);
            let buffer = guarded(&mut guard);
            buffer.read()
        };
        match lent {
            None => None,
            Some(l) => Some(self.lend(l)),
        }
    }

    /// Turns a lease of the buffer into a lease of this end: the same span
    /// and the same bytes, bound to this end, which takes the span back when
    /// the lease is dropped. A span that the shared buffer does not hold
    /// pinned by then is not taken back.
    pub fn lend(&mut self, l: crate::Lease) -> (lease: Lease<'_>)
        ensures
            lease@ == l@,
            lease.lender() == *old(self),
    {
        Lease { reader: self, lease: l.span, view: l.view }
    }
}

/// A lease on bytes of a shared buffer, released when it is dropped.
///
/// `view` holds the bytes. Writers may go on appending while the lease
/// lives: they do not touch the bytes under it.
pub struct Lease<'a> {
    reader: &'a mut Reader,
    lease: ReadLease,
    pub view: Vec<u8>,
}

impl View for Lease<'_> {
    type V = LeaseView;

    closed spec fn view(&self) -> LeaseView {
        LeaseView { span: self.lease@, bytes: self.view@ }
    }
}

impl Lease<'_> {
    /// The end that lent the lease and takes its span back.
    pub closed spec fn lender(&self) -> Reader {
        *self.reader
    }

    /// The span that the lease pins.
    pub fn span(&self) -> (span: ReadLease)
        ensures
            span@ == self@.span,
        opens_invariants none
        no_unwind
    {
        ReadLease { start: self.lease.start, len: self.lease.len }
    }
}

impl Drop for Lease<'_> {
    /// Gives the span back to the shared buffer, as
    /// [`Buffer::release_if_pinned`] does on the buffer that it finds.
    fn drop(&mut self)
        opens_invariants none
        no_unwind
    {
        let lease = self.span();
        let mut guard = acquire(&self.reader.0.buffer);
        let buffer = guarded(&mut guard);
        buffer.release_if_pinned(lease);
    }
}

} // verus!
