//! A bipartite ring buffer with read leases.
//!
//! A [`Buffer`] is a fixed region of bytes under a [`tracker::Tracker`].
//! Writers append whole payloads; a reader is lent one contiguous run of
//! unread bytes at a time and gives it back when done. A payload is never
//! split: one that does not fit behind the write cursor goes to the start of
//! the region, or is refused. Bytes under a lease are not overwritten.
//!
//! [`buffer`] shares one buffer between a reader and any number of writers,
//! and [`sink`] drains such a buffer towards a byte sink. [`history`] follows
//! a buffer through any sequence of calls and shows that what the reader is
//! lent is what the writers appended, in order.

use crate::tracker::Offsets;
use crate::tracker::ReadLease;
use crate::tracker::Span;
use crate::tracker::Tracker;
use vstd::prelude::*;

pub mod buffer;
pub mod history;
pub mod sink;
pub mod tracker;

verus! {

/// The model of a buffer: the tracker's cursors and the bytes of the region.
pub struct Region {
    pub offsets: Offsets,
    pub bytes: Seq<u8>,
}

/// The model of a lease: the span it pins and the bytes it shows.
pub struct LeaseView {
    pub span: Span,
    pub bytes: Seq<u8>,
}

impl Region {
    /// A region of `capacity` zero bytes with nothing written.
    pub open spec fn empty(capacity: nat) -> Region {
        Region { offsets: Offsets::empty(capacity), bytes: Seq::new(capacity, |i: int| 0u8) }
    }

    /// The invariant of every buffer.
    pub open spec fn wf(self) -> bool {
        self.offsets.wf() && self.bytes.len() == self.offsets.capacity
    }

    /// The bytes that lie in `span`.
    pub open spec fn slice(self, span: Span) -> Seq<u8> {
        self.bytes.subrange(span.start, span.end())
    }

    /// The bytes written and not yet released, oldest first: the tail, and
    /// behind it the head if the region has wrapped.
    pub open spec fn unread(self) -> Seq<u8> {
        let o = self.offsets;
        if o.inverted_at == 0 {
            self.bytes.subrange(o.read_offset as int, o.write_offset as int)
        } else if o.write_offset == o.inverted_at {
            self.bytes.subrange(o.read_offset as int, o.inverted_at as int)
        } else {
            self.bytes.subrange(o.read_offset as int, o.inverted_at as int) + self.bytes.subrange(
                0,
                o.write_offset as int,
            )
        }
    }

    /// Whether a payload of `n` bytes is accepted: an empty one always, any
    /// other if the tracker grants it room.
    pub open spec fn accepts(self, n: nat) -> bool {
        n == 0 || self.offsets.write_grant(n) is Some
    }

    /// The bytes of the region once `p` has been copied to `start`.
    pub open spec fn bytes_with(self, start: int, p: Seq<u8>) -> Seq<u8> {
        Seq::new(
            self.bytes.len(),
            |i: int|
                if start <= i < start + p.len() {
                    p[i - start]
                } else {
                    self.bytes[i]
                },
        )
    }

    /// The buffer after an attempt to write `p`: an accepted payload lies
    /// in the span granted to it and that span is committed; a refused one
    /// changes nothing.
    pub open spec fn after_write(self, p: Seq<u8>) -> Region {
        match self.offsets.write_grant(p.len()) {
            Some(w) if p.len() > 0 => Region {
                offsets: self.offsets.after_write(p.len()).after_commit(w),
                bytes: self.bytes_with(w.start, p),
            },
            _ => self,
        }
    }

    /// What a reader is lent, if there is anything to read.
    pub open spec fn lease(self) -> Option<LeaseView> {
        match self.offsets.read_grant() {
            Some(r) => Some(LeaseView { span: r, bytes: self.slice(r) }),
            None => None,
        }
    }

    /// The buffer after the lease on `r` is released.
    pub open spec fn after_release(self, r: Span) -> Region {
        Region { offsets: self.offsets.after_release(r), bytes: self.bytes }
    }

    /// Whether the lease on `r` may be released now.
    pub open spec fn releasable(self, r: Span) -> bool {
        self.offsets.settled() && self.offsets.pins(r)
    }

    /// `l` is outstanding: its span is pinned and it shows the bytes that
    /// lie there.
    pub open spec fn holds(self, l: LeaseView) -> bool {
        self.offsets.pins(l.span) && l.bytes == self.slice(l.span)
    }
}

/// An accepted payload is appended to the unread bytes.
pub proof fn lemma_write_appends(b: Region, p: Seq<u8>)
    requires
        b.wf(),
        b.accepts(p.len()),
    ensures
        b.after_write(p).wf(),
        b.after_write(p).offsets.settled() == b.offsets.settled(),
        b.after_write(p).unread() == b.unread() + p,
{
    let w = b.offsets.write_grant(p.len())->0;
    let a = b.after_write(p);
    let o = b.offsets;
    if p.len() == 0 {
        assert(b.unread() == b.unread() + p);
    } else if o.inverted_at == 0 && !o.fits(p.len()) {
        assert(a.bytes.subrange(o.read_offset as int, o.write_offset as int) == b.bytes.subrange(
            o.read_offset as int,
            o.write_offset as int,
        ));
        assert(a.bytes.subrange(0, p.len() as int) == p);
    } else if o.inverted_at == 0 {
        assert(a.bytes.subrange(o.read_offset as int, w.end()) == b.bytes.subrange(
            o.read_offset as int,
            o.write_offset as int,
        ) + p);
    } else {
        assert(a.bytes.subrange(o.read_offset as int, o.inverted_at as int) == b.bytes.subrange(
            o.read_offset as int,
            o.inverted_at as int,
        ));
        assert(a.bytes.subrange(0, w.end()) == b.bytes.subrange(
            0,
            o.write_offset as int,
        ) + p);
    }
}

/// No write changes a byte under an outstanding lease, nor the pin of that
/// lease.
pub proof fn lemma_write_keeps_lease(b: Region, p: Seq<u8>, l: LeaseView)
    requires
        b.wf(),
        b.holds(l),
    ensures
        b.after_write(p).holds(l),
{
    if p.len() > 0 && b.accepts(p.len()) {
        let a = b.after_write(p);
        assert(a.slice(l.span) == b.slice(l.span));
    }
}

/// What a reader is lent is a non-empty run of bytes inside the region, the
/// oldest unread ones, and the lease is outstanding from then on. A reader
/// is lent nothing only if nothing is unread.
pub proof fn lemma_lease_is_oldest(b: Region)
    requires
        b.wf(),
    ensures
        match b.lease() {
            Some(l) => {
                &&& b.holds(l)
                &&& 0 < l.bytes.len() == l.span.len
                &&& 0 <= l.span.start && l.span.end() <= b.offsets.capacity
                &&& l.bytes.is_prefix_of(b.unread())
            },
            None => b.unread().len() == 0,
        },
        b.unread().len() == b.offsets.unread(),
{
}

/// Releasing a lease takes the bytes under it from the front of the unread
/// bytes and leaves the bytes of the region as they are.
pub proof fn lemma_release_consumes(b: Region, r: Span)
    requires
        b.wf(),
        b.releasable(r),
    ensures
        b.after_release(r).wf(),
        b.after_release(r).offsets.settled(),
        b.after_release(r).bytes == b.bytes,
        b.unread() == b.slice(r) + b.after_release(r).unread(),
{
    let o = b.offsets;
    let a = b.after_release(r);
    if o.inverted_at != 0 && r.end() != o.inverted_at {
        assert(b.bytes.subrange(o.read_offset as int, o.inverted_at as int) == b.slice(r)
            + b.bytes.subrange(r.end(), o.inverted_at as int));
    }
    assert(b.unread() == b.slice(r) + a.unread());
}

/// A payload that fills a fresh region exactly is accepted, and the reader
/// is then lent the whole payload in one lease.
pub proof fn lemma_exact_fill(capacity: nat, p: Seq<u8>)
    requires
        capacity > 0,
        p.len() == capacity,
    ensures
        Region::empty(capacity).accepts(p.len()),
        Region::empty(capacity).after_write(p).lease() == Some(
            LeaseView { span: Span { start: 0, len: capacity as int }, bytes: p },
        ),
{
    let a = Region::empty(capacity).after_write(p);
    assert(a.bytes.subrange(0, capacity as int) == p);
}

/// A lease on the oldest unread bytes of a [`Buffer`].
///
/// The lease shows the bytes in `view`. It does not follow the buffer: it
/// keeps what it showed when it was lent, and the buffer keeps those bytes
/// in place until the lease is released.
pub struct Lease {
    pub view: Vec<u8>,
    pub span: ReadLease,
}

impl View for Lease {
    type V = LeaseView;

    open spec fn view(&self) -> LeaseView {
        LeaseView { span: self.span@, bytes: self.view@ }
    }
}

/// A fixed region of bytes used as a bipartite ring buffer.
pub struct Buffer {
    tracker: Tracker,
    buf: Vec<u8>,
}

impl View for Buffer {
    type V = Region;

    closed spec fn view(&self) -> Region {
        Region { offsets: self.tracker@, bytes: self.buf@ }
    }
}

impl Buffer {
    #[verifier::type_invariant]
    spec fn inv(self) -> bool {
        self.buf@.len() == self.tracker@.capacity
    }

    /// A buffer of `cap` bytes with nothing written.
    pub fn new(cap: usize) -> (buffer: Buffer)
        requires
            cap > 0,
        ensures
            buffer@ == Region::empty(cap as nat),
            buffer@.wf(),
    {
        let buffer = Buffer { tracker: Tracker::new(cap), buf: vec![0u8; cap] };
        assert(buffer.buf@ =~= Region::empty(cap as nat).bytes);
        buffer
    }

    /// The tracker of the buffer.
    pub fn tracker(&self) -> (tracker: &Tracker)
        ensures
            tracker@ == self@.offsets,
    {
        &self.tracker
    }

    /// Appends `p` as a whole, or refuses it.
    ///
    /// The payload is accepted if it fits behind the write cursor, or if
    /// the region has not wrapped yet and the reader has freed that many
    /// bytes at its start. An empty payload is always accepted and changes
    /// nothing. No byte under an outstanding lease is touched.
    pub fn write(&mut self, p: &[u8]) -> (accepted: bool)
        ensures
            accepted == old(self)@.accepts(p@.len()),
            final(self)@ == old(self)@.after_write(p@),
            final(self)@.wf(),
            final(self)@.offsets.settled() == old(self)@.offsets.settled(),
            accepted ==> final(self)@.unread() == old(self)@.unread() + p@,
            p@.len() == 0 ==> accepted && final(self)@ == old(self)@,
            p@.len() > old(self)@.offsets.capacity ==> !accepted,
            forall|l: LeaseView| old(self)@.holds(l) ==> final(self)@.holds(l),
    {
        proof {
            use_type_invariant(&*self);
            use_type_invariant(&self.tracker);
            if old(self)@.accepts(p@.len()) {
                lemma_write_appends(old(self)@, p@);
            }
            assert forall|l: LeaseView| old(self)@.holds(l) implies old(self)@.after_write(
                p@,
            ).holds(l) by {
                lemma_write_keeps_lease(old(self)@, p@, l);
            }
        }
        let n = p.len();
        if n == 0 {
            return true;
        }
        proof {
            crate::tracker::lemma_write_grant_in_bounds(self.tracker@, n as nat);
            assert(self.buf.len() <= usize::MAX);
        }
        let granted = self.tracker.write(n);
        match granted {
            None => false,
            Some(w) => {
                let start = w.start;
                let mut i: usize = 0;
                while i < n
                    invariant
                        i <= n == p@.len(),
                        start + n <= self.buf@.len() == old(self).buf@.len() <= usize::MAX,
                        self.tracker@ == old(self).tracker@.after_write(n as nat),
                        self.buf@.len() == self.tracker@.capacity,
                        forall|j: int|
                            0 <= j < self.buf@.len() ==> self.buf@[j] == if start <= j < start + i {
                                p@[j - start]
                            } else {
                                old(self).buf@[j]
                            },
                    decreases n - i,
                {
                    self.buf[start + i] = p[i];
                    i += 1;
                }
                self.tracker.commit(w);
                assert(self.buf@ =~= old(self)@.bytes_with(start as int, p@));
                true
            },
        }
    }

    /// Lends the oldest unread bytes, as far as they are contiguous, or
    /// nothing if nothing is unread.
    pub fn read(&self) -> (lent: Option<Lease>)
        ensures
            match lent {
                Some(l) => self@.lease() == Some(l@) && self@.holds(l@) && 0 < l.view@.len()
                    == l.span.len && l.view@.is_prefix_of(self@.unread()),
                None => self@.lease() is None,
            },
            lent is Some <==> self@.unread().len() > 0,
    {
        proof {
            use_type_invariant(self);
            use_type_invariant(&self.tracker);
            lemma_lease_is_oldest(self@);
            crate::tracker::lemma_read_grant_contiguous(self.tracker@);
            assert(self.buf.len() <= usize::MAX);
        }
        match self.tracker.peek() {
            None => None,
            Some(r) => {
                let mut view: Vec<u8> = Vec::with_capacity(r.len);
                let end = r.start + r.len;
                let mut i: usize = r.start;
                while i < end
                    invariant
                        r.start <= i <= end <= self.buf@.len(),
                        view@ == self.buf@.subrange(r.start as int, i as int),
                    decreases end - i,
                {
                    view.push(self.buf[i]);
                    i += 1;
                }
                Some(Lease { view, span: r })
            },
        }
    }

    /// Takes a lease back. The bytes under it leave the unread bytes and
    /// their place becomes writable again.
    pub fn release(&mut self, l: Lease)
        requires
            old(self)@.releasable(l@.span),
        ensures
            final(self)@ == old(self)@.after_release(l@.span),
            final(self)@.wf(),
            final(self)@.offsets.settled(),
            old(self)@.unread() == old(self)@.slice(l@.span) + final(self)@.unread(),
    {
        proof {
            use_type_invariant(&*self);
            use_type_invariant(&self.tracker);
            lemma_release_consumes(old(self)@, l@.span);
        }
        self.tracker.release(l.span);
    }

    /// Takes the lease on `r` back if it is outstanding and may be released
    /// now, and says whether it did. Otherwise nothing changes.
    pub fn release_if_pinned(&mut self, r: ReadLease) -> (released: bool)
        ensures
            released == old(self)@.releasable(r@),
            final(self)@ == if released {
                old(self)@.after_release(r@)
            } else {
                old(self)@
            },
            final(self)@.wf(),
            released ==> old(self)@.unread() == old(self)@.slice(r@) + final(self)@.unread(),
        opens_invariants none
        no_unwind
    {
        proof {
            use_type_invariant(&*self);
            use_type_invariant(&self.tracker);
            if old(self)@.releasable(r@) {
                lemma_release_consumes(old(self)@, r@);
            }
        }
        if self.tracker.is_pinned(&r) {
            self.tracker.release(r);
            true
        } else {
            false
        }
    }
}

} // verus!
