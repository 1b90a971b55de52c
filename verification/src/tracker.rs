//! Offset bookkeeping for a bipartite ring buffer.
//!
//! A [`Tracker`] holds no bytes. It decides where the next write may be
//! placed and which contiguous span a reader may observe, and it keeps the
//! two apart. Its behaviour is stated over [`Offsets`], the mathematical
//! model of its cursors, and the laws at the end of this file are proved of
//! that model.
//!
//! A writer asks for room with [`Tracker::write`] and makes what it wrote
//! readable with [`Tracker::commit`]. A reader asks for a span with
//! [`Tracker::read`] and gives it back with [`Tracker::release`]. Between
//! calls a tracker is *normal* (the data is one piece) or *inverted* (the
//! writer has wrapped to the start of the region and the reader is still in
//! the tail). The one exception is the time between the grant of a wrapping
//! write and its commit, when the tracker is *wrapping*: nothing but that
//! commit, or a read, is meant to happen then.

use std::ops::Range;
use vstd::prelude::*;

verus! {

/// A half-open range of byte indices, `[start, start + len)`.
pub struct Span {
    pub start: int,
    pub len: int,
}

impl Span {
    /// One past the last index of the span.
    pub open spec fn end(self) -> int {
        self.start + self.len
    }

    /// Whether index `i` lies in the span.
    pub open spec fn contains(self, i: int) -> bool {
        self.start <= i < self.end()
    }

    /// Whether the two spans share no index: one of them is empty, or one
    /// ends where the other has not yet begun.
    pub open spec fn disjoint(self, other: Span) -> bool {
        ||| self.len <= 0
        ||| other.len <= 0
        ||| self.end() <= other.start
        ||| other.end() <= self.start
    }
}

/// The model of a tracker: its capacity and its three cursors.
///
/// `inverted_at == 0` means that the data is one piece,
/// `[read_offset, write_offset)`. A positive `inverted_at` means that the
/// writer has wrapped: the data is the tail `[read_offset, inverted_at)`
/// followed by the head `[0, write_offset)`.
pub struct Offsets {
    pub capacity: nat,
    pub write_offset: nat,
    pub read_offset: nat,
    pub inverted_at: nat,
}

impl Offsets {
    /// The state of a fresh tracker.
    pub open spec fn empty(capacity: nat) -> Offsets {
        Offsets { capacity, write_offset: 0, read_offset: 0, inverted_at: 0 }
    }

    /// The data is one piece. A reader that has caught up with the writer
    /// finds both cursors back at the start of the region.
    pub open spec fn is_normal(self) -> bool {
        &&& self.inverted_at == 0
        &&& self.read_offset <= self.write_offset <= self.capacity
        &&& (self.read_offset == self.write_offset ==> self.write_offset == 0)
    }

    /// The writer has wrapped and fills the head of the region while the
    /// reader still has a non-empty tail before it. The write cursor meets
    /// the read cursor when the head is full.
    pub open spec fn is_inverted(self) -> bool {
        &&& self.inverted_at > 0
        &&& self.write_offset <= self.read_offset < self.inverted_at <= self.capacity
    }

    /// A wrapping write has been granted and not yet committed: the marker
    /// is set, the write cursor still stands at the end of the tail.
    pub open spec fn is_wrapping(self) -> bool {
        &&& self.inverted_at > 0
        &&& self.write_offset == self.inverted_at
        &&& 0 < self.read_offset < self.inverted_at <= self.capacity
    }

    /// No grant of a wrapping write is waiting for its commit.
    pub open spec fn settled(self) -> bool {
        self.is_normal() || self.is_inverted()
    }

    /// The invariant of every tracker.
    pub open spec fn wf(self) -> bool {
        self.settled() || self.is_wrapping()
    }

    /// Where writable space contiguous with the write cursor ends.
    pub open spec fn write_cap(self) -> nat {
        if self.inverted_at > 0 {
            self.read_offset
        } else {
            self.capacity
        }
    }

    /// Where the span that a reader may observe ends.
    pub open spec fn read_end(self) -> nat {
        if self.inverted_at > 0 {
            self.inverted_at
        } else {
            self.write_offset
        }
    }

    /// The number of bytes written and not yet released.
    pub open spec fn unread(self) -> int {
        if self.inverted_at == 0 {
            self.write_offset - self.read_offset
        } else if self.write_offset == self.inverted_at {
            self.inverted_at - self.read_offset
        } else {
            (self.inverted_at - self.read_offset) + self.write_offset
        }
    }

    /// `n` bytes fit behind the write cursor.
    pub open spec fn fits(self, n: nat) -> bool {
        self.write_offset + n <= self.write_cap()
    }

    /// `n` bytes do not fit behind the write cursor, but the region has not
    /// wrapped yet and the reader has left at least `n` bytes free at its
    /// start.
    pub open spec fn wraps(self, n: nat) -> bool {
        !self.fits(n) && self.inverted_at == 0 && n <= self.read_offset
    }

    /// The span granted to a write of `n` bytes, if any.
    pub open spec fn write_grant(self, n: nat) -> Option<Span> {
        if self.fits(n) {
            Some(Span { start: self.write_offset as int, len: n as int })
        } else if self.wraps(n) {
            Some(Span { start: 0, len: n as int })
        } else {
            None
        }
    }

    /// The state that a request to write `n` bytes leaves: a wrapping grant
    /// marks the end of the tail, any other outcome changes nothing.
    pub open spec fn after_write(self, n: nat) -> Offsets {
        if self.wraps(n) {
            Offsets {
                capacity: self.capacity,
                write_offset: self.write_offset,
                read_offset: self.read_offset,
                inverted_at: self.write_offset,
            }
        } else {
            self
        }
    }

    /// The state after the write granted as `w` is committed.
    pub open spec fn after_commit(self, w: Span) -> Offsets {
        Offsets {
            capacity: self.capacity,
            write_offset: w.end() as nat,
            read_offset: self.read_offset,
            inverted_at: self.inverted_at,
        }
    }

    /// The span granted to a reader, if there is anything to read.
    pub open spec fn read_grant(self) -> Option<Span> {
        if self.read_offset == self.read_end() {
            None
        } else {
            Some(Span { start: self.read_offset as int, len: self.read_end() - self.read_offset })
        }
    }

    /// The state after the read granted as `r` is released.
    pub open spec fn after_release(self, r: Span) -> Offsets {
        if r.end() == self.write_offset {
            Offsets {
                capacity: self.capacity,
                write_offset: 0,
                read_offset: 0,
                inverted_at: self.inverted_at,
            }
        } else if r.end() == self.inverted_at {
            Offsets {
                capacity: self.capacity,
                write_offset: self.write_offset,
                read_offset: 0,
                inverted_at: 0,
            }
        } else {
            Offsets {
                capacity: self.capacity,
                write_offset: self.write_offset,
                read_offset: r.end() as nat,
                inverted_at: self.inverted_at,
            }
        }
    }

    /// `w` is a write lease that may be committed in this state: the lease
    /// of the wrapping write that is under way, or else a span that starts
    /// at the write cursor and fits behind it.
    pub open spec fn awaits(self, w: Span) -> bool {
        if self.is_wrapping() {
            w.start == 0 && 0 <= w.len <= self.read_offset
        } else {
            w.start == self.write_offset && 0 <= w.len && w.end() <= self.write_cap()
        }
    }

    /// `r` is a read lease that is outstanding in this state: a non-empty
    /// span that starts at the read cursor and ends within what a reader may
    /// observe.
    pub open spec fn pins(self, r: Span) -> bool {
        r.start == self.read_offset && 0 < r.len && r.end() <= self.read_end()
    }
}

/// A reservation of `[start, start + len)` for one write.
#[derive(PartialEq, Eq, Debug)]
pub struct WriteLease {
    pub start: usize,
    pub len: usize,
}

impl View for WriteLease {
    type V = Span;

    open spec fn view(&self) -> Span {
        Span { start: self.start as int, len: self.len as int }
    }
}

impl WriteLease {
    /// The lease that covers `range`.
    pub fn new(range: Range<usize>) -> (lease: WriteLease)
        requires
            range.start <= range.end,
        ensures
            lease.start == range.start,
            lease.len == range.end - range.start,
        no_unwind
    {
        WriteLease { start: range.start, len: range.end - range.start }
    }
}

/// A pin on `[start, start + len)` for one reader.
#[derive(PartialEq, Eq, Debug)]
pub struct ReadLease {
    pub start: usize,
    pub len: usize,
}

impl View for ReadLease {
    type V = Span;

    open spec fn view(&self) -> Span {
        Span { start: self.start as int, len: self.len as int }
    }
}

impl ReadLease {
    /// The lease that covers `range`.
    pub fn new(range: Range<usize>) -> (lease: ReadLease)
        requires
            range.start <= range.end,
        ensures
            lease.start == range.start,
            lease.len == range.end - range.start,
        no_unwind
    {
        ReadLease { start: range.start, len: range.end - range.start }
    }
}

/// The offset state machine of a bipartite ring buffer of fixed capacity.
pub struct Tracker {
    capacity: usize,
    write_offset: usize,
    read_offset: usize,
    inverted_at: usize,
}

impl View for Tracker {
    type V = Offsets;

    closed spec fn view(&self) -> Offsets {
        Offsets {
            capacity: self.capacity as nat,
            write_offset: self.write_offset as nat,
            read_offset: self.read_offset as nat,
            inverted_at: self.inverted_at as nat,
        }
    }
}

impl Tracker {
    /// Holds of every tracker at all times.
    #[verifier::type_invariant]
    pub open spec fn inv(self) -> bool {
        self@.wf()
    }

    /// A tracker for a region of `capacity` bytes, with nothing written.
    pub fn new(capacity: usize) -> (tracker: Tracker)
        ensures
            tracker@ == Offsets::empty(capacity as nat),
            tracker@.wf(),
    {
        Tracker { capacity, write_offset: 0, read_offset: 0, inverted_at: 0 }
    }

    /// Asks for room for `sz` bytes.
    ///
    /// The bytes are granted behind the write cursor if they fit there, and
    /// otherwise at the start of the region if the region has not wrapped
    /// yet and the reader has freed that much. Only a wrapping grant changes
    /// the tracker: it marks where the tail ends. The grant is committed with
    /// [`Tracker::commit`]; a grant that did not wrap may also be abandoned.
    pub fn write(&mut self, sz: usize) -> (granted: Option<WriteLease>)
        ensures
            final(self)@ == old(self)@.after_write(sz as nat),
            final(self)@.wf(),
            final(self)@.unread() == old(self)@.unread(),
            match granted {
                Some(w) => {
                    &&& old(self)@.write_grant(sz as nat) == Some(w@)
                    &&& w.len == sz
                    &&& w.start + w.len <= old(self)@.capacity
                    &&& final(self)@.awaits(w@)
                    &&& forall|r: Span| old(self)@.pins(r) ==> w@.disjoint(r)
                },
                None => old(self)@.write_grant(sz as nat) is None,
            },
            sz > old(self)@.capacity ==> granted is None,
            forall|r: Span| old(self)@.pins(r) ==> final(self)@.pins(r),
        no_unwind
    {
        proof {
            use_type_invariant(&*self);
        }
        let already_inverted = self.inverted_at > 0;
        let write_cap = if already_inverted {
            self.read_offset
        } else {
            self.capacity
        };
        let start = if self.write_offset <= write_cap && sz <= write_cap - self.write_offset {
            self.write_offset
        } else if !already_inverted && sz <= self.read_offset {
            self.inverted_at = self.write_offset;
            0
        } else {
            return None;
        };
        Some(WriteLease::new(start..start + sz))
    }

    /// Grants the reader everything contiguous from the read cursor on, or
    /// nothing if nothing is unread. The read cursor stays where it is until
    /// the lease is released.
    pub fn read(&mut self) -> (granted: Option<ReadLease>)
        ensures
            final(self)@ == old(self)@,
            final(self)@.wf(),
            match granted {
                Some(r) => {
                    &&& old(self)@.read_grant() == Some(r@)
                    &&& 0 < r.len
                    &&& r.start + r.len <= old(self)@.capacity
                    &&& final(self)@.pins(r@)
                },
                None => old(self)@.read_grant() is None,
            },
            granted is Some <==> old(self)@.unread() > 0,
        no_unwind
    {
        self.peek()
    }

    /// What [`Tracker::read`] grants, for a caller that holds the tracker by
    /// shared reference.
    pub fn peek(&self) -> (granted: Option<ReadLease>)
        ensures
            self@.wf(),
            match granted {
                Some(r) => {
                    &&& self@.read_grant() == Some(r@)
                    &&& 0 < r.len
                    &&& r.start + r.len <= self@.capacity
                    &&& self@.pins(r@)
                },
                None => self@.read_grant() is None,
            },
            granted is Some <==> self@.unread() > 0,
        no_unwind
    {
        proof {
            use_type_invariant(self);
        }
        let start = self.read_offset;
        let end = if self.inverted_at > 0 {
            self.inverted_at
        } else {
            self.write_offset
        };
        if start == end {
            return None;
        }
        Some(ReadLease::new(start..end))
    }

    /// Makes the bytes of a granted write readable.
    pub fn commit(&mut self, w: WriteLease)
        requires
            old(self)@.awaits(w@),
        ensures
            final(self)@ == old(self)@.after_commit(w@),
            final(self)@.settled(),
            final(self)@.unread() == old(self)@.unread() + w.len,
            forall|r: Span| old(self)@.pins(r) ==> final(self)@.pins(r),
        no_unwind
    {
        proof {
            use_type_invariant(&*self);
        }
        self.write_offset = w.start + w.len;
    }

    /// Gives the bytes of a granted read back to the writer.
    ///
    /// A reader that has caught up with the writer sends both cursors back
    /// to the start of the region. A reader that has drained the tail of a
    /// wrapped region goes on at the start, and the region is no longer
    /// wrapped. Any other release moves the read cursor to the lease's end.
    pub fn release(&mut self, r: ReadLease)
        requires
            old(self)@.settled(),
            old(self)@.pins(r@),
        ensures
            final(self)@ == old(self)@.after_release(r@),
            final(self)@.settled(),
            final(self)@.unread() == old(self)@.unread() - r.len,
        opens_invariants none
        no_unwind
    {
        proof {
            use_type_invariant(&*self);
        }
        let end = r.start + r.len;
        if end == self.write_offset {
            self.read_offset = 0;
            self.write_offset = 0;
        } else if end == self.inverted_at {
            *self = Tracker {
                capacity: self.capacity,
                write_offset: self.write_offset,
                read_offset: 0,
                inverted_at: 0,
            };
        } else {
            self.read_offset = end;
        }
    }

    /// The number of bytes written and not yet released.
    pub fn unread(&self) -> (unread: usize)
        ensures
            unread == self@.unread(),
    {
        proof {
            use_type_invariant(self);
        }
        if self.inverted_at == 0 {
            self.write_offset - self.read_offset
        } else if self.write_offset == self.inverted_at {
            self.inverted_at - self.read_offset
        } else {
            (self.inverted_at - self.read_offset) + self.write_offset
        }
    }

    /// Whether `r` is outstanding and may be released now.
    pub fn is_pinned(&self, r: &ReadLease) -> (pinned: bool)
        ensures
            pinned == (self@.settled() && self@.pins(r@)),
        opens_invariants none
        no_unwind
    {
        proof {
            use_type_invariant(self);
        }
        let inverted = self.inverted_at > 0;
        let wrapping = inverted && self.write_offset == self.inverted_at;
        let end = if inverted {
            self.inverted_at
        } else {
            self.write_offset
        };
        !wrapping && r.start == self.read_offset && r.len > 0 && r.len <= end - r.start
    }

    /// The size of the region.
    pub fn capacity(&self) -> (capacity: usize)
        ensures
            capacity == self@.capacity,
    {
        self.capacity
    }

    /// Where the next write begins.
    pub fn write_offset(&self) -> (offset: usize)
        ensures
            offset == self@.write_offset,
    {
        self.write_offset
    }

    /// Where the next read begins.
    pub fn read_offset(&self) -> (offset: usize)
        ensures
            offset == self@.read_offset,
    {
        self.read_offset
    }

    /// Where the tail of a wrapped region ends, or 0 if the region has not
    /// wrapped.
    pub fn inverted_at(&self) -> (offset: usize)
        ensures
            offset == self@.inverted_at,
    {
        self.inverted_at
    }
}

/// One call on a tracker.
pub enum Op {
    /// A request for room for `n` bytes.
    Write { n: nat },
    /// The commit of the write lease `w`.
    Commit { w: Span },
    /// A request for a read lease.
    Read,
    /// The release of the read lease `r`.
    Release { r: Span },
}

impl Offsets {
    /// Whether the call `op` is allowed in this state.
    pub open spec fn admits(self, op: Op) -> bool {
        match op {
            Op::Write { n } => true,
            Op::Commit { w } => self.awaits(w),
            Op::Read => true,
            Op::Release { r } => self.settled() && self.pins(r),
        }
    }

    /// The state after the call `op`.
    pub open spec fn apply(self, op: Op) -> Offsets {
        match op {
            Op::Write { n } => self.after_write(n),
            Op::Commit { w } => self.after_commit(w),
            Op::Read => self,
            Op::Release { r } => self.after_release(r),
        }
    }

    /// The state after the calls `ops`, made in order.
    pub open spec fn run(self, ops: Seq<Op>) -> Offsets
        decreases ops.len(),
    {
        if ops.len() == 0 {
            self
        } else {
            self.run(ops.drop_last()).apply(ops.last())
        }
    }

    /// Whether each of the calls `ops`, made in order, is allowed in the
    /// state that it meets.
    pub open spec fn admits_all(self, ops: Seq<Op>) -> bool
        decreases ops.len(),
    {
        ops.len() == 0 || (self.admits_all(ops.drop_last()) && self.run(ops.drop_last()).admits(
            ops.last(),
        ))
    }
}

/// The sum of the sizes of the writes committed in `ops`.
pub open spec fn committed(ops: Seq<Op>) -> int
    decreases ops.len(),
{
    if ops.len() == 0 {
        0
    } else {
        committed(ops.drop_last()) + match ops.last() {
            Op::Commit { w } => w.len,
            _ => 0,
        }
    }
}

/// The sum of the sizes of the reads released in `ops`.
pub open spec fn released(ops: Seq<Op>) -> int
    decreases ops.len(),
{
    if ops.len() == 0 {
        0
    } else {
        released(ops.drop_last()) + match ops.last() {
            Op::Release { r } => r.len,
            _ => 0,
        }
    }
}

/// Every allowed call keeps the invariant, and the tracker is normal or
/// inverted after it, with one exception: a write that is granted by
/// wrapping leaves the tracker wrapping, and the commit of that grant makes
/// it inverted.
pub proof fn lemma_phases(s: Offsets, op: Op)
    requires
        s.wf(),
        s.admits(op),
    ensures
        s.apply(op).wf(),
        s.apply(op).capacity == s.capacity,
        op is Commit || op is Release ==> s.apply(op).settled(),
        s.settled() && !(op is Write && s.wraps(op->n)) ==> s.apply(op).settled(),
        op is Write && s.wraps(op->n) ==> s.is_normal() && s.apply(op).is_wrapping(),
        s.is_wrapping() && op is Commit ==> s.apply(op).is_inverted(),
{
}

/// The unread size moves with commits and releases only: a commit adds the
/// size of its lease, a release takes the size of its lease away.
pub proof fn lemma_unread_step(s: Offsets, op: Op)
    requires
        s.wf(),
        s.admits(op),
    ensures
        s.apply(op).unread() == s.unread() + match op {
            Op::Commit { w } => w.len,
            Op::Release { r } => -r.len,
            _ => 0,
        },
        0 <= s.unread() <= s.capacity,
{
}

/// Over any sequence of allowed calls on a fresh tracker, the invariant
/// holds at the end and the unread size is the sum of the committed write
/// sizes minus the sum of the released read sizes.
pub proof fn lemma_accounting(capacity: nat, ops: Seq<Op>)
    requires
        Offsets::empty(capacity).admits_all(ops),
    ensures
        Offsets::empty(capacity).run(ops).wf(),
        Offsets::empty(capacity).run(ops).capacity == capacity,
        Offsets::empty(capacity).run(ops).unread() == committed(ops) - released(ops),
    decreases ops.len(),
{
    if ops.len() > 0 {
        let before = Offsets::empty(capacity).run(ops.drop_last());
        lemma_accounting(capacity, ops.drop_last());
        lemma_phases(before, ops.last());
        lemma_unread_step(before, ops.last());
    }
}

/// What a reader is granted is one non-empty span inside the region, which
/// the grant pins; a reader is granted nothing only if nothing is unread.
pub proof fn lemma_read_grant_contiguous(s: Offsets)
    requires
        s.wf(),
    ensures
        match s.read_grant() {
            Some(r) => 0 <= r.start < r.end() <= s.capacity && s.pins(r),
            None => s.unread() == 0,
        },
{
}

/// What a writer is granted has the size asked for, lies inside the region
/// and may be committed in the state that the request leaves.
pub proof fn lemma_write_grant_in_bounds(s: Offsets, n: nat)
    requires
        s.wf(),
    ensures
        match s.write_grant(n) {
            Some(w) => w.len == n && 0 <= w.start && w.end() <= s.capacity && s.after_write(
                n,
            ).awaits(w),
            None => s.after_write(n) == s,
        },
{
}

/// A write lease and a read lease that are outstanding at the same time
/// share no byte.
pub proof fn lemma_leases_disjoint(s: Offsets, w: Span, r: Span)
    requires
        s.wf(),
        s.awaits(w),
        s.pins(r),
    ensures
        w.disjoint(r),
        w.end() <= r.start || r.end() <= w.start,
{
}

/// Neither a request to write nor a commit unpins an outstanding read
/// lease: the read cursor stays at the lease's start and the lease stays
/// inside what a reader may observe.
pub proof fn lemma_writer_keeps_pin(s: Offsets, op: Op, r: Span)
    requires
        s.wf(),
        s.pins(r),
        s.admits(op),
        op is Write || op is Commit,
    ensures
        s.apply(op).pins(r),
{
}

/// In an inverted tracker the write cursor stands before the read cursor
/// for as long as the head has room, and on it exactly when the head is
/// full.
pub proof fn lemma_inverted_head(s: Offsets)
    requires
        s.is_inverted(),
    ensures
        s.write_offset < s.read_offset <==> s.fits(1),
        s.write_offset == s.read_offset <==> (forall|n: nat| n > 0 ==> s.write_grant(n) is None),
{
    if s.write_offset < s.read_offset {
        assert(s.write_grant(1) is Some);
    }
}

/// A write larger than the region is refused in every state.
pub proof fn lemma_oversized_write_refused(s: Offsets, n: nat)
    requires
        s.wf(),
        n > s.capacity,
    ensures
        s.write_grant(n) is None,
{
}

/// A write that fills a fresh region exactly is granted, and once it is
/// committed the reader is granted the whole region.
pub proof fn lemma_exact_fill(capacity: nat)
    requires
        capacity > 0,
    ensures
        ({
            let whole = Span { start: 0, len: capacity as int };
            let fresh = Offsets::empty(capacity);
            &&& fresh.write_grant(capacity) == Some(whole)
            &&& fresh.after_write(capacity).after_commit(whole).read_grant() == Some(whole)
        }),
{
}

} // verus!
