//! What a buffer does over any sequence of calls.
//!
//! A [`Session`] follows a buffer through the calls of its writers and its
//! reader and keeps two records beside it: the payloads that were accepted
//! and the bytes that leases have shown. The laws of this file say that the
//! second record is the first one, delayed: nothing is lost, doubled or
//! reordered, and what a lease shows stays in the region, unchanged, for as
//! long as the lease is held.

use crate::LeaseView;
use crate::Region;
use vstd::prelude::*;

verus! {

/// One call on a buffer.
pub enum Call {
    /// A writer offers the payload `p`.
    Write { p: Seq<u8> },
    /// The reader asks for a lease. The call is void while it holds one.
    Read,
    /// The reader releases its lease. The call is void while it holds none.
    Release,
}

/// A buffer in use.
pub struct Session {
    /// The buffer.
    pub region: Region,
    /// The lease that the reader holds.
    pub held: Option<LeaseView>,
    /// The accepted payloads, one after the other.
    pub accepted: Seq<u8>,
    /// The bytes shown by the leases lent so far, one after the other.
    pub delivered: Seq<u8>,
}

impl Session {
    /// A fresh buffer of `capacity` bytes, before any call.
    pub open spec fn start(capacity: nat) -> Session {
        Session {
            region: Region::empty(capacity),
            held: None,
            accepted: Seq::empty(),
            delivered: Seq::empty(),
        }
    }

    /// The session after `call`.
    pub open spec fn step(self, call: Call) -> Session {
        match call {
            Call::Write { p } => Session {
                region: self.region.after_write(p),
                held: self.held,
                accepted: if self.region.accepts(p.len()) {
                    self.accepted + p
                } else {
                    self.accepted
                },
                delivered: self.delivered,
            },
            Call::Read => match (self.held, self.region.lease()) {
                (None, Some(l)) => Session {
                    region: self.region,
                    held: Some(l),
                    accepted: self.accepted,
                    delivered: self.delivered + l.bytes,
                },
                _ => self,
            },
            Call::Release => match self.held {
                Some(l) => Session {
                    region: self.region.after_release(l.span),
                    held: None,
                    accepted: self.accepted,
                    delivered: self.delivered,
                },
                None => self,
            },
        }
    }

    /// The session after the calls `calls`, made in order.
    pub open spec fn run(self, calls: Seq<Call>) -> Session
        decreases calls.len(),
    {
        if calls.len() == 0 {
            self
        } else {
            self.run(calls.drop_last()).step(calls.last())
        }
    }

    /// The unread bytes that no lease has shown yet.
    pub open spec fn pending(self) -> Seq<u8> {
        match self.held {
            Some(l) => self.region.unread().skip(l.bytes.len() as int),
            None => self.region.unread(),
        }
    }

    /// What holds of a session at all times: the buffer is well formed and
    /// settled, the lease that the reader holds is outstanding, and the
    /// accepted bytes are the delivered ones followed by the pending ones.
    pub open spec fn inv(self) -> bool {
        &&& self.region.wf()
        &&& self.region.offsets.settled()
        &&& self.accepted == self.delivered + self.pending()
        &&& match self.held {
            Some(l) => self.region.holds(l),
            None => true,
        }
    }
}

/// A lease that is outstanding shows the oldest unread bytes.
pub proof fn lemma_held_is_oldest(b: Region, l: LeaseView)
    requires
        b.wf(),
        b.holds(l),
    ensures
        l.bytes.is_prefix_of(b.unread()),
        l.bytes.len() == l.span.len,
{
    let o = b.offsets;
    let tail = b.bytes.subrange(o.read_offset as int, o.read_end() as int);
    assert(l.bytes == tail.subrange(0, l.span.len));
    assert(tail.is_prefix_of(b.unread()));
}

/// One call keeps what holds of a session.
pub proof fn lemma_step_keeps_inv(s: Session, call: Call)
    requires
        s.inv(),
    ensures
        s.step(call).inv(),
{
    let t = s.step(call);
    let unread = s.region.unread();
    match call {
        Call::Write { p } => {
            if s.region.accepts(p.len()) {
                crate::lemma_write_appends(s.region, p);
                match s.held {
                    Some(l) => {
                        lemma_held_is_oldest(s.region, l);
                        crate::lemma_write_keeps_lease(s.region, p, l);
                        assert((unread + p).skip(l.bytes.len() as int) == unread.skip(
                            l.bytes.len() as int,
                        ) + p);
                    },
                    None => {},
                }
                assert(s.delivered + (s.pending() + p) == (s.delivered + s.pending()) + p);
            }
        },
        Call::Read => {
            crate::lemma_lease_is_oldest(s.region);
            match (s.held, s.region.lease()) {
                (None, Some(l)) => {
                    assert(unread == l.bytes + unread.skip(l.bytes.len() as int));
                    assert(s.delivered + (l.bytes + t.pending()) == (s.delivered + l.bytes)
                        + t.pending());
                },
                _ => {},
            }
        },
        Call::Release => {
            match s.held {
                Some(l) => {
                    crate::lemma_release_consumes(s.region, l.span);
                    assert((l.bytes + t.region.unread()).skip(l.bytes.len() as int)
                        == t.region.unread());
                },
                None => {},
            }
        },
    }
}

/// Over any sequence of calls on a fresh buffer: the bytes that leases
/// have shown, followed by the unread bytes that no lease has shown yet, are
/// the accepted payloads in the order in which they were accepted; and the
/// lease that the reader holds shows bytes that are still in the region
/// where the lease found them.
pub proof fn lemma_conservation(capacity: nat, calls: Seq<Call>)
    ensures
        ({
            let s = Session::start(capacity).run(calls);
            &&& s.inv()
            &&& s.accepted == s.delivered + s.pending()
            &&& (s.pending().len() == 0 ==> s.delivered == s.accepted)
            &&& match s.held {
                Some(l) => s.region.slice(l.span) == l.bytes,
                None => true,
            }
        }),
    decreases calls.len(),
{
    let s = Session::start(capacity).run(calls);
    if calls.len() == 0 {
        assert(s.accepted == s.delivered + s.pending());
    } else {
        lemma_conservation(capacity, calls.drop_last());
        lemma_step_keeps_inv(Session::start(capacity).run(calls.drop_last()), calls.last());
    }
    if s.pending().len() == 0 {
        assert(s.delivered + s.pending() == s.delivered);
    }
}

} // verus!
