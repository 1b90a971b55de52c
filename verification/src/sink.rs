//! Draining a shared buffer towards a byte sink.
//!
//! [`connect`] makes a shared buffer, a [`Handle`] that appends to it and a
//! [`Worker`] that empties it. Handles wake the worker through a channel
//! that holds one notification: a notification that finds the channel full
//! is dropped, which loses nothing, because a woken worker reads until the
//! buffer is empty. When the last handle is gone the worker makes one more
//! pass over the buffer, has the sink flushed once and is finished.
//!
//! The worker does not touch the sink. [`Worker::step`] waits and reads, and
//! tells its driver what to do with the sink: forward the bytes of a lease,
//! or flush. What follows each wait and each read is decided by
//! [`Phase::advance`].

use crate::buffer::create;
use crate::buffer::Lease;
use crate::buffer::Reader;
use crate::buffer::Writer;
use crossbeam::channel::Receiver;
use crossbeam::channel::RecvError;
use crossbeam::channel::Sender;
use crossbeam::channel::TrySendError;
use vstd::prelude::*;

verus! {

/// `crossbeam::channel::Sender`, as a type of which nothing is known.
#[verifier::external_type_specification]
#[verifier::external_body]
#[verifier::reject_recursive_types(T)]
pub struct ExSender<T>(Sender<T>);

/// `crossbeam::channel::Receiver`, as a type of which nothing is known.
#[verifier::external_type_specification]
#[verifier::external_body]
#[verifier::reject_recursive_types(T)]
pub struct ExReceiver<T>(Receiver<T>);

/// `crossbeam::channel::TrySendError`, with its two variants, `Full` and
/// `Disconnected`, each holding the message.
#[verifier::external_type_specification]
pub struct ExTrySendError<T>(TrySendError<T>);

/// `crossbeam::channel::RecvError`, which holds nothing.
#[verifier::external_type_specification]
pub struct ExRecvError(RecvError);

/// `crossbeam::channel::bounded`: a channel that holds at most `cap`
/// messages. It panics where `cap + 1`, rounded up to a power of two and
/// doubled, does not fit in `usize`; the bound keeps away from that.
pub assume_specification<T>[ crossbeam::channel::bounded::<T> ](cap: usize) -> (ends: (
    Sender<T>,
    Receiver<T>,
))
    requires
        cap < 0x4000_0000,
;

/// `Sender::try_send`: sends without blocking, or fails where the channel
/// is full or disconnected. The error holds the message that was not sent.
pub assume_specification<T>[ Sender::<T>::try_send ](sender: &Sender<T>, msg: T) -> (sent: Result<
    (),
    TrySendError<T>,
>)
    ensures
        sent matches Err(TrySendError::Full(m)) ==> m == msg,
        sent matches Err(TrySendError::Disconnected(m)) ==> m == msg,
;

/// `Sender::clone`: another sender of the same channel. The channel stays
/// connected until every sender is dropped.
pub assume_specification<T>[ <Sender<T> as Clone>::clone ](sender: &Sender<T>) -> (other: Sender<T>)
;

/// `Receiver::recv`: blocks until a message arrives, or fails once the
/// channel is empty and every sender is gone. Nothing is claimed of which.
pub assume_specification<T>[ Receiver::<T>::recv ](receiver: &Receiver<T>) -> (received: Result<
    T,
    RecvError,
>)
;

/// How many notifications the channel between handles and worker holds.
pub const NOTIFIER_CAPACITY: usize = 1;

/// Where a worker stands.
#[derive(Clone, Copy, PartialEq, Eq, Structural, Debug)]
pub enum Phase {
    /// It waits for a notification.
    Waiting,
    /// It was woken and reads until the buffer is empty.
    Draining,
    /// Every handle is gone; it makes its last pass over the buffer.
    Closing,
    /// The last pass is over and the flush has been handed out.
    Finished,
}

/// What a worker met when it waited or read.
#[derive(Clone, Copy, PartialEq, Eq, Structural, Debug)]
pub enum Event {
    /// A notification arrived.
    Notified,
    /// The channel is empty and every handle is gone.
    Disconnected,
    /// The buffer lent a lease.
    Lent,
    /// The buffer had nothing unread.
    Empty,
}

impl Event {
    /// What a wait met: a notification if something was received, the
    /// disconnection if not.
    pub fn of_wait(received: Result<(), RecvError>) -> (event: Event)
        ensures
            event == (if received is Ok {
                Event::Notified
            } else {
                Event::Disconnected
            }),
    {
        match received {
            Ok(_) => Event::Notified,
            Err(_) => Event::Disconnected,
        }
    }

    /// What a read met: a lease if one was lent, the empty buffer if not.
    pub fn of_read(lent: &Option<Lease<'_>>) -> (event: Event)
        ensures
            event == (if lent is Some {
                Event::Lent
            } else {
                Event::Empty
            }),
    {
        match lent {
            Some(_) => Event::Lent,
            None => Event::Empty,
        }
    }
}

/// What a worker has its driver do with the sink.
#[derive(Clone, Copy, PartialEq, Eq, Structural, Debug)]
pub enum Action {
    /// Nothing.
    Nothing,
    /// Write the bytes of the lease that was lent.
    Forward,
    /// Flush.
    Flush,
}

impl Phase {
    /// Whether `event` can be met in this phase: a waiting worker is
    /// notified or disconnected, a reading one is lent a lease or finds the
    /// buffer empty, a finished one meets nothing.
    pub open spec fn meets(self, event: Event) -> bool {
        match self {
            Phase::Waiting => event == Event::Notified || event == Event::Disconnected,
            Phase::Draining | Phase::Closing => event == Event::Lent || event == Event::Empty,
            Phase::Finished => false,
        }
    }

    /// The phase that follows when `event` is met in this one. An event
    /// that cannot be met here changes nothing.
    pub open spec fn after(self, event: Event) -> Phase {
        match (self, event) {
            (Phase::Waiting, Event::Notified) => Phase::Draining,
            (Phase::Waiting, Event::Disconnected) => Phase::Closing,
            (Phase::Draining, Event::Empty) => Phase::Waiting,
            (Phase::Closing, Event::Empty) => Phase::Finished,
            _ => self,
        }
    }

    /// Whether the sink is to be flushed when `event` is met in this phase:
    /// when the last pass finds the buffer empty.
    pub open spec fn flushes(self, event: Event) -> bool {
        self == Phase::Closing && event == Event::Empty
    }

    /// Whether the bytes of a lease are to be forwarded to the sink when
    /// `event` is met in this phase.
    pub open spec fn forwards(self, event: Event) -> bool {
        (self == Phase::Draining || self == Phase::Closing) && event == Event::Lent
    }

    /// What is done with the sink when `event` is met in this phase.
    pub open spec fn does(self, event: Event) -> Action {
        if self.forwards(event) {
            Action::Forward
        } else if self.flushes(event) {
            Action::Flush
        } else {
            Action::Nothing
        }
    }

    /// The phase after the events `events`, met in order.
    pub open spec fn run(self, events: Seq<Event>) -> Phase
        decreases events.len(),
    {
        if events.len() == 0 {
            self
        } else {
            self.run(events.drop_last()).after(events.last())
        }
    }

    /// How often the sink is flushed while the events `events` are met in
    /// order.
    pub open spec fn flushes_in(self, events: Seq<Event>) -> nat
        decreases events.len(),
    {
        if events.len() == 0 {
            0
        } else if self.run(events.drop_last()).flushes(events.last()) {
            self.flushes_in(events.drop_last()) + 1
        } else {
            self.flushes_in(events.drop_last())
        }
    }

    /// Decides what follows `event`: the next phase, and what is done with
    /// the sink.
    pub fn advance(self, event: Event) -> (next: (Phase, Action))
        ensures
            next.0 == self.after(event),
            next.1 == self.does(event),
    {
        match (self, event) {
            (Phase::Waiting, Event::Notified) => (Phase::Draining, Action::Nothing),
            (Phase::Waiting, Event::Disconnected) => (Phase::Closing, Action::Nothing),
            (Phase::Draining, Event::Lent) => (Phase::Draining, Action::Forward),
            (Phase::Draining, Event::Empty) => (Phase::Waiting, Action::Nothing),
            (Phase::Closing, Event::Lent) => (Phase::Closing, Action::Forward),
            (Phase::Closing, Event::Empty) => (Phase::Finished, Action::Flush),
            _ => (self, Action::Nothing),
        }
    }
}

/// A worker finishes in one way only: its last pass finds the buffer
/// empty, and with that step the sink is flushed. The last pass begins when
/// the worker, waiting, finds every handle gone, and it goes on for as long
/// as the buffer lends leases.
pub proof fn lemma_finishes_after_last_pass(phase: Phase, event: Event)
    ensures
        phase != Phase::Finished && phase.after(event) == Phase::Finished ==> phase.flushes(event),
        phase.flushes(event) ==> phase == Phase::Closing && phase.after(event) == Phase::Finished,
        phase != Phase::Closing && phase.after(event) == Phase::Closing ==> phase == Phase::Waiting
            && event == Event::Disconnected,
        phase == Phase::Closing ==> phase.after(event) == Phase::Closing || event == Event::Empty,
        phase.forwards(event) ==> phase.after(event) == phase,
        phase.meets(Event::Lent) ==> phase.forwards(Event::Lent),
{
}

/// Over any sequence of events, a worker that began waiting has had the
/// sink flushed once if it is finished, and not at all if it is not.
pub proof fn lemma_flushes_once(events: Seq<Event>)
    ensures
        Phase::Waiting.flushes_in(events) == if Phase::Waiting.run(events) == Phase::Finished {
            1nat
        } else {
            0nat
        },
    decreases events.len(),
{
    if events.len() > 0 {
        lemma_flushes_once(events.drop_last());
    }
}

/// What the driver of a worker does after a step.
pub enum Step<'a> {
    /// Nothing: step again.
    Again,
    /// Write all bytes of the lease to the sink, then drop the lease,
    /// whether or not the sink took them.
    Forward(Lease<'a>),
    /// Flush the sink.
    Flush,
    /// Stop: the worker is finished.
    Done,
}

/// An end that appends to the shared buffer and wakes the worker.
#[derive(Clone)]
pub struct Handle {
    writer: Writer,
    tx: Sender<()>,
}

impl Handle {
    /// The writing end that the handle appends through.
    pub closed spec fn writer(&self) -> Writer {
        self.writer
    }

    /// Appends `p` to the shared buffer if [`Writer::try_write`] accepts it,
    /// and then notifies the worker unless a notification is waiting
    /// already. A payload that is refused is dropped without notice. The
    /// handle itself stays as it was.
    pub fn write(&mut self, p: &[u8])
        ensures
            *final(self) == *old(self),
    {
        if self.writer.try_write(p) {
            let _ = self.tx.try_send(());
        }
    }
}

/// The end that empties the shared buffer.
pub struct Worker {
    reader: Reader,
    rx: Receiver<()>,
    phase: Phase,
}

impl View for Worker {
    type V = Phase;

    closed spec fn view(&self) -> Phase {
        self.phase
    }
}

impl Worker {
    /// The reading end that the worker drains.
    pub closed spec fn reader(&self) -> Reader {
        self.reader
    }

    /// The phase that the worker is in.
    pub fn phase(&self) -> (phase: Phase)
        ensures
            phase == self@,
    {
        self.phase
    }

    /// Makes one step: a waiting worker blocks until it is notified or
    /// disconnected, a draining or closing one reads the buffer once. What
    /// it meets is told by [`Event::of_wait`] and [`Event::of_read`], and
    /// decides the next phase and what the driver is told, as
    /// [`Phase::advance`] says. The lease that is handed out is one of the
    /// worker's own reading end, which is otherwise left as it was.
    pub fn step(&mut self) -> (step: Step<'_>)
        ensures
            match step {
                Step::Again => {
                    &&& final(self).reader() == old(self).reader()
                    &&& {
                        ||| old(self)@ == Phase::Waiting && final(self)@
                            == Phase::Waiting.after(Event::Notified)
                        ||| old(self)@ == Phase::Waiting && final(self)@
                            == Phase::Waiting.after(Event::Disconnected)
                        ||| old(self)@ == Phase::Draining && final(self)@
                            == Phase::Draining.after(Event::Empty)
                    }
                },
                Step::Forward(lease) => {
                    &&& old(self)@.does(Event::Lent) == Action::Forward
                    &&& final(self)@ == old(self)@.after(Event::Lent)
                    &&& lease@.bytes.len() > 0
                    &&& lease.lender() == old(self).reader()
                },
                Step::Flush => {
                    &&& old(self)@.does(Event::Empty) == Action::Flush
                    &&& final(self)@ == old(self)@.after(Event::Empty)
                    &&& final(self).reader() == old(self).reader()
                },
                Step::Done => {
                    &&& old(self)@ == Phase::Finished
                    &&& final(self)@ == Phase::Finished
                    &&& final(self).reader() == old(self).reader()
                },
            },
    {
        match self.phase {
            Phase::Waiting => {
                let event = Event::of_wait(self.rx.recv());
                let (next, _) = self.phase.advance(event);
                self.phase = next;
                Step::Again
            },
            Phase::Draining | Phase::Closing => {
                let lent = self.reader.read();
                let event = Event::of_read(&lent);
                let (next, action) = self.phase.advance(event);
                self.phase = next;
                match lent {
                    Some(lease) => Step::Forward(lease),
                    None => match action {
                        Action::Flush => Step::Flush,
                        _ => Step::Again,
                    },
                }
            },
            Phase::Finished => Step::Done,
        }
    }
}

/// Makes a shared buffer of `capacity` bytes and returns a handle to append
/// to it and the worker that drains it: the two are ends of that one
/// buffer. The worker waits.
pub fn connect(capacity: usize) -> (ends: (Handle, Worker))
    requires
        capacity > 0,
    ensures
        ends.1@ == Phase::Waiting,
        ends.0.writer().capacity() == capacity,
        ends.1.reader().capacity() == capacity,
        ends.1.reader().shares(&ends.0.writer()),
{
    let (reader, writer) = create(capacity);
    let (tx, rx) = crossbeam::channel::bounded(NOTIFIER_CAPACITY);
    (Handle { writer, tx }, Worker { reader, rx, phase: Phase::Waiting })
}

} // verus!
