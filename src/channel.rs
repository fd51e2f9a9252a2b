//! The bounded channel between the sensor task and the display task.
//!
//! It holds at most three readings, first in first out. A send to a full
//! channel is refused and hands the reading back, so the sender keeps it and
//! tries again once a receive has freed a slot: readings are never dropped
//! or duplicated.
use vstd::prelude::*;

use embassy_sync::blocking_mutex::raw::NoopRawMutex;
use embassy_sync::channel::Channel;
use embassy_sync::channel::TrySendError;

use crate::sample::Reading;

verus! {

/// Number of readings that the channel holds
pub const CHANNEL_CAPACITY: usize = 3;

/// An `embassy_sync::channel::Channel` of readings, for a single core.
///
/// The channel is held opaquely here, as its type's `RawMutex` bound cannot
/// be declared to the verifier; what the library knows of it is
/// `queued_readings` and the contracts of the wrappers below.
#[verifier::external_body]
pub struct ReadingQueue {
    pub channel: Channel<NoopRawMutex, Reading, CHANNEL_CAPACITY>,
}

/// The readings queued in a channel, oldest first
pub uninterp spec fn queued_readings(c: ReadingQueue) -> Seq<Reading>;

/// Relies on `embassy_sync::channel::Channel::new`: an empty channel.
#[verifier::external_body]
fn queue_new() -> (r: ReadingQueue)
    ensures
        queued_readings(r) == Seq::<Reading>::empty(),
{
    ReadingQueue { channel: Channel::new() }
}

/// Relies on `embassy_sync::channel::Channel::try_send`: appends the
/// message unless the channel holds its capacity, and otherwise hands it
/// back in `TrySendError::Full`.
#[verifier::external_body]
fn queue_try_send(c: &mut ReadingQueue, reading: Reading) -> (r:
    Result<(), Reading>)
    ensures
        queued_readings(*old(c)).len() < CHANNEL_CAPACITY ==> r is Ok && queued_readings(*final(c))
            == queued_readings(*old(c)).push(reading),
        queued_readings(*old(c)).len() >= CHANNEL_CAPACITY ==> r is Err && r->Err_0 == reading
            && queued_readings(*final(c)) == queued_readings(*old(c)),
{
    match c.channel.try_send(reading) {
        Ok(()) => Ok(()),
        Err(TrySendError::Full(m)) => Err(m),
    }
}

/// Relies on `embassy_sync::channel::Channel::try_receive`: removes and
/// returns the oldest message, if any.
#[verifier::external_body]
fn queue_try_receive(c: &mut ReadingQueue) -> (r: Option<Reading>)
    ensures
        queued_readings(*old(c)).len() == 0 ==> r is None && queued_readings(*final(c))
            == queued_readings(*old(c)),
        queued_readings(*old(c)).len() > 0 ==> r == Some(queued_readings(*old(c))[0])
            && queued_readings(*final(c)) == queued_readings(*old(c)).drop_first(),
{
    c.channel.try_receive().ok()
}

/// Relies on `embassy_sync::channel::Channel::len`: the number of queued
/// messages.
#[verifier::external_body]
fn queue_len(c: &ReadingQueue) -> (r: usize)
    ensures
        r == queued_readings(*c).len(),
{
    c.channel.len()
}

/// Whether a channel holding `q` accepts a send
pub open spec fn accepts(q: Seq<Reading>) -> bool {
    q.len() < CHANNEL_CAPACITY
}

/// The queue after a send of `reading`
pub open spec fn sent(q: Seq<Reading>, reading: Reading) -> Seq<Reading> {
    if accepts(q) {
        q.push(reading)
    } else {
        q
    }
}

/// The queue after a receive, and what the receive returns
pub open spec fn received(q: Seq<Reading>) -> (Seq<Reading>, Option<Reading>) {
    if q.len() == 0 {
        (q, None)
    } else {
        (q.drop_first(), Some(q[0]))
    }
}

/// A bounded first-in first-out channel of readings
pub struct ReadingChannel {
    queue: ReadingQueue,
}

impl ReadingChannel {
    /// The queued readings, oldest first
    pub closed spec fn view(&self) -> Seq<Reading> {
        queued_readings(self.queue)
    }

    /// A channel never holds more than its capacity
    pub open spec fn wf(&self) -> bool {
        self.view().len() <= CHANNEL_CAPACITY
    }

    /// An empty channel
    pub fn new() -> (r: ReadingChannel)
        ensures
            r.view() == Seq::<Reading>::empty(),
            r.wf(),
    {
        ReadingChannel { queue: queue_new() }
    }

    /// Queue a reading unless the channel is full; a refused reading is
    /// handed back
    pub fn try_send(&mut self, reading: Reading) -> (r: Result<(), Reading>)
        requires
            old(self).wf(),
        ensures
            final(self).wf(),
            final(self).view() == sent(old(self).view(), reading),
            r is Ok == accepts(old(self).view()),
            r matches Err(back) ==> back == reading,
    {
        queue_try_send(&mut self.queue, reading)
    }

    /// Take the oldest reading, if any
    pub fn try_receive(&mut self) -> (r: Option<Reading>)
        requires
            old(self).wf(),
        ensures
            final(self).wf(),
            (final(self).view(), r) == received(old(self).view()),
    {
        queue_try_receive(&mut self.queue)
    }

    /// Number of queued readings
    pub fn len(&self) -> (r: usize)
        ensures
            r == self.view().len(),
    {
        queue_len(&self.queue)
    }

    /// Whether a send would be refused
    pub fn is_full(&self) -> (r: bool)
        requires
            self.wf(),
        ensures
            r == (self.view().len() == CHANNEL_CAPACITY),
    {
        queue_len(&self.queue) == CHANNEL_CAPACITY
    }

    /// Whether a receive would find nothing
    pub fn is_empty(&self) -> (r: bool)
        ensures
            r == (self.view().len() == 0),
    {
        queue_len(&self.queue) == 0
    }

    /// The underlying channel, for senders and receivers that wait
    pub fn queue(&self) -> (r: &ReadingQueue)
        ensures
            queued_readings(*r) == self.view(),
    {
        &self.queue
    }
}

/// Under capacity pressure nothing is lost or duplicated: a send to a full
/// channel is refused and changes nothing, so the sender keeps its reading; a
/// receive then frees a slot by taking the oldest reading, after which the
/// same send is accepted; and the reading that came out followed by those
/// queued then are the readings that were queued followed by the new one.
pub proof fn lemma_channel_backpressure(q: Seq<Reading>, reading: Reading)
    requires
        q.len() <= CHANNEL_CAPACITY,
    ensures
        q.len() == CHANNEL_CAPACITY ==> !accepts(q) && sent(q, reading) == q,
        q.len() == CHANNEL_CAPACITY ==> ({
            let (after_receive, out) = received(q);
            &&& out == Some(q[0])
            &&& accepts(after_receive)
            &&& sent(after_receive, reading).len() == CHANNEL_CAPACITY
            &&& seq![q[0]] + sent(after_receive, reading) == q.push(reading)
        }),
        q.len() < CHANNEL_CAPACITY ==> accepts(q) && sent(q, reading) == q.push(reading),
{
    if q.len() == CHANNEL_CAPACITY {
        let (after_receive, out) = received(q);
        assert(seq![q[0]] + after_receive.push(reading) =~= q.push(reading));
    }
}

/// Readings come out in the order they went in: three readings sent to an
/// empty channel are all accepted, and three receives yield them in order
pub proof fn lemma_channel_fifo(a: Reading, b: Reading, c: Reading)
    ensures
        ({
            let q1 = sent(Seq::empty(), a);
            let q2 = sent(q1, b);
            let q3 = sent(q2, c);
            let (q4, o1) = received(q3);
            let (q5, o2) = received(q4);
            let (q6, o3) = received(q5);
            &&& accepts(Seq::empty()) && accepts(q1) && accepts(q2)
            &&& o1 == Some(a) && o2 == Some(b) && o3 == Some(c)
            &&& q6.len() == 0
        }),
{
    let q1 = sent(Seq::empty(), a);
    let q2 = sent(q1, b);
    let q3 = sent(q2, c);
    assert(q3 =~= seq![a, b, c]);
    let (q4, o1) = received(q3);
    assert(q4 =~= seq![b, c]);
    let (q5, o2) = received(q4);
    assert(q5 =~= seq![c]);
}

} // verus!
