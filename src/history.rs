//! The retained history of readings: a fixed-capacity ring that overwrites
//! its oldest reading when full.
use vstd::prelude::*;

use heapless::HistoryBuffer;

use crate::sample::Reading;

verus! {

#[verifier::external_type_specification]
#[verifier::external_body]
#[verifier::reject_recursive_types(T)]
pub struct ExHistoryBuffer<T, const N: usize>(HistoryBuffer<T, N>);

/// Number of readings that a history holds
pub const HISTORY_CAPACITY: usize = 96;

/// The readings that a ring buffer holds, oldest first
pub uninterp spec fn buffered_readings(b: HistoryBuffer<Reading, HISTORY_CAPACITY>) -> Seq<Reading>;

/// The last `n` elements of `s`, or all of them when there are fewer
pub open spec fn keep_last(s: Seq<Reading>, n: nat) -> Seq<Reading> {
    if s.len() <= n {
        s
    } else {
        s.subrange(s.len() - n, s.len() as int)
    }
}

/// The readings after writing `added` in order to a ring of capacity `n`
/// that held `start`
pub open spec fn written_all(start: Seq<Reading>, added: Seq<Reading>, n: nat) -> Seq<Reading>
    decreases added.len(),
{
    if added.len() == 0 {
        start
    } else {
        keep_last(written_all(start, added.drop_last(), n).push(added.last()), n)
    }
}

/// Relies on `heapless::HistoryBuffer::new`: an empty buffer.
#[verifier::external_body]
fn buffer_new() -> (r: HistoryBuffer<Reading, HISTORY_CAPACITY>)
    ensures
        buffered_readings(r) == Seq::<Reading>::empty(),
{
    HistoryBuffer::new()
}

/// Relies on `heapless::HistoryBuffer::write`: appends, overwriting the
/// oldest element once the buffer is full.
#[verifier::external_body]
fn buffer_write(b: &mut HistoryBuffer<Reading, HISTORY_CAPACITY>, reading: Reading)
    ensures
        buffered_readings(*final(b)) == keep_last(
            buffered_readings(*old(b)).push(reading),
            HISTORY_CAPACITY as nat,
        ),
{
    b.write(reading)
}

/// Relies on `heapless::HistoryBuffer::len`: the fill level.
#[verifier::external_body]
fn buffer_len(b: &HistoryBuffer<Reading, HISTORY_CAPACITY>) -> (r: usize)
    ensures
        r == buffered_readings(*b).len(),
{
    b.len()
}

/// Relies on `heapless::HistoryBuffer::recent`: the most recently written
/// element, if any.
#[verifier::external_body]
fn buffer_recent(b: &HistoryBuffer<Reading, HISTORY_CAPACITY>) -> (r: Option<Reading>)
    ensures
        r == (if buffered_readings(*b).len() == 0 {
            None
        } else {
            Some(buffered_readings(*b).last())
        }),
{
    b.recent().copied()
}

/// Relies on `heapless::HistoryBuffer::oldest_ordered`: the elements from
/// oldest to newest.
#[verifier::external_body]
fn buffer_oldest_ordered(b: &HistoryBuffer<Reading, HISTORY_CAPACITY>) -> (r: Vec<Reading>)
    ensures
        r@ == buffered_readings(*b),
{
    b.oldest_ordered().copied().collect()
}

/// A history of readings of bounded length
pub struct History {
    buffer: HistoryBuffer<Reading, HISTORY_CAPACITY>,
}

impl History {
    /// The readings held, oldest first
    pub closed spec fn view(&self) -> Seq<Reading> {
        buffered_readings(self.buffer)
    }

    /// A history never holds more than its capacity
    pub open spec fn wf(&self) -> bool {
        self.view().len() <= HISTORY_CAPACITY
    }

    /// An empty history
    pub fn new() -> (r: History)
        ensures
            r.view() == Seq::<Reading>::empty(),
            r.wf(),
    {
        History { buffer: buffer_new() }
    }

    /// Append a reading, evicting the oldest one when the history is full
    pub fn write(&mut self, reading: Reading)
        ensures
            final(self).view() == keep_last(old(self).view().push(reading), HISTORY_CAPACITY as nat),
            final(self).wf(),
    {
        buffer_write(&mut self.buffer, reading);
    }

    /// Append readings in order
    pub fn extend_from_slice(&mut self, readings: &[Reading])
        ensures
            final(self).view() == written_all(old(self).view(), readings@, HISTORY_CAPACITY as nat),
    {
        let n = readings.len();
        let mut i: usize = 0;
        while i < n
            invariant
                n == readings@.len(),
                i <= n,
                self.view() == written_all(
                    old(self).view(),
                    readings@.subrange(0, i as int),
                    HISTORY_CAPACITY as nat,
                ),
            decreases n - i,
        {
            self.write(readings[i]);
            proof {
                let next = readings@.subrange(0, i + 1);
                assert(next.drop_last() =~= readings@.subrange(0, i as int));
            }
            i = i + 1;
        }
        assert(readings@.subrange(0, n as int) =~= readings@);
    }

    /// Number of readings held
    pub fn len(&self) -> (r: usize)
        ensures
            r == self.view().len(),
    {
        buffer_len(&self.buffer)
    }

    /// Whether no reading is held
    pub fn is_empty(&self) -> (r: bool)
        ensures
            r == (self.view().len() == 0),
    {
        buffer_len(&self.buffer) == 0
    }

    /// Largest number of readings held
    pub fn capacity(&self) -> (r: usize)
        ensures
            r == HISTORY_CAPACITY,
    {
        HISTORY_CAPACITY
    }

    /// The most recent reading, if any
    pub fn recent(&self) -> (r: Option<Reading>)
        ensures
            r == (if self.view().len() == 0 {
                None
            } else {
                Some(self.view().last())
            }),
    {
        buffer_recent(&self.buffer)
    }

    /// The readings held, oldest first
    pub fn oldest_first(&self) -> (r: Vec<Reading>)
        ensures
            r@ == self.view(),
    {
        buffer_oldest_ordered(&self.buffer)
    }
}

/// Writing readings to a ring of capacity `n` keeps the `n` most recent of
/// all readings it has seen, in arrival order: the length never exceeds `n`,
/// and once there are more than `n`, the oldest are the ones evicted.
pub proof fn lemma_history_keeps_most_recent(start: Seq<Reading>, added: Seq<Reading>, n: nat)
    requires
        n > 0,
        start.len() <= n,
    ensures
        written_all(start, added, n) == keep_last(start + added, n),
        written_all(start, added, n).len() == (if start.len() + added.len() <= n {
            start.len() + added.len()
        } else {
            n
        }),
    decreases added.len(),
{
    if added.len() == 0 {
        assert(start + added =~= start);
    } else {
        let prefix = added.drop_last();
        lemma_history_keeps_most_recent(start, prefix, n);
        let before = start + prefix;
        let all = start + added;
        assert(all =~= before.push(added.last()));
        let kept = keep_last(before, n);
        if before.len() <= n {
            assert(kept == before);
        } else {
            assert(keep_last(kept.push(added.last()), n) =~= keep_last(all, n));
        }
    }
}

} // verus!
