//! A bounded, lossy-on-overflow broadcast channel.
//!
//! One producer publishes into a ring of fixed capacity; any number of
//! readers consume independently, each through its own cursor. Publishing
//! never blocks and never fails: when a reader has fallen more than the
//! capacity behind, the events it missed are gone, and its next read reports
//! how many were skipped instead of silently losing data. A bus with no
//! readers advances normally.

use vstd::prelude::*;

use crate::types::SurgeEvent;

verus! {

/// The multi-reader broadcast channel.
pub struct EventBus {
    buf: Vec<SurgeEvent>,
    base: u64,
    capacity: usize,
    hist: Ghost<Seq<SurgeEvent>>,
}

/// One independent consumption point over a bus.
pub struct EventBusReader {
    cursor: u64,
}

/// What one read attempt yields.
#[derive(Debug)]
pub enum ReadOutcome {
    /// The next event, in publication order.
    Event(SurgeEvent),
    /// The reader stalled; this many events were dropped before the ones it
    /// can still receive.
    Lagged(u64),
    /// Nothing new has been published.
    Empty,
}

impl EventBusReader {
    /// The index into the bus history this reader will receive next.
    pub closed spec fn cursor_spec(&self) -> int {
        self.cursor as int
    }
}

impl EventBus {
    /// Every event ever published, in order.
    pub closed spec fn history(&self) -> Seq<SurgeEvent> {
        self.hist@
    }

    /// The ring capacity the bus was created with.
    pub closed spec fn capacity_spec(&self) -> int {
        self.capacity as int
    }

    /// How many events have been published so far.
    pub open spec fn total(&self) -> int {
        self.history().len() as int
    }

    /// The index of the oldest event still retained: readers behind this
    /// point have lost events.
    pub open spec fn lag_floor(&self) -> int {
        if self.total() >= self.capacity_spec() {
            self.total() - self.capacity_spec()
        } else {
            0
        }
    }

    /// Where a reader's cursor stands after one read attempt at cursor `c`.
    pub open spec fn next_cursor(&self, c: int) -> int {
        if c < self.lag_floor() {
            self.lag_floor()
        } else if c < self.total() {
            c + 1
        } else {
            c
        }
    }

    /// Internal consistency: the ring holds exactly the most recent window
    /// of the history.
    pub closed spec fn wf(&self) -> bool {
        &&& self.capacity >= 1
        &&& self.buf@.len() <= self.capacity
        &&& self.base as int + self.buf@.len() == self.hist@.len()
        &&& self.hist@.len() <= u64::MAX
        &&& self.buf@ == self.hist@.subrange(self.base as int, self.hist@.len() as int)
        &&& self.base as int == self.lag_floor()
    }

    /// A reader's cursor never points past what was published.
    pub open spec fn attached(&self, r: &EventBusReader) -> bool {
        0 <= r.cursor_spec() <= self.total()
    }

    /// A fresh bus that retains up to `capacity` events for lagging readers.
    pub fn new(capacity: usize) -> (r: Self)
        requires
            capacity >= 1,
        ensures
            r.wf(),
            r.total() == 0,
            r.capacity_spec() == capacity,
    {
        let r = EventBus {
            buf: Vec::new(),
            base: 0,
            capacity,
            hist: Ghost(Seq::empty()),
        };
        proof {
            assert(r.buf@ =~= r.hist@.subrange(0, 0));
        }
        r
    }

    /// Append an event to the history; the producer never blocks and never
    /// fails, whether or not any reader exists. If the ring is full, the
    /// oldest retained event is dropped.
    pub fn publish(&mut self, e: SurgeEvent)
        requires
            old(self).wf(),
            old(self).total() < u64::MAX,
        ensures
            final(self).wf(),
            final(self).history() == old(self).history().push(e),
            final(self).capacity_spec() == old(self).capacity_spec(),
    {
        if self.buf.len() == self.capacity {
            self.buf.remove(0);
            self.base = self.base + 1;
        }
        self.buf.push(e);
        proof {
            self.hist@ = self.hist@.push(e);
        }
        proof {
            assert(self.buf@ =~= self.hist@.subrange(
                self.base as int,
                self.hist@.len() as int,
            ));
        }
    }

    /// A fresh reader positioned at the current write cursor: it sees no
    /// history, only what is published after it attaches.
    pub fn subscribe(&self) -> (r: EventBusReader)
        requires
            self.wf(),
        ensures
            self.attached(&r),
            r.cursor_spec() == self.total(),
    {
        let total = self.base + (self.buf.len() as u64);
        EventBusReader { cursor: total }
    }

    /// Try to receive the next event for `r`. A reader that stalled past the
    /// retained window is told how many events it lost and is moved to the
    /// oldest retained event; a reader that is caught up gets nothing.
    pub fn read(&self, r: &mut EventBusReader) -> (out: ReadOutcome)
        requires
            self.wf(),
            self.attached(old(r)),
        ensures
            self.attached(final(r)),
            final(r).cursor_spec() == self.next_cursor(old(r).cursor_spec()),
            ({
                let c = old(r).cursor_spec();
                if c < self.lag_floor() {
                    out matches ReadOutcome::Lagged(n) && n as int == self.lag_floor() - c
                } else if c < self.total() {
                    out matches ReadOutcome::Event(e) && e == self.history()[c]
                } else {
                    out matches ReadOutcome::Empty
                }
            }),
    {
        let c = r.cursor;
        if c < self.base {
            let n = self.base - c;
            r.cursor = self.base;
            ReadOutcome::Lagged(n)
        } else {
            let offset = c - self.base;
            if (offset as usize) < self.buf.len() {
                let idx = offset as usize;
                let e = self.buf[idx].clone();
                proof {
                    assert(self.buf@[idx as int] == self.hist@[c as int]);
                }
                r.cursor = c + 1;
                ReadOutcome::Event(e)
            } else {
                ReadOutcome::Empty
            }
        }
    }
}

/// Law: a reader attached when `m` events had already been published can
/// never be handed one of those first `m` events. Its cursor starts at `m`
/// (see `subscribe`), a read only moves the cursor forward, and the event a
/// read delivers sits exactly at the read cursor; so by induction over any
/// sequence of reads and publishes, everything it receives was published
/// after it attached.
pub proof fn lemma_late_reader_sees_only_later(bus: EventBus, m: int, c: int)
    requires
        bus.wf(),
        m <= c,
    ensures
        bus.next_cursor(c) >= m,
        bus.lag_floor() <= c < bus.total() ==> c >= m,
{
}

/// Law: a reader that has fallen more than the bus capacity behind the
/// producer receives an overflow indication with a positive skip count on
/// its next read, rather than silently missing data.
pub proof fn lemma_stalled_reader_is_told(bus: EventBus, c: int)
    requires
        bus.wf(),
        0 <= c,
        bus.total() - c > bus.capacity_spec(),
    ensures
        c < bus.lag_floor(),
        bus.lag_floor() - c >= 1,
{
}

} // verus!
