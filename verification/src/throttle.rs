//! The throttle itself: the window, the capacity and the record of admissions,
//! kept in a deque with the oldest admission at the front.

use crate::clock::nanos_since;
use crate::state::lemma_observe;
use crate::state::trim;
use crate::state::State;
use std::collections::VecDeque;
use std::time::Instant;
use vstd::prelude::*;

verus! {

/// The instants of a record as the model holds them.
spec fn instants(record: Seq<u64>) -> Seq<int> {
    Seq::new(record.len(), |i: int| record[i] as int)
}

/// Admits at most `capacity` operations within any trailing `window`.
///
/// Instants and the window are nanoseconds on a monotonic clock. The throttle
/// carries such a clock, started when it is made: `size`, `available` and
/// `accept` read it, and `now` shows its reading. `size_at`, `available_at` and
/// `accept_at` do the same work at an instant that the caller gives.
///
/// Every operation first drops the admissions that have left the window, so
/// even `size` and `available` change the throttle and need exclusive access.
/// The throttle does not synchronise anything: where several contexts share
/// one, they serialise their operations themselves.
pub struct Throttle {
    window: u64,
    capacity: usize,
    history: VecDeque<u64>,
    origin: Instant,
}

impl View for Throttle {
    type V = State;

    closed spec fn view(&self) -> State {
        State {
            window: self.window as int,
            capacity: self.capacity as nat,
            history: instants(self.history@),
        }
    }
}

impl Throttle {
    /// The throttle is well formed as its model says, and the instant at which
    /// each admission on record leaves the window fits into a `u64`.
    pub open spec fn wf(&self) -> bool {
        &&& self@.wf()
        &&& self@.within(u64::MAX as int)
    }

    /// A throttle with nothing on record, and its clock started.
    pub fn new(window: u64, capacity: usize) -> (throttle: Throttle)
        requires
            window > 0,
        ensures
            throttle.wf(),
            throttle@ == State::fresh(window as int, capacity as nat),
    {
        let throttle = Throttle {
            window,
            capacity,
            history: VecDeque::new(),
            origin: Instant::now(),
        };
        assert(throttle@.history =~= Seq::<int>::empty());
        throttle
    }

    /// Drops the admissions at the front of the record that have expired at
    /// `now`, and stops at the first that has not: the work is in proportion to
    /// what expires, not to what is on record.
    fn flush(&mut self, now: u64)
        requires
            old(self).wf(),
        ensures
            final(self).wf(),
            final(self)@ == old(self)@.observe(now as int),
    {
        proof {
            lemma_observe(self@, now as int);
        }
        loop
            invariant
                self.window == old(self).window,
                self.capacity == old(self).capacity,
                self.window > 0,
                trim(self@.history, self@.window, now as int) == trim(
                    old(self)@.history,
                    old(self)@.window,
                    now as int,
                ),
            ensures
                self@.history == trim(old(self)@.history, old(self)@.window, now as int),
            decreases self.history.len(),
        {
            if self.history.len() == 0 {
                break ;
            }
            let first = self.history[0];
            if now >= first && now - first >= self.window {
                let ghost before = self.history@;
                self.history.pop_front();
                assert(instants(self.history@) =~= instants(before).drop_first());
            } else {
                break ;
            }
        }
    }

    /// The number of admissions inside the window at `now`. Those that have
    /// expired leave the record.
    pub fn size_at(&mut self, now: u64) -> (count: usize)
        requires
            old(self).wf(),
        ensures
            final(self).wf(),
            final(self)@ == old(self)@.observe(now as int),
            final(self)@.settled(now as int),
            old(self)@.follows(now as int) ==> final(self)@.follows(now as int),
            count == old(self)@.size(now as int),
    {
        proof {
            lemma_observe(self@, now as int);
        }
        self.flush(now);
        self.history.len()
    }

    /// Whether an admission at `now` would fit into the window. Those that have
    /// expired leave the record.
    ///
    /// The answer is advice. It is good for the instant of the call: where the
    /// throttle is shared, another context may take the room before the caller
    /// acts on a `true`. Under exclusive access room that is there stays until
    /// the next admission, so a `false` was not `true` a moment before; it may
    /// well be `true` a moment later. To take the room, call `accept_at`.
    pub fn available_at(&mut self, now: u64) -> (free: bool)
        requires
            old(self).wf(),
        ensures
            final(self).wf(),
            final(self)@ == old(self)@.observe(now as int),
            final(self)@.settled(now as int),
            old(self)@.follows(now as int) ==> final(self)@.follows(now as int),
            free == old(self)@.available(now as int),
    {
        self.size_at(now) < self.capacity
    }

    /// Admits an operation at `now` where the window has room for it, and puts
    /// `now` on record. Where the window is full, nothing is admitted and the
    /// error is the instant at which the oldest admission in it expires, taken
    /// from the record as it is at this call. With a capacity of zero the
    /// window is full while it is empty, and the error is `now`.
    ///
    /// `now` is a reading of a monotonic clock, so not earlier than the last
    /// admission, and early enough for its own expiry to fit into a `u64`.
    pub fn accept_at(&mut self, now: u64) -> (outcome: Result<(), u64>)
        requires
            old(self).wf(),
            old(self)@.follows(now as int),
            now + old(self)@.window <= u64::MAX,
        ensures
            final(self).wf(),
            final(self)@ == old(self)@.accept(now as int),
            final(self)@.settled(now as int),
            final(self)@.follows(now as int),
            outcome is Ok <==> old(self)@.available(now as int),
            outcome matches Err(at) ==> at == old(self)@.retry_at(now as int),
    {
        proof {
            lemma_observe(self@, now as int);
        }
        self.flush(now);
        if self.history.len() >= self.capacity {
            if self.history.len() == 0 {
                return Err(now);
            }
            assert(self@.history[0] == self.history@[0]);
            return Err(self.history[0] + self.window);
        }
        let ghost before = self.history@;
        self.history.push_back(now);
        assert(instants(self.history@) =~= instants(before).push(now as int));
        Ok(())
    }

    /// The reading of the throttle's clock: the nanoseconds since the throttle
    /// was made. Whatever the clock shows, the reading is held between the last
    /// admission on record and the last instant whose expiry fits into a `u64`,
    /// so that `accept_at` can always take it.
    pub fn now(&self) -> (now: u64)
        requires
            self.wf(),
        ensures
            self@.follows(now as int),
            now + self@.window <= u64::MAX,
    {
        let reading = nanos_since(&self.origin);
        let count = self.history.len();
        let latest = if count > 0 {
            self.history[count - 1]
        } else {
            0
        };
        let limit = u64::MAX - self.window;
        if reading < latest {
            latest
        } else if reading > limit {
            limit
        } else {
            reading
        }
    }

    /// The number of admissions inside the window now, by the throttle's clock:
    /// what `size_at` returns at some instant not earlier than the last
    /// admission.
    pub fn size(&mut self) -> (count: usize)
        requires
            old(self).wf(),
        ensures
            final(self).wf(),
            exists|now: u64|
                old(self)@.follows(now as int)
                    && final(self)@ == #[trigger] old(self)@.observe(now as int)
                    && final(self)@.settled(now as int)
                    && final(self)@.follows(now as int)
                    && count == old(self)@.size(now as int),
    {
        let now = self.now();
        self.size_at(now)
    }

    /// Whether an admission would fit into the window now, by the throttle's
    /// clock: what `available_at` returns at some instant not earlier than the
    /// last admission.
    ///
    /// The answer is advice. It is good for the instant of the call: where the
    /// throttle is shared, another context may take the room before the caller
    /// acts on a `true`. Under exclusive access room that is there stays until
    /// the next admission, so a `false` was not `true` a moment before; it may
    /// well be `true` a moment later. To take the room, call `accept`.
    pub fn available(&mut self) -> (free: bool)
        requires
            old(self).wf(),
        ensures
            final(self).wf(),
            exists|now: u64|
                old(self)@.follows(now as int)
                    && final(self)@ == #[trigger] old(self)@.observe(now as int)
                    && final(self)@.settled(now as int)
                    && final(self)@.follows(now as int)
                    && free == old(self)@.available(now as int),
    {
        let now = self.now();
        self.available_at(now)
    }

    /// Admits an operation now, by the throttle's clock, where the window has
    /// room for it: what `accept_at` does at some instant not earlier than the
    /// last admission. The error is an instant of the same clock, to be held
    /// against `now`.
    pub fn accept(&mut self) -> (outcome: Result<(), u64>)
        requires
            old(self).wf(),
        ensures
            final(self).wf(),
            exists|now: u64|
                old(self)@.follows(now as int)
                    && final(self)@ == #[trigger] old(self)@.accept(now as int)
                    && final(self)@.settled(now as int)
                    && final(self)@.follows(now as int)
                    && (outcome is Ok <==> old(self)@.available(now as int))
                    && (outcome matches Err(at) ==> at == old(self)@.retry_at(now as int)),
    {
        let now = self.now();
        self.accept_at(now)
    }
}

} // verus!
