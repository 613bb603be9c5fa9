//! The mathematical model of a throttle: a window, a capacity and the recorded
//! admissions, with every operation as a function of the state and the instant
//! at which it happens.

use vstd::prelude::*;

verus! {

/// Whether an admission recorded at `at` has left a window of length `window`
/// by `now`. An admission whose age is exactly `window` has left it.
pub open spec fn expired(at: int, window: int, now: int) -> bool {
    now - at >= window
}

/// Every admission in `history` is at or after the ones before it.
pub open spec fn ascending(history: Seq<int>) -> bool {
    forall|i: int, j: int| 0 <= i <= j < history.len() ==> history[i] <= history[j]
}

/// What is left of `history` once the expired admissions at its front are gone.
/// Only the front is looked at: the first admission that is still inside the
/// window ends the trimming.
pub open spec fn trim(history: Seq<int>, window: int, now: int) -> Seq<int>
    decreases history.len(),
{
    if history.len() > 0 && expired(history[0], window, now) {
        trim(history.drop_first(), window, now)
    } else {
        history
    }
}

/// Trimming cuts a prefix and nothing else: what is left is the history from
/// some index on, everything before that index has expired, and the admission
/// at that index, if there is one, has not.
pub proof fn lemma_trim_cuts_prefix(history: Seq<int>, window: int, now: int)
    ensures
        trim(history, window, now).len() <= history.len(),
        trim(history, window, now) == history.skip(
            history.len() - trim(history, window, now).len(),
        ),
        forall|i: int|
            0 <= i < history.len() - trim(history, window, now).len() ==> expired(
                #[trigger] history[i],
                window,
                now,
            ),
        trim(history, window, now).len() > 0 ==> !expired(
            trim(history, window, now)[0],
            window,
            now,
        ),
    decreases history.len(),
{
    if history.len() > 0 && expired(history[0], window, now) {
        let rest = history.drop_first();
        lemma_trim_cuts_prefix(rest, window, now);
        let left = trim(rest, window, now);
        let cut = rest.len() - left.len();
        assert forall|i: int| 0 <= i < cut + 1 implies expired(
            #[trigger] history[i],
            window,
            now,
        ) by {
            if i > 0 {
                assert(history[i] == rest[i - 1]);
            }
        }
    }
}

/// A throttle as the contracts see it.
pub struct State {
    /// The length of the trailing window, in nanoseconds.
    pub window: int,
    /// How many admissions the window may hold.
    pub capacity: nat,
    /// The instants of the admissions on record, oldest first.
    pub history: Seq<int>,
}

impl State {
    /// What holds of every throttle between operations: the window is positive,
    /// the record is in the order of time and holds no more than `capacity`.
    pub open spec fn wf(self) -> bool {
        &&& self.window > 0
        &&& self.history.len() <= self.capacity
        &&& ascending(self.history)
    }

    /// A throttle on which nothing has been admitted yet.
    pub open spec fn fresh(window: int, capacity: nat) -> State {
        State { window, capacity, history: Seq::empty() }
    }

    /// `now` is not earlier than any admission on record, as a reading of a
    /// monotonic clock taken after them never is.
    pub open spec fn follows(self, now: int) -> bool {
        self.history.len() > 0 ==> self.history.last() <= now
    }

    /// No admission on record has expired at `now`.
    pub open spec fn settled(self, now: int) -> bool {
        forall|i: int|
            0 <= i < self.history.len() ==> !expired(#[trigger] self.history[i], self.window, now)
    }

    /// No admission on record is before instant zero, and each leaves the window
    /// at or before `limit`.
    pub open spec fn within(self, limit: int) -> bool {
        forall|i: int|
            0 <= i < self.history.len() ==> 0 <= #[trigger] self.history[i] <= limit - self.window
    }

    /// The throttle once it has been looked at at `now`: the expired admissions
    /// at the front of its record are gone.
    pub open spec fn observe(self, now: int) -> State {
        State { history: trim(self.history, self.window, now), ..self }
    }

    /// The number of admissions inside the window at `now`.
    pub open spec fn size(self, now: int) -> nat {
        self.observe(now).history.len()
    }

    /// Whether one more admission fits into the window at `now`.
    pub open spec fn available(self, now: int) -> bool {
        self.size(now) < self.capacity
    }

    /// The instant at which the oldest admission inside the window at `now`
    /// leaves it. Where the window holds none, which a full throttle shows only
    /// with a capacity of zero, there is nothing to wait for and it is `now`.
    pub open spec fn retry_at(self, now: int) -> int {
        let live = self.observe(now).history;
        if live.len() > 0 {
            live[0] + self.window
        } else {
            now
        }
    }

    /// The throttle after an attempt to admit at `now`: looked at, and with `now`
    /// on record where it fitted.
    pub open spec fn accept(self, now: int) -> State {
        let seen = self.observe(now);
        if self.available(now) {
            State { history: seen.history.push(now), ..seen }
        } else {
            seen
        }
    }

    /// The throttle after one attempt to admit at each of `times`, in turn.
    pub open spec fn accept_each(self, times: Seq<int>) -> State
        decreases times.len(),
    {
        if times.len() == 0 {
            self
        } else {
            self.accept_each(times.drop_last()).accept(times.last())
        }
    }
}

/// Looking at a throttle keeps it well formed and leaves nothing expired on
/// record: in a record that is in the order of time, whatever follows an
/// admission inside the window is inside it too. An instant that was not before
/// the last admission is not before it afterwards, and the bounds on the record
/// stay.
pub proof fn lemma_observe(s: State, now: int)
    requires
        s.wf(),
    ensures
        s.observe(now).wf(),
        s.observe(now).settled(now),
        s.follows(now) ==> s.observe(now).follows(now),
        forall|later: int| s.follows(later) ==> #[trigger] s.observe(now).follows(later),
        forall|limit: int| s.within(limit) ==> #[trigger] s.observe(now).within(limit),
{
    lemma_trim_cuts_prefix(s.history, s.window, now);
}

} // verus!
