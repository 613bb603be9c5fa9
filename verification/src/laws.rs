//! What holds of a throttle over several operations, proved of the model that
//! the operations' contracts are written over.

use crate::state::ascending;
use crate::state::expired;
use crate::state::lemma_observe;
use crate::state::lemma_trim_cuts_prefix;
use crate::state::trim;
use crate::state::State;
use vstd::prelude::*;

verus! {

/// Holds of an admission while it is inside the window at `now`.
pub open spec fn inside(window: int, now: int) -> spec_fn(int) -> bool {
    |at: int| !expired(at, window, now)
}

/// Any two of `times`, in their order, are at least `gap` apart.
pub open spec fn spaced(times: Seq<int>, gap: int) -> bool {
    forall|i: int, j: int| 0 <= i < j < times.len() ==> times[j] - times[i] >= gap
}

/// Filtering by what holds of every member keeps the sequence.
proof fn lemma_filter_keeps_all(history: Seq<int>, keep: spec_fn(int) -> bool)
    requires
        forall|i: int| 0 <= i < history.len() ==> keep(#[trigger] history[i]),
    ensures
        history.filter(keep) == history,
    decreases history.len(),
{
    reveal(Seq::filter);
    if history.len() > 0 {
        lemma_filter_keeps_all(history.drop_last(), keep);
    }
}

/// In a record that is in the order of time, trimming the front is all the
/// trimming there is: what a look leaves on record is exactly the admissions
/// inside the window, in their order.
pub proof fn law_look_keeps_what_is_inside_the_window(s: State, now: int)
    requires
        ascending(s.history),
    ensures
        s.observe(now).history == s.history.filter(inside(s.window, now)),
    decreases s.history.len(),
{
    let keep = inside(s.window, now);
    if s.history.len() == 0 {
        reveal(Seq::filter);
    } else if expired(s.history[0], s.window, now) {
        let rest = s.history.drop_first();
        law_look_keeps_what_is_inside_the_window(State { history: rest, ..s }, now);
        rest.lemma_filter_prepend(s.history[0], keep);
        assert(seq![s.history[0]] + rest =~= s.history);
    } else {
        lemma_filter_keeps_all(s.history, keep);
    }
}

/// A later look makes an earlier one redundant: looking at `earlier` and then at
/// `later` leaves the throttle as looking at `later` alone does.
pub proof fn law_looks_compose(s: State, earlier: int, later: int)
    requires
        earlier <= later,
    ensures
        s.observe(earlier).observe(later) == s.observe(later),
    decreases s.history.len(),
{
    if s.history.len() > 0 && expired(s.history[0], s.window, earlier) {
        law_looks_compose(State { history: s.history.drop_first(), ..s }, earlier, later);
    }
}

/// Looking twice at the same instant is looking once: with no time elapsed and
/// no admission in between, `size` and `available` answer as they did before.
pub proof fn law_looking_again_changes_nothing(s: State, now: int)
    ensures
        s.observe(now).observe(now) == s.observe(now),
        s.observe(now).size(now) == s.size(now),
        s.observe(now).available(now) == s.available(now),
{
    law_looks_compose(s, now, now);
}

/// Between admissions the size never grows: a look finds no more on record
/// than there was, and no more than the look before it left. So room that is
/// there stays until the next admission, and a throttle that is found full was
/// full at every look since the last admission.
pub proof fn law_size_never_grows_without_admission(s: State, first: int, second: int)
    ensures
        s.size(first) <= s.history.len(),
        s.observe(first).size(second) <= s.size(first),
        s.available(first) ==> s.observe(first).available(second),
{
    lemma_trim_cuts_prefix(s.history, s.window, first);
    lemma_trim_cuts_prefix(s.observe(first).history, s.window, second);
}

/// An attempt to admit at an instant that is not before the last admission
/// keeps the throttle well formed and leaves nothing expired on record; the
/// window and the capacity stay as they were made.
pub proof fn law_accept_keeps_well_formed(s: State, now: int)
    requires
        s.wf(),
        s.follows(now),
    ensures
        s.accept(now).wf(),
        s.accept(now).settled(now),
        s.accept(now).follows(now),
        s.accept(now).window == s.window,
        s.accept(now).capacity == s.capacity,
{
    lemma_observe(s, now);
}

/// An admission adds exactly one to the size, and a refusal adds nothing.
pub proof fn law_admission_adds_one(s: State, now: int)
    requires
        s.wf(),
    ensures
        s.available(now) ==> s.accept(now).size(now) == s.size(now) + 1,
        !s.available(now) ==> s.accept(now).size(now) == s.size(now),
{
    lemma_trim_cuts_prefix(s.history, s.window, now);
    law_looking_again_changes_nothing(s, now);
}

/// Once the instant that a refusal returned has come, the next attempt is
/// admitted; and at no instant before it is there room. A throttle with a
/// capacity of zero never has room, and is left out.
pub proof fn law_retry_instant_is_exact(s: State, now: int, later: int)
    requires
        s.wf(),
        s.capacity > 0,
        !s.available(now),
    ensures
        later >= s.retry_at(now) ==> s.accept(now).available(later),
        later < s.retry_at(now) ==> !s.accept(now).available(later),
{
    let live = trim(s.history, s.window, now);
    lemma_observe(s, now);
    if later >= s.retry_at(now) {
        lemma_trim_cuts_prefix(live.drop_first(), s.window, later);
    }
}

/// With no time elapsing, the first `capacity` attempts on a new throttle are
/// admitted and the one after them is refused: after `done <= capacity`
/// attempts at `now` all of them are on record, and there is room for the next
/// exactly where `done < capacity`.
pub proof fn law_burst_fills_capacity(window: int, capacity: nat, now: int, done: nat)
    requires
        window > 0,
        done <= capacity,
    ensures
        State::fresh(window, capacity).accept_each(Seq::new(done, |i: int| now)) == (State {
            window,
            capacity,
            history: Seq::new(done, |i: int| now),
        }),
        State::fresh(window, capacity).accept_each(Seq::new(done, |i: int| now)).available(now)
            <==> done < capacity,
    decreases done,
{
    let times = Seq::new(done, |i: int| now);
    if done > 0 {
        let fewer = (done - 1) as nat;
        law_burst_fills_capacity(window, capacity, now, fewer);
        let before = Seq::new(fewer, |i: int| now);
        assert(times.drop_last() =~= before);
        assert(before.push(now) =~= times);
    } else {
        assert(times =~= Seq::<int>::empty());
    }
}

/// Attempts that are at least a window apart are all admitted, and each finds
/// the window empty: the throttle never holds more than the latest of them. The
/// first of them comes at least a window after what is already on record. A
/// throttle with a capacity of zero admits nothing, and is left out.
pub proof fn law_spaced_attempts_are_admitted(s: State, times: Seq<int>, k: int)
    requires
        s.wf(),
        s.capacity > 0,
        spaced(times, s.window),
        s.history.len() > 0 && times.len() > 0 ==> times[0] - s.history.last() >= s.window,
        0 <= k < times.len(),
    ensures
        s.accept_each(times.take(k)).size(times[k]) == 0,
        s.accept_each(times.take(k)).available(times[k]),
        s.accept_each(times.take(k + 1)) == (State { history: seq![times[k]], ..s }),
    decreases k,
{
    let before = s.accept_each(times.take(k));
    let at = times[k];
    assert(times.take(k + 1).drop_last() =~= times.take(k));
    if k > 0 {
        law_spaced_attempts_are_admitted(s, times, k - 1);
    }
    // Everything on record has expired at `at`, so nothing survives the trimming.
    let live = trim(before.history, s.window, at);
    lemma_trim_cuts_prefix(before.history, s.window, at);
    assert(live.push(at) =~= seq![at]);
}

/// A throttle with a capacity of zero holds nothing, has no room and admits
/// nothing, whatever the instant; the instant that its refusal returns is the
/// instant of the attempt.
pub proof fn law_zero_capacity_admits_nothing(s: State, now: int)
    requires
        s.wf(),
        s.capacity == 0,
    ensures
        s.size(now) == 0,
        !s.available(now),
        s.retry_at(now) == now,
        s.accept(now) == s,
{
}

} // verus!
