//! The send-rate timer: decides, tick by tick, whether the full state is due.
//!
//! Times are whole numbers counted from an origin and in a unit that the
//! caller chooses; the interval is counted in the same unit.

use vstd::prelude::*;

verus! {

/// The deadline that follows from `next_send` once the clock reads `now`:
/// `send_interval` is added again and again until the deadline lies after
/// `now`. With an interval of zero the deadline stays where it is, so that
/// every later tick is due.
pub open spec fn deadline_after(next_send: int, send_interval: int, now: int) -> int
    decreases
        (if next_send > now {
            0
        } else {
            now - next_send + 1
        }),
{
    if next_send > now || send_interval <= 0 {
        next_send
    } else {
        deadline_after(next_send + send_interval, send_interval, now)
    }
}

/// Number of ticks, among those at the given `times`, on which the full state
/// is sent by a timer whose first deadline is `next_send`.
pub open spec fn full_syncs(next_send: int, send_interval: int, times: Seq<int>) -> nat
    decreases times.len(),
{
    if times.len() == 0 {
        0
    } else {
        let due: nat = if times[0] >= next_send {
            1
        } else {
            0
        };
        due + full_syncs(
            deadline_after(next_send, send_interval, times[0]),
            send_interval,
            times.drop_first(),
        )
    }
}

/// The deadline reached by repeated addition, in closed form.
pub proof fn lemma_deadline_closed_form(next_send: int, send_interval: int, now: int)
    requires
        send_interval > 0,
        next_send <= now,
    ensures
        deadline_after(next_send, send_interval, now) == next_send + ((now - next_send)
            / send_interval + 1) * send_interval,
        now < deadline_after(next_send, send_interval, now) <= now + send_interval,
    decreases now - next_send + 1,
{
    let gap = now - next_send;
    let after = next_send + send_interval;
    assert(deadline_after(next_send, send_interval, now) == deadline_after(
        after,
        send_interval,
        now,
    ));
    if after > now {
        assert(deadline_after(after, send_interval, now) == after);
        assert(gap / send_interval == 0) by (nonlinear_arith)
            requires
                0 <= gap < send_interval,
        ;
        assert((0 + 1) * send_interval == send_interval) by (nonlinear_arith);
    } else {
        lemma_deadline_closed_form(after, send_interval, now);
        let quotient = gap / send_interval;
        assert((now - after) / send_interval == quotient - 1) by (nonlinear_arith)
            requires
                send_interval > 0,
                gap >= send_interval,
                now - after == gap - send_interval,
                quotient == gap / send_interval,
        ;
        assert(after + ((quotient - 1) + 1) * send_interval == next_send + (quotient + 1)
            * send_interval) by (nonlinear_arith)
            requires
                after == next_send + send_interval,
        ;
    }
}

/// However the ticks are spaced, the full state is sent at most once for
/// every interval that has begun: over ticks that all come no later than
/// `end`, at most `(end - next_send) / send_interval + 1` times, and never
/// when `end` lies before the first deadline.
pub proof fn lemma_full_syncs_at_most(
    next_send: int,
    send_interval: int,
    times: Seq<int>,
    end: int,
)
    requires
        send_interval > 0,
        forall|i: int| 0 <= i < times.len() ==> times[i] <= end,
    ensures
        end < next_send ==> full_syncs(next_send, send_interval, times) == 0,
        end >= next_send ==> full_syncs(next_send, send_interval, times) <= (end - next_send)
            / send_interval + 1,
    decreases times.len(),
{
    if times.len() == 0 {
        if end >= next_send {
            assert((end - next_send) / send_interval >= 0) by (nonlinear_arith)
                requires
                    end - next_send >= 0,
                    send_interval > 0,
            ;
        }
    } else {
        let now = times[0];
        let rest = times.drop_first();
        let next = deadline_after(next_send, send_interval, now);
        assert forall|i: int| 0 <= i < rest.len() implies rest[i] <= end by {
            assert(rest[i] == times[i + 1]);
        }
        lemma_full_syncs_at_most(next, send_interval, rest, end);
        if now >= next_send {
            lemma_deadline_closed_form(next_send, send_interval, now);
            let steps = (now - next_send) / send_interval + 1;
            assert(steps >= 1) by (nonlinear_arith)
                requires
                    steps == (now - next_send) / send_interval + 1,
                    now - next_send >= 0,
                    send_interval > 0,
            ;
            if end >= next {
                assert((end - next) / send_interval + 1 <= (end - next_send) / send_interval)
                    by (nonlinear_arith)
                    requires
                        next == next_send + steps * send_interval,
                        steps >= 1,
                        send_interval > 0,
                        end >= next,
                ;
            } else {
                assert((end - next_send) / send_interval >= 0) by (nonlinear_arith)
                    requires
                        end - next_send >= 0,
                        send_interval > 0,
                ;
            }
        }
    }
}

/// When no two consecutive ticks are further apart than the interval, and the
/// first tick comes before the first interval has run out, the full state is
/// sent exactly once per interval begun: `(last - next_send) / send_interval
/// + 1` times, where `last` is the time of the last tick.
pub proof fn lemma_full_syncs_of_steady_ticks(next_send: int, send_interval: int, times: Seq<int>)
    requires
        send_interval > 0,
        times.len() > 0,
        times[0] < next_send + send_interval,
        forall|i: int|
            0 <= i < times.len() - 1 ==> 0 <= times[i + 1] - (#[trigger] times[i]) <= send_interval,
        times.last() >= next_send,
    ensures
        full_syncs(next_send, send_interval, times) == (times.last() - next_send) / send_interval
            + 1,
    decreases times.len(),
{
    let now = times[0];
    let rest = times.drop_first();
    let last = times.last();
    let next = deadline_after(next_send, send_interval, now);
    assert forall|i: int| 0 <= i < rest.len() - 1 implies 0 <= rest[i + 1] - (#[trigger] rest[i])
        <= send_interval by {
        assert(rest[i] == times[i + 1]);
        assert(rest[i + 1] == times[i + 2]);
    }
    assert forall|i: int| 0 <= i < rest.len() implies rest[i] <= last by {
        lemma_sorted_last(rest, i);
    }
    if rest.len() > 0 {
        assert(rest[0] == times[1]);
        assert(rest.last() == last);
    }
    if now < next_send {
        lemma_full_syncs_of_steady_ticks(next, send_interval, rest);
    } else {
        lemma_deadline_closed_form(next_send, send_interval, now);
        assert((now - next_send) / send_interval == 0) by (nonlinear_arith)
            requires
                0 <= now - next_send < send_interval,
        ;
        assert((0 + 1) * send_interval == send_interval) by (nonlinear_arith);
        assert(next == next_send + send_interval);
        if rest.len() == 0 {
            assert(full_syncs(next, send_interval, rest) == 0);
        } else if last >= next {
            lemma_full_syncs_of_steady_ticks(next, send_interval, rest);
            assert((last - next_send - send_interval) / send_interval == (last - next_send)
                / send_interval - 1) by (nonlinear_arith)
                requires
                    send_interval > 0,
                    last - next_send >= send_interval,
            ;
        } else {
            lemma_full_syncs_at_most(next, send_interval, rest, last);
            assert((last - next_send) / send_interval == 0) by (nonlinear_arith)
                requires
                    0 <= last - next_send < send_interval,
            ;
        }
    }
}

/// In a sequence that never decreases, no element is greater than the last.
proof fn lemma_sorted_last(times: Seq<int>, i: int)
    requires
        0 <= i < times.len(),
        forall|j: int| 0 <= j < times.len() - 1 ==> 0 <= times[j + 1] - (#[trigger] times[j]),
    ensures
        times[i] <= times.last(),
    decreases times.len() - i,
{
    if i < times.len() - 1 {
        lemma_sorted_last(times, i + 1);
    }
}

/// The timer that throttles the sending of full state.
pub struct SendTimer {
    send_interval: u64,
    next_send: u128,
}

impl SendTimer {
    /// The time from which the next full state is due.
    pub closed spec fn deadline(&self) -> int {
        self.next_send as int
    }

    /// The time between two full states.
    pub closed spec fn interval(&self) -> int {
        self.send_interval as int
    }

    /// A timer started at time `now`: the first full state is due one
    /// interval later.
    pub fn new(now: u64, send_interval: u64) -> (timer: Self)
        ensures
            timer.interval() == send_interval,
            timer.deadline() == now + send_interval,
    {
        SendTimer { send_interval, next_send: now as u128 + send_interval as u128 }
    }

    /// The time between two full states.
    pub fn send_interval(&self) -> (interval: u64)
        ensures
            interval == self.interval(),
    {
        self.send_interval
    }

    /// The time from which the next full state is due.
    pub fn next_send(&self) -> (deadline: u128)
        ensures
            deadline == self.deadline(),
    {
        self.next_send
    }

    /// One tick at time `now`. Returns whether the full state is to be sent on
    /// this tick, which is the case when the deadline has been reached, and
    /// moves the deadline past `now`. However long the stall before this tick
    /// was, it answers for one sending only.
    pub fn tick(&mut self, now: u64) -> (send_this_frame: bool)
        ensures
            send_this_frame == (now >= old(self).deadline()),
            final(self).interval() == old(self).interval(),
            final(self).deadline() == deadline_after(
                old(self).deadline(),
                old(self).interval(),
                now as int,
            ),
    {
        let now_wide: u128 = now as u128;
        let send_this_frame: bool = now_wide >= self.next_send;
        if send_this_frame && self.send_interval > 0 {
            let interval: u128 = self.send_interval as u128;
            let gap: u128 = now_wide - self.next_send;
            let steps: u128 = gap / interval + 1;
            proof {
                lemma_deadline_closed_form(self.next_send as int, interval as int, now as int);
                assert(steps * interval <= gap + interval) by (nonlinear_arith)
                    requires
                        steps == gap / interval + 1,
                        interval > 0,
                        gap >= 0,
                ;
            }
            self.next_send = self.next_send + steps * interval;
        }
        send_this_frame
    }
}

} // verus!
