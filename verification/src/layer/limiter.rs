//! The rate limiter: a window counter around any handler, which lets at most
//! `qps` calls through in any second.
//!
//! Calls are counted in windows of one second. A window opens with the call
//! that finds the last one over, and calls of the window before it that are
//! less than a second old are counted against it, so that no second, however
//! it lies across two windows, holds more than `qps` calls.
//!
//! The limiter never rejects a call, it only tells the caller how long to
//! hold it back. It does not read a clock or sleep: the caller says what time
//! it is, in nanoseconds on any clock that does not run backwards, and waits
//! where it is told to.

use vstd::prelude::*;

verus! {

/// The length of one window: a second, in nanoseconds.
pub const PERIOD: u64 = 1_000_000_000;

/// The state of the current window.
#[derive(Debug, Clone, Copy, PartialEq, Eq, Structural)]
pub struct Window {
    /// The instant at which the window ends.
    pub until: u64,
    /// The number of calls the window may let through.
    pub capacity: u64,
    /// The number of calls it has let through.
    pub used: u64,
    /// One second after the last call that passed: from this instant on no
    /// call that passed is less than a second old.
    pub clear: u64,
}

/// What a caller is told when it asks to pass.
#[derive(Debug, Clone, Copy, PartialEq, Eq, Structural)]
pub enum Admission {
    /// Go ahead.
    Proceed,
    /// Ask again at `until`, not before.
    Wait { until: u64 },
}

/// The window before anything has happened: over already, so that the first
/// call opens a window of its own.
pub open spec fn initial(qps: u64) -> Window {
    Window { until: 0, capacity: qps, used: 0, clear: 0 }
}

/// The number of calls that a window opened at `now` takes over from the
/// window before it: all of that window's calls while the last of them is
/// less than a second old, none after that.
pub open spec fn carried(window: Window, now: u64) -> u64 {
    if now < window.clear {
        window.used
    } else {
        0
    }
}

/// What a caller that asks at `now` is told. Inside the window a call passes
/// while the window has capacity left. After the window a call passes, and
/// opens the next window, unless `qps` calls are less than a second old.
pub open spec fn verdict(qps: u64, window: Window, now: u64) -> Admission {
    if now < window.until {
        if window.used < window.capacity {
            Admission::Proceed
        } else if window.used < qps {
            Admission::Wait { until: window.until }
        } else {
            Admission::Wait { until: window.clear }
        }
    } else if carried(window, now) < qps {
        Admission::Proceed
    } else {
        Admission::Wait { until: window.clear }
    }
}

/// The window after a call was asked for at `now`. A call that is told to
/// wait changes nothing. A call that passes inside the window is counted
/// there; one that passes after it opens the next window, whose capacity is
/// `qps` less the calls carried over.
pub open spec fn admitted(qps: u64, window: Window, now: u64) -> Window {
    if verdict(qps, window, now) != Admission::Proceed {
        window
    } else if now < window.until {
        Window {
            until: window.until,
            capacity: window.capacity,
            used: (window.used + 1) as u64,
            clear: (now + PERIOD) as u64,
        }
    } else {
        Window {
            until: (now + PERIOD) as u64,
            capacity: (qps - carried(window, now)) as u64,
            used: 1,
            clear: (now + PERIOD) as u64,
        }
    }
}

/// A handler with a cap on how many calls reach it per second.
#[derive(Debug)]
pub struct Limiter<T> {
    inner: T,
    qps: u64,
    window: Window,
}

impl<T> Limiter<T> {
    /// The handler inside.
    pub closed spec fn inner(&self) -> T {
        self.inner
    }

    /// The number of calls let through per second.
    pub closed spec fn qps(&self) -> u64 {
        self.qps
    }

    /// The state of the current window.
    pub closed spec fn window(&self) -> Window {
        self.window
    }

    /// Wraps `inner` so that at most `qps` calls pass per second.
    pub fn new(inner: T, qps: u64) -> (limiter: Self)
        requires
            qps > 0,
        ensures
            limiter.inner() == inner,
            limiter.qps() == qps,
            limiter.window() == initial(qps),
    {
        Limiter { inner, qps, window: Window { until: 0, capacity: qps, used: 0, clear: 0 } }
    }

    /// Says whether a call asked for at `now` would pass, and if not, when
    /// to ask again. Nothing is counted.
    pub fn poll_ready(&self, now: u64) -> (admission: Admission)
        ensures
            admission == verdict(self.qps(), self.window(), now),
    {
        let window = self.window;
        if now < window.until {
            if window.used < window.capacity {
                Admission::Proceed
            } else if window.used < self.qps {
                Admission::Wait { until: window.until }
            } else {
                Admission::Wait { until: window.clear }
            }
        } else {
            let carried = if now < window.clear {
                window.used
            } else {
                0
            };
            if carried < self.qps {
                Admission::Proceed
            } else {
                Admission::Wait { until: window.clear }
            }
        }
    }

    /// Asks at `now` for one call to pass. On `Proceed` the call is counted
    /// and the caller goes on to the handler; on `Wait` nothing changes and
    /// the caller asks again at the instant given. No call is ever refused.
    pub fn call(&mut self, now: u64) -> (admission: Admission)
        requires
            now + PERIOD <= u64::MAX,
        ensures
            admission == verdict(old(self).qps(), old(self).window(), now),
            final(self).window() == admitted(old(self).qps(), old(self).window(), now),
            final(self).qps() == old(self).qps(),
            final(self).inner() == old(self).inner(),
    {
        let admission = self.poll_ready(now);
        match admission {
            Admission::Proceed => {
                let window = self.window;
                if now < window.until {
                    self.window = Window {
                        until: window.until,
                        capacity: window.capacity,
                        used: window.used + 1,
                        clear: now + PERIOD,
                    };
                } else {
                    let carried = if now < window.clear {
                        window.used
                    } else {
                        0
                    };
                    self.window = Window {
                        until: now + PERIOD,
                        capacity: self.qps - carried,
                        used: 1,
                        clear: now + PERIOD,
                    };
                }
            },
            Admission::Wait { .. } => {},
        }
        admission
    }

    /// The number of calls let through per second.
    pub fn rate(&self) -> (qps: u64)
        ensures
            qps == self.qps(),
    {
        self.qps
    }

    /// The state of the current window.
    pub fn current_window(&self) -> (window: Window)
        ensures
            window == self.window(),
    {
        self.window
    }

    /// The handler inside.
    pub fn get_ref(&self) -> (inner: &T)
        ensures
            *inner == self.inner(),
    {
        &self.inner
    }

    /// The handler inside, for a call that was let through.
    pub fn get_mut(&mut self) -> (inner: &mut T)
        ensures
            *inner == old(self).inner(),
            final(self).inner() == *final(inner),
            final(self).qps() == old(self).qps(),
            final(self).window() == old(self).window(),
    {
        &mut self.inner
    }

    /// Takes the limiter apart, giving the handler back.
    pub fn into_inner(self) -> (inner: T)
        ensures
            inner == self.inner(),
    {
        self.inner
    }
}

/// The window of a new limiter after calls were asked for at the instants
/// `asks`, in this order.
pub open spec fn replay(qps: u64, asks: Seq<u64>) -> Window
    decreases asks.len(),
{
    if asks.len() == 0 {
        initial(qps)
    } else {
        admitted(qps, replay(qps, asks.drop_last()), asks.last())
    }
}

/// A history that a caller can produce: time does not run backwards and
/// stays within what the clock can hold.
pub open spec fn orderly(asks: Seq<u64>) -> bool
    decreases asks.len(),
{
    if asks.len() == 0 {
        true
    } else {
        let before = asks.drop_last();
        &&& orderly(before)
        &&& asks.last() + PERIOD <= u64::MAX
        &&& before.len() > 0 ==> before.last() <= asks.last()
    }
}

/// The number of calls of a history that passed, at an instant in
/// `from..to`.
pub open spec fn calls_within(qps: u64, asks: Seq<u64>, from: int, to: int) -> nat
    decreases asks.len(),
{
    if asks.len() == 0 {
        0
    } else {
        let before = asks.drop_last();
        let rest = calls_within(qps, before, from, to);
        if verdict(qps, replay(qps, before), asks.last()) == Admission::Proceed && from
            <= asks.last() < to {
            rest + 1
        } else {
            rest
        }
    }
}

/// An instant later than any the clock can show.
spec fn horizon() -> int {
    0x1_0000_0000_0000_0000
}

/// What holds of the current window after any orderly history. The window
/// is within its capacity, which is within `qps`, and does not end after
/// `clear`. No call passed at or after its end, nor later than a second
/// before `clear`. The calls that passed since it opened are the ones it
/// counted, and those that passed in the second before it opened are within
/// what was held back from its capacity. It opened no later than the last
/// call was asked for, and the last call to pass was no later either.
spec fn settled(qps: u64, asks: Seq<u64>) -> bool {
    let window = replay(qps, asks);
    let opening = window.until - PERIOD;
    &&& window.used <= window.capacity <= qps
    &&& window.until <= window.clear
    &&& calls_within(qps, asks, window.until as int, horizon()) == 0
    &&& calls_within(qps, asks, window.clear - PERIOD + 1, horizon()) == 0
    &&& calls_within(qps, asks, opening, horizon()) == window.used
    &&& calls_within(qps, asks, opening - PERIOD + 1, opening) + window.capacity <= qps
    &&& asks.len() > 0 ==> opening <= asks.last() && window.clear - PERIOD <= asks.last()
}

proof fn lemma_calls_within_empty(qps: u64, asks: Seq<u64>, from: int, to: int)
    requires
        to <= from,
    ensures
        calls_within(qps, asks, from, to) == 0,
    decreases asks.len(),
{
    if asks.len() > 0 {
        lemma_calls_within_empty(qps, asks.drop_last(), from, to);
    }
}

proof fn lemma_calls_within_split(qps: u64, asks: Seq<u64>, from: int, mid: int, to: int)
    requires
        from <= mid <= to,
    ensures
        calls_within(qps, asks, from, to) == calls_within(qps, asks, from, mid) + calls_within(
            qps,
            asks,
            mid,
            to,
        ),
    decreases asks.len(),
{
    if asks.len() > 0 {
        lemma_calls_within_split(qps, asks.drop_last(), from, mid, to);
    }
}

proof fn lemma_calls_within_wider(
    qps: u64,
    asks: Seq<u64>,
    from: int,
    to: int,
    wider_from: int,
    wider_to: int,
)
    requires
        wider_from <= from,
        to <= wider_to,
    ensures
        calls_within(qps, asks, from, to) <= calls_within(qps, asks, wider_from, wider_to),
    decreases asks.len(),
{
    if asks.len() > 0 {
        lemma_calls_within_wider(qps, asks.drop_last(), from, to, wider_from, wider_to);
    }
}

/// No call passes at the horizon or beyond it.
proof fn lemma_calls_within_horizon(qps: u64, asks: Seq<u64>, from: int, to: int)
    requires
        horizon() <= to,
    ensures
        calls_within(qps, asks, from, to) == calls_within(qps, asks, from, horizon()),
    decreases asks.len(),
{
    if asks.len() > 0 {
        lemma_calls_within_horizon(qps, asks.drop_last(), from, to);
    }
}

/// Where no call passed from `bound` on, none passed from any later instant
/// on.
proof fn lemma_none_from(qps: u64, asks: Seq<u64>, bound: int, from: int, to: int)
    requires
        calls_within(qps, asks, bound, horizon()) == 0,
        bound <= from,
    ensures
        calls_within(qps, asks, from, to) == 0,
{
    if to <= horizon() {
        lemma_calls_within_wider(qps, asks, from, to, bound, horizon());
    } else {
        lemma_calls_within_horizon(qps, asks, from, to);
        if from <= horizon() {
            lemma_calls_within_wider(qps, asks, from, horizon(), bound, horizon());
        } else {
            lemma_calls_within_empty(qps, asks, from, horizon());
        }
    }
}

/// The calls that passed in any stretch from the opening of the current
/// window on are among those the window counted.
proof fn lemma_few_since(qps: u64, asks: Seq<u64>, from: int, to: int)
    requires
        settled(qps, asks),
        replay(qps, asks).until - PERIOD <= from,
    ensures
        calls_within(qps, asks, from, to) <= replay(qps, asks).used,
{
    let opening = replay(qps, asks).until - PERIOD;
    if to <= horizon() {
        lemma_calls_within_wider(qps, asks, from, to, opening, horizon());
    } else {
        lemma_calls_within_horizon(qps, asks, from, to);
        lemma_calls_within_wider(qps, asks, from, horizon(), opening, horizon());
    }
}

proof fn lemma_settled(qps: u64, asks: Seq<u64>)
    requires
        qps > 0,
        orderly(asks),
    ensures
        settled(qps, asks),
    decreases asks.len(),
{
    if asks.len() == 0 {
        lemma_calls_within_empty(qps, asks, 0, 0);
    } else {
        let before = asks.drop_last();
        let now = asks.last();
        lemma_settled(qps, before);
        let old = replay(qps, before);
        let window = replay(qps, asks);
        let opening = window.until - PERIOD;
        if verdict(qps, old, now) == Admission::Proceed {
            // Every call that passed before did so no later than `now`.
            lemma_none_from(qps, before, old.clear - PERIOD + 1, now + 1, horizon());
            lemma_none_from(qps, before, old.until as int, now + PERIOD, horizon());
            if now < old.until {
                lemma_calls_within_split(qps, before, opening, now as int, horizon());
            } else {
                // A window opens at `now`; what came in the second before is
                // what is carried over.
                lemma_none_from(qps, before, old.until as int, now as int, horizon());
                if now < old.clear {
                    lemma_few_since(qps, before, now - PERIOD + 1, now as int);
                } else {
                    lemma_none_from(
                        qps,
                        before,
                        old.clear - PERIOD + 1,
                        now - PERIOD + 1,
                        now as int,
                    );
                }
            }
        }
    }
}

/// In any second, wherever it begins, at most `qps` calls pass.
pub proof fn law_any_second_passes_at_most_qps(qps: u64, asks: Seq<u64>, t: int)
    requires
        qps > 0,
        orderly(asks),
    ensures
        calls_within(qps, asks, t, t + PERIOD) <= qps,
    decreases asks.len(),
{
    if asks.len() > 0 {
        let before = asks.drop_last();
        let now = asks.last();
        law_any_second_passes_at_most_qps(qps, before, t);
        if verdict(qps, replay(qps, before), now) == Admission::Proceed && t <= now < t + PERIOD {
            // The second reaches into the current window. Before the
            // window's opening it holds no more than was held back from the
            // window's capacity, and from there on no more than was counted.
            lemma_settled(qps, asks);
            let window = replay(qps, asks);
            let opening = window.until - PERIOD;
            if t <= opening {
                lemma_calls_within_split(qps, asks, t, opening, t + PERIOD);
                lemma_calls_within_wider(qps, asks, t, opening, opening - PERIOD + 1, opening);
                lemma_few_since(qps, asks, opening, t + PERIOD);
            } else {
                lemma_few_since(qps, asks, t, t + PERIOD);
            }
        }
    }
}

/// Sustained throughput is capped at `qps` calls a second: in any stretch
/// of `n` seconds at most `n * qps` calls pass.
pub proof fn law_sustained_rate_is_capped(qps: u64, asks: Seq<u64>, n: nat, t: int)
    requires
        qps > 0,
        orderly(asks),
    ensures
        calls_within(qps, asks, t, t + n * PERIOD) <= n * qps,
    decreases n,
{
    if n == 0 {
        lemma_calls_within_empty(qps, asks, t, t);
    } else {
        let fewer = (n - 1) as nat;
        law_sustained_rate_is_capped(qps, asks, fewer, t);
        law_any_second_passes_at_most_qps(qps, asks, t + fewer * PERIOD);
        lemma_calls_within_split(qps, asks, t, t + fewer * PERIOD, t + n * PERIOD);
        assert(fewer * qps + qps == n * qps) by (nonlinear_arith)
            requires
                fewer == n - 1,
        ;
    }
}

/// The limiter only ever delays: whoever is told to wait is given a later
/// instant, and passes when asking again at that instant or after it, if no
/// other call has passed in between.
pub proof fn law_wait_ends(qps: u64, asks: Seq<u64>, now: u64, until: u64, later: u64)
    requires
        qps > 0,
        orderly(asks),
        verdict(qps, replay(qps, asks), now) == (Admission::Wait { until }),
        later >= until,
    ensures
        now < until,
        verdict(qps, replay(qps, asks), later) == Admission::Proceed,
{
    lemma_settled(qps, asks);
}

} // verus!
