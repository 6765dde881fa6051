//! A repeating timer that counts time in whole units.
//!
//! The unit is the caller's choice (the intervals below are in nanoseconds).
//! A timer adds up the time it is given; the tick on which the sum reaches
//! the period is the tick on which it fires, and firing starts the count
//! again from zero.

use vstd::prelude::*;

verus! {

/// Time between two moves of the snake, in nanoseconds.
pub const MOVE_INTERVAL: u64 = 135_000_000;

/// Time between two attempts to spawn a fruit, in nanoseconds.
pub const FRUIT_INTERVAL: u64 = 2_000_000_000;

/// What a timer holds.
pub struct TimerState {
    /// Time that has to add up before the timer fires.
    pub period: nat,
    /// Time added up since the timer last fired.
    pub elapsed: nat,
    /// Whether the last tick fired.
    pub finished: bool,
}

/// The timer after a tick that brought `delta` more time.
pub open spec fn ticked(timer: TimerState, delta: nat) -> TimerState {
    if timer.elapsed + delta >= timer.period {
        TimerState { period: timer.period, elapsed: 0, finished: true }
    } else {
        TimerState { period: timer.period, elapsed: timer.elapsed + delta, finished: false }
    }
}

/// The timer after one tick for each element of `deltas`, in order.
pub open spec fn ticked_through(timer: TimerState, deltas: Seq<nat>) -> TimerState
    decreases deltas.len(),
{
    if deltas.len() == 0 {
        timer
    } else {
        ticked(ticked_through(timer, deltas.drop_last()), deltas.last())
    }
}

/// How many of the ticks in `deltas` fire.
pub open spec fn times_fired(timer: TimerState, deltas: Seq<nat>) -> nat
    decreases deltas.len(),
{
    if deltas.len() == 0 {
        0
    } else {
        let before = times_fired(timer, deltas.drop_last());
        if ticked_through(timer, deltas).finished {
            before + 1
        } else {
            before
        }
    }
}

/// Time that ticks `i - i % k ..= i` bring together: what has come in since
/// the last tick whose number is a multiple of `k`.
pub open spec fn gathered(deltas: Seq<nat>, k: int, i: int) -> nat
    decreases i,
{
    if k <= 0 || i < 0 || i >= deltas.len() {
        0
    } else if i == 0 || i % k == 0 {
        deltas[i]
    } else {
        gathered(deltas, k, i - 1) + deltas[i]
    }
}

/// The time gathered reaches `period` on every `k`-th tick and on no other.
pub open spec fn period_reached_every(period: nat, deltas: Seq<nat>, k: int) -> bool {
    forall|i: int|
        0 <= i < deltas.len() ==> (#[trigger] gathered(deltas, k, i) >= period <==> (i + 1) % k
            == 0)
}

proof fn lemma_gathered_prefix(deltas: Seq<nat>, k: int, n: int, i: int)
    requires
        0 <= i < n <= deltas.len(),
    ensures
        gathered(deltas.take(n), k, i) == gathered(deltas, k, i),
    decreases i,
{
    if k > 0 && i > 0 && i % k != 0 {
        lemma_gathered_prefix(deltas, k, n, i - 1);
    }
}

proof fn lemma_count_step(n: int, k: int)
    requires
        0 < n,
        0 < k,
    ensures
        n % k == 0 ==> n / k == (n - 1) / k + 1 && (n - 1) % k == k - 1,
        n % k != 0 ==> n / k == (n - 1) / k && (n - 1) % k == n % k - 1,
{
    vstd::arithmetic::div_mod::lemma_fundamental_div_mod(n, k);
    vstd::arithmetic::div_mod::lemma_fundamental_div_mod(n - 1, k);
    vstd::arithmetic::div_mod::lemma_mod_bound(n, k);
    vstd::arithmetic::div_mod::lemma_mod_bound(n - 1, k);
    let q = n / k;
    let q1 = (n - 1) / k;
    assert(k * q + n % k == k * q1 + (n - 1) % k + 1);
    assert(k * (q - q1) == (n - 1) % k + 1 - n % k) by (nonlinear_arith)
        requires
            k * q + n % k == k * q1 + (n - 1) % k + 1,
    ;
    if q - q1 >= 2 {
        assert(k * (q - q1) >= 2 * k) by (nonlinear_arith)
            requires
                q - q1 >= 2,
                k > 0,
        ;
    }
    if q - q1 <= -1 {
        assert(k * (q - q1) <= -k) by (nonlinear_arith)
            requires
                q - q1 <= -1,
                k > 0,
        ;
    }
    if q - q1 == 1 {
        assert(k * (q - q1) == k) by (nonlinear_arith)
            requires
                q - q1 == 1,
        ;
    }
    if q == q1 {
        assert(k * (q - q1) == 0) by (nonlinear_arith)
            requires
                q == q1,
        ;
    }
}

/// Gating is exact. Take a timer that has nothing on its count, and ticks
/// whose time reaches the period on every `k`-th tick and on no tick between.
/// Then the timer fires on exactly those ticks: after `n` ticks it has fired
/// `n / k` times, rounded down, however long it runs.
pub proof fn lemma_fires_every_kth_tick(timer: TimerState, deltas: Seq<nat>, k: int)
    requires
        timer.elapsed == 0,
        k > 0,
        period_reached_every(timer.period, deltas, k),
    ensures
        times_fired(timer, deltas) == deltas.len() as int / k,
        ticked_through(timer, deltas).period == timer.period,
        ticked_through(timer, deltas).elapsed == if deltas.len() as int % k == 0 {
            0
        } else {
            gathered(deltas, k, deltas.len() - 1)
        },
        deltas.len() > 0 ==> (ticked_through(timer, deltas).finished <==> deltas.len() as int % k
            == 0),
    decreases deltas.len(),
{
    let n = deltas.len() as int;
    if n > 0 {
        let earlier = deltas.drop_last();
        assert(earlier == deltas.take(n - 1));
        assert forall|i: int| 0 <= i < earlier.len() implies (#[trigger] gathered(earlier, k, i)
            >= timer.period <==> (i + 1) % k == 0) by {
            lemma_gathered_prefix(deltas, k, n - 1, i);
            assert(gathered(deltas, k, i) >= timer.period <==> (i + 1) % k == 0);
        }
        lemma_fires_every_kth_tick(timer, earlier, k);
        lemma_count_step(n, k);
        let before = ticked_through(timer, earlier);
        if n - 1 > 0 && (n - 1) % k != 0 {
            lemma_gathered_prefix(deltas, k, n - 1, n - 2);
        }
        assert(before.elapsed + deltas.last() == gathered(deltas, k, n - 1));
    }
}

/// With the same amount `delta` on every tick, and `k` the number of ticks
/// it takes for that amount to add up to the period, the time gathered
/// reaches the period on every `k`-th tick and on no other.
pub proof fn lemma_steady_ticks_reach_period(period: nat, deltas: Seq<nat>, delta: nat, k: int)
    requires
        k > 0,
        (k - 1) * delta < period <= k * delta,
        forall|i: int| 0 <= i < deltas.len() ==> deltas[i] == delta,
    ensures
        period_reached_every(period, deltas, k),
{
    assert forall|i: int| 0 <= i < deltas.len() implies (#[trigger] gathered(deltas, k, i)
        >= period <==> (i + 1) % k == 0) by {
        lemma_steady_gathered(deltas, delta, k, i);
        vstd::arithmetic::div_mod::lemma_mod_bound(i, k);
        let m = i % k;
        lemma_count_step(i + 1, k);
        if m == k - 1 {
            assert((m + 1) * delta == k * delta);
        } else {
            assert((m + 1) * delta <= (k - 1) * delta) by (nonlinear_arith)
                requires
                    0 <= m + 1 <= k - 1,
                    0 <= delta,
            ;
        }
    }
}

/// A timer that is given the same amount `delta` on every tick, where it
/// takes `k` ticks for that amount to add up to the period, fires on every
/// `k`-th tick: `n / k` times in `n` ticks, rounded down.
pub proof fn lemma_steady_ticks_fire_every_kth(
    timer: TimerState,
    deltas: Seq<nat>,
    delta: nat,
    k: int,
)
    requires
        timer.elapsed == 0,
        k > 0,
        (k - 1) * delta < timer.period <= k * delta,
        forall|i: int| 0 <= i < deltas.len() ==> deltas[i] == delta,
    ensures
        times_fired(timer, deltas) == deltas.len() as int / k,
{
    lemma_steady_ticks_reach_period(timer.period, deltas, delta, k);
    lemma_fires_every_kth_tick(timer, deltas, k);
}

proof fn lemma_steady_gathered(deltas: Seq<nat>, delta: nat, k: int, i: int)
    requires
        k > 0,
        0 <= i < deltas.len(),
        forall|j: int| 0 <= j < deltas.len() ==> deltas[j] == delta,
    ensures
        gathered(deltas, k, i) == (i % k + 1) * delta,
    decreases i,
{
    if i > 0 && i % k != 0 {
        lemma_steady_gathered(deltas, delta, k, i - 1);
        lemma_count_step(i, k);
        assert((i % k - 1 + 1) * delta + delta == (i % k + 1) * delta) by (nonlinear_arith);
    } else {
        if i == 0 {
            vstd::arithmetic::div_mod::lemma_small_mod(0, k as nat);
        }
        assert((0 + 1) * delta == delta) by (nonlinear_arith);
    }
}

/// A repeating timer.
#[derive(Clone, Copy, Debug, PartialEq, Eq, Structural)]
pub struct RepeatingTimer {
    period: u64,
    elapsed: u64,
    finished: bool,
}

impl View for RepeatingTimer {
    type V = TimerState;

    closed spec fn view(&self) -> TimerState {
        TimerState {
            period: self.period as nat,
            elapsed: self.elapsed as nat,
            finished: self.finished,
        }
    }
}

impl RepeatingTimer {
    /// A timer of the given period with nothing on its count.
    pub fn new(period: u64) -> (timer: RepeatingTimer)
        ensures
            timer@ == (TimerState { period: period as nat, elapsed: 0, finished: false }),
    {
        RepeatingTimer { period, elapsed: 0, finished: false }
    }

    /// Adds `delta` to the count. The timer fires, and starts again from
    /// zero, if the count has reached the period.
    pub fn tick(&mut self, delta: u64) -> (fired: bool)
        ensures
            final(self)@ == ticked(old(self)@, delta as nat),
            fired == final(self)@.finished,
    {
        let reached = match self.elapsed.checked_add(delta) {
            Some(total) => total >= self.period,
            None => true,
        };
        if reached {
            self.elapsed = 0;
            self.finished = true;
        } else {
            self.elapsed = self.elapsed + delta;
            self.finished = false;
        }
        reached
    }

    /// Whether the last tick fired.
    pub fn finished(&self) -> (finished: bool)
        ensures
            finished == self@.finished,
    {
        self.finished
    }

    /// The time that has to add up before the timer fires.
    pub fn period(&self) -> (period: u64)
        ensures
            period == self@.period,
    {
        self.period
    }

    /// The time added up since the timer last fired.
    pub fn elapsed(&self) -> (elapsed: u64)
        ensures
            elapsed == self@.elapsed,
    {
        self.elapsed
    }
}

} // verus!
