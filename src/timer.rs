//! One reminder timer as a state machine. Time is counted in whole seconds
//! from the moment the timer was created. The first reminder comes one full
//! span after creation, and then one at every further multiple of the span;
//! readings that arrive late fire every multiple they passed.
//! A cancelled timer fires no more.
use vstd::prelude::*;
use vstd::arithmetic::div_mod::lemma_div_is_ordered;
use crate::duration::TimeSpan;

verus! {

/// What happens to a timer.
#[derive(Clone, Copy, Debug, PartialEq, Eq, Structural)]
pub enum Event {
    /// The clock reads this many whole seconds since the timer was created.
    Clock(u128),
    /// The desktop notification for a reminder could not be shown.
    DeliveryFailed,
    /// The user asked the program to stop.
    Cancel,
}

/// The state of a timer as a mathematical value.
pub struct TimerView {
    pub span: nat,
    /// The latest clock reading seen so far.
    pub seen: nat,
    pub cancelled: bool,
}

/// A fresh timer with the given span.
pub open spec fn timer_initial(span: nat) -> TimerView {
    TimerView { span, seen: 0, cancelled: false }
}

/// The state after an event, and how many reminders fire on it.
/// A zero span fires once on every clock reading.
pub open spec fn timer_step(s: TimerView, ev: Event) -> (TimerView, nat) {
    match ev {
        Event::Clock(now) => {
            if s.cancelled {
                (s, 0)
            } else if s.span == 0 {
                (TimerView { seen: if now > s.seen { now as nat } else { s.seen }, ..s }, 1)
            } else if now <= s.seen {
                (s, 0)
            } else {
                (TimerView { seen: now as nat, ..s }, (now as nat / s.span - s.seen / s.span) as nat)
            }
        },
        Event::DeliveryFailed => (s, 0),
        Event::Cancel => (TimerView { cancelled: true, ..s }, 0),
    }
}

/// The state after a sequence of events, and how many reminders fired in all.
pub open spec fn timer_run(s: TimerView, evs: Seq<Event>) -> (TimerView, nat)
    decreases evs.len(),
{
    if evs.len() == 0 {
        (s, 0)
    } else {
        let (mid, before) = timer_run(s, evs.drop_last());
        let (end, now) = timer_step(mid, evs.last());
        (end, before + now)
    }
}

/// The clock reading at which the next reminder fires, if one will.
pub open spec fn next_due_at(s: TimerView) -> Option<nat> {
    if s.cancelled {
        None
    } else if s.span == 0 {
        Some(s.seen)
    } else {
        Some(((s.seen / s.span + 1) * s.span) as nat)
    }
}

/// The latest clock reading among the events, or zero if there is none.
pub open spec fn latest_reading(evs: Seq<Event>) -> nat
    decreases evs.len(),
{
    if evs.len() == 0 {
        0
    } else {
        let before = latest_reading(evs.drop_last());
        match evs.last() {
            Event::Clock(now) => if now > before { now as nat } else { before },
            _ => before,
        }
    }
}

pub open spec fn has_no_cancel(evs: Seq<Event>) -> bool {
    forall|i: int| 0 <= i < evs.len() ==> !(#[trigger] evs[i] is Cancel)
}

pub open spec fn is_delivery_failure(ev: Event) -> bool {
    ev is DeliveryFailed
}

/// A reminder timer.
#[derive(Clone, Copy, Debug)]
pub struct Timer {
    span: TimeSpan,
    seen: u128,
    cancelled: bool,
}

impl View for Timer {
    type V = TimerView;

    closed spec fn view(&self) -> TimerView {
        TimerView { span: self.span@, seen: self.seen as nat, cancelled: self.cancelled }
    }
}

impl Timer {
    pub fn new(span: TimeSpan) -> (t: Timer)
        ensures
            t@ == timer_initial(span@),
    {
        Timer { span, seen: 0, cancelled: false }
    }

    pub fn span(&self) -> (r: TimeSpan)
        ensures
            r@ == self@.span,
    {
        self.span
    }

    pub fn is_cancelled(&self) -> (r: bool)
        ensures
            r == self@.cancelled,
    {
        self.cancelled
    }

    /// Applies an event and returns how many reminders fire on it.
    pub fn step(&mut self, ev: Event) -> (fired: u128)
        ensures
            (final(self)@, fired as nat) == timer_step(old(self)@, ev),
    {
        match ev {
            Event::Clock(now) => {
                if self.cancelled {
                    0
                } else {
                    let span = self.span.as_secs();
                    if span == 0 {
                        if now > self.seen {
                            self.seen = now;
                        }
                        1
                    } else if now <= self.seen {
                        0
                    } else {
                        proof {
                            lemma_div_is_ordered(self.seen as int, now as int, span as int);
                        }
                        let fired = now / span - self.seen / span;
                        self.seen = now;
                        fired
                    }
                }
            },
            Event::DeliveryFailed => 0,
            Event::Cancel => {
                self.cancelled = true;
                0
            },
        }
    }

    /// The clock reading at which the next reminder fires; `None` once the
    /// timer is cancelled, and also when that reading would not fit in 128 bits.
    pub fn next_due(&self) -> (r: Option<u128>)
        ensures
            r matches Some(d) ==> next_due_at(self@) == Some(d as nat),
            r is None ==> next_due_at(self@) is None || next_due_at(self@)->0 > u128::MAX,
    {
        if self.cancelled {
            None
        } else {
            let span = self.span.as_secs();
            if span == 0 {
                Some(self.seen)
            } else {
                let k = self.seen / span;
                match k.checked_add(1) {
                    None => {
                        assert((k + 1) * span > u128::MAX) by (nonlinear_arith)
                            requires
                                k + 1 > u128::MAX,
                                span >= 1,
                        ;
                        None
                    },
                    Some(k1) => k1.checked_mul(span),
                }
            }
        }
    }
}

/// Over any run of a fresh timer with a non-zero span, in which it is not
/// cancelled, the number of reminders is the latest clock reading divided by
/// the span, rounded down: one for each whole span that has elapsed. In
/// particular nothing fires before one full span has elapsed. The timer has
/// then seen the latest reading and is still running.
pub proof fn lemma_window_count(span: nat, evs: Seq<Event>)
    requires
        span > 0,
        has_no_cancel(evs),
    ensures
        timer_run(timer_initial(span), evs).0 == (TimerView {
            span,
            seen: latest_reading(evs),
            cancelled: false,
        }),
        timer_run(timer_initial(span), evs).1 == latest_reading(evs) / span,
        latest_reading(evs) < span ==> timer_run(timer_initial(span), evs).1 == 0,
    decreases evs.len(),
{
    if evs.len() > 0 {
        let init = evs.drop_last();
        assert(has_no_cancel(init)) by {
            assert forall|i: int| 0 <= i < init.len() implies !(#[trigger] init[i] is Cancel) by {
                assert(init[i] == evs[i]);
            }
        }
        assert(!(evs[evs.len() - 1] is Cancel));
        lemma_window_count(span, init);
        let before = latest_reading(init);
        if let Event::Clock(now) = evs.last() {
            if now > before {
                lemma_div_is_ordered(before as int, now as int, span as int);
            }
        }
    }
    if latest_reading(evs) < span {
        assert(latest_reading(evs) / span == 0) by (nonlinear_arith)
            requires
                latest_reading(evs) < span,
        ;
    }
}

/// A clock reading fires a reminder on a running timer with a non-zero span
/// exactly when it has reached the instant that `next_due_at` names; for a
/// fresh timer that instant is one full span.
pub proof fn lemma_fires_when_due(s: TimerView, now: u128)
    requires
        !s.cancelled,
        s.span > 0,
    ensures
        timer_step(s, Event::Clock(now)).1 > 0 <==> now >= next_due_at(s)->0,
        next_due_at(timer_initial(s.span)) == Some(s.span),
{
    let q = s.seen / s.span;
    let n = now as nat;
    let due = (q + 1) * s.span;
    assert(next_due_at(s) == Some(due as nat));
    assert(s.seen < due) by (nonlinear_arith)
        requires
            q == s.seen / s.span,
            due == (q + 1) * s.span,
            s.span > 0,
    ;
    if n >= due {
        assert(n / s.span >= q + 1) by (nonlinear_arith)
            requires
                n >= due,
                due == (q + 1) * s.span,
                s.span > 0,
        ;
        assert(timer_step(s, Event::Clock(now)).1 > 0);
    } else {
        assert(n / s.span <= q) by (nonlinear_arith)
            requires
                n < due,
                due == (q + 1) * s.span,
                s.span > 0,
        ;
        if n > s.seen {
            lemma_div_is_ordered(s.seen as int, n as int, s.span as int);
        }
        assert(timer_step(s, Event::Clock(now)).1 == 0);
    }
    let fresh = timer_initial(s.span);
    assert((0nat / s.span + 1) * s.span == s.span) by (nonlinear_arith)
        requires
            s.span > 0,
    ;
    assert(next_due_at(fresh) == Some(s.span));
}

proof fn lemma_run_append(s: TimerView, a: Seq<Event>, b: Seq<Event>)
    ensures
        timer_run(s, a + b) == (timer_run(timer_run(s, a).0, b).0, timer_run(s, a).1 + timer_run(
            timer_run(s, a).0,
            b,
        ).1),
    decreases b.len(),
{
    if b.len() == 0 {
        assert(a + b =~= a);
    } else {
        lemma_run_append(s, a, b.drop_last());
        assert((a + b).drop_last() =~= a + b.drop_last());
        assert((a + b).last() == b.last());
    }
}

proof fn lemma_cancelled_stays_silent(s: TimerView, evs: Seq<Event>)
    requires
        s.cancelled,
    ensures
        timer_run(s, evs).1 == 0,
        timer_run(s, evs).0.cancelled,
    decreases evs.len(),
{
    if evs.len() > 0 {
        lemma_cancelled_stays_silent(s, evs.drop_last());
    }
}

/// Once a timer has been cancelled, no later event fires a reminder, and no
/// further reminder is due.
pub proof fn lemma_silent_after_cancel(s: TimerView, before: Seq<Event>, after: Seq<Event>)
    ensures
        timer_run(s, before.push(Event::Cancel) + after).1 == timer_run(s, before).1,
        timer_run(s, before.push(Event::Cancel) + after).0.cancelled,
        next_due_at(timer_run(s, before.push(Event::Cancel) + after).0) is None,
{
    let mid = timer_run(s, before.push(Event::Cancel)).0;
    assert(before.push(Event::Cancel).drop_last() =~= before);
    lemma_run_append(s, before.push(Event::Cancel), after);
    lemma_cancelled_stays_silent(mid, after);
}

/// Failed notification deliveries change nothing: a run with them gives the
/// same state and the same reminders as the run with them left out.
pub proof fn lemma_delivery_failures_ignored(s: TimerView, evs: Seq<Event>)
    ensures
        timer_run(s, evs) == timer_run(s, evs.filter(|e: Event| !is_delivery_failure(e))),
    decreases evs.len(),
{
    reveal(Seq::filter);
    if evs.len() > 0 {
        lemma_delivery_failures_ignored(s, evs.drop_last());
        let kept = evs.drop_last().filter(|e: Event| !is_delivery_failure(e));
        if !is_delivery_failure(evs.last()) {
            assert(kept.push(evs.last()).drop_last() =~= kept);
        }
    }
}

} // verus!
