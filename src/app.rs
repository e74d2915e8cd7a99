use crate::phase::Phase;
use crate::timecard::{since, Closed, Open, Timecard};
use std::time::{Duration, Instant};
use vstd::prelude::*;

verus! {

/// `std::time::Instant`, a reading of the monotonic clock, carried as an opaque value.
#[verifier::external_type_specification]
#[verifier::external_body]
pub struct ExInstant(Instant);

/// Relies on `Instant::now` for a reading of the monotonic clock; nothing is
/// assumed of its value.
pub assume_specification[ Instant::now ]() -> Instant;

/// Relies on `Instant::elapsed` for the time since an earlier reading; nothing
/// is assumed of its value.
pub assume_specification[ Instant::elapsed ](self_: &Instant) -> Duration;

/// Relies on `Duration::as_nanos` for a duration's length in nanoseconds;
/// nothing is assumed of its value.
pub assume_specification[ Duration::as_nanos ](self_: &Duration) -> u128;

/// The start of a division, in nanoseconds of the session's clock.
#[derive(Debug, Clone, Copy, PartialEq)]
pub struct Division {
    pub start: u64,
}

/// The abstract state of a session: each closed interval as `(start, end)`,
/// in the order they were closed, and the start of the open one, if any.
pub struct SessionModel {
    pub divisions: Seq<(u64, u64)>,
    pub current: Option<u64>,
}

/// The sum of the lengths of closed intervals.
pub open spec fn closed_total(divisions: Seq<(u64, u64)>) -> int
    decreases divisions.len(),
{
    if divisions.len() == 0 {
        0
    } else {
        closed_total(divisions.drop_last()) + (divisions.last().1 - divisions.last().0)
    }
}

/// An integer held to the range of `u64`.
pub open spec fn clamp_u64(x: int) -> u64 {
    if x < 0 {
        0
    } else if x > u64::MAX {
        u64::MAX
    } else {
        x as u64
    }
}

impl SessionModel {
    pub open spec fn is_punched_in(self) -> bool {
        self.current is Some
    }

    /// Opens an interval at `now` unless one is open already.
    pub open spec fn punch_in(self, now: u64) -> SessionModel {
        match self.current {
            Some(_) => self,
            None => SessionModel { divisions: self.divisions, current: Some(now) },
        }
    }

    /// Closes the open interval at `now`, if there is one, and appends it.
    /// A reading before the start closes the interval empty.
    pub open spec fn punch_out(self, now: u64) -> SessionModel {
        match self.current {
            Some(start) => SessionModel {
                divisions: self.divisions.push((start, if now >= start { now } else { start })),
                current: None,
            },
            None => self,
        }
    }

    /// All closed time plus the time spent so far on the open interval, at `now`.
    pub open spec fn total(self, now: u64) -> int {
        closed_total(self.divisions) + match self.current {
            Some(start) => since(start, now) as int,
            None => 0,
        }
    }
}

/// One call on a session, with the clock reading it was made at.
pub enum Punch {
    In(u64),
    Out(u64),
}

/// The session that a sequence of calls leaves behind, starting from `m`.
pub open spec fn run(m: SessionModel, calls: Seq<Punch>) -> SessionModel
    decreases calls.len(),
{
    if calls.len() == 0 {
        m
    } else {
        let prev = run(m, calls.drop_last());
        match calls.last() {
            Punch::In(now) => prev.punch_in(now),
            Punch::Out(now) => prev.punch_out(now),
        }
    }
}

/// How many punch-ins are still waiting for a punch-out, where a punch-in
/// while one waits and a punch-out while none waits change nothing.
pub open spec fn unmatched_ins(calls: Seq<Punch>) -> nat
    decreases calls.len(),
{
    if calls.len() == 0 {
        0
    } else {
        let prev = unmatched_ins(calls.drop_last());
        match calls.last() {
            Punch::In(_) => if prev > 0 {
                prev
            } else {
                prev + 1
            },
            Punch::Out(_) => if prev > 0 {
                (prev - 1) as nat
            } else {
                prev
            },
        }
    }
}

/// After any sequence of punch-ins and punch-outs on an idle session, the
/// session is punched in exactly when some punch-in is still unmatched.
pub proof fn lemma_punched_in_iff_unmatched(m: SessionModel, calls: Seq<Punch>)
    requires
        m.current is None,
    ensures
        run(m, calls).is_punched_in() == (unmatched_ins(calls) > 0),
        unmatched_ins(calls) <= 1,
    decreases calls.len(),
{
    if calls.len() > 0 {
        lemma_punched_in_iff_unmatched(m, calls.drop_last());
    }
}

/// With the session left as it is, its total never falls as the clock moves
/// on, and while an interval is open since `t1` or earlier it grows strictly.
pub proof fn lemma_total_grows_with_time(m: SessionModel, t1: u64, t2: u64)
    requires
        t1 <= t2,
    ensures
        m.total(t1) <= m.total(t2),
        clamp_u64(m.total(t1)) <= clamp_u64(m.total(t2)),
        (m.current matches Some(start) && start <= t1 && t1 < t2) ==> m.total(t1) < m.total(t2),
{
}

/// A session: the closed intervals so far and at most one open one.
#[derive(Debug)]
pub struct App {
    pub should_quit: bool,
    pub phase: Phase,
    pub divisions: Vec<Timecard<Closed>>,
    pub current_division: Option<Timecard<Open>>,
    /// The reading of the monotonic clock that the session's times count from.
    pub started: Instant,
}

impl View for App {
    type V = SessionModel;

    open spec fn view(&self) -> SessionModel {
        SessionModel {
            divisions: self.divisions@.map_values(
                |d: Timecard<Closed>| (d.start_time(), d.end_time()),
            ),
            current: match self.current_division {
                Some(c) => Some(c.start_time()),
                None => None,
            },
        }
    }
}

impl App {
    /// An idle session with no intervals, whose clock starts now.
    pub fn new() -> (r: App)
        ensures
            r@.divisions.len() == 0,
            r@.current is None,
            r.divisions@.len() == 0,
            r.should_quit == false,
            r.phase == Phase::Work,
    {
        App {
            should_quit: false,
            phase: Phase::Work,
            divisions: Vec::new(),
            current_division: None,
            started: Instant::now(),
        }
    }

    /// Nanoseconds since the session's clock started, held to `u64`.
    fn now(&self) -> u64 {
        let elapsed = self.started.elapsed();
        let nanos: u128 = elapsed.as_nanos();
        if nanos > u64::MAX as u128 {
            u64::MAX
        } else {
            nanos as u64
        }
    }

    pub fn is_punched_in(&self) -> (r: bool)
        ensures
            r == self@.is_punched_in(),
    {
        self.current_division.is_some()
    }

    pub fn divisions_count(&self) -> (r: usize)
        ensures
            r == self@.divisions.len(),
    {
        self.divisions.len()
    }

    /// Opens an interval at `now`; a no-op when one is open already.
    pub fn punch_in_at(&mut self, now: u64)
        ensures
            final(self)@ == old(self)@.punch_in(now),
            final(self).divisions == old(self).divisions,
            old(self).current_division is Some ==> *final(self) == *old(self),
            final(self).should_quit == old(self).should_quit,
            final(self).phase == old(self).phase,
    {
        if self.current_division.is_none() {
            self.current_division = Some(Timecard::begin(now));
        }
    }

    /// Closes the open interval at `now` and appends it to the divisions; a
    /// no-op when none is open.
    pub fn punch_out_at(&mut self, now: u64)
        ensures
            final(self)@ == old(self)@.punch_out(now),
            final(self).current_division is None,
            old(self).current_division is None ==> *final(self) == *old(self),
            final(self).should_quit == old(self).should_quit,
            final(self).phase == old(self).phase,
    {
        let mut taken: Option<Timecard<Open>> = None;
        core::mem::swap(&mut self.current_division, &mut taken);
        if let Some(div) = taken {
            self.divisions.push(div.finalize(now));
            assert(self@.divisions =~= old(self)@.punch_out(now).divisions);
        }
    }

    /// The total tracked time at `now`, held to `u64`.
    pub fn duration_at(&self, now: u64) -> (r: u64)
        ensures
            r == clamp_u64(self@.total(now)),
    {
        let ghost divs = self@.divisions;
        let mut sum: u64 = 0;
        let mut i: usize = 0;
        while i < self.divisions.len()
            invariant
                i <= self.divisions@.len(),
                divs == self@.divisions,
                closed_total(divs.take(i as int)) >= 0,
                sum == clamp_u64(closed_total(divs.take(i as int))),
            decreases self.divisions@.len() - i,
        {
            let d = self.divisions[i].duration();
            assert(divs.take(i + 1).drop_last() =~= divs.take(i as int));
            sum = sum.saturating_add(d);
            i = i + 1;
        }
        assert(divs.take(i as int) =~= divs);
        match &self.current_division {
            Some(c) => sum.saturating_add(c.elapsed(now)),
            None => sum,
        }
    }

    /// Opens an interval at the clock's current reading; a no-op when one is
    /// open already.
    pub fn punch_in(&mut self)
        ensures
            exists|now: u64| final(self)@ == old(self)@.punch_in(now),
            final(self)@.is_punched_in(),
            final(self).divisions == old(self).divisions,
            old(self).current_division is Some ==> *final(self) == *old(self),
            final(self).should_quit == old(self).should_quit,
            final(self).phase == old(self).phase,
    {
        if self.current_division.is_none() {
            let now = self.now();
            self.punch_in_at(now);
        } else {
            assert(self@ == old(self)@.punch_in(0));
        }
    }

    /// Closes the open interval at the clock's current reading; a no-op when
    /// none is open.
    pub fn punch_out(&mut self)
        ensures
            exists|now: u64| final(self)@ == old(self)@.punch_out(now),
            final(self).current_division is None,
            old(self).current_division is None ==> *final(self) == *old(self),
            final(self).should_quit == old(self).should_quit,
            final(self).phase == old(self).phase,
    {
        if self.current_division.is_some() {
            let now = self.now();
            self.punch_out_at(now);
        } else {
            assert(self@ == old(self)@.punch_out(0));
        }
    }

    /// The total tracked time at the clock's current reading, in nanoseconds.
    pub fn duration(&self) -> (r: u64)
        ensures
            exists|now: u64| r == clamp_u64(self@.total(now)),
    {
        let now = self.now();
        self.duration_at(now)
    }
}

impl Default for App {
    fn default() -> (r: App)
        ensures
            r@.divisions.len() == 0,
            r@.current is None,
            r.divisions@.len() == 0,
            r.should_quit == false,
            r.phase == Phase::Work,
    {
        App::new()
    }
}

} // verus!
