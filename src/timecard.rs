use vstd::prelude::*;

verus! {

/// Marker for a timecard that is still running.
#[derive(Debug, PartialEq, Clone, Copy)]
pub struct Open;

/// Marker for a timecard whose end has been stamped.
#[derive(Debug, PartialEq, Clone, Copy)]
pub struct Closed;

/// One contiguous interval of tracked time, in nanoseconds of a clock that
/// only moves forward. `State` is `Open` until `finalize` turns the card into
/// a new `Timecard<Closed>`; only a closed card has a `duration`.
#[derive(Debug, PartialEq)]
pub struct Timecard<State> {
    state: State,
    start: u64,
    end: u64,
}

/// The time left over after `start`, or zero when `now` lies before it.
pub open spec fn since(start: u64, now: u64) -> nat {
    if now >= start {
        (now - start) as nat
    } else {
        0
    }
}

impl<State: Copy> Clone for Timecard<State> {
    fn clone(&self) -> (r: Self)
        ensures
            r == *self,
    {
        proof {
            use_type_invariant(self);
        }
        Timecard { state: self.state, start: self.start, end: self.end }
    }
}

impl<State> Timecard<State> {
    #[verifier::type_invariant]
    spec fn ordered(self) -> bool {
        self.start <= self.end
    }

    /// When the interval began.
    pub closed spec fn start_time(self) -> u64 {
        self.start
    }

    /// When the interval ended; an open card has no end yet, and keeps its
    /// start here.
    pub closed spec fn end_time(self) -> u64 {
        self.end
    }

    pub fn start(&self) -> (r: u64)
        ensures
            r == self.start_time(),
    {
        self.start
    }

}

impl Timecard<Open> {
    /// Opens a card that starts at `now`.
    pub fn begin(now: u64) -> (r: Timecard<Open>)
        ensures
            r.start_time() == now,
            r.end_time() == now,
    {
        Timecard { state: Open, start: now, end: now }
    }

    /// The time spent so far on this card, as seen at `now`.
    pub fn elapsed(&self, now: u64) -> (r: u64)
        ensures
            r == since(self.start_time(), now),
    {
        if now >= self.start {
            now - self.start
        } else {
            0
        }
    }

    /// Stamps the end of the interval at `now` and hands back the closed card.
    /// A clock reading that lies before the start closes the card empty.
    pub fn finalize(self, now: u64) -> (r: Timecard<Closed>)
        ensures
            r.start_time() == self.start_time(),
            r.end_time() == if now >= self.start_time() {
                now
            } else {
                self.start_time()
            },
    {
        let end = if now >= self.start {
            now
        } else {
            self.start
        };
        Timecard { state: Closed, start: self.start, end }
    }
}

impl Timecard<Closed> {
    /// When the interval ended.
    pub fn end(&self) -> (r: u64)
        ensures
            r == self.end_time(),
            self.start_time() <= r,
    {
        proof {
            use_type_invariant(self);
        }
        self.end
    }

    /// The length of the closed interval.
    pub fn duration(&self) -> (r: u64)
        ensures
            r == self.end_time() - self.start_time(),
    {
        proof {
            use_type_invariant(self);
        }
        self.end - self.start
    }
}

} // verus!
