//! Observed quiescent prefixes of a worker's tranches, never a scheduling
//! decision.
//!
//! A checkpoint has further work only once another packet actually starts in the
//! same tranche. This is retrospective attribution of wall time: it neither
//! proves that the later packet was published at the checkpoint nor promises
//! that yielding there would save the remaining wall time.
use crate::admission::Worker;
use crate::text::{decimal, push_decimal};
use vstd::prelude::*;
use vstd::string::*;

verus! {

/// How much wall time one report covers.
pub const REPORT_INTERVAL_US: u64 = 1_000_000;

/// Whether producers were waiting when a packet completed.
#[derive(Clone, Copy, Debug, PartialEq, Eq, Structural)]
pub enum Demand {
    Absent,
    Waiting,
    Contended,
    Closed,
}

/// A device in one lifetime of its admission queue.
#[derive(Clone, Copy, Debug, PartialEq, Eq, Structural)]
pub struct Key {
    pub device: u64,
    pub epoch: u64,
}

/// Transactions after a packet completed. The pending count is absent when it
/// could not be read.
#[derive(Clone, Copy, Debug)]
pub struct Snapshot {
    pub pending: Option<u64>,
    pub parked: u64,
    pub ready: u64,
}

/// What was counted. Blocking causes may overlap; maxima sample the state after
/// a completion only.
#[derive(Clone, Copy, Debug, PartialEq, Eq, Structural)]
pub struct Counts {
    pub started: u64,
    pub completed: u64,
    pub outer_blocked: u64,
    pub parked_blocked: u64,
    pub pending_unknown: u64,
    pub inconsistent: u64,
    pub demand_waiting: u64,
    pub demand_absent: u64,
    pub demand_unknown: u64,
    pub demand_closed: u64,
    pub quiescent: u64,
    pub quiescent_demand: u64,
    pub quiescent_further: u64,
    pub eligible_further: u64,
    pub quiescent_terminal: u64,
    pub demand_terminal: u64,
    pub post_pending_max: u64,
    pub post_parked_max: u64,
    pub post_ready_max: u64,
    pub post_outer_max: u64,
}

/// A quiescent checkpoint that no packet has followed yet.
#[derive(Clone, Copy, Debug, PartialEq, Eq, Structural)]
pub struct Candidate {
    pub age_us: u64,
    pub demand: bool,
}

/// One worker invocation under observation.
#[derive(Clone, Copy, Debug)]
pub struct Tranche {
    pub started_us: u64,
    pub counts: Counts,
    pub candidate: Option<Candidate>,
    pub first_eligible_age_us: Option<u64>,
}

/// One observed worker invocation.
#[derive(Clone, Copy, Debug)]
pub struct CompletedTranche {
    pub started_us: u64,
    pub ended_us: u64,
    pub wall_us: u64,
    pub counts: Counts,
    pub first_eligible_age_us: Option<u64>,
    pub remaining_wall_us: Option<u64>,
}

/// The invocations of one device and lifetime since the last report.
#[derive(Clone, Copy, Debug)]
pub struct Window {
    pub key: Key,
    pub started_us: u64,
    pub tranches: u64,
    pub counts: Counts,
    pub wall_sum_us: u64,
    pub eligible_tranches: u64,
    pub first_eligible_age_sum_us: u64,
    pub first_eligible_age_max_us: u64,
    pub remaining_wall_sum_us: u64,
    pub remaining_wall_max_us: u64,
    pub longest: CompletedTranche,
}

/// Nothing counted.
pub open spec fn no_counts() -> Counts {
    Counts {
        started: 0,
        completed: 0,
        outer_blocked: 0,
        parked_blocked: 0,
        pending_unknown: 0,
        inconsistent: 0,
        demand_waiting: 0,
        demand_absent: 0,
        demand_unknown: 0,
        demand_closed: 0,
        quiescent: 0,
        quiescent_demand: 0,
        quiescent_further: 0,
        eligible_further: 0,
        quiescent_terminal: 0,
        demand_terminal: 0,
        post_pending_max: 0,
        post_parked_max: 0,
        post_ready_max: 0,
        post_outer_max: 0,
    }
}

/// Two sets of counters can be summed.
pub open spec fn summable(a: Counts, b: Counts) -> bool {
    &&& a.started + b.started <= u64::MAX
    &&& a.completed + b.completed <= u64::MAX
    &&& a.outer_blocked + b.outer_blocked <= u64::MAX
    &&& a.parked_blocked + b.parked_blocked <= u64::MAX
    &&& a.pending_unknown + b.pending_unknown <= u64::MAX
    &&& a.inconsistent + b.inconsistent <= u64::MAX
    &&& a.demand_waiting + b.demand_waiting <= u64::MAX
    &&& a.demand_absent + b.demand_absent <= u64::MAX
    &&& a.demand_unknown + b.demand_unknown <= u64::MAX
    &&& a.demand_closed + b.demand_closed <= u64::MAX
    &&& a.quiescent + b.quiescent <= u64::MAX
    &&& a.quiescent_demand + b.quiescent_demand <= u64::MAX
    &&& a.quiescent_further + b.quiescent_further <= u64::MAX
    &&& a.eligible_further + b.eligible_further <= u64::MAX
    &&& a.quiescent_terminal + b.quiescent_terminal <= u64::MAX
    &&& a.demand_terminal + b.demand_terminal <= u64::MAX
}

/// The larger of two numbers.
pub open spec fn larger(a: u64, b: u64) -> u64 {
    if a < b {
        b
    } else {
        a
    }
}

/// A difference that stops at zero.
pub open spec fn short_of(a: u64, b: u64) -> u64 {
    if a > b {
        (a - b) as u64
    } else {
        0
    }
}

/// One where the condition holds.
pub open spec fn one_if(condition: bool) -> int {
    if condition {
        1
    } else {
        0
    }
}

/// Counters of two observations together: sums, and the larger of each maximum.
pub open spec fn together(a: Counts, b: Counts) -> Counts {
    Counts {
        started: (a.started + b.started) as u64,
        completed: (a.completed + b.completed) as u64,
        outer_blocked: (a.outer_blocked + b.outer_blocked) as u64,
        parked_blocked: (a.parked_blocked + b.parked_blocked) as u64,
        pending_unknown: (a.pending_unknown + b.pending_unknown) as u64,
        inconsistent: (a.inconsistent + b.inconsistent) as u64,
        demand_waiting: (a.demand_waiting + b.demand_waiting) as u64,
        demand_absent: (a.demand_absent + b.demand_absent) as u64,
        demand_unknown: (a.demand_unknown + b.demand_unknown) as u64,
        demand_closed: (a.demand_closed + b.demand_closed) as u64,
        quiescent: (a.quiescent + b.quiescent) as u64,
        quiescent_demand: (a.quiescent_demand + b.quiescent_demand) as u64,
        quiescent_further: (a.quiescent_further + b.quiescent_further) as u64,
        eligible_further: (a.eligible_further + b.eligible_further) as u64,
        quiescent_terminal: (a.quiescent_terminal + b.quiescent_terminal) as u64,
        demand_terminal: (a.demand_terminal + b.demand_terminal) as u64,
        post_pending_max: larger(a.post_pending_max, b.post_pending_max),
        post_parked_max: larger(a.post_parked_max, b.post_parked_max),
        post_ready_max: larger(a.post_ready_max, b.post_ready_max),
        post_outer_max: larger(a.post_outer_max, b.post_outer_max),
    }
}

fn max_of(a: u64, b: u64) -> (r: u64)
    ensures
        r == larger(a, b),
{
    if a < b {
        b
    } else {
        a
    }
}

impl Counts {
    /// Nothing counted.
    pub fn none() -> (c: Counts)
        ensures
            c == no_counts(),
    {
        Counts {
            started: 0,
            completed: 0,
            outer_blocked: 0,
            parked_blocked: 0,
            pending_unknown: 0,
            inconsistent: 0,
            demand_waiting: 0,
            demand_absent: 0,
            demand_unknown: 0,
            demand_closed: 0,
            quiescent: 0,
            quiescent_demand: 0,
            quiescent_further: 0,
            eligible_further: 0,
            quiescent_terminal: 0,
            demand_terminal: 0,
            post_pending_max: 0,
            post_parked_max: 0,
            post_ready_max: 0,
            post_outer_max: 0,
        }
    }

    /// Whether two sets of counters can be summed.
    pub fn sums_with(&self, other: &Counts) -> (r: bool)
        ensures
            r == summable(*self, *other),
    {
        self.started <= u64::MAX - other.started && self.completed <= u64::MAX - other.completed
            && self.outer_blocked <= u64::MAX - other.outer_blocked
            && self.parked_blocked <= u64::MAX - other.parked_blocked
            && self.pending_unknown <= u64::MAX - other.pending_unknown
            && self.inconsistent <= u64::MAX - other.inconsistent
            && self.demand_waiting <= u64::MAX - other.demand_waiting
            && self.demand_absent <= u64::MAX - other.demand_absent
            && self.demand_unknown <= u64::MAX - other.demand_unknown
            && self.demand_closed <= u64::MAX - other.demand_closed
            && self.quiescent <= u64::MAX - other.quiescent
            && self.quiescent_demand <= u64::MAX - other.quiescent_demand
            && self.quiescent_further <= u64::MAX - other.quiescent_further
            && self.eligible_further <= u64::MAX - other.eligible_further
            && self.quiescent_terminal <= u64::MAX - other.quiescent_terminal
            && self.demand_terminal <= u64::MAX - other.demand_terminal
    }

    /// Adds another observation.
    pub fn merge(&mut self, other: Counts)
        requires
            summable(*old(self), other),
        ensures
            *final(self) == together(*old(self), other),
    {
        self.started = self.started + other.started;
        self.completed = self.completed + other.completed;
        self.outer_blocked = self.outer_blocked + other.outer_blocked;
        self.parked_blocked = self.parked_blocked + other.parked_blocked;
        self.pending_unknown = self.pending_unknown + other.pending_unknown;
        self.inconsistent = self.inconsistent + other.inconsistent;
        self.demand_waiting = self.demand_waiting + other.demand_waiting;
        self.demand_absent = self.demand_absent + other.demand_absent;
        self.demand_unknown = self.demand_unknown + other.demand_unknown;
        self.demand_closed = self.demand_closed + other.demand_closed;
        self.quiescent = self.quiescent + other.quiescent;
        self.quiescent_demand = self.quiescent_demand + other.quiescent_demand;
        self.quiescent_further = self.quiescent_further + other.quiescent_further;
        self.eligible_further = self.eligible_further + other.eligible_further;
        self.quiescent_terminal = self.quiescent_terminal + other.quiescent_terminal;
        self.demand_terminal = self.demand_terminal + other.demand_terminal;
        self.post_pending_max = max_of(self.post_pending_max, other.post_pending_max);
        self.post_parked_max = max_of(self.post_parked_max, other.post_parked_max);
        self.post_ready_max = max_of(self.post_ready_max, other.post_ready_max);
        self.post_outer_max = max_of(self.post_outer_max, other.post_outer_max);
    }
}

/// The completion could be attributed: the pending count was read, and it covers
/// the parked transactions, of which no more are ready than parked.
pub open spec fn coherent(snapshot: Snapshot) -> bool {
    &&& snapshot.pending matches Some(pending)
    &&& pending >= snapshot.parked
    &&& snapshot.ready <= snapshot.parked
}

/// No transaction is left after the completion.
pub open spec fn is_quiescent(snapshot: Snapshot) -> bool {
    coherent(snapshot) && snapshot.pending == Some(0u64)
}

/// The counters behind a completion. Released work leaves the parked store before
/// it runs, but stays pending until it completes: the difference between the two
/// is the unfinished outer execution.
pub open spec fn counted_completion(c: Counts, snapshot: Snapshot, demand: Demand) -> Counts {
    let pending = snapshot.pending->0;
    let known = snapshot.pending is Some;
    let outer = (pending - snapshot.parked) as u64;
    let sound = coherent(snapshot);
    Counts {
        completed: (c.completed + 1) as u64,
        demand_absent: (c.demand_absent + one_if(demand == Demand::Absent)) as u64,
        demand_waiting: (c.demand_waiting + one_if(demand == Demand::Waiting)) as u64,
        demand_unknown: (c.demand_unknown + one_if(demand == Demand::Contended)) as u64,
        demand_closed: (c.demand_closed + one_if(demand == Demand::Closed)) as u64,
        parked_blocked: (c.parked_blocked + one_if(snapshot.parked != 0)) as u64,
        pending_unknown: (c.pending_unknown + one_if(!known)) as u64,
        inconsistent: (c.inconsistent + one_if(known && !sound)) as u64,
        outer_blocked: (c.outer_blocked + one_if(sound && outer != 0)) as u64,
        quiescent: (c.quiescent + one_if(is_quiescent(snapshot))) as u64,
        quiescent_demand: (c.quiescent_demand + one_if(
            is_quiescent(snapshot) && demand == Demand::Waiting,
        )) as u64,
        post_parked_max: larger(c.post_parked_max, snapshot.parked),
        post_ready_max: larger(c.post_ready_max, snapshot.ready),
        post_pending_max: if known {
            larger(c.post_pending_max, pending)
        } else {
            c.post_pending_max
        },
        post_outer_max: if sound {
            larger(c.post_outer_max, outer)
        } else {
            c.post_outer_max
        },
        ..c
    }
}

/// The counters add up: every completion has one demand, every quiescent
/// checkpoint is followed by work, terminal, or still open, and only a checkpoint
/// with live demand that work followed counts as eligible.
pub open spec fn adds_up(c: Counts, candidate: Option<Candidate>) -> bool {
    &&& c.completed == c.demand_waiting + c.demand_absent + c.demand_unknown + c.demand_closed
    &&& c.quiescent == c.quiescent_further + c.quiescent_terminal + one_if(candidate is Some)
    &&& c.quiescent_demand == c.eligible_further + c.demand_terminal + one_if(
        candidate matches Some(open) && open.demand,
    )
    &&& c.eligible_further <= c.quiescent_further
    &&& c.demand_terminal <= c.quiescent_terminal
    &&& c.quiescent + c.pending_unknown + c.inconsistent <= c.completed
}

/// The counters that the start of a packet raises have room.
pub open spec fn can_start(t: Tranche) -> bool {
    &&& t.counts.started < u64::MAX
    &&& t.candidate matches Some(open) ==> {
        &&& t.counts.quiescent_further < u64::MAX
        &&& open.demand ==> t.counts.eligible_further < u64::MAX
    }
}

/// The counter a demand raises.
pub open spec fn demand_count(c: Counts, demand: Demand) -> u64 {
    match demand {
        Demand::Absent => c.demand_absent,
        Demand::Waiting => c.demand_waiting,
        Demand::Contended => c.demand_unknown,
        Demand::Closed => c.demand_closed,
    }
}

/// The counters that the completion of a packet raises have room.
pub open spec fn can_complete(c: Counts, snapshot: Snapshot, demand: Demand) -> bool {
    &&& c.completed < u64::MAX
    &&& demand_count(c, demand) < u64::MAX
    &&& snapshot.parked != 0 ==> c.parked_blocked < u64::MAX
    &&& snapshot.pending is None ==> c.pending_unknown < u64::MAX
    &&& snapshot.pending is Some && !coherent(snapshot) ==> c.inconsistent < u64::MAX
    &&& coherent(snapshot) && snapshot.pending != Some(snapshot.parked) ==> c.outer_blocked
        < u64::MAX
    &&& is_quiescent(snapshot) ==> c.quiescent < u64::MAX
    &&& is_quiescent(snapshot) && demand == Demand::Waiting ==> c.quiescent_demand < u64::MAX
}

/// The counters that the end of an invocation raises have room.
pub open spec fn can_finish(t: Tranche) -> bool {
    t.candidate matches Some(open) ==> {
        &&& t.counts.quiescent_terminal < u64::MAX
        &&& open.demand ==> t.counts.demand_terminal < u64::MAX
    }
}

impl Tranche {
    /// Whether the counters that the start of a packet raises have room.
    pub fn may_start(&self) -> (r: bool)
        ensures
            r == can_start(*self),
    {
        self.counts.started < u64::MAX && match self.candidate {
            Some(open) => self.counts.quiescent_further < u64::MAX && (!open.demand
                || self.counts.eligible_further < u64::MAX),
            None => true,
        }
    }

    /// Whether the counters that the completion of a packet raises have room.
    pub fn may_complete(&self, snapshot: Snapshot, demand: Demand) -> (r: bool)
        ensures
            r == can_complete(self.counts, snapshot, demand),
    {
        let c: &Counts = &self.counts;
        let demanded: u64 = match demand {
            Demand::Absent => c.demand_absent,
            Demand::Waiting => c.demand_waiting,
            Demand::Contended => c.demand_unknown,
            Demand::Closed => c.demand_closed,
        };
        if c.completed == u64::MAX || demanded == u64::MAX || (snapshot.parked != 0
            && c.parked_blocked == u64::MAX) {
            return false;
        }
        match snapshot.pending {
            None => c.pending_unknown < u64::MAX,
            Some(pending) => if pending < snapshot.parked || snapshot.ready > snapshot.parked {
                c.inconsistent < u64::MAX
            } else {
                (pending == snapshot.parked || c.outer_blocked < u64::MAX) && (pending != 0
                    || c.quiescent < u64::MAX) && (pending != 0 || demand != Demand::Waiting
                    || c.quiescent_demand < u64::MAX)
            },
        }
    }

    /// Whether the counters that the end of the invocation raises have room.
    pub fn may_finish(&self) -> (r: bool)
        ensures
            r == can_finish(*self),
    {
        match self.candidate {
            Some(open) => self.counts.quiescent_terminal < u64::MAX && (!open.demand
                || self.counts.demand_terminal < u64::MAX),
            None => true,
        }
    }

    /// What holds of an invocation under observation.
    pub open spec fn consistent(self) -> bool {
        &&& adds_up(self.counts, self.candidate)
        &&& self.first_eligible_age_us is Some <==> self.counts.eligible_further > 0
        &&& self.counts.quiescent_terminal == 0
    }

    /// Begins observing an invocation.
    pub fn new(started_us: u64) -> (tranche: Tranche)
        ensures
            tranche == (Tranche {
                started_us,
                counts: no_counts(),
                candidate: None,
                first_eligible_age_us: None,
            }),
            tranche.consistent(),
    {
        Tranche {
            started_us,
            counts: Counts::none(),
            candidate: None,
            first_eligible_age_us: None,
        }
    }

    /// Takes note that a packet started. Only now is an open checkpoint one that
    /// work followed.
    pub fn packet_started(&mut self)
        requires
            can_start(*old(self)),
        ensures
            *final(self) == started_packet(*old(self)),
            old(self).consistent() ==> final(self).consistent(),
    {
        self.counts.started = self.counts.started + 1;
        if let Some(candidate) = self.candidate {
            self.candidate = None;
            self.counts.quiescent_further = self.counts.quiescent_further + 1;
            if candidate.demand {
                self.counts.eligible_further = self.counts.eligible_further + 1;
                if self.first_eligible_age_us.is_none() {
                    self.first_eligible_age_us = Some(candidate.age_us);
                }
            }
        }
    }

    /// Takes note that a packet completed. A quiescent completion opens a
    /// checkpoint; an unreadable or incoherent one never claims quiescence.
    pub fn completed(&mut self, now_us: u64, snapshot: Snapshot, demand: Demand)
        requires
            can_complete(old(self).counts, snapshot, demand),
        ensures
            *final(self) == completed_packet(*old(self), now_us, snapshot, demand),
            old(self).consistent() && old(self).candidate is None ==> final(self).consistent(),
    {
        let mut c: Counts = self.counts;
        c.completed = c.completed + 1;
        match demand {
            Demand::Absent => {
                c.demand_absent = c.demand_absent + 1;
            },
            Demand::Waiting => {
                c.demand_waiting = c.demand_waiting + 1;
            },
            Demand::Contended => {
                c.demand_unknown = c.demand_unknown + 1;
            },
            Demand::Closed => {
                c.demand_closed = c.demand_closed + 1;
            },
        }
        c.post_parked_max = max_of(c.post_parked_max, snapshot.parked);
        c.post_ready_max = max_of(c.post_ready_max, snapshot.ready);
        if snapshot.parked != 0 {
            c.parked_blocked = c.parked_blocked + 1;
        }
        match snapshot.pending {
            None => {
                c.pending_unknown = c.pending_unknown + 1;
            },
            Some(pending) => {
                c.post_pending_max = max_of(c.post_pending_max, pending);
                if pending < snapshot.parked || snapshot.ready > snapshot.parked {
                    c.inconsistent = c.inconsistent + 1;
                } else {
                    let outer: u64 = pending - snapshot.parked;
                    c.post_outer_max = max_of(c.post_outer_max, outer);
                    if outer != 0 {
                        c.outer_blocked = c.outer_blocked + 1;
                    }
                    if pending == 0 {
                        c.quiescent = c.quiescent + 1;
                        if demand == Demand::Waiting {
                            c.quiescent_demand = c.quiescent_demand + 1;
                        }
                        self.candidate = Some(
                            Candidate {
                                age_us: now_us.saturating_sub(self.started_us),
                                demand: demand == Demand::Waiting,
                            },
                        );
                    }
                }
            },
        }
        self.counts = c;
    }

    /// Ends the observation. A checkpoint that is still open was terminal: no
    /// work followed it, so it was no opportunity to resume.
    pub fn finish(self, ended_us: u64) -> (done: CompletedTranche)
        requires
            can_finish(self),
        ensures
            done == finished(self, ended_us),
            self.consistent() ==> adds_up(done.counts, None) && (done.first_eligible_age_us is Some
                <==> done.counts.eligible_further > 0) && done.counts.quiescent_terminal <= 1,
    {
        let mut counts: Counts = self.counts;
        if let Some(candidate) = self.candidate {
            counts.quiescent_terminal = counts.quiescent_terminal + 1;
            if candidate.demand {
                counts.demand_terminal = counts.demand_terminal + 1;
            }
        }
        let wall_us: u64 = ended_us.saturating_sub(self.started_us);
        CompletedTranche {
            started_us: self.started_us,
            ended_us,
            wall_us,
            counts,
            first_eligible_age_us: self.first_eligible_age_us,
            remaining_wall_us: match self.first_eligible_age_us {
                Some(age) => Some(wall_us.saturating_sub(age)),
                None => None,
            },
        }
    }
}

/// An observed invocation.
pub open spec fn finished(tranche: Tranche, ended_us: u64) -> CompletedTranche {
    let c = tranche.counts;
    let wall_us = short_of(ended_us, tranche.started_us);
    CompletedTranche {
        started_us: tranche.started_us,
        ended_us,
        wall_us,
        counts: Counts {
            quiescent_terminal: (c.quiescent_terminal + one_if(
                tranche.candidate is Some,
            )) as u64,
            demand_terminal: (c.demand_terminal + one_if(
                tranche.candidate matches Some(open) && open.demand,
            )) as u64,
            ..c
        },
        first_eligible_age_us: tranche.first_eligible_age_us,
        remaining_wall_us: match tranche.first_eligible_age_us {
            Some(age) => Some(short_of(wall_us, age)),
            None => None,
        },
    }
}

/// The number, or zero.
pub open spec fn or_zero(value: Option<u64>) -> u64 {
    match value {
        Some(n) => n,
        None => 0,
    }
}

/// An empty window.
pub open spec fn fresh_window(key: Key, started_us: u64) -> Window {
    Window {
        key,
        started_us,
        tranches: 0,
        counts: no_counts(),
        wall_sum_us: 0,
        eligible_tranches: 0,
        first_eligible_age_sum_us: 0,
        first_eligible_age_max_us: 0,
        remaining_wall_sum_us: 0,
        remaining_wall_max_us: 0,
        longest: CompletedTranche {
            started_us: 0,
            ended_us: 0,
            wall_us: 0,
            counts: no_counts(),
            first_eligible_age_us: None,
            remaining_wall_us: None,
        },
    }
}

/// A window can take in another invocation.
pub open spec fn admits(w: Window, t: CompletedTranche) -> bool {
    &&& w.tranches < u64::MAX
    &&& summable(w.counts, t.counts)
    &&& w.wall_sum_us + t.wall_us <= u64::MAX
    &&& t.first_eligible_age_us is Some ==> w.eligible_tranches < u64::MAX
    &&& w.first_eligible_age_sum_us + or_zero(t.first_eligible_age_us) <= u64::MAX
    &&& w.remaining_wall_sum_us + or_zero(t.remaining_wall_us) <= u64::MAX
}

/// A window with another invocation taken in. The longest one is kept whole, the
/// first of several equally long.
pub open spec fn with_tranche(w: Window, t: CompletedTranche) -> Window {
    Window {
        key: w.key,
        started_us: w.started_us,
        tranches: (w.tranches + 1) as u64,
        counts: together(w.counts, t.counts),
        wall_sum_us: (w.wall_sum_us + t.wall_us) as u64,
        eligible_tranches: (w.eligible_tranches + one_if(
            t.first_eligible_age_us is Some,
        )) as u64,
        first_eligible_age_sum_us: (w.first_eligible_age_sum_us + or_zero(
            t.first_eligible_age_us,
        )) as u64,
        first_eligible_age_max_us: larger(
            w.first_eligible_age_max_us,
            or_zero(t.first_eligible_age_us),
        ),
        remaining_wall_sum_us: (w.remaining_wall_sum_us + or_zero(t.remaining_wall_us)) as u64,
        remaining_wall_max_us: larger(w.remaining_wall_max_us, or_zero(t.remaining_wall_us)),
        longest: if w.tranches == 0 || t.wall_us > w.longest.wall_us {
            t
        } else {
            w.longest
        },
    }
}

impl Window {
    /// An empty window.
    pub fn new(key: Key, started_us: u64) -> (window: Window)
        ensures
            window == fresh_window(key, started_us),
    {
        Window {
            key,
            started_us,
            tranches: 0,
            counts: Counts::none(),
            wall_sum_us: 0,
            eligible_tranches: 0,
            first_eligible_age_sum_us: 0,
            first_eligible_age_max_us: 0,
            remaining_wall_sum_us: 0,
            remaining_wall_max_us: 0,
            longest: CompletedTranche {
                started_us: 0,
                ended_us: 0,
                wall_us: 0,
                counts: Counts::none(),
                first_eligible_age_us: None,
                remaining_wall_us: None,
            },
        }
    }

    /// Whether the window can take in another invocation.
    pub fn can_take(&self, tranche: &CompletedTranche) -> (r: bool)
        ensures
            r == admits(*self, *tranche),
    {
        let age: u64 = match tranche.first_eligible_age_us {
            Some(age) => age,
            None => 0,
        };
        let remaining: u64 = match tranche.remaining_wall_us {
            Some(remaining) => remaining,
            None => 0,
        };
        self.tranches < u64::MAX && self.counts.sums_with(&tranche.counts) && self.wall_sum_us
            <= u64::MAX - tranche.wall_us && (tranche.first_eligible_age_us.is_none()
            || self.eligible_tranches < u64::MAX)
            && self.first_eligible_age_sum_us <= u64::MAX - age && self.remaining_wall_sum_us
            <= u64::MAX - remaining
    }

    /// Takes in another invocation.
    pub fn merge(&mut self, tranche: CompletedTranche)
        requires
            admits(*old(self), tranche),
        ensures
            *final(self) == with_tranche(*old(self), tranche),
    {
        self.tranches = self.tranches + 1;
        self.counts.merge(tranche.counts);
        self.wall_sum_us = self.wall_sum_us + tranche.wall_us;
        if let Some(age) = tranche.first_eligible_age_us {
            self.eligible_tranches = self.eligible_tranches + 1;
            self.first_eligible_age_sum_us = self.first_eligible_age_sum_us + age;
            self.first_eligible_age_max_us = max_of(self.first_eligible_age_max_us, age);
        }
        if let Some(remaining) = tranche.remaining_wall_us {
            self.remaining_wall_sum_us = self.remaining_wall_sum_us + remaining;
            self.remaining_wall_max_us = max_of(self.remaining_wall_max_us, remaining);
        }
        if self.tranches == 1 || tranche.wall_us > self.longest.wall_us {
            self.longest = tranche;
        }
    }
}

/// A window that has covered its interval.
#[derive(Clone, Copy, Debug)]
pub struct Report {
    pub window: Window,
    pub ended_us: u64,
}

/// A labelled number.
pub open spec fn labelled(label: Seq<char>, value: u64) -> Seq<char> {
    label + decimal(value as int)
}

fn push_labelled(out: &mut String, label: &str, value: u64)
    ensures
        final(out)@ == old(out)@ + labelled(label@, value),
{
    out.append(label);
    push_decimal(out, value);
    assert(out@ =~= old(out)@ + labelled(label@, value));
}

/// The first part of a report line: the window, its packets and its demand.
pub open spec fn window_part(report: Report) -> Seq<char> {
    let w = report.window;
    let c = w.counts;
    labelled("drain_checkpoints device="@, w.key.device)
        + labelled(" admission_epoch="@, w.key.epoch)
        + labelled(" win_us="@, short_of(report.ended_us, w.started_us))
        + labelled(" tranches="@, w.tranches)
        + labelled(" wall_sum_us="@, w.wall_sum_us)
        + labelled(" packets_started="@, c.started)
        + labelled(" completed="@, c.completed)
        + labelled(" outer_blocked="@, c.outer_blocked)
        + labelled(" parked_blocked="@, c.parked_blocked)
        + labelled(" pending_unknown="@, c.pending_unknown)
        + labelled(" inconsistent="@, c.inconsistent)
        + labelled(" iosfc_waiting="@, c.demand_waiting)
        + labelled(" iosfc_absent="@, c.demand_absent)
        + labelled(" iosfc_unknown="@, c.demand_unknown)
        + labelled(" iosfc_closed="@, c.demand_closed)
}

/// The second part: maxima and checkpoints.
pub open spec fn checkpoint_part(report: Report) -> Seq<char> {
    let w = report.window;
    let c = w.counts;
    labelled(" post_pending_max="@, c.post_pending_max)
        + labelled(" post_parked_max="@, c.post_parked_max)
        + labelled(" post_ready_max="@, c.post_ready_max)
        + labelled(" post_outer_max="@, c.post_outer_max)
        + labelled(" quiescent="@, c.quiescent)
        + labelled(" quiescent_demand="@, c.quiescent_demand)
        + labelled(" quiescent_further="@, c.quiescent_further)
        + labelled(" eligible_with_demand="@, c.eligible_further)
        + labelled(" quiescent_terminal="@, c.quiescent_terminal)
        + labelled(" demand_terminal="@, c.demand_terminal)
        + labelled(" eligible_tranches="@, w.eligible_tranches)
        + labelled(" first_eligible_age_sum_us="@, w.first_eligible_age_sum_us)
        + labelled(" first_eligible_age_max_us="@, w.first_eligible_age_max_us)
        + labelled(" remaining_wall_sum_us="@, w.remaining_wall_sum_us)
        + labelled(" remaining_wall_max_us="@, w.remaining_wall_max_us)
}

/// The last part: the longest invocation.
pub open spec fn longest_part(report: Report) -> Seq<char> {
    let longest = report.window.longest;
    labelled(" max_tranche_wall_us="@, longest.wall_us)
        + labelled(" max_tranche_start_us="@, longest.started_us)
        + labelled(" max_tranche_end_us="@, longest.ended_us)
        + labelled(" max_tranche_eligible="@, longest.counts.eligible_further)
        + labelled(" max_tranche_first_eligible_age_us="@, or_zero(longest.first_eligible_age_us))
        + labelled(" max_tranche_remaining_wall_us="@, or_zero(longest.remaining_wall_us))
        + labelled(" max_tranche_outer_blocked="@, longest.counts.outer_blocked)
        + labelled(" max_tranche_parked_blocked="@, longest.counts.parked_blocked)
}

/// The line a report is made with.
pub open spec fn report_text(report: Report) -> Seq<char> {
    window_part(report) + checkpoint_part(report) + longest_part(report)
}

impl Report {
    fn window_part_line(&self) -> (line: String)
        ensures
            line@ == window_part(*self),
    {
        let w: &Window = &self.window;
        let c: &Counts = &w.counts;
        let mut out: String = String::new();
        push_labelled(&mut out, "drain_checkpoints device=", w.key.device);
        push_labelled(&mut out, " admission_epoch=", w.key.epoch);
        push_labelled(&mut out, " win_us=", self.ended_us.saturating_sub(w.started_us));
        push_labelled(&mut out, " tranches=", w.tranches);
        push_labelled(&mut out, " wall_sum_us=", w.wall_sum_us);
        push_labelled(&mut out, " packets_started=", c.started);
        push_labelled(&mut out, " completed=", c.completed);
        push_labelled(&mut out, " outer_blocked=", c.outer_blocked);
        push_labelled(&mut out, " parked_blocked=", c.parked_blocked);
        push_labelled(&mut out, " pending_unknown=", c.pending_unknown);
        push_labelled(&mut out, " inconsistent=", c.inconsistent);
        push_labelled(&mut out, " iosfc_waiting=", c.demand_waiting);
        push_labelled(&mut out, " iosfc_absent=", c.demand_absent);
        push_labelled(&mut out, " iosfc_unknown=", c.demand_unknown);
        push_labelled(&mut out, " iosfc_closed=", c.demand_closed);
        assert(out@ =~= window_part(*self));
        out
    }

    fn checkpoint_part_line(&self) -> (line: String)
        ensures
            line@ == checkpoint_part(*self),
    {
        let w: &Window = &self.window;
        let c: &Counts = &w.counts;
        let mut out: String = String::new();
        push_labelled(&mut out, " post_pending_max=", c.post_pending_max);
        push_labelled(&mut out, " post_parked_max=", c.post_parked_max);
        push_labelled(&mut out, " post_ready_max=", c.post_ready_max);
        push_labelled(&mut out, " post_outer_max=", c.post_outer_max);
        push_labelled(&mut out, " quiescent=", c.quiescent);
        push_labelled(&mut out, " quiescent_demand=", c.quiescent_demand);
        push_labelled(&mut out, " quiescent_further=", c.quiescent_further);
        push_labelled(&mut out, " eligible_with_demand=", c.eligible_further);
        push_labelled(&mut out, " quiescent_terminal=", c.quiescent_terminal);
        push_labelled(&mut out, " demand_terminal=", c.demand_terminal);
        push_labelled(&mut out, " eligible_tranches=", w.eligible_tranches);
        push_labelled(&mut out, " first_eligible_age_sum_us=", w.first_eligible_age_sum_us);
        push_labelled(&mut out, " first_eligible_age_max_us=", w.first_eligible_age_max_us);
        push_labelled(&mut out, " remaining_wall_sum_us=", w.remaining_wall_sum_us);
        push_labelled(&mut out, " remaining_wall_max_us=", w.remaining_wall_max_us);
        assert(out@ =~= checkpoint_part(*self));
        out
    }

    fn longest_part_line(&self) -> (line: String)
        ensures
            line@ == longest_part(*self),
    {
        let w: &Window = &self.window;
        let longest: &CompletedTranche = &w.longest;
        let age: u64 = match longest.first_eligible_age_us {
            Some(age) => age,
            None => 0,
        };
        let remaining: u64 = match longest.remaining_wall_us {
            Some(remaining) => remaining,
            None => 0,
        };
        let mut out: String = String::new();
        push_labelled(&mut out, " max_tranche_wall_us=", longest.wall_us);
        push_labelled(&mut out, " max_tranche_start_us=", longest.started_us);
        push_labelled(&mut out, " max_tranche_end_us=", longest.ended_us);
        push_labelled(&mut out, " max_tranche_eligible=", longest.counts.eligible_further);
        push_labelled(&mut out, " max_tranche_first_eligible_age_us=", age);
        push_labelled(&mut out, " max_tranche_remaining_wall_us=", remaining);
        push_labelled(&mut out, " max_tranche_outer_blocked=", longest.counts.outer_blocked);
        push_labelled(&mut out, " max_tranche_parked_blocked=", longest.counts.parked_blocked);
        assert(out@ =~= longest_part(*self));
        out
    }

    /// The line a report is made with.
    pub fn line(&self) -> (line: String)
        ensures
            line@ == report_text(*self),
    {
        let mut out: String = self.window_part_line();
        out.append(self.checkpoint_part_line().as_str());
        out.append(self.longest_part_line().as_str());
        out
    }
}

/// An observation in progress.
#[derive(Clone, Copy, Debug)]
pub struct Active {
    pub key: Key,
    pub tranche: Tranche,
}

/// What one worker thread observes.
pub struct Context {
    pub active: Option<Active>,
    pub window: Option<Window>,
}

/// The observation of one worker invocation. A nested one is not active and
/// observes nothing.
pub struct Scope {
    active: bool,
}

impl Context {
    /// Nothing is observed.
    pub fn new() -> (context: Context)
        ensures
            context.active is None,
            context.window is None,
    {
        Context { active: None, window: None }
    }

    /// Takes note that a packet of a device started.
    pub fn packet_started(&mut self, device: u64)
        requires
            observes(*old(self), device) ==> can_start(old(self).active->0.tranche),
        ensures
            final(self).window == old(self).window,
            observes(*old(self), device) ==> final(self).active is Some
                && final(self).active->0.key == old(self).active->0.key
                && final(self).active->0.tranche == started_packet(
                old(self).active->0.tranche,
            ),
            !observes(*old(self), device) ==> final(self).active == old(self).active,
    {
        if let Some(mut active) = self.active {
            if active.key.device == device {
                active.tranche.packet_started();
                self.active = Some(active);
            }
        }
    }

    /// Takes note that a packet of a device completed.
    pub fn completed(&mut self, device: u64, now_us: u64, snapshot: Snapshot, demand: Demand)
        requires
            observes(*old(self), device) ==> can_complete(
                old(self).active->0.tranche.counts,
                snapshot,
                demand,
            ),
        ensures
            final(self).window == old(self).window,
            observes(*old(self), device) ==> final(self).active is Some
                && final(self).active->0.key == old(self).active->0.key
                && final(self).active->0.tranche == completed_packet(
                old(self).active->0.tranche,
                now_us,
                snapshot,
                demand,
            ),
            !observes(*old(self), device) ==> final(self).active == old(self).active,
    {
        if let Some(mut active) = self.active {
            if active.key.device == device {
                active.tranche.completed(now_us, snapshot, demand);
                self.active = Some(active);
            }
        }
    }
}

/// The context observes the device.
pub open spec fn observes(context: Context, device: u64) -> bool {
    context.active matches Some(active) && active.key.device == device
}

/// An invocation behind the start of a packet.
pub open spec fn started_packet(tranche: Tranche) -> Tranche {
    let c = tranche.counts;
    let eligible = tranche.candidate matches Some(candidate) && candidate.demand;
    Tranche {
        started_us: tranche.started_us,
        counts: Counts {
            started: (c.started + 1) as u64,
            quiescent_further: (c.quiescent_further + one_if(
                tranche.candidate is Some,
            )) as u64,
            eligible_further: (c.eligible_further + one_if(eligible)) as u64,
            ..c
        },
        candidate: None,
        first_eligible_age_us: match tranche.first_eligible_age_us {
            Some(age) => Some(age),
            None => if eligible {
                Some(tranche.candidate->0.age_us)
            } else {
                None
            },
        },
    }
}

/// An invocation behind the completion of a packet.
pub open spec fn completed_packet(
    tranche: Tranche,
    now_us: u64,
    snapshot: Snapshot,
    demand: Demand,
) -> Tranche {
    Tranche {
        counts: counted_completion(tranche.counts, snapshot, demand),
        candidate: if is_quiescent(snapshot) {
            Some(
                Candidate {
                    age_us: short_of(now_us, tranche.started_us),
                    demand: demand == Demand::Waiting,
                },
            )
        } else {
            tranche.candidate
        },
        ..tranche
    }
}

/// The window an observation starts in: the current one of the same device and
/// lifetime, else an empty one. Another lifetime's aggregates are discarded.
pub open spec fn window_for(window: Option<Window>, key: Key, started_us: u64) -> Window {
    match window {
        Some(w) => if w.key == key {
            w
        } else {
            fresh_window(key, started_us)
        },
        None => fresh_window(key, started_us),
    }
}

impl Scope {
    /// The scope owns the observation.
    pub closed spec fn owns(self) -> bool {
        self.active
    }

    /// Whether the scope owns the observation.
    pub fn is_active(&self) -> (r: bool)
        ensures
            r == self.owns(),
    {
        self.active
    }

    /// Begins observing an invocation, unless one is observed already.
    pub fn start(context: &mut Context, device: u64, epoch: u64, started_us: u64) -> (scope: Scope)
        ensures
            scope.owns() == (old(context).active is None),
            old(context).active is Some ==> *final(context) == *old(context),
            old(context).active is None ==> {
                let key = Key { device, epoch };
                &&& final(context).window == Some(
                    window_for(old(context).window, key, started_us),
                )
                &&& final(context).active is Some
                &&& final(context).active->0.key == key
                &&& final(context).active->0.tranche == (Tranche {
                    started_us,
                    counts: no_counts(),
                    candidate: None,
                    first_eligible_age_us: None,
                })
                &&& final(context).active->0.tranche.consistent()
            },
    {
        if context.active.is_some() {
            return Scope { active: false };
        }
        let key: Key = Key { device, epoch };
        let same: bool = match &context.window {
            Some(window) => window.key == key,
            None => false,
        };
        if !same {
            context.window = Some(Window::new(key, started_us));
        }
        context.active = Some(Active { key, tranche: Tranche::new(started_us) });
        Scope { active: true }
    }

    /// Ends the observation, and reports the window once it has covered its
    /// interval. A nested scope ends nothing.
    pub fn finish(self, context: &mut Context, ended_us: u64) -> (report: Option<Report>)
        requires
            self.owns() && old(context).active is Some && old(context).window is Some ==> can_finish(
                old(context).active->0.tranche,
            ) && admits(
                old(context).window->0,
                finished(old(context).active->0.tranche, ended_us),
            ),
        ensures
            !self.owns() ==> report is None && *final(context) == *old(context),
            self.owns() ==> final(context).active is None,
            self.owns() && (old(context).active is None || old(context).window is None)
                ==> report is None && final(context).window == old(context).window,
            self.owns() && old(context).active is Some && old(context).window is Some ==> {
                let window = with_tranche(
                    old(context).window->0,
                    finished(old(context).active->0.tranche, ended_us),
                );
                if short_of(ended_us, window.started_us) < REPORT_INTERVAL_US {
                    &&& report is None
                    &&& final(context).window == Some(window)
                } else {
                    &&& report == Some(Report { window, ended_us })
                    &&& final(context).window == Some(fresh_window(window.key, ended_us))
                }
            },
    {
        if !self.active {
            return None;
        }
        let active: Active = match context.active {
            Some(active) => active,
            None => {
                return None;
            },
        };
        context.active = None;
        let mut window: Window = match context.window {
            Some(window) => window,
            None => {
                return None;
            },
        };
        window.merge(active.tranche.finish(ended_us));
        if ended_us.saturating_sub(window.started_us) < REPORT_INTERVAL_US {
            context.window = Some(window);
            return None;
        }
        context.window = Some(Window::new(window.key, ended_us));
        Some(Report { window, ended_us })
    }

    /// Discards an observation that did not come to its end.
    pub fn abandon(self, context: &mut Context)
        ensures
            final(context).window == old(context).window,
            final(context).active == if self.owns() {
                None
            } else {
                old(context).active
            },
    {
        if self.active {
            context.active = None;
        }
    }
}

impl Worker {
    /// Begins observing the tranche this worker runs.
    pub fn observe_tranche(
        &self,
        context: &mut Context,
        device: u64,
        started_us: u64,
    ) -> (scope: Scope)
        ensures
            scope.owns() == (old(context).active is None),
            old(context).active is Some ==> *final(context) == *old(context),
            old(context).active is None ==> {
                let key = Key { device, epoch: self.of_epoch() };
                &&& final(context).window == Some(
                    window_for(old(context).window, key, started_us),
                )
                &&& final(context).active is Some
                &&& final(context).active->0.key == key
                &&& final(context).active->0.tranche == (Tranche {
                    started_us,
                    counts: no_counts(),
                    candidate: None,
                    first_eligible_age_us: None,
                })
            },
    {
        Scope::start(context, device, self.epoch(), started_us)
    }
}

/// Counters that add up on their own add up together, and no maximum is summed.
pub proof fn law_windows_add_up(a: Counts, b: Counts)
    requires
        adds_up(a, None),
        adds_up(b, None),
        summable(a, b),
    ensures
        adds_up(together(a, b), None),
        together(a, b).post_pending_max == larger(a.post_pending_max, b.post_pending_max),
        together(a, b).post_outer_max == larger(a.post_outer_max, b.post_outer_max),
        together(a, b).post_parked_max == larger(a.post_parked_max, b.post_parked_max),
        together(a, b).post_ready_max == larger(a.post_ready_max, b.post_ready_max),
{
}

/// An invocation that ends right at a checkpoint never claims it as an
/// opportunity: it adds to the terminal counters only.
pub proof fn law_a_terminal_checkpoint_is_no_opportunity(tranche: Tranche, ended_us: u64)
    requires
        tranche.consistent(),
        tranche.candidate is Some,
    ensures
        finished(tranche, ended_us).counts.eligible_further == tranche.counts.eligible_further,
        finished(tranche, ended_us).counts.quiescent_terminal
            == tranche.counts.quiescent_terminal + 1,
        finished(tranche, ended_us).first_eligible_age_us == tranche.first_eligible_age_us,
{
}

/// At most one quiescent checkpoint of an invocation is terminal, and it is
/// exactly the one still open when the invocation ends.
pub proof fn law_at_most_one_checkpoint_is_terminal(tranche: Tranche, ended_us: u64)
    requires
        tranche.consistent(),
    ensures
        finished(tranche, ended_us).counts.quiescent_terminal == one_if(
            tranche.candidate is Some,
        ),
        finished(tranche, ended_us).counts.demand_terminal <= 1,
{
}

/// Two observations together count what each counted, in every counter, whichever
/// of them comes first; nothing counted adds nothing, and the larger maximum stays.
pub proof fn law_counts_are_summed(a: Counts, b: Counts)
    requires
        summable(a, b),
    ensures
        together(a, b).started - a.started == b.started,
        together(a, b).completed - a.completed == b.completed,
        together(a, b).outer_blocked - a.outer_blocked == b.outer_blocked,
        together(a, b).parked_blocked - a.parked_blocked == b.parked_blocked,
        together(a, b).pending_unknown - a.pending_unknown == b.pending_unknown,
        together(a, b).inconsistent - a.inconsistent == b.inconsistent,
        together(a, b).demand_waiting - a.demand_waiting == b.demand_waiting,
        together(a, b).demand_absent - a.demand_absent == b.demand_absent,
        together(a, b).demand_unknown - a.demand_unknown == b.demand_unknown,
        together(a, b).demand_closed - a.demand_closed == b.demand_closed,
        together(a, b).quiescent - a.quiescent == b.quiescent,
        together(a, b).quiescent_demand - a.quiescent_demand == b.quiescent_demand,
        together(a, b).quiescent_further - a.quiescent_further == b.quiescent_further,
        together(a, b).eligible_further - a.eligible_further == b.eligible_further,
        together(a, b).quiescent_terminal - a.quiescent_terminal == b.quiescent_terminal,
        together(a, b).demand_terminal - a.demand_terminal == b.demand_terminal,
        together(a, b).post_pending_max >= a.post_pending_max,
        together(a, b).post_pending_max >= b.post_pending_max,
        together(a, b).post_parked_max >= a.post_parked_max,
        together(a, b).post_parked_max >= b.post_parked_max,
        together(a, b).post_ready_max >= a.post_ready_max,
        together(a, b).post_ready_max >= b.post_ready_max,
        together(a, b).post_outer_max >= a.post_outer_max,
        together(a, b).post_outer_max >= b.post_outer_max,
        together(a, b) == together(b, a),
        together(a, no_counts()) == a,
{
}

/// A completion is counted once, under one demand. It found a blocked store where
/// anything was parked, unfinished outer work where more was pending than parked,
/// quiescence where nothing at all was left, and none of the last two where the
/// pending count was not read or does not fit the others, which is counted instead.
pub proof fn law_a_completion_counts_what_it_found(
    c: Counts,
    snapshot: Snapshot,
    demand: Demand,
)
    requires
        can_complete(c, snapshot, demand),
    ensures
        ({
            let after = counted_completion(c, snapshot, demand);
            let fits = snapshot.pending is Some && snapshot.parked <= snapshot.pending->0
                && snapshot.ready <= snapshot.parked;
            &&& after.completed == c.completed + 1
            &&& after.demand_waiting - c.demand_waiting == if demand == Demand::Waiting {
                1int
            } else {
                0int
            }
            &&& after.demand_absent - c.demand_absent == if demand == Demand::Absent {
                1int
            } else {
                0int
            }
            &&& after.demand_unknown - c.demand_unknown == if demand == Demand::Contended {
                1int
            } else {
                0int
            }
            &&& after.demand_closed - c.demand_closed == if demand == Demand::Closed {
                1int
            } else {
                0int
            }
            &&& after.parked_blocked == c.parked_blocked + 1 <==> snapshot.parked > 0
            &&& after.parked_blocked == c.parked_blocked <==> snapshot.parked == 0
            &&& after.pending_unknown == c.pending_unknown + 1 <==> snapshot.pending is None
            &&& after.pending_unknown == c.pending_unknown <==> snapshot.pending is Some
            &&& after.inconsistent == c.inconsistent + 1 <==> snapshot.pending is Some && !fits
            &&& after.inconsistent == c.inconsistent <==> snapshot.pending is None || fits
            &&& after.outer_blocked == c.outer_blocked + 1 <==> fits && snapshot.pending->0
                > snapshot.parked
            &&& after.outer_blocked == c.outer_blocked <==> !(fits && snapshot.pending->0
                > snapshot.parked)
            &&& after.quiescent == c.quiescent + 1 <==> snapshot.pending == Some(0u64)
                && snapshot.parked == 0 && snapshot.ready == 0
            &&& after.quiescent == c.quiescent <==> !(snapshot.pending == Some(0u64)
                && snapshot.parked == 0 && snapshot.ready == 0)
            &&& after.quiescent_demand - c.quiescent_demand == if demand == Demand::Waiting {
                after.quiescent - c.quiescent
            } else {
                0
            }
        }),
{
}

/// The maxima behind a completion are the largest of everything sampled so far: of
/// the parked and ready transactions always, of the pending ones where they were
/// read, and of the outer ones where they are known. A completion touches no count
/// of checkpoints that work followed or that ended an invocation.
pub proof fn law_a_completion_samples_its_maxima(
    c: Counts,
    snapshot: Snapshot,
    demand: Demand,
)
    ensures
        ({
            let after = counted_completion(c, snapshot, demand);
            &&& after.post_parked_max >= c.post_parked_max && after.post_parked_max
                >= snapshot.parked
            &&& after.post_parked_max == c.post_parked_max || after.post_parked_max
                == snapshot.parked
            &&& after.post_ready_max >= c.post_ready_max && after.post_ready_max
                >= snapshot.ready
            &&& after.post_ready_max == c.post_ready_max || after.post_ready_max
                == snapshot.ready
            &&& after.post_pending_max >= c.post_pending_max
            &&& snapshot.pending matches Some(pending) ==> after.post_pending_max >= pending && (
            after.post_pending_max == c.post_pending_max || after.post_pending_max == pending)
            &&& snapshot.pending is None ==> after.post_pending_max == c.post_pending_max
            &&& after.post_outer_max >= c.post_outer_max
            &&& coherent(snapshot) ==> after.post_outer_max >= snapshot.pending->0
                - snapshot.parked && (after.post_outer_max == c.post_outer_max
                || after.post_outer_max == snapshot.pending->0 - snapshot.parked)
            &&& !coherent(snapshot) ==> after.post_outer_max == c.post_outer_max
            &&& after.started == c.started
            &&& after.quiescent_further == c.quiescent_further
            &&& after.eligible_further == c.eligible_further
            &&& after.quiescent_terminal == c.quiescent_terminal
            &&& after.demand_terminal == c.demand_terminal
        }),
{
}

/// Starting a packet closes an open checkpoint as one that work followed, eligible
/// where there was demand; the age of the first eligible one is kept. A completion
/// opens a checkpoint only in quiescence, as old as the invocation then is.
pub proof fn law_a_checkpoint_is_followed_by_the_next_packet(
    tranche: Tranche,
    now_us: u64,
    snapshot: Snapshot,
    demand: Demand,
)
    requires
        can_start(completed_packet(tranche, now_us, snapshot, demand)),
        can_start(tranche),
        now_us >= tranche.started_us,
    ensures
        ({
            let done = completed_packet(tranche, now_us, snapshot, demand);
            let next = started_packet(done);
            let quiet = snapshot.pending == Some(0u64) && snapshot.parked == 0 && snapshot.ready
                == 0;
            &&& next.candidate is None
            &&& next.counts.started == tranche.counts.started + 1
            &&& quiet ==> next.counts.quiescent_further == tranche.counts.quiescent_further + 1
            &&& quiet && demand == Demand::Waiting ==> next.counts.eligible_further
                == tranche.counts.eligible_further + 1
            &&& quiet && demand != Demand::Waiting ==> next.counts.eligible_further
                == tranche.counts.eligible_further
            &&& !quiet && tranche.candidate is None ==> next.counts.quiescent_further
                == tranche.counts.quiescent_further && next.counts.eligible_further
                == tranche.counts.eligible_further
            &&& tranche.first_eligible_age_us is Some ==> next.first_eligible_age_us
                == tranche.first_eligible_age_us
            &&& tranche.first_eligible_age_us is None && quiet && demand == Demand::Waiting
                ==> next.first_eligible_age_us == Some((now_us - tranche.started_us) as u64)
            &&& next.started_us == tranche.started_us
        }),
{
}

/// An invocation's wall time runs from its start to its end, and what remains of it
/// behind its first eligible checkpoint is the rest of that time.
pub proof fn law_wall_time_adds_up(tranche: Tranche, ended_us: u64)
    ensures
        ({
            let done = finished(tranche, ended_us);
            &&& done.started_us == tranche.started_us
            &&& done.ended_us == ended_us
            &&& ended_us >= tranche.started_us ==> done.started_us + done.wall_us
                == done.ended_us
            &&& ended_us < tranche.started_us ==> done.wall_us == 0
            &&& done.remaining_wall_us is Some <==> tranche.first_eligible_age_us is Some
            &&& tranche.first_eligible_age_us matches Some(age) ==> if age <= done.wall_us {
                age + done.remaining_wall_us->0 == done.wall_us
            } else {
                done.remaining_wall_us->0 == 0
            }
            &&& done.counts.completed == tranche.counts.completed && done.counts.started
                == tranche.counts.started && done.counts.quiescent == tranche.counts.quiescent
            &&& done.counts.quiescent_further == tranche.counts.quiescent_further
        }),
{
}

/// A window sums the invocations it takes in and keeps the longest of them whole:
/// none it took in was longer, and of equally long ones the earlier is kept.
pub proof fn law_a_window_keeps_its_longest_invocation(w: Window, t: CompletedTranche)
    requires
        admits(w, t),
    ensures
        ({
            let next = with_tranche(w, t);
            &&& next.key == w.key
            &&& next.started_us == w.started_us
            &&& next.tranches == w.tranches + 1
            &&& next.wall_sum_us == w.wall_sum_us + t.wall_us
            &&& next.longest.wall_us >= t.wall_us
            &&& w.tranches > 0 ==> next.longest.wall_us >= w.longest.wall_us
            &&& next.longest == t || next.longest == w.longest
            &&& w.tranches == 0 ==> next.longest == t
            &&& w.tranches > 0 && t.wall_us == w.longest.wall_us ==> next.longest == w.longest
            &&& next.eligible_tranches == w.eligible_tranches + 1 <==> t.first_eligible_age_us is Some
            &&& next.eligible_tranches == w.eligible_tranches <==> t.first_eligible_age_us is None
            &&& t.first_eligible_age_us matches Some(age) ==> next.first_eligible_age_sum_us
                == w.first_eligible_age_sum_us + age && next.first_eligible_age_max_us >= age
            &&& t.first_eligible_age_us is None ==> next.first_eligible_age_sum_us
                == w.first_eligible_age_sum_us && next.first_eligible_age_max_us
                == w.first_eligible_age_max_us
            &&& next.first_eligible_age_max_us >= w.first_eligible_age_max_us
            &&& t.remaining_wall_us matches Some(rest) ==> next.remaining_wall_sum_us
                == w.remaining_wall_sum_us + rest && next.remaining_wall_max_us >= rest
            &&& t.remaining_wall_us is None ==> next.remaining_wall_sum_us
                == w.remaining_wall_sum_us && next.remaining_wall_max_us
                == w.remaining_wall_max_us
            &&& next.remaining_wall_max_us >= w.remaining_wall_max_us
            &&& next.counts == together(w.counts, t.counts)
        }),
{
}

/// A window is gone on with only by the device and the lifetime it was begun for;
/// any other begins an empty one of its own.
pub proof fn law_a_window_belongs_to_one_lifetime(
    window: Option<Window>,
    key: Key,
    started_us: u64,
)
    ensures
        ({
            let next = window_for(window, key, started_us);
            &&& next.key == key
            &&& window is Some && window->0.key.device == key.device && window->0.key.epoch
                == key.epoch ==> next == window->0
            &&& window is None || window->0.key.device != key.device || window->0.key.epoch
                != key.epoch ==> next.tranches == 0 && next.wall_sum_us == 0 && next.started_us
                == started_us && next.counts.completed == 0 && next.counts.started == 0
        }),
{
}

/// A context counts packets of one device at most: the one whose invocation it
/// observes, and none while it observes nothing.
pub proof fn law_only_the_observed_device_is_counted(context: Context, device: u64, other: u64)
    ensures
        observes(context, device) && observes(context, other) ==> device == other,
        context.active is None ==> !observes(context, device),
        context.active is Some ==> observes(context, context.active->0.key.device),
{
}

/// An invocation may be gone on with exactly while none of the counters that the
/// next note raises would run over.
pub proof fn law_a_note_is_taken_while_its_counters_have_room(
    t: Tranche,
    snapshot: Snapshot,
    demand: Demand,
)
    ensures
        can_start(t) <==> {
            &&& t.counts.started + 1 <= u64::MAX
            &&& t.candidate is None || t.counts.quiescent_further + 1 <= u64::MAX
            &&& t.candidate is None || !t.candidate->0.demand || t.counts.eligible_further + 1
                <= u64::MAX
        },
        can_finish(t) <==> {
            &&& t.candidate is None || t.counts.quiescent_terminal + 1 <= u64::MAX
            &&& t.candidate is None || !t.candidate->0.demand || t.counts.demand_terminal + 1
                <= u64::MAX
        },
        can_complete(t.counts, snapshot, demand) <==> {
            let c = t.counts;
            let fits = snapshot.pending is Some && snapshot.parked <= snapshot.pending->0
                && snapshot.ready <= snapshot.parked;
            let quiet = snapshot.pending == Some(0u64) && snapshot.parked == 0 && snapshot.ready
                == 0;
            &&& c.completed + 1 <= u64::MAX
            &&& demand == Demand::Absent ==> c.demand_absent + 1 <= u64::MAX
            &&& demand == Demand::Waiting ==> c.demand_waiting + 1 <= u64::MAX
            &&& demand == Demand::Contended ==> c.demand_unknown + 1 <= u64::MAX
            &&& demand == Demand::Closed ==> c.demand_closed + 1 <= u64::MAX
            &&& snapshot.parked > 0 ==> c.parked_blocked + 1 <= u64::MAX
            &&& snapshot.pending is None ==> c.pending_unknown + 1 <= u64::MAX
            &&& snapshot.pending is Some && !fits ==> c.inconsistent + 1 <= u64::MAX
            &&& fits && snapshot.pending->0 > snapshot.parked ==> c.outer_blocked + 1 <= u64::MAX
            &&& quiet ==> c.quiescent + 1 <= u64::MAX
            &&& quiet && demand == Demand::Waiting ==> c.quiescent_demand + 1 <= u64::MAX
        },
{
}

/// A window takes an invocation in exactly while none of its sums would run over.
pub proof fn law_a_window_takes_in_what_it_can_sum(w: Window, t: CompletedTranche)
    ensures
        admits(w, t) <==> {
            &&& w.tranches + 1 <= u64::MAX
            &&& w.wall_sum_us + t.wall_us <= u64::MAX
            &&& t.first_eligible_age_us is Some ==> w.eligible_tranches + 1 <= u64::MAX
                && w.first_eligible_age_sum_us + t.first_eligible_age_us->0 <= u64::MAX
            &&& t.remaining_wall_us is Some ==> w.remaining_wall_sum_us + t.remaining_wall_us->0
                <= u64::MAX
            &&& summable(w.counts, t.counts)
        },
{
}

} // verus!
