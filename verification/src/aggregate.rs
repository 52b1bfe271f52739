//! The sums of a run: per counter, the points earned and the most that could
//! have been earned.

use crate::score::{Kind, Request, MAX_POINTS};
use vstd::prelude::*;

verus! {

/// The state of one counter, as mathematical values.
pub struct Tally {
    /// The points earned so far.
    pub score: nat,
    /// The points that could have been earned so far.
    pub max: nat,
}

/// The state of all counters, as mathematical values.
pub struct AggregateView {
    pub exact: Tally,
    pub prefix: Tally,
    pub total: Tally,
}

impl Tally {
    /// The counter after one more record that earned `points`.
    pub open spec fn plus(self, points: nat) -> Tally {
        Tally { score: self.score + points, max: self.max + 10 }
    }

    /// Two counters added up.
    pub open spec fn sum(self, other: Tally) -> Tally {
        Tally { score: self.score + other.score, max: self.max + other.max }
    }

    /// The counter after `record`, which it takes in only if fed by it.
    pub open spec fn fed(self, record: Request, kind: Kind) -> Tally {
        if record.feeds(kind) {
            self.plus(record.spec_points())
        } else {
            self
        }
    }
}

impl AggregateView {
    /// All counters at zero.
    pub open spec fn zero() -> AggregateView {
        AggregateView {
            exact: Tally { score: 0, max: 0 },
            prefix: Tally { score: 0, max: 0 },
            total: Tally { score: 0, max: 0 },
        }
    }

    /// The counter `kind`.
    pub open spec fn of(self, kind: Kind) -> Tally {
        match kind {
            Kind::Exact => self.exact,
            Kind::Prefix => self.prefix,
            Kind::Total => self.total,
        }
    }

    /// The counters after `record`: each counter that the record feeds has
    /// its points added and its maximum raised by ten.
    pub open spec fn absorbed(self, record: Request) -> AggregateView {
        AggregateView {
            exact: self.exact.fed(record, Kind::Exact),
            prefix: self.prefix.fed(record, Kind::Prefix),
            total: self.total.fed(record, Kind::Total),
        }
    }

    /// The counters of two parts of a run, added up counter by counter.
    pub open spec fn merged(self, other: AggregateView) -> AggregateView {
        AggregateView {
            exact: self.exact.sum(other.exact),
            prefix: self.prefix.sum(other.prefix),
            total: self.total.sum(other.total),
        }
    }

    /// No counter holds more points than could have been earned.
    pub open spec fn bounded(self) -> bool {
        forall|kind: Kind| (#[trigger] self.of(kind)).score <= self.of(kind).max
    }
}

/// The counters after all of `records`, starting from zero.
pub open spec fn tally(records: Seq<Request>) -> AggregateView
    decreases records.len(),
{
    if records.len() == 0 {
        AggregateView::zero()
    } else {
        tally(records.drop_last()).absorbed(records.last())
    }
}

/// The share of the points that were earned, in whole percent, rounded
/// down; nothing where no points could have been earned.
pub open spec fn percentage_of(score: nat, max: nat) -> Option<nat> {
    if max == 0 {
        None
    } else {
        Some(score * 100 / max)
    }
}

/// The share is the largest whole number of percent that the points reach,
/// and at most a hundred where the points do not pass their maximum. It is
/// defined for every counter: one without data has none.
pub proof fn lemma_percentage_is_floor(score: nat, max: nat)
    ensures
        max == 0 ==> percentage_of(score, max) is None,
        max > 0 ==> {
            &&& percentage_of(score, max) matches Some(share)
            &&& share * max <= score * 100 < (share + 1) * max
            &&& score <= max ==> share <= 100
        },
{
    if max > 0 {
        let share = score * 100 / max;
        assert(share * max <= score * 100 < (share + 1) * max) by (nonlinear_arith)
            requires
                max > 0,
                share == score * 100 / max,
        ;
        if score <= max {
            assert(share <= 100) by (nonlinear_arith)
                requires
                    max > 0,
                    score <= max,
                    share * max <= score * 100,
            ;
        }
    }
}

/// One counter: the points earned and the most that could have been.
#[derive(Debug, Clone, Copy)]
pub struct Counter {
    score: u64,
    max: u64,
}

impl View for Counter {
    type V = Tally;

    closed spec fn view(&self) -> Tally {
        Tally { score: self.score as nat, max: self.max as nat }
    }
}

impl Counter {
    #[verifier::type_invariant]
    closed spec fn inv(self) -> bool {
        self.score <= self.max
    }

    /// The points earned.
    pub fn score(&self) -> (score: u64)
        ensures
            score == self@.score,
            self@.score <= self@.max,
    {
        proof {
            use_type_invariant(self);
        }
        self.score
    }

    /// The points that could have been earned.
    pub fn max(&self) -> (max: u64)
        ensures
            max == self@.max,
            self@.score <= self@.max,
    {
        proof {
            use_type_invariant(self);
        }
        self.max
    }

    /// The share of the points that were earned, in whole percent, rounded
    /// down. A counter that nothing fed has no share to report.
    pub fn percentage(&self) -> (share: Option<u64>)
        ensures
            match share {
                Some(p) => percentage_of(self@.score, self@.max) == Some(p as nat) && p <= 100,
                None => percentage_of(self@.score, self@.max) is None,
            },
    {
        proof {
            use_type_invariant(self);
        }
        if self.max == 0 {
            None
        } else {
            let score = self.score as u128;
            let max = self.max as u128;
            assert((score * 100) / (max as int) <= 100) by (nonlinear_arith)
                requires
                    0 <= score <= max,
                    max > 0,
            ;
            Some((score * 100 / max) as u64)
        }
    }
}

/// The final sums of a run, read only.
#[derive(Debug, Clone, Copy)]
pub struct Report {
    exact: Counter,
    prefix: Counter,
    total: Counter,
}

impl View for Report {
    type V = AggregateView;

    closed spec fn view(&self) -> AggregateView {
        AggregateView { exact: self.exact@, prefix: self.prefix@, total: self.total@ }
    }
}

impl Report {
    #[verifier::type_invariant]
    closed spec fn inv(self) -> bool {
        self.exact.max <= self.total.max && self.prefix.max <= self.total.max
    }

    /// The counter `kind`.
    pub fn counter(&self, kind: Kind) -> (counter: Counter)
        ensures
            counter@ == self@.of(kind),
    {
        match kind {
            Kind::Exact => self.exact,
            Kind::Prefix => self.prefix,
            Kind::Total => self.total,
        }
    }

    /// The share of the points of `kind` that were earned, in whole
    /// percent, rounded down; nothing if no query fed the counter.
    pub fn percentage(&self, kind: Kind) -> (share: Option<u64>)
        ensures
            match share {
                Some(p) => percentage_of(self@.of(kind).score, self@.of(kind).max) == Some(
                    p as nat,
                ) && p <= 100,
                None => percentage_of(self@.of(kind).score, self@.of(kind).max) is None,
            },
    {
        self.counter(kind).percentage()
    }
}

/// The sums cannot take another record: a maximum would pass `u64::MAX`.
#[derive(Debug, Clone, Copy, PartialEq, Eq, Structural)]
pub struct AggregateFull;

/// The sums of a run while it lasts. Made before the first query is sent,
/// owned by the one place that takes the records in, and read at the end.
#[derive(Debug)]
pub struct Aggregate {
    exact: Counter,
    prefix: Counter,
    total: Counter,
}

impl View for Aggregate {
    type V = AggregateView;

    closed spec fn view(&self) -> AggregateView {
        AggregateView { exact: self.exact@, prefix: self.prefix@, total: self.total@ }
    }
}

impl Aggregate {
    #[verifier::type_invariant]
    closed spec fn inv(self) -> bool {
        self.exact.max <= self.total.max && self.prefix.max <= self.total.max
    }

    /// All counters at zero.
    pub fn new() -> (aggregate: Aggregate)
        ensures
            aggregate@ == AggregateView::zero(),
    {
        let zero = Counter { score: 0, max: 0 };
        Aggregate { exact: zero, prefix: zero, total: zero }
    }

    /// Takes one record in. The total and the counter of the record's own
    /// kind get its points and ten more to their maximum; the other
    /// counters stay. Nothing changes if a maximum would not fit.
    pub fn absorb(&mut self, record: &Request) -> (done: Result<(), AggregateFull>)
        ensures
            match done {
                Ok(_) => final(self)@ == old(self)@.absorbed(*record),
                Err(_) => final(self)@ == old(self)@ && old(self)@.total.max + 10 > u64::MAX,
            },
            final(self)@.bounded(),
    {
        proof {
            use_type_invariant(&*self);
            use_type_invariant(&self.exact);
            use_type_invariant(&self.prefix);
            use_type_invariant(&self.total);
        }
        if self.total.max > u64::MAX - MAX_POINTS as u64 {
            return Err(AggregateFull);
        }
        let points = record.points() as u64;
        let kind = record.kind();
        let total = Counter { score: self.total.score + points, max: self.total.max + 10 };
        let exact = match kind {
            Some(Kind::Exact) => Counter {
                score: self.exact.score + points,
                max: self.exact.max + 10,
            },
            _ => self.exact,
        };
        let prefix = match kind {
            Some(Kind::Prefix) => Counter {
                score: self.prefix.score + points,
                max: self.prefix.max + 10,
            },
            _ => self.prefix,
        };
        *self = Aggregate { exact, prefix, total };
        Ok(())
    }

    /// Adds the sums of another part of the run, such as the snapshot of an
    /// aggregate that took in the records of other documents. Nothing
    /// changes if a maximum would not fit.
    pub fn merge(&mut self, part: &Report) -> (done: Result<(), AggregateFull>)
        ensures
            match done {
                Ok(_) => final(self)@ == old(self)@.merged(part@),
                Err(_) => final(self)@ == old(self)@ && old(self)@.total.max + part@.total.max
                    > u64::MAX,
            },
            final(self)@.bounded(),
    {
        proof {
            use_type_invariant(&*self);
            use_type_invariant(&self.exact);
            use_type_invariant(&self.prefix);
            use_type_invariant(&self.total);
            use_type_invariant(part);
            use_type_invariant(&part.exact);
            use_type_invariant(&part.prefix);
            use_type_invariant(&part.total);
        }
        if self.total.max > u64::MAX - part.total.max {
            return Err(AggregateFull);
        }
        let exact = Counter {
            score: self.exact.score + part.exact.score,
            max: self.exact.max + part.exact.max,
        };
        let prefix = Counter {
            score: self.prefix.score + part.prefix.score,
            max: self.prefix.max + part.prefix.max,
        };
        let total = Counter {
            score: self.total.score + part.total.score,
            max: self.total.max + part.total.max,
        };
        *self = Aggregate { exact, prefix, total };
        Ok(())
    }

    /// The sums as they stand.
    pub fn snapshot(&self) -> (report: Report)
        ensures
            report@ == self@,
            report@.bounded(),
    {
        proof {
            use_type_invariant(self);
            use_type_invariant(&self.exact);
            use_type_invariant(&self.prefix);
            use_type_invariant(&self.total);
        }
        Report { exact: self.exact, prefix: self.prefix, total: self.total }
    }
}

/// Each record raises the maximum of the total by exactly ten, whatever it
/// earned: after `records` it stands at ten times their number.
pub proof fn lemma_total_max_counts_records(records: Seq<Request>)
    ensures
        tally(records).total.max == 10 * records.len(),
    decreases records.len(),
{
    if records.len() > 0 {
        lemma_total_max_counts_records(records.drop_last());
    }
}

/// It makes no difference whether the records of a run are taken in one
/// after the other or in two parts whose sums are added up.
pub proof fn lemma_tally_in_parts(first: Seq<Request>, second: Seq<Request>)
    ensures
        tally(first + second) == tally(first).merged(tally(second)),
    decreases second.len(),
{
    if second.len() == 0 {
        assert(first + second =~= first);
    } else {
        lemma_tally_in_parts(first, second.drop_last());
        assert((first + second).drop_last() =~= first + second.drop_last());
        assert((first + second).last() == second.last());
    }
}

/// One more record raises the maximum of every counter that it feeds by
/// exactly ten and leaves the other maxima as they were.
pub proof fn lemma_max_rises_by_ten(state: AggregateView, record: Request, kind: Kind)
    ensures
        state.absorbed(record).of(kind).max == state.of(kind).max + (if record.feeds(kind) {
            10nat
        } else {
            0nat
        }),
{
}

/// Every record feeds the total and at most one counter besides it, so the
/// maxima of the other counters never add up to more than that of the total.
pub proof fn lemma_kinds_share_the_total(records: Seq<Request>)
    requires
        forall|i: int| 0 <= i < records.len() ==> (#[trigger] records[i]).inv(),
    ensures
        tally(records).exact.max + tally(records).prefix.max <= tally(records).total.max,
        tally(records).exact.score + tally(records).prefix.score <= tally(records).total.score,
    decreases records.len(),
{
    if records.len() > 0 {
        let earlier = records.drop_last();
        assert forall|i: int| 0 <= i < earlier.len() implies (#[trigger] earlier[i]).inv() by {
            assert(earlier[i] == records[i]);
        }
        lemma_kinds_share_the_total(earlier);
        assert(records.last().inv());
        records.last().lemma_points_bounded();
    }
}

/// No counter ever holds more points than its maximum, the total included.
pub proof fn lemma_score_within_max(records: Seq<Request>)
    requires
        forall|i: int| 0 <= i < records.len() ==> (#[trigger] records[i]).inv(),
    ensures
        tally(records).bounded(),
    decreases records.len(),
{
    if records.len() > 0 {
        let earlier = records.drop_last();
        assert forall|i: int| 0 <= i < earlier.len() implies (#[trigger] earlier[i]).inv() by {
            assert(earlier[i] == records[i]);
        }
        lemma_score_within_max(earlier);
        let last = records.last();
        assert(last.inv());
        last.lemma_points_bounded();
        let before = tally(earlier);
        let after = tally(records);
        assert forall|kind: Kind| (#[trigger] after.of(kind)).score <= after.of(kind).max by {
            assert(before.of(kind).score <= before.of(kind).max);
        }
    }
}

} // verus!
