//! The decisions of a run: how many documents may be under way at once, and
//! what to do after each attempt to ask one query: take the answer, wait and
//! ask again, or give the query up.

use crate::configuration::{extraction, Configuration, ConfigurationView, HttpCall};
use crate::generator::{Document, Mode, QueryTask};
use crate::json::Json;
use crate::score::{failed, points_for, score, spec_rank, tag_for, Kind, Request};
use vstd::prelude::*;

verus! {

/// How often a query is asked before it is given up, and how long to wait
/// between two attempts.
#[derive(Debug, Clone, Copy)]
pub struct RetryPolicy {
    max_attempts: u32,
    base_delay_ms: u64,
    max_delay_ms: u64,
}

/// What `RetryPolicy` holds, as mathematical values.
pub struct RetryPolicyView {
    /// The number of attempts after which a query is given up; one at least.
    pub max_attempts: nat,
    /// The wait after the first failure, in milliseconds.
    pub base_delay_ms: nat,
    /// The longest wait, in milliseconds.
    pub max_delay_ms: nat,
}

/// `base` doubled `times` times.
pub open spec fn doubled(base: nat, times: nat) -> nat
    decreases times,
{
    if times == 0 {
        base
    } else {
        2 * doubled(base, (times - 1) as nat)
    }
}

/// How often the base delay has doubled after `failures` failures in a row:
/// once for each failure but the first.
pub open spec fn doublings(failures: nat) -> nat {
    if failures > 1 {
        (failures - 1) as nat
    } else {
        0
    }
}

impl RetryPolicyView {
    /// The wait after `failures` failures in a row: the base delay after
    /// the first, twice as long after each further one, and never longer
    /// than the longest wait.
    pub open spec fn delay_after(self, failures: nat) -> nat {
        let grown = doubled(self.base_delay_ms, doublings(failures));
        if grown < self.max_delay_ms {
            grown
        } else {
            self.max_delay_ms
        }
    }

    /// The number of failures on record once one more is added to
    /// `failures`. It stops at the number of attempts allowed.
    pub open spec fn after_failure(self, failures: nat) -> nat {
        if failures < self.max_attempts {
            failures + 1
        } else {
            failures
        }
    }

    /// Whether a query with `failures` failures on record is given up.
    pub open spec fn exhausted(self, failures: nat) -> bool {
        failures >= self.max_attempts
    }
}

impl View for RetryPolicy {
    type V = RetryPolicyView;

    closed spec fn view(&self) -> RetryPolicyView {
        RetryPolicyView {
            max_attempts: self.max_attempts as nat,
            base_delay_ms: self.base_delay_ms as nat,
            max_delay_ms: self.max_delay_ms as nat,
        }
    }
}

/// Doubling more often never gives less.
pub proof fn lemma_doubled_grows(base: nat, fewer: nat, more: nat)
    requires
        fewer <= more,
    ensures
        doubled(base, fewer) <= doubled(base, more),
    decreases more,
{
    if fewer < more {
        lemma_doubled_grows(base, fewer, (more - 1) as nat);
    }
}

/// Zero stays zero however often it is doubled.
pub proof fn lemma_doubled_zero(times: nat)
    ensures
        doubled(0, times) == 0,
    decreases times,
{
    if times > 0 {
        lemma_doubled_zero((times - 1) as nat);
    }
}

impl RetryPolicy {
    #[verifier::type_invariant]
    closed spec fn inv(self) -> bool {
        self.max_attempts >= 1
    }

    /// A policy of `max_attempts` attempts; none if that is zero.
    pub fn new(max_attempts: u32, base_delay_ms: u64, max_delay_ms: u64) -> (policy: Option<
        RetryPolicy,
    >)
        ensures
            match policy {
                Some(p) => max_attempts > 0 && p@ == (RetryPolicyView {
                    max_attempts: max_attempts as nat,
                    base_delay_ms: base_delay_ms as nat,
                    max_delay_ms: max_delay_ms as nat,
                }),
                None => max_attempts == 0,
            },
    {
        if max_attempts == 0 {
            None
        } else {
            Some(RetryPolicy { max_attempts, base_delay_ms, max_delay_ms })
        }
    }

    /// The number of attempts after which a query is given up.
    pub fn max_attempts(&self) -> (attempts: u32)
        ensures
            attempts == self@.max_attempts,
            attempts >= 1,
    {
        proof {
            use_type_invariant(self);
        }
        self.max_attempts
    }

    /// The wait, in milliseconds, before the attempt that follows
    /// `failures` failures in a row.
    pub fn delay_after(&self, failures: u32) -> (delay_ms: u64)
        ensures
            delay_ms == self@.delay_after(failures as nat),
    {
        let cap = self.max_delay_ms;
        let base = self.base_delay_ms;
        if base >= cap {
            proof {
                lemma_doubled_grows(base as nat, 0, doublings(failures as nat));
            }
            return cap;
        }
        if base == 0 {
            proof {
                lemma_doubled_zero(doublings(failures as nat));
            }
            return 0;
        }
        let mut delay = base;
        let mut times: u32 = 1;
        while times < failures && delay < cap
            invariant
                base == self@.base_delay_ms,
                cap == self@.max_delay_ms,
                1 <= times,
                times <= failures || times == 1,
                0 < delay <= cap,
                delay < cap ==> delay == doubled(base as nat, (times - 1) as nat),
                delay == cap ==> doubled(base as nat, (times - 1) as nat) >= cap,
            decreases failures - times,
        {
            if delay > cap - delay {
                delay = cap;
            } else {
                delay = delay + delay;
            }
            times += 1;
        }
        proof {
            if delay == cap {
                lemma_doubled_grows(
                    base as nat,
                    (times - 1) as nat,
                    doublings(failures as nat),
                );
            }
        }
        delay
    }
}

/// What every query of a run shares and none of them changes: how the
/// endpoint is called, how often, and how the queries are cut.
#[derive(Debug)]
pub struct Context {
    configuration: Configuration,
    policy: RetryPolicy,
    mode: Mode,
}

/// What `Context` holds, as mathematical values.
pub struct ContextView {
    pub configuration: ConfigurationView,
    pub policy: RetryPolicyView,
    pub mode: Mode,
}

impl View for Context {
    type V = ContextView;

    closed spec fn view(&self) -> ContextView {
        ContextView {
            configuration: self.configuration@,
            policy: self.policy@,
            mode: self.mode,
        }
    }
}

impl Context {
    /// Puts together what a run shares.
    pub fn new(configuration: Configuration, policy: RetryPolicy, mode: Mode) -> (context: Context)
        ensures
            context@ == (ContextView { configuration: configuration@, policy: policy@, mode }),
    {
        Context { configuration, policy, mode }
    }

    /// How the endpoint is called.
    pub fn configuration(&self) -> (configuration: &Configuration)
        ensures
            configuration@ == self@.configuration,
    {
        &self.configuration
    }

    /// How often a query is asked, and how long to wait in between.
    pub fn policy(&self) -> (policy: RetryPolicy)
        ensures
            policy@ == self@.policy,
    {
        self.policy
    }

    /// How the queries are cut from a document.
    pub fn mode(&self) -> (mode: Mode)
        ensures
            mode == self@.mode,
    {
        self.mode
    }
}

/// What one attempt to ask the endpoint came to.
#[derive(Debug)]
pub enum Outcome<'a> {
    /// The endpoint answered with this JSON value.
    Answer(&'a Json),
    /// The endpoint answered with something that is not JSON.
    Undecodable,
    /// No answer came: the connection failed or the time ran out.
    Unreachable,
    /// The run was called off while the attempt was under way.
    Cancelled,
}

/// What to do next with a query.
#[derive(Debug, Clone, Copy)]
pub enum Decision {
    /// Wait this long, then ask again.
    Retry { delay_ms: u64 },
    /// The query is settled with this record.
    Done(Request),
    /// The run was called off: ask no more, and record nothing.
    Halt,
}

/// How a query sets out.
#[derive(Debug)]
pub enum Start {
    /// Send this call.
    Send(HttpCall),
    /// No call can be built; the query is settled with this record.
    Done(Request),
}

/// The identifiers that an attempt brought, if it brought any that can be
/// read.
pub open spec fn candidates_of(result: Seq<char>, outcome: Outcome) -> Option<Seq<Json>> {
    match outcome {
        Outcome::Answer(response) => match extraction(result, *response) {
            Ok(ids) => Some(ids),
            Err(_) => None,
        },
        _ => None,
    }
}

/// Whether `record` holds `points` points and feeds `kind` besides the
/// total.
pub open spec fn holds(record: Request, points: int, kind: Option<Kind>) -> bool {
    record.spec_points() == points && record.spec_kind() == kind
}

/// The attempts made so far to ask one query.
#[derive(Debug)]
pub struct QueryRun {
    policy: RetryPolicy,
    failures: u32,
}

impl QueryRun {
    #[verifier::type_invariant]
    closed spec fn inv(self) -> bool {
        self.failures <= self.policy.max_attempts
    }

    /// The policy that the run follows.
    pub closed spec fn policy(self) -> RetryPolicyView {
        self.policy@
    }

    /// The number of failed attempts on record.
    pub closed spec fn failures(self) -> nat {
        self.failures as nat
    }

    /// A run without any attempt yet, under the policy of `context`.
    pub fn new(context: &Context) -> (run: QueryRun)
        ensures
            run.policy() == context@.policy,
            run.failures() == 0,
    {
        QueryRun { policy: context.policy, failures: 0 }
    }

    /// The number of failed attempts so far.
    pub fn failed_attempts(&self) -> (failures: u32)
        ensures
            failures == self.failures(),
            failures <= self.policy().max_attempts,
    {
        proof {
            use_type_invariant(self);
        }
        self.failures
    }

    /// Decides what follows the attempt that came to `outcome`.
    ///
    /// A run that was called off halts. An answer whose identifiers can be
    /// read settles the query with its score. Anything else is a failure:
    /// the query is asked again after the wait that the policy sets, or,
    /// once the attempts are used up, settled with the record of a query
    /// that found nothing.
    pub fn settle(
        &mut self,
        context: &Context,
        document: &Document,
        task: &QueryTask,
        outcome: &Outcome,
    ) -> (decision: Decision)
        ensures
            final(self).policy() == old(self).policy(),
            *outcome is Cancelled ==> decision is Halt && final(self).failures() == old(
                self,
            ).failures(),
            !(*outcome is Cancelled) ==> match candidates_of(
                context@.configuration.result,
                *outcome,
            ) {
                Some(ids) => {
                    &&& final(self).failures() == old(self).failures()
                    &&& decision matches Decision::Done(record)
                    &&& holds(
                        record,
                        points_for(spec_rank(ids, document@.id)),
                        tag_for(context@.mode, document@.overview, task@.end as int),
                    )
                },
                None => {
                    let failures = old(self).policy().after_failure(old(self).failures());
                    &&& final(self).failures() == failures
                    &&& if old(self).policy().exhausted(failures) {
                        &&& decision matches Decision::Done(record)
                        &&& holds(
                            record,
                            0,
                            tag_for(context@.mode, document@.overview, task@.end as int),
                        )
                    } else {
                        &&& decision matches Decision::Retry { delay_ms }
                        &&& delay_ms == old(self).policy().delay_after(failures)
                    }
                },
            },
    {
        proof {
            use_type_invariant(&*self);
        }
        match outcome {
            Outcome::Cancelled => {
                return Decision::Halt;
            },
            Outcome::Answer(response) => match context.configuration.extract_ids(response) {
                Ok(ids) => {
                    return Decision::Done(score(&ids, document, task, context.mode));
                },
                Err(_) => {},
            },
            _ => {},
        }
        let policy = self.policy;
        let limit = policy.max_attempts();
        let failures = if self.failures < limit {
            self.failures + 1
        } else {
            self.failures
        };
        *self = QueryRun { policy, failures };
        if failures >= limit {
            Decision::Done(failed(document, task, context.mode))
        } else {
            Decision::Retry { delay_ms: policy.delay_after(failures) }
        }
    }
}

/// Sets a query out: builds its call, or settles it at once where the
/// configuration allows no call. Such a query counts as one that found
/// nothing.
pub fn start(context: &Context, document: &Document, task: &QueryTask) -> (start: Start)
    ensures
        match context@.configuration.call_for(task@.query_text) {
            Ok(call) => start matches Start::Send(c) && c@ == call,
            Err(_) => start matches Start::Done(record) && holds(
                record,
                0,
                tag_for(context@.mode, document@.overview, task@.end as int),
            ),
        },
{
    match context.configuration.prepare(task.query_text()) {
        Ok(call) => Start::Send(call),
        Err(_) => Start::Done(failed(document, task, context.mode)),
    }
}

/// How far the documents of a run have come, as mathematical values.
pub struct FanoutView {
    /// The number of documents of the run.
    pub total: nat,
    /// The most documents that may be under way at once.
    pub limit: nat,
    /// The number of documents that were started.
    pub started: nat,
    /// The number of documents that were finished.
    pub finished: nat,
}

impl FanoutView {
    /// The number of documents under way.
    pub open spec fn in_flight(self) -> int {
        self.started - self.finished
    }

    /// Whether another document may be started now.
    pub open spec fn has_room(self) -> bool {
        self.started < self.total && self.in_flight() < self.limit
    }

    /// What holds of every state that a run passes through: documents are
    /// started in order, finished only once started, and never more of
    /// them are under way than the limit allows.
    pub open spec fn sound(self) -> bool {
        &&& self.finished <= self.started <= self.total
        &&& self.in_flight() <= self.limit
        &&& self.limit >= 1
    }
}

/// Keeps the number of documents under way within a limit. The documents of
/// a run are numbered from 0 and started in that order, each once.
#[derive(Debug)]
pub struct Fanout {
    total: usize,
    limit: usize,
    started: usize,
    finished: usize,
}

impl View for Fanout {
    type V = FanoutView;

    closed spec fn view(&self) -> FanoutView {
        FanoutView {
            total: self.total as nat,
            limit: self.limit as nat,
            started: self.started as nat,
            finished: self.finished as nat,
        }
    }
}

impl Fanout {
    #[verifier::type_invariant]
    closed spec fn inv(self) -> bool {
        self@.sound()
    }

    /// A run of `total` documents of which `limit` may be under way at
    /// once; none if the limit is zero.
    pub fn new(total: usize, limit: usize) -> (fanout: Option<Fanout>)
        ensures
            match fanout {
                Some(f) => limit > 0 && f@ == (FanoutView {
                    total: total as nat,
                    limit: limit as nat,
                    started: 0,
                    finished: 0,
                }),
                None => limit == 0,
            },
    {
        if limit == 0 {
            None
        } else {
            Some(Fanout { total, limit, started: 0, finished: 0 })
        }
    }

    /// Hands out the number of the document to start next, if one is left
    /// and the limit leaves room for it.
    pub fn launch(&mut self) -> (next: Option<usize>)
        ensures
            final(self)@.sound(),
            match next {
                Some(index) => {
                    &&& old(self)@.has_room()
                    &&& index == old(self)@.started
                    &&& final(self)@ == (FanoutView {
                        started: old(self)@.started + 1,
                        ..old(self)@
                    })
                },
                None => !old(self)@.has_room() && final(self)@ == old(self)@,
            },
    {
        proof {
            use_type_invariant(&*self);
        }
        if self.started < self.total && self.started - self.finished < self.limit {
            let index = self.started;
            *self = Fanout {
                total: self.total,
                limit: self.limit,
                started: index + 1,
                finished: self.finished,
            };
            Some(index)
        } else {
            None
        }
    }

    /// Notes that one of the documents under way has finished. Tells
    /// whether one was under way; if none was, nothing changes.
    pub fn complete(&mut self) -> (noted: bool)
        ensures
            final(self)@.sound(),
            noted == (old(self)@.in_flight() > 0),
            noted ==> final(self)@ == (FanoutView {
                finished: old(self)@.finished + 1,
                ..old(self)@
            }),
            !noted ==> final(self)@ == old(self)@,
    {
        proof {
            use_type_invariant(&*self);
        }
        if self.finished < self.started {
            *self = Fanout {
                total: self.total,
                limit: self.limit,
                started: self.started,
                finished: self.finished + 1,
            };
            true
        } else {
            false
        }
    }

    /// The number of documents under way, never above the limit.
    pub fn in_flight(&self) -> (count: usize)
        ensures
            count == self@.in_flight(),
            count <= self@.limit,
    {
        proof {
            use_type_invariant(self);
        }
        self.started - self.finished
    }

    /// Whether every document was started and has finished.
    pub fn is_done(&self) -> (done: bool)
        ensures
            done == (self@.finished == self@.total),
            done ==> self@.started == self@.total && self@.in_flight() == 0,
    {
        proof {
            use_type_invariant(self);
        }
        self.finished == self.total
    }
}

/// Starting a document where there is room and finishing one that is under
/// way both keep the run sound: at no time are more documents under way
/// than the limit allows, and no document is started twice.
pub proof fn lemma_fanout_stays_within_limit(state: FanoutView)
    requires
        state.sound(),
    ensures
        state.has_room() ==> (FanoutView { started: state.started + 1, ..state }).sound(),
        state.in_flight() > 0 ==> (FanoutView { finished: state.finished + 1, ..state }).sound(),
        !state.has_room() && state.in_flight() == 0 ==> state.finished == state.total,
{
}

/// A query whose every attempt fails is asked exactly as often as the
/// policy allows: the failure that uses the attempts up is the first one
/// after which it is given up.
pub proof fn lemma_attempts_are_bounded(policy: RetryPolicyView, failures: nat)
    requires
        policy.max_attempts >= 1,
        failures < policy.max_attempts,
    ensures
        policy.exhausted(policy.after_failure(failures)) <==> failures + 1 == policy.max_attempts,
        !policy.exhausted(failures),
{
}

/// The wait never exceeds the longest wait and never shrinks from one
/// failure to the next.
pub proof fn lemma_delay_is_capped_and_grows(policy: RetryPolicyView, failures: nat)
    ensures
        policy.delay_after(failures) <= policy.max_delay_ms,
        policy.delay_after(failures) <= policy.delay_after(failures + 1),
{
    lemma_doubled_grows(policy.base_delay_ms, doublings(failures), doublings(failures + 1));
}

} // verus!
