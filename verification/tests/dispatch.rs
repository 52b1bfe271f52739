use relevance_bench::configuration::{Configuration, Verb};
use relevance_bench::dispatch::{
    start, Context, Decision, Fanout, Outcome, QueryRun, RetryPolicy, Start,
};
use relevance_bench::generator::{generate, Document, Mode, QueryTask};
use relevance_bench::json::Json;
use relevance_bench::score::{Kind, Request};

fn configuration() -> Configuration {
    Configuration::new(Verb::Get, "http://host/?q={}".to_string(), None, "hits".to_string())
}

fn document() -> Document {
    Document::new("1".to_string(), "The Matrix".to_string(), "the matrix has you neo".to_string())
}

fn task(mode: Mode, index: usize) -> QueryTask {
    generate(mode, &document()).swap_remove(index)
}

fn context(mode: Mode, max_attempts: u32) -> Context {
    Context::new(configuration(), RetryPolicy::new(max_attempts, 100, 1000).unwrap(), mode)
}

fn hits(ids: &[&str]) -> Json {
    let list = ids
        .iter()
        .map(|id| Json::Object(vec![("id".to_string(), Json::Text(id.to_string()))]))
        .collect();
    Json::Object(vec![("hits".to_string(), Json::List(list))])
}

fn done(decision: Decision) -> Request {
    match decision {
        Decision::Done(record) => record,
        other => panic!("decided {:?}", other),
    }
}

fn wait(decision: Decision) -> u64 {
    match decision {
        Decision::Retry { delay_ms } => delay_ms,
        other => panic!("decided {:?}", other),
    }
}

#[test]
fn a_context_hands_back_what_it_was_made_of() {
    let ctx = context(Mode::WordWindow, 4);
    assert_eq!(ctx.mode(), Mode::WordWindow);
    assert_eq!(ctx.policy().max_attempts(), 4);
    assert_eq!(ctx.policy().delay_after(2), 200);
    assert_eq!(ctx.configuration().url(), "http://host/?q={}");
    assert_eq!(ctx.configuration().result(), "hits");
}

#[test]
fn a_policy_needs_one_attempt_at_least() {
    assert!(RetryPolicy::new(0, 100, 1000).is_none());
    assert_eq!(RetryPolicy::new(1, 100, 1000).unwrap().max_attempts(), 1);
    assert_eq!(RetryPolicy::new(u32::MAX, 0, 0).unwrap().max_attempts(), u32::MAX);
}

#[test]
fn the_wait_doubles_up_to_the_longest_wait() {
    let policy = RetryPolicy::new(10, 100, 1000).unwrap();
    assert_eq!(policy.delay_after(1), 100);
    assert_eq!(policy.delay_after(2), 200);
    assert_eq!(policy.delay_after(3), 400);
    assert_eq!(policy.delay_after(4), 800);
    assert_eq!(policy.delay_after(5), 1000);
    assert_eq!(policy.delay_after(6), 1000);
    assert_eq!(policy.delay_after(u32::MAX), 1000);
    assert_eq!(policy.delay_after(0), 100);
}

#[test]
fn the_wait_stays_within_its_bounds_at_the_edges() {
    assert_eq!(RetryPolicy::new(3, 0, 1000).unwrap().delay_after(3), 0);
    assert_eq!(RetryPolicy::new(3, 0, 1000).unwrap().delay_after(u32::MAX), 0);
    assert_eq!(RetryPolicy::new(3, 5000, 1000).unwrap().delay_after(1), 1000);
    assert_eq!(RetryPolicy::new(3, 1000, 1000).unwrap().delay_after(2), 1000);
    assert_eq!(RetryPolicy::new(3, 7, 0).unwrap().delay_after(1), 0);
    let policy = RetryPolicy::new(3, 1, u64::MAX).unwrap();
    assert_eq!(policy.delay_after(64), 1 << 63);
    assert_eq!(policy.delay_after(65), u64::MAX);
    assert_eq!(policy.delay_after(66), u64::MAX);
    let policy = RetryPolicy::new(3, 3, u64::MAX).unwrap();
    assert_eq!(policy.delay_after(63), 3 << 62);
    assert_eq!(policy.delay_after(64), u64::MAX);
}

#[test]
fn an_answer_settles_the_query_with_its_score() {
    let ctx = context(Mode::WordWindow, 3);
    let doc = document();
    let task = task(Mode::WordWindow, 1);
    assert_eq!(task.query_text(), "the");
    let mut run = QueryRun::new(&ctx);
    let answer = hits(&["5", "6", "1"]);
    let record = done(run.settle(&ctx, &doc, &task, &Outcome::Answer(&answer)));
    assert_eq!(record.points(), 8);
    assert_eq!(record.kind(), Some(Kind::Exact));
    assert_eq!(run.failed_attempts(), 0);
}

#[test]
fn an_answer_after_a_failure_still_settles_the_query() {
    let ctx = context(Mode::Prefix, 3);
    let doc = document();
    let task = task(Mode::Prefix, 0);
    let mut run = QueryRun::new(&ctx);
    assert_eq!(wait(run.settle(&ctx, &doc, &task, &Outcome::Unreachable)), 100);
    let answer = hits(&["1"]);
    let record = done(run.settle(&ctx, &doc, &task, &Outcome::Answer(&answer)));
    assert_eq!(record.points(), 10);
    assert_eq!(record.kind(), None);
    assert_eq!(run.failed_attempts(), 1);
}

#[test]
fn an_answer_without_the_result_member_counts_as_empty() {
    let ctx = context(Mode::WordWindow, 3);
    let doc = document();
    let task = task(Mode::WordWindow, 0);
    let mut run = QueryRun::new(&ctx);
    let answer = Json::Object(vec![("message".to_string(), Json::Text("no index".to_string()))]);
    let record = done(run.settle(&ctx, &doc, &task, &Outcome::Answer(&answer)));
    assert_eq!(record.points(), 0);
    assert_eq!(record.kind(), Some(Kind::Prefix));
    assert_eq!(run.failed_attempts(), 0);
}

#[test]
fn an_answer_that_cannot_be_read_is_a_failure() {
    let ctx = context(Mode::WordWindow, 3);
    let doc = document();
    let task = task(Mode::WordWindow, 0);
    let mut run = QueryRun::new(&ctx);
    let no_list = Json::Object(vec![("hits".to_string(), Json::Null)]);
    assert_eq!(
        wait(run.settle(&ctx, &doc, &task, &Outcome::Answer(&no_list))),
        100
    );
    let no_id = Json::Object(vec![("hits".to_string(), Json::List(vec![Json::Null]))]);
    assert_eq!(
        wait(run.settle(&ctx, &doc, &task, &Outcome::Answer(&no_id))),
        200
    );
    assert_eq!(run.failed_attempts(), 2);
    let record = done(run.settle(&ctx, &doc, &task, &Outcome::Undecodable));
    assert_eq!(record.points(), 0);
    assert_eq!(run.failed_attempts(), 3);
}

#[test]
fn one_attempt_means_no_retry() {
    let ctx = context(Mode::Prefix, 1);
    let doc = document();
    let task = task(Mode::Prefix, 0);
    let mut run = QueryRun::new(&ctx);
    let record = done(run.settle(&ctx, &doc, &task, &Outcome::Unreachable));
    assert_eq!(record.points(), 0);
    assert_eq!(run.failed_attempts(), 1);
}

#[test]
fn a_run_that_was_given_up_stays_given_up() {
    let ctx = context(Mode::Prefix, 2);
    let doc = document();
    let task = task(Mode::Prefix, 0);
    let mut run = QueryRun::new(&ctx);
    assert_eq!(wait(run.settle(&ctx, &doc, &task, &Outcome::Undecodable)), 100);
    for _ in 0..3 {
        let record = done(run.settle(&ctx, &doc, &task, &Outcome::Unreachable));
        assert_eq!(record.points(), 0);
        assert_eq!(run.failed_attempts(), 2);
    }
}

#[test]
fn start_builds_the_call() {
    let ctx = context(Mode::Prefix, 3);
    let doc = document();
    let task = task(Mode::Prefix, 4);
    match start(&ctx, &doc, &task) {
        Start::Send(call) => {
            assert_eq!(call.verb, Verb::Get);
            assert_eq!(call.url, "http://host/?q=the%20m");
            assert_eq!(call.body, None);
        }
        Start::Done(record) => panic!("settled with {:?}", record),
    }
}

#[test]
fn start_settles_a_query_that_cannot_be_sent() {
    let conf = Configuration::new(Verb::Post, "http://host/".to_string(), None, "hits".to_string());
    let ctx = Context::new(conf, RetryPolicy::new(3, 100, 1000).unwrap(), Mode::WordWindow);
    let doc = document();
    let task = task(Mode::WordWindow, 1);
    match start(&ctx, &doc, &task) {
        Start::Send(call) => panic!("built {:?}", call),
        Start::Done(record) => {
            assert_eq!(record.points(), 0);
            assert_eq!(record.kind(), Some(Kind::Exact));
        }
    }
}

#[test]
fn a_run_that_is_called_off_halts_without_a_record() {
    let ctx = context(Mode::Prefix, 3);
    let doc = document();
    let task = task(Mode::Prefix, 0);
    let mut run = QueryRun::new(&ctx);
    assert_eq!(wait(run.settle(&ctx, &doc, &task, &Outcome::Unreachable)), 100);
    match run.settle(&ctx, &doc, &task, &Outcome::Cancelled) {
        Decision::Halt => {}
        other => panic!("decided {:?}", other),
    }
    assert_eq!(run.failed_attempts(), 1);
}

#[test]
fn a_fanout_needs_room_for_one_document() {
    assert!(Fanout::new(10, 0).is_none());
    assert!(Fanout::new(0, 1).unwrap().is_done());
    assert_eq!(Fanout::new(0, 1).unwrap().launch(), None);
}

#[test]
fn a_fanout_starts_every_document_once_and_in_order() {
    let mut fanout = Fanout::new(5, 2).unwrap();
    assert_eq!(fanout.launch(), Some(0));
    assert_eq!(fanout.launch(), Some(1));
    assert_eq!(fanout.launch(), None);
    assert_eq!(fanout.in_flight(), 2);
    assert!(fanout.complete());
    assert_eq!(fanout.in_flight(), 1);
    assert_eq!(fanout.launch(), Some(2));
    assert_eq!(fanout.launch(), None);
    assert!(fanout.complete());
    assert!(fanout.complete());
    assert!(!fanout.complete());
    assert_eq!(fanout.in_flight(), 0);
    assert!(!fanout.is_done());
    assert_eq!(fanout.launch(), Some(3));
    assert_eq!(fanout.launch(), Some(4));
    assert_eq!(fanout.launch(), None);
    assert!(fanout.complete());
    assert!(!fanout.is_done());
    assert!(fanout.complete());
    assert!(fanout.is_done());
    assert_eq!(fanout.launch(), None);
    assert!(!fanout.complete());
}

#[test]
fn a_fanout_never_passes_its_limit() {
    let mut fanout = Fanout::new(100, 7).unwrap();
    let mut started = 0;
    while !fanout.is_done() {
        while let Some(index) = fanout.launch() {
            assert_eq!(index, started);
            started += 1;
            assert!(fanout.in_flight() <= 7);
        }
        assert!(fanout.complete());
    }
    assert_eq!(started, 100);
}
