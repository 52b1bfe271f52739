use relevance_bench::aggregate::{Aggregate, Report};
use relevance_bench::configuration::{Configuration, HttpCall, Verb};
use relevance_bench::dispatch::{
    start, Context, Decision, Outcome, QueryRun, RetryPolicy, Start,
};
use relevance_bench::generator::{generate, Document, Mode};
use relevance_bench::json::Json;
use relevance_bench::score::Kind;

/// What a stand-in for the endpoint answers to one call.
enum Reply {
    Body(Json),
    TimedOut,
}

/// The numbers of one run against a stand-in for the endpoint.
struct Run {
    report: Report,
    queries: usize,
    calls: usize,
    waits: Vec<u64>,
}

fn configuration() -> Configuration {
    Configuration::new(Verb::Get, "{}".to_string(), None, "hits".to_string())
}

fn hits(ids: &[&str], query: &str) -> Json {
    let list = ids
        .iter()
        .map(|id| {
            Json::Object(vec![
                ("id".to_string(), Json::Text(id.to_string())),
                ("overview".to_string(), Json::Text(query.to_string())),
            ])
        })
        .collect();
    Json::Object(vec![("hits".to_string(), Json::List(list))])
}

/// Asks every query of every document in turn, as a run does, with `endpoint`
/// in the place of the network.
fn run(
    documents: &[Document],
    mode: Mode,
    policy: RetryPolicy,
    endpoint: &dyn Fn(&HttpCall) -> Reply,
) -> Run {
    let context = Context::new(configuration(), policy, mode);
    let mut aggregate = Aggregate::new();
    let mut out = Run { report: aggregate.snapshot(), queries: 0, calls: 0, waits: Vec::new() };
    for document in documents {
        for task in generate(mode, document) {
            out.queries += 1;
            let call = match start(&context, document, &task) {
                Start::Send(call) => call,
                Start::Done(record) => {
                    aggregate.absorb(&record).unwrap();
                    continue;
                }
            };
            let mut attempts = QueryRun::new(&context);
            loop {
                out.calls += 1;
                let reply = endpoint(&call);
                let outcome = match &reply {
                    Reply::Body(json) => Outcome::Answer(json),
                    Reply::TimedOut => Outcome::Unreachable,
                };
                match attempts.settle(&context, document, &task, &outcome) {
                    Decision::Retry { delay_ms } => out.waits.push(delay_ms),
                    Decision::Done(record) => {
                        aggregate.absorb(&record).unwrap();
                        break;
                    }
                    Decision::Halt => panic!("nothing called the run off"),
                }
            }
        }
    }
    out.report = aggregate.snapshot();
    out
}

fn document(id: &str, overview: &str) -> Document {
    Document::new(id.to_string(), "a title".to_string(), overview.to_string())
}

fn policy() -> RetryPolicy {
    RetryPolicy::new(3, 50, 10_000).unwrap()
}

#[test]
fn an_endpoint_that_always_ranks_the_document_first_scores_full_marks() {
    let documents = [document("1", "the matrix")];
    let echo = |call: &HttpCall| Reply::Body(hits(&["1"], &call.url));
    let prefix = run(&documents, Mode::Prefix, policy(), &echo);
    assert_eq!(prefix.queries, 10);
    assert_eq!(prefix.calls, 10);
    assert_eq!(prefix.report.counter(Kind::Total).score(), 100);
    assert_eq!(prefix.report.counter(Kind::Total).max(), 100);
    assert_eq!(prefix.report.percentage(Kind::Total), Some(100));
    // two words are fewer than a window: nothing is asked, nothing is known
    let windows = run(&documents, Mode::WordWindow, policy(), &echo);
    assert_eq!(windows.queries, 0);
    for run in [&prefix, &windows] {
        for kind in [Kind::Exact, Kind::Prefix, Kind::Total] {
            let share = run.report.percentage(kind);
            assert!(share == None || share == Some(100));
        }
    }
}

#[test]
fn full_marks_in_every_category_of_word_window_mode() {
    let documents = [document("1", "the matrix has you neo"), document("2", "follow the white rabbit")];
    let echo = |call: &HttpCall| {
        // the query is the whole URL here; only the windows of the first
        // document begin with one of these letters
        if call.url.starts_with('t') || call.url.starts_with('m') {
            Reply::Body(hits(&["1"], &call.url))
        } else {
            Reply::Body(hits(&["2"], &call.url))
        }
    };
    let out = run(&documents, Mode::WordWindow, policy(), &echo);
    assert_eq!(out.queries, 35 + 22);
    assert_eq!(out.report.percentage(Kind::Exact), Some(100));
    assert_eq!(out.report.percentage(Kind::Prefix), Some(100));
    assert_eq!(out.report.percentage(Kind::Total), Some(100));
    assert_eq!(out.report.counter(Kind::Total).max(), 570);
    assert_eq!(
        out.report.counter(Kind::Exact).max() + out.report.counter(Kind::Prefix).max(),
        out.report.counter(Kind::Total).max()
    );
    assert!(out.waits.is_empty());
}

#[test]
fn an_endpoint_without_results_scores_nothing_of_ten_per_query() {
    let documents = [
        document("1", "the matrix"),
        document("2", "a computer hacker learns about the true nature of reality"),
        document("3", ""),
    ];
    let empty = |_: &HttpCall| Reply::Body(hits(&[], ""));
    let out = run(&documents, Mode::Prefix, policy(), &empty);
    assert_eq!(out.queries, 10 + 30);
    assert_eq!(out.report.counter(Kind::Total).score(), 0);
    assert_eq!(out.report.counter(Kind::Total).max(), 400);
    assert_eq!(out.report.percentage(Kind::Total), Some(0));
    let out = run(&documents, Mode::WordWindow, policy(), &empty);
    assert!(out.queries > 0);
    assert_eq!(out.report.counter(Kind::Total).score(), 0);
    assert_eq!(out.report.counter(Kind::Total).max(), 10 * out.queries as u64);
    assert_eq!(out.report.counter(Kind::Exact).score(), 0);
    assert_eq!(out.report.counter(Kind::Prefix).score(), 0);
    assert_eq!(out.calls, out.queries);
}

#[test]
fn an_endpoint_that_times_out_is_asked_three_times_and_scored_as_a_miss() {
    let documents = [document("1", "the matrix")];
    let silent = |_: &HttpCall| Reply::TimedOut;
    let out = run(&documents, Mode::Prefix, policy(), &silent);
    assert_eq!(out.queries, 10);
    assert_eq!(out.calls, 30);
    assert_eq!(out.waits.len(), 20);
    assert_eq!(&out.waits[..4], &[50, 100, 50, 100]);
    assert_eq!(out.report.counter(Kind::Total).score(), 0);
    assert_eq!(out.report.counter(Kind::Total).max(), 100);
    assert_eq!(out.report.percentage(Kind::Total), Some(0));
}

#[test]
fn a_lower_rank_earns_fewer_points() {
    let documents = [document("1", "the matrix")];
    let third = |call: &HttpCall| Reply::Body(hits(&["8", "9", "1"], &call.url));
    let out = run(&documents, Mode::Prefix, policy(), &third);
    assert_eq!(out.report.counter(Kind::Total).score(), 80);
    assert_eq!(out.report.percentage(Kind::Total), Some(80));
}

