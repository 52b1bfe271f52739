//! The queries that probe one document: cut from its own text, in a fixed
//! order that depends on the text alone.

use crate::text::chars_of;
use vstd::prelude::*;
use vstd::string::StrSliceExecFns;

verus! {

/// The most queries that prefix mode asks for one document.
pub const PREFIX_CAP: usize = 30;

/// The number of words that one window of word-window mode spans.
pub const WINDOW_WORDS: usize = 4;

/// One document of the corpus.
#[derive(Debug)]
pub struct Document {
    id: String,
    title: String,
    overview: String,
}

/// What `Document` holds, as mathematical values.
pub struct DocumentView {
    pub id: Seq<char>,
    pub title: Seq<char>,
    pub overview: Seq<char>,
}

impl View for Document {
    type V = DocumentView;

    closed spec fn view(&self) -> DocumentView {
        DocumentView { id: self.id@, title: self.title@, overview: self.overview@ }
    }
}

impl Document {
    /// A document of this identifier, title and text.
    pub fn new(id: String, title: String, overview: String) -> (document: Document)
        ensures
            document@ == (DocumentView { id: id@, title: title@, overview: overview@ }),
    {
        Document { id, title, overview }
    }

    /// The identifier by which an answer names the document.
    pub fn id(&self) -> (id: &str)
        ensures
            id@ == self@.id,
    {
        self.id.as_str()
    }

    /// The title.
    pub fn title(&self) -> (title: &str)
        ensures
            title@ == self@.title,
    {
        self.title.as_str()
    }

    /// The text that the queries are cut from.
    pub fn overview(&self) -> (overview: &str)
        ensures
            overview@ == self@.overview,
    {
        self.overview.as_str()
    }
}

/// How queries are cut from a document's text.
#[derive(Debug, Clone, Copy, PartialEq, Eq, Structural)]
pub enum Mode {
    /// The first character, the first two, and so on, up to `PREFIX_CAP`.
    Prefix,
    /// Within every run of `WINDOW_WORDS` words, the texts that begin where
    /// the run begins and are at least two characters long.
    WordWindow,
}

/// One query for one document.
#[derive(Debug)]
pub struct QueryTask {
    document_id: String,
    query_text: String,
    sequence_index: usize,
    end: usize,
}

/// What `QueryTask` holds, as mathematical values.
pub struct QueryTaskView {
    /// The identifier of the document that the query was cut from.
    pub document_id: Seq<char>,
    /// The text to ask the endpoint for.
    pub query_text: Seq<char>,
    /// The place of the task among the tasks of its document.
    pub sequence_index: nat,
    /// The character offset in the document's text at which the query stops.
    pub end: nat,
}

impl View for QueryTask {
    type V = QueryTaskView;

    closed spec fn view(&self) -> QueryTaskView {
        QueryTaskView {
            document_id: self.document_id@,
            query_text: self.query_text@,
            sequence_index: self.sequence_index as nat,
            end: self.end as nat,
        }
    }
}

impl QueryTask {
    /// The identifier of the document that the query was cut from.
    pub fn document_id(&self) -> (id: &str)
        ensures
            id@ == self@.document_id,
    {
        self.document_id.as_str()
    }

    /// The text to ask the endpoint for.
    pub fn query_text(&self) -> (text: &str)
        ensures
            text@ == self@.query_text,
    {
        self.query_text.as_str()
    }

    /// The place of the task among the tasks of its document.
    pub fn sequence_index(&self) -> (index: usize)
        ensures
            index == self@.sequence_index,
    {
        self.sequence_index
    }

    /// The character offset in the document's text at which the query stops.
    pub fn end(&self) -> (end: usize)
        ensures
            end == self@.end,
    {
        self.end
    }
}

/// The offsets just behind the spaces among the first `upto` characters of
/// `text`, in rising order.
pub open spec fn space_ends(text: Seq<char>, upto: int) -> Seq<int>
    decreases upto,
{
    if upto <= 0 {
        Seq::empty()
    } else if text[upto - 1] == ' ' {
        space_ends(text, upto - 1).push(upto)
    } else {
        space_ends(text, upto - 1)
    }
}

/// The offsets at which the words of `text` begin, the offset 0 first, and
/// the length of `text` last. Every space ends a word.
pub open spec fn word_offsets(text: Seq<char>) -> Seq<int> {
    seq![0int] + space_ends(text, text.len() as int) + seq![text.len() as int]
}

/// The spans of the queries cut from the window between `start` and `stop`:
/// each begins at `start` and stops two or more characters later, up to
/// `stop`.
pub open spec fn window_spans(start: int, stop: int) -> Seq<(int, int)> {
    Seq::new(
        if stop - start >= 2 {
            (stop - start - 1) as nat
        } else {
            0
        },
        |j: int| (start, start + 2 + j),
    )
}

/// The spans of the first `count` windows over `offsets`, window by window.
/// A window runs from one offset to the fourth one behind it.
pub open spec fn spans_of_windows(offsets: Seq<int>, count: int) -> Seq<(int, int)>
    decreases count,
{
    if count <= 0 {
        Seq::empty()
    } else {
        spans_of_windows(offsets, count - 1) + window_spans(
            offsets[count - 1],
            offsets[count + 3],
        )
    }
}

/// The number of windows over `offsets`.
pub open spec fn window_count(offsets: Seq<int>) -> int {
    if offsets.len() >= 5 {
        offsets.len() - 4
    } else {
        0
    }
}

/// The spans of the queries of prefix mode.
pub open spec fn prefix_spans(text: Seq<char>) -> Seq<(int, int)> {
    Seq::new(
        if text.len() < 30 {
            text.len()
        } else {
            30
        },
        |k: int| (0int, k + 1),
    )
}

/// The spans of the queries of word-window mode.
pub open spec fn word_window_spans(text: Seq<char>) -> Seq<(int, int)> {
    spans_of_windows(word_offsets(text), window_count(word_offsets(text)))
}

/// The spans of the queries that `mode` cuts from `text`, in order. A span
/// is the offset of its first character and the offset behind its last.
pub open spec fn query_spans(mode: Mode, text: Seq<char>) -> Seq<(int, int)> {
    match mode {
        Mode::Prefix => prefix_spans(text),
        Mode::WordWindow => word_window_spans(text),
    }
}

/// The tasks that cover `spans` of the text of `document`, numbered from 0.
pub open spec fn tasks_of(document: DocumentView, spans: Seq<(int, int)>) -> Seq<QueryTaskView> {
    Seq::new(
        spans.len(),
        |i: int|
            QueryTaskView {
                document_id: document.id,
                query_text: document.overview.subrange(spans[i].0, spans[i].1),
                sequence_index: i as nat,
                end: spans[i].1 as nat,
            },
    )
}

/// The views of a sequence of tasks.
pub open spec fn task_views(tasks: Seq<QueryTask>) -> Seq<QueryTaskView> {
    tasks.map_values(|task: QueryTask| task@)
}

/// The queries depend on the text alone: two documents with the same text
/// are probed with the same texts, cut at the same offsets, in the same
/// order, and each document again with the same ones.
pub proof fn lemma_queries_depend_on_text_alone(mode: Mode, one: DocumentView, other: DocumentView)
    requires
        one.overview == other.overview,
    ensures
        query_spans(mode, one.overview) == query_spans(mode, other.overview),
        tasks_of(one, query_spans(mode, one.overview)).len() == tasks_of(
            other,
            query_spans(mode, other.overview),
        ).len(),
        forall|i: int|
            0 <= i < query_spans(mode, one.overview).len() ==> {
                let mine = #[trigger] tasks_of(one, query_spans(mode, one.overview))[i];
                let theirs = tasks_of(other, query_spans(mode, other.overview))[i];
                &&& mine.query_text == theirs.query_text
                &&& mine.end == theirs.end
                &&& mine.sequence_index == theirs.sequence_index
                &&& mine.sequence_index == i
            },
{
}

/// Prefix mode asks no more than thirty queries for a document, and one
/// for each character of a shorter text.
pub proof fn lemma_prefix_mode_is_capped(document: DocumentView)
    ensures
        tasks_of(document, prefix_spans(document.overview)).len() <= 30,
        tasks_of(document, prefix_spans(document.overview)).len() <= document.overview.len(),
        document.overview.len() <= 30 ==> tasks_of(
            document,
            prefix_spans(document.overview),
        ).len() == document.overview.len(),
{
}

/// The offsets held in `offsets`, as integers.
pub open spec fn as_ints(offsets: Seq<usize>) -> Seq<int> {
    offsets.map_values(|offset: usize| offset as int)
}

/// Finds where the words of a text begin.
pub fn find_word_offsets(chars: &Vec<char>) -> (offsets: Vec<usize>)
    ensures
        as_ints(offsets@) == word_offsets(chars@),
        forall|i: int| 0 <= i < offsets@.len() ==> offsets@[i] <= chars@.len(),
{
    let mut offsets: Vec<usize> = Vec::new();
    offsets.push(0);
    let mut at: usize = 0;
    proof {
        assert(as_ints(offsets@) =~= seq![0int] + space_ends(chars@, 0));
    }
    while at < chars.len()
        invariant
            at <= chars.len(),
            as_ints(offsets@) == seq![0int] + space_ends(chars@, at as int),
            forall|i: int| 0 <= i < offsets@.len() ==> offsets@[i] <= chars@.len(),
        decreases chars.len() - at,
    {
        let ghost before = offsets@;
        if chars[at] == ' ' {
            offsets.push(at + 1);
            proof {
                assert(as_ints(offsets@) =~= as_ints(before).push(at + 1));
                assert((seq![0int] + space_ends(chars@, at as int)).push(at + 1) =~= seq![0int]
                    + space_ends(chars@, at + 1));
            }
        }
        at += 1;
    }
    let ghost before = offsets@;
    offsets.push(chars.len());
    proof {
        assert(as_ints(offsets@) =~= as_ints(before).push(chars@.len() as int));
        assert(as_ints(before).push(chars@.len() as int) =~= word_offsets(chars@));
    }
    offsets
}

/// Appends the task that covers the text of `document` from `start` up to
/// `end`.
fn push_task(
    tasks: &mut Vec<QueryTask>,
    document: &Document,
    start: usize,
    end: usize,
    Ghost(spans): Ghost<Seq<(int, int)>>,
)
    requires
        start <= end <= document@.overview.len(),
        task_views(old(tasks)@) == tasks_of(document@, spans),
    ensures
        task_views(final(tasks)@) == tasks_of(document@, spans.push((start as int, end as int))),
{
    let query_text = document.overview.as_str().substring_char(start, end).to_owned();
    let task = QueryTask {
        document_id: document.id.clone(),
        query_text,
        sequence_index: tasks.len(),
        end,
    };
    let ghost before = tasks@;
    tasks.push(task);
    proof {
        assert(task_views(before).len() == spans.len());
        assert(task_views(tasks@) =~= task_views(before).push(task@));
        assert(task_views(before).push(task@) =~= tasks_of(
            document@,
            spans.push((start as int, end as int)),
        ));
    }
}

/// The queries of prefix mode: the first character of the text, the first
/// two, and so on, `PREFIX_CAP` at most.
pub fn prefix_queries(document: &Document) -> (tasks: Vec<QueryTask>)
    ensures
        task_views(tasks@) == tasks_of(document@, prefix_spans(document@.overview)),
{
    let length = document.overview.as_str().unicode_len();
    let count = if length < PREFIX_CAP {
        length
    } else {
        PREFIX_CAP
    };
    let mut tasks: Vec<QueryTask> = Vec::new();
    let ghost mut spans: Seq<(int, int)> = Seq::empty();
    let mut k: usize = 0;
    proof {
        assert(task_views(tasks@) =~= tasks_of(document@, spans));
    }
    while k < count
        invariant
            k <= count <= document@.overview.len(),
            count <= 30,
            task_views(tasks@) == tasks_of(document@, spans),
            spans == Seq::new(k as nat, |j: int| (0int, j + 1)),
        decreases count - k,
    {
        push_task(&mut tasks, document, 0, k + 1, Ghost(spans));
        proof {
            let next = spans.push((0int, k + 1));
            assert(next =~= Seq::new((k + 1) as nat, |j: int| (0int, j + 1)));
            spans = next;
        }
        k += 1;
    }
    proof {
        assert(spans =~= prefix_spans(document@.overview));
    }
    tasks
}

/// The queries of word-window mode. Every run of `WINDOW_WORDS` words in
/// the text is a window, taken from the left; within a window, the queries
/// begin where it begins and grow by one character, from two characters up
/// to the whole window.
pub fn word_window_queries(document: &Document) -> (tasks: Vec<QueryTask>)
    ensures
        task_views(tasks@) == tasks_of(document@, word_window_spans(document@.overview)),
{
    let chars = chars_of(document.overview.as_str());
    let offsets = find_word_offsets(&chars);
    let mut tasks: Vec<QueryTask> = Vec::new();
    let ghost mut spans: Seq<(int, int)> = Seq::empty();
    let ghost ints = as_ints(offsets@);
    proof {
        assert(task_views(tasks@) =~= tasks_of(document@, spans));
    }
    if offsets.len() <= WINDOW_WORDS {
        return tasks;
    }
    let count = offsets.len() - WINDOW_WORDS;
    let mut window: usize = 0;
    while window < count
        invariant
            chars@ == document@.overview,
            ints == as_ints(offsets@),
            ints == word_offsets(chars@),
            forall|i: int| 0 <= i < offsets@.len() ==> offsets@[i] <= chars@.len(),
            offsets@.len() >= 5,
            count == offsets@.len() - 4,
            window <= count,
            task_views(tasks@) == tasks_of(document@, spans),
            spans == spans_of_windows(ints, window as int),
        decreases count - window,
    {
        let start = offsets[window];
        let stop = offsets[window + WINDOW_WORDS];
        let ghost done = spans;
        proof {
            assert(ints[window as int] == start);
            assert(ints[window + 4] == stop);
            assert(done + window_spans(start as int, start + 1) =~= done);
        }
        if start < stop {
            let width = stop - start;
            let mut grown: usize = 1;
            while grown < width
                invariant
                    chars@ == document@.overview,
                    start + width == stop,
                    stop <= chars@.len(),
                    1 <= grown,
                    grown <= width || width == 0,
                    task_views(tasks@) == tasks_of(document@, spans),
                    spans == done + window_spans(start as int, start + grown),
                decreases width - grown,
            {
                grown += 1;
                push_task(&mut tasks, document, start, start + grown, Ghost(spans));
                proof {
                    let next = spans.push((start as int, start + grown));
                    assert(next =~= done + window_spans(start as int, start + grown));
                    spans = next;
                }
            }
            proof {
                assert(window_spans(start as int, start + grown) =~= window_spans(
                    start as int,
                    stop as int,
                ));
            }
        } else {
            proof {
                assert(window_spans(start as int, start + 1) =~= window_spans(
                    start as int,
                    stop as int,
                ));
            }
        }
        window += 1;
    }
    tasks
}

/// The queries that `mode` cuts from the text of `document`, in the order
/// in which they are to be asked.
pub fn generate(mode: Mode, document: &Document) -> (tasks: Vec<QueryTask>)
    ensures
        task_views(tasks@) == tasks_of(document@, query_spans(mode, document@.overview)),
{
    match mode {
        Mode::Prefix => prefix_queries(document),
        Mode::WordWindow => word_window_queries(document),
    }
}

} // verus!
