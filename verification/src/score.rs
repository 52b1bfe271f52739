//! Points for a rank, and the record that one answered query leaves behind.

use crate::configuration::values;
use crate::generator::{Document, Mode, QueryTask};
use crate::json::Json;
use vstd::prelude::*;
use vstd::string::StrSliceExecFns;

verus! {

/// The most points one query can earn: the document came back first.
pub const MAX_POINTS: usize = 10;

/// A counter of the final report.
#[derive(Clone, Copy, Debug, PartialEq, Eq, Structural)]
pub enum Kind {
    /// Queries that stop where a word stops.
    Exact,
    /// Queries that stop inside a word.
    Prefix,
    /// Every query.
    Total,
}

/// Points earned by a document that came back at the zero-based `rank`.
pub open spec fn points_for_rank(rank: int) -> int {
    if 0 <= rank < 10 {
        10 - rank
    } else {
        0
    }
}

/// Points earned by an answer in which the document was found at `rank`, or
/// not at all.
pub open spec fn points_for(rank: Option<usize>) -> int {
    match rank {
        Some(r) => points_for_rank(r as int),
        None => 0,
    }
}

/// Whether a query that covers `text` up to `end` stops at the end of a word:
/// nothing follows it, or a space does.
pub open spec fn ends_word(text: Seq<char>, end: int) -> bool {
    end >= text.len() || text[end] == ' '
}

/// The counter, besides `Kind::Total`, that a query ending at `end` feeds.
pub open spec fn boundary_kind(text: Seq<char>, end: int) -> Kind {
    if ends_word(text, end) {
        Kind::Exact
    } else {
        Kind::Prefix
    }
}

/// The counter, besides `Kind::Total`, that a query of `mode` feeds when it
/// stops at `end`. Prefix mode tells no kinds apart.
pub open spec fn tag_for(mode: Mode, text: Seq<char>, end: int) -> Option<Kind> {
    match mode {
        Mode::Prefix => None,
        Mode::WordWindow => Some(boundary_kind(text, end)),
    }
}

/// The first position from `from` on, among the first ten, at which
/// `candidates` holds the string `id`.
pub open spec fn rank_from(candidates: Seq<Json>, id: Seq<char>, from: int) -> Option<usize>
    decreases candidates.len() - from,
{
    if from < 0 || from >= candidates.len() || from >= 10 {
        None
    } else if candidates[from].is_text(id) {
        Some(from as usize)
    } else {
        rank_from(candidates, id, from + 1)
    }
}

/// The zero-based rank of the document `id` in an answer: the first
/// position among the first ten at which its identifier stands.
pub open spec fn spec_rank(candidates: Seq<Json>, id: Seq<char>) -> Option<usize> {
    rank_from(candidates, id, 0)
}

/// The outcome of one query: the points it earned and the counter it feeds
/// besides `Kind::Total`.
#[derive(Debug, Clone, Copy)]
pub struct Request {
    points: usize,
    kind: Option<Kind>,
}

impl Request {
    #[verifier::type_invariant]
    pub closed spec fn inv(self) -> bool {
        self.points <= MAX_POINTS && self.kind != Some(Kind::Total)
    }

    /// The points earned, between 0 and `MAX_POINTS`.
    pub closed spec fn spec_points(self) -> nat {
        self.points as nat
    }

    /// The counter fed besides `Kind::Total`, if any.
    pub closed spec fn spec_kind(self) -> Option<Kind> {
        self.kind
    }

    /// A valid record holds no more than `MAX_POINTS` points.
    pub proof fn lemma_points_bounded(self)
        requires
            self.inv(),
        ensures
            self.spec_points() <= 10,
            self.spec_kind() != Some(Kind::Total),
    {
    }

    /// Whether the record adds to the counter `kind`.
    pub open spec fn feeds(self, kind: Kind) -> bool {
        kind == Kind::Total || self.spec_kind() == Some(kind)
    }

    /// The record of a query that covered `origin` up to the character offset
    /// `end` and found its document at the zero-based rank `score`.
    pub fn new(end: usize, origin: &str, score: usize) -> (record: Request)
        ensures
            record.spec_points() == points_for_rank(score as int),
            record.spec_kind() == Some(boundary_kind(origin@, end as int)),
    {
        let kind = classify(origin, end);
        Request { points: rank_points(Some(score)), kind: Some(kind) }
    }

    /// The record of a query that covered `origin` up to the character offset
    /// `end` and did not find its document.
    pub fn unmatched(end: usize, origin: &str) -> (record: Request)
        ensures
            record.spec_points() == 0,
            record.spec_kind() == Some(boundary_kind(origin@, end as int)),
    {
        let kind = classify(origin, end);
        Request { points: 0, kind: Some(kind) }
    }

    /// The record of a query that feeds the total alone and found its
    /// document at `rank`, or not at all.
    pub fn untagged(rank: Option<usize>) -> (record: Request)
        ensures
            record.spec_points() == points_for(rank),
            record.spec_kind() is None,
    {
        Request { points: rank_points(rank), kind: None }
    }

    /// Whether the query earned nothing.
    pub fn is_unmatched(&self) -> (unmatched: bool)
        ensures
            unmatched == (self.spec_points() == 0),
    {
        self.points == 0
    }

    /// The points earned.
    pub fn points(&self) -> (points: usize)
        ensures
            points == self.spec_points(),
            points <= MAX_POINTS,
    {
        proof {
            use_type_invariant(self);
        }
        self.points
    }

    /// The points that the query could have earned: the same for every
    /// query, whatever came back.
    pub fn theoretical_max(&self) -> (max: usize)
        ensures
            max == MAX_POINTS,
            self.spec_points() <= max,
    {
        proof {
            use_type_invariant(self);
        }
        MAX_POINTS
    }

    /// The counter fed besides `Kind::Total`, if any.
    pub fn kind(&self) -> (kind: Option<Kind>)
        ensures
            kind == self.spec_kind(),
            kind != Some(Kind::Total),
    {
        proof {
            use_type_invariant(self);
        }
        self.kind
    }
}

/// Points for a rank: ten for the first place, one less for each place
/// behind it, none from the eleventh place on or without a match.
pub fn rank_points(rank: Option<usize>) -> (points: usize)
    ensures
        points == points_for(rank),
        points <= MAX_POINTS,
{
    match rank {
        Some(r) => if r < 10 {
            10 - r
        } else {
            0
        },
        None => 0,
    }
}

/// Tells whether the query that covers `origin` up to the character offset
/// `end` stops at the end of a word or inside one.
pub fn classify(origin: &str, end: usize) -> (kind: Kind)
    ensures
        kind == boundary_kind(origin@, end as int),
{
    if end >= origin.unicode_len() {
        Kind::Exact
    } else if origin.get_char(end) == ' ' {
        Kind::Exact
    } else {
        Kind::Prefix
    }
}

/// Finds the rank at which an answer names the document `document_id`.
/// Only strings name a document, and only the first ten places count.
pub fn rank_of(candidates: &Vec<&Json>, document_id: &str) -> (rank: Option<usize>)
    ensures
        rank == spec_rank(values(candidates@), document_id@),
{
    let wanted = document_id.to_owned();
    let mut at: usize = 0;
    while at < candidates.len() && at < MAX_POINTS
        invariant
            wanted@ == document_id@,
            at <= candidates.len(),
            at <= 10,
            spec_rank(values(candidates@), document_id@) == rank_from(
                values(candidates@),
                document_id@,
                at as int,
            ),
        decreases candidates.len() - at,
    {
        assert(values(candidates@)[at as int] == *candidates@[at as int]);
        match candidates[at] {
            Json::Text(text) => {
                if *text == wanted {
                    return Some(at);
                }
            },
            _ => {},
        }
        at += 1;
    }
    None
}

/// The record of the task `task` of `document`, asked in `mode`, to which
/// the endpoint answered with `candidates`.
pub fn score(candidates: &Vec<&Json>, document: &Document, task: &QueryTask, mode: Mode) -> (record:
    Request)
    ensures
        record.spec_points() == points_for(spec_rank(values(candidates@), document@.id)),
        record.spec_kind() == tag_for(mode, document@.overview, task@.end as int),
{
    let rank = rank_of(candidates, document.id());
    match mode {
        Mode::Prefix => Request::untagged(rank),
        Mode::WordWindow => match rank {
            Some(r) => Request::new(task.end(), document.overview(), r),
            None => Request::unmatched(task.end(), document.overview()),
        },
    }
}

/// The record of a task that got no answer to read: it earns nothing and
/// still counts towards the maxima.
pub fn failed(document: &Document, task: &QueryTask, mode: Mode) -> (record: Request)
    ensures
        record.spec_points() == 0,
        record.spec_kind() == tag_for(mode, document@.overview, task@.end as int),
{
    match mode {
        Mode::Prefix => Request::untagged(None),
        Mode::WordWindow => Request::unmatched(task.end(), document.overview()),
    }
}

/// The rank found is the least position among the first ten that holds the
/// identifier; none is found only if none of them holds it.
pub proof fn lemma_rank_is_first_match(candidates: Seq<Json>, id: Seq<char>, from: int)
    requires
        0 <= from,
    ensures
        match rank_from(candidates, id, from) {
            Some(rank) => {
                &&& from <= rank < candidates.len()
                &&& rank < 10
                &&& candidates[rank as int].is_text(id)
                &&& forall|i: int| from <= i < rank ==> !(#[trigger] candidates[i]).is_text(id)
            },
            None => forall|i: int|
                from <= i < candidates.len() && i < 10 ==> !(#[trigger] candidates[i]).is_text(id),
        },
    decreases candidates.len() - from,
{
    if from < candidates.len() && from < 10 && !candidates[from].is_text(id) {
        lemma_rank_is_first_match(candidates, id, from + 1);
    }
}

/// The first place earns ten points, each place behind it one point less,
/// and the eleventh place and all behind it earn nothing, as does an answer
/// without the document.
pub proof fn lemma_points_fall_with_rank(rank: usize, later: usize)
    requires
        rank <= later,
    ensures
        rank < 10 ==> points_for(Some(rank)) == 10 - rank,
        rank >= 10 ==> points_for(Some(rank)) == 0,
        points_for(None) == 0,
        0 <= points_for(Some(later)) <= points_for(Some(rank)) <= 10,
{
}

} // verus!
