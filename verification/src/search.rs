//! Running a query: which strategies to try, what each one's answer
//! becomes, and how the race between them is decided.

use crate::merge::{flatten, merge_results, merged, BatchResult};
use crate::point::ScoredPoint;
use vstd::prelude::*;

verus! {

/// A query of fewer characters than this is also tried as a prefix.
pub const RECOMMEND_BELOW: usize = 5;

/// The status with which a failed query is answered.
pub const FAILURE_STATUS: u16 = 500;

/// A way to find the neighbours of a query.
#[derive(Debug, Clone, Copy, PartialEq, Eq, Structural)]
pub enum SearchStrategy {
    /// Take the stored vector of the query, read as a prefix, as the anchor.
    Recommend,
    /// Embed the query and search with its vector.
    VectorSearch,
}

/// The strategies for a query, in the order in which they are started: a
/// short query is tried as a prefix first; every query is searched by
/// vector.
pub open spec fn strategies_for(query: Seq<char>) -> Seq<SearchStrategy> {
    if query.len() < RECOMMEND_BELOW {
        seq![SearchStrategy::Recommend, SearchStrategy::VectorSearch]
    } else {
        seq![SearchStrategy::VectorSearch]
    }
}

/// Selects the strategies for a query.
pub fn select_strategies(query: &str) -> (selected: Vec<SearchStrategy>)
    ensures
        selected@ == strategies_for(query@),
        selected@.contains(SearchStrategy::Recommend) <==> query@.len() < RECOMMEND_BELOW,
        selected@.contains(SearchStrategy::VectorSearch),
{
    let mut selected: Vec<SearchStrategy> = Vec::new();
    if query.unicode_len() < RECOMMEND_BELOW {
        selected.push(SearchStrategy::Recommend);
    }
    selected.push(SearchStrategy::VectorSearch);
    proof {
        assert(selected@ =~= strategies_for(query@));
        if query@.len() < RECOMMEND_BELOW {
            assert(selected@[0] == SearchStrategy::Recommend);
            assert(selected@[1] == SearchStrategy::VectorSearch);
        } else {
            assert(selected@[0] == SearchStrategy::VectorSearch);
        }
    }
    selected
}

/// A failure that the client gets to see.
#[derive(Debug, PartialEq, Eq)]
pub struct SearchError {
    pub status: u16,
    pub message: String,
}

/// The page of a recommendation, from what the store answered: the merged
/// tiers. A failed call counts as an empty page, since the anchor of a
/// query is often not stored and the vector search stands in for it.
pub fn recommend_response(response: Result<Vec<BatchResult>, String>) -> (page: Result<
    Vec<ScoredPoint>,
    SearchError,
>)
    ensures
        page matches Ok(points) && points@ == match response {
            Ok(results) => merged(flatten(results@)),
            Err(_) => Seq::empty(),
        },
{
    match response {
        Ok(results) => Ok(merge_results(results)),
        Err(_) => Ok(Vec::new()),
    }
}

/// The page of a vector search, from what the store answered: the merged
/// tiers, or the failure with the store's message.
pub fn search_response(response: Result<Vec<BatchResult>, String>) -> (page: Result<
    Vec<ScoredPoint>,
    SearchError,
>)
    ensures
        match response {
            Ok(results) => page matches Ok(points) && points@ == merged(flatten(results@)),
            Err(message) => page == Err::<Vec<ScoredPoint>, SearchError>(
                SearchError { status: FAILURE_STATUS, message },
            ),
        },
{
    match response {
        Ok(results) => Ok(merge_results(results)),
        Err(message) => Err(SearchError { status: FAILURE_STATUS, message }),
    }
}

/// The race between the strategies of one query: how many of them have not
/// answered yet.
#[derive(Debug, PartialEq, Eq)]
pub struct Race {
    pub pending: usize,
}

/// What to do after a strategy has answered.
#[derive(Debug, PartialEq, Eq)]
pub enum Step {
    /// Wait for the next strategy to answer.
    Wait(Race),
    /// Answer the query with this page.
    Respond(Vec<ScoredPoint>),
    /// Answer the query with this failure.
    Fail(SearchError),
}

/// One fewer strategy pending.
pub open spec fn after_answer(race: Race) -> Race {
    Race { pending: (race.pending - 1) as usize }
}

/// The step that follows an answer.
///
/// The first page that is not empty wins, whichever strategy it comes from.
/// An empty page and a failure both leave the decision to the strategies
/// that are still pending; from the last one, the empty page is the answer,
/// and the failure is shown to the client.
pub open spec fn next_step(race: Race, answer: Result<Vec<ScoredPoint>, SearchError>) -> Step {
    match answer {
        Ok(points) => if points@.len() > 0 || race.pending <= 1 {
            Step::Respond(points)
        } else {
            Step::Wait(after_answer(race))
        },
        Err(error) => if race.pending <= 1 {
            Step::Fail(error)
        } else {
            Step::Wait(after_answer(race))
        },
    }
}

impl Race {
    /// The race at its start, with every strategy pending.
    pub fn start(strategies: &Vec<SearchStrategy>) -> (race: Race)
        ensures
            race.pending == strategies@.len(),
    {
        Race { pending: strategies.len() }
    }

    /// Takes the answer of one strategy and decides how to go on.
    pub fn step(self, answer: Result<Vec<ScoredPoint>, SearchError>) -> (step: Step)
        ensures
            step == next_step(self, answer),
    {
        match answer {
            Ok(points) => {
                if points.len() > 0 || self.pending <= 1 {
                    Step::Respond(points)
                } else {
                    Step::Wait(Race { pending: self.pending - 1 })
                }
            },
            Err(error) => {
                if self.pending <= 1 {
                    Step::Fail(error)
                } else {
                    Step::Wait(Race { pending: self.pending - 1 })
                }
            },
        }
    }
}

/// An answer that brings no points: an empty page or a failure.
pub open spec fn is_empty_handed(answer: Result<Vec<ScoredPoint>, SearchError>) -> bool {
    match answer {
        Ok(points) => points@.len() == 0,
        Err(_) => true,
    }
}

/// The step that the race has come to after the answers, taken in the order
/// in which they arrived: the first step that is not to wait, if there is
/// one.
pub open spec fn outcome(race: Race, answers: Seq<Result<Vec<ScoredPoint>, SearchError>>) -> Step
    decreases answers.len(),
{
    if answers.len() == 0 {
        Step::Wait(race)
    } else {
        match next_step(race, answers[0]) {
            Step::Wait(next) => outcome(next, answers.drop_first()),
            decided => decided,
        }
    }
}

/// The first page that is not empty is the answer to the query, whatever
/// came before it: empty pages and failures of other strategies do not end
/// the race while a strategy is pending.
pub proof fn lemma_first_page_wins(
    race: Race,
    answers: Seq<Result<Vec<ScoredPoint>, SearchError>>,
    k: int,
)
    requires
        0 <= k < answers.len(),
        k < race.pending,
        forall|j: int| 0 <= j < k ==> is_empty_handed(#[trigger] answers[j]),
        answers[k] matches Ok(points) && points@.len() > 0,
    ensures
        outcome(race, answers) == Step::Respond(answers[k]->Ok_0),
    decreases k,
{
    if k > 0 {
        let rest = answers.drop_first();
        assert(is_empty_handed(answers[0]));
        assert forall|j: int| 0 <= j < k - 1 implies is_empty_handed(#[trigger] rest[j]) by {
            assert(rest[j] == answers[j + 1]);
        }
        assert(rest[k - 1] == answers[k]);
        lemma_first_page_wins(after_answer(race), rest, k - 1);
    }
}

/// When every strategy has answered and none has brought a point, the last
/// answer decides: an empty page is the answer to the query, a failure is
/// shown to the client.
pub proof fn lemma_last_answer_decides(
    race: Race,
    answers: Seq<Result<Vec<ScoredPoint>, SearchError>>,
)
    requires
        race.pending >= 1,
        answers.len() == race.pending,
        forall|j: int| 0 <= j < answers.len() ==> is_empty_handed(#[trigger] answers[j]),
    ensures
        outcome(race, answers) == match answers.last() {
            Ok(points) => Step::Respond(points),
            Err(error) => Step::Fail(error),
        },
    decreases answers.len(),
{
    assert(is_empty_handed(answers[0]));
    if race.pending > 1 {
        let rest = answers.drop_first();
        assert forall|j: int| 0 <= j < rest.len() implies is_empty_handed(#[trigger] rest[j]) by {
            assert(rest[j] == answers[j + 1]);
        }
        assert(rest.last() == answers.last());
        lemma_last_answer_decides(after_answer(race), rest);
    } else {
        assert(answers.last() == answers[0]);
    }
}

} // verus!
