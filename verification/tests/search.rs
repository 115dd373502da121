use site_search::merge::BatchResult;
use site_search::point::{Payload, PointId, ScoredPoint};
use site_search::search::{
    recommend_response, search_response, select_strategies, Race, SearchError, SearchStrategy,
    Step,
};

fn point(id: u64) -> ScoredPoint {
    ScoredPoint { id: PointId::Num(id), payload: Payload { fields: vec![] }, score: 0 }
}

#[test]
fn short_query_is_also_tried_as_a_prefix() {
    let both = vec![SearchStrategy::Recommend, SearchStrategy::VectorSearch];
    assert_eq!(select_strategies(""), both);
    assert_eq!(select_strategies("c"), both);
    assert_eq!(select_strategies("ca"), both);
    assert_eq!(select_strategies("cats"), both);
}

#[test]
fn query_of_five_characters_or_more_is_searched_by_vector_only() {
    assert_eq!(select_strategies("catal"), vec![SearchStrategy::VectorSearch]);
    assert_eq!(select_strategies("vector search"), vec![SearchStrategy::VectorSearch]);
}

#[test]
fn query_length_is_counted_in_characters() {
    // four characters in eight bytes
    assert_eq!(
        select_strategies("éééé"),
        vec![SearchStrategy::Recommend, SearchStrategy::VectorSearch]
    );
    assert_eq!(select_strategies("ééééé"), vec![SearchStrategy::VectorSearch]);
}

#[test]
fn recommend_failure_counts_as_an_empty_page() {
    assert_eq!(recommend_response(Err("not found".to_string())), Ok(vec![]));
}

#[test]
fn recommend_answer_is_merged() {
    let answer = vec![
        BatchResult { result: vec![point(1)] },
        BatchResult { result: vec![point(1), point(2)] },
        BatchResult { result: vec![] },
        BatchResult { result: vec![point(3)] },
    ];
    assert_eq!(recommend_response(Ok(answer)), Ok(vec![point(1), point(2), point(3)]));
}

#[test]
fn search_failure_is_passed_on_with_its_message() {
    assert_eq!(
        search_response(Err("connection refused".to_string())),
        Err(SearchError { status: 500, message: "connection refused".to_string() })
    );
}

#[test]
fn search_answer_is_merged() {
    let answer = vec![
        BatchResult { result: vec![point(5), point(6)] },
        BatchResult { result: vec![point(6), point(7)] },
    ];
    assert_eq!(search_response(Ok(answer)), Ok(vec![point(5), point(6), point(7)]));
}

#[test]
fn race_starts_with_every_strategy_pending() {
    assert_eq!(Race::start(&select_strategies("ca")), Race { pending: 2 });
    assert_eq!(Race::start(&select_strategies("catalogue")), Race { pending: 1 });
}

#[test]
fn first_page_that_is_not_empty_wins() {
    let race = Race::start(&select_strategies("ca"));
    assert_eq!(race.step(Ok(vec![point(1)])), Step::Respond(vec![point(1)]));
}

#[test]
fn empty_recommendation_leaves_the_answer_to_the_vector_search() {
    let race = Race::start(&select_strategies("ca"));
    let recommendation = recommend_response(Err("no such point".to_string()));
    let race = match race.step(recommendation) {
        Step::Wait(race) => race,
        other => panic!("expected to wait, got {:?}", other),
    };
    assert_eq!(race, Race { pending: 1 });
    let search = search_response(Ok(vec![BatchResult { result: vec![point(8), point(9)] }]));
    assert_eq!(race.step(search), Step::Respond(vec![point(8), point(9)]));
}

#[test]
fn two_empty_pages_give_an_empty_answer() {
    let race = Race { pending: 2 };
    let race = match race.step(Ok(vec![])) {
        Step::Wait(race) => race,
        other => panic!("expected to wait, got {:?}", other),
    };
    assert_eq!(race.step(Ok(vec![])), Step::Respond(vec![]));
}

#[test]
fn failure_of_the_only_strategy_is_shown() {
    let race = Race::start(&select_strategies("catalogue"));
    let failure = SearchError { status: 500, message: "timeout".to_string() };
    assert_eq!(
        race.step(Err(SearchError { status: 500, message: "timeout".to_string() })),
        Step::Fail(failure)
    );
}

#[test]
fn failure_of_the_last_strategy_is_shown() {
    let race = Race { pending: 2 };
    let race = match race.step(Ok(vec![])) {
        Step::Wait(race) => race,
        other => panic!("expected to wait, got {:?}", other),
    };
    assert_eq!(
        race.step(Err(SearchError { status: 500, message: "down".to_string() })),
        Step::Fail(SearchError { status: 500, message: "down".to_string() })
    );
}

#[test]
fn failure_while_another_strategy_is_pending_is_not_shown() {
    let race = Race { pending: 2 };
    let race = match race.step(Err(SearchError { status: 500, message: "down".to_string() })) {
        Step::Wait(race) => race,
        other => panic!("expected to wait, got {:?}", other),
    };
    assert_eq!(race.step(Ok(vec![point(3)])), Step::Respond(vec![point(3)]));
    let race = Race { pending: 2 };
    let race = match race.step(Err(SearchError { status: 500, message: "down".to_string() })) {
        Step::Wait(race) => race,
        other => panic!("expected to wait, got {:?}", other),
    };
    assert_eq!(race.step(Ok(vec![])), Step::Respond(vec![]));
}
