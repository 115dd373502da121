use site_search::merge::{merge_results, BatchResult, StoredPoint, SEARCH_LIMIT};
use site_search::point::{Field, Payload, PointId, ScoredPoint, Value};

fn point(id: u64, text: &str) -> ScoredPoint {
    ScoredPoint {
        id: PointId::Num(id),
        payload: Payload {
            fields: vec![Field { name: "text".to_string(), value: Value::Text(text.to_string()) }],
        },
        score: 0,
    }
}

fn uuid_point(id: &str) -> ScoredPoint {
    ScoredPoint { id: PointId::Uuid(id.to_string()), payload: Payload { fields: vec![] }, score: 0 }
}

fn ids(page: &[ScoredPoint]) -> Vec<PointId> {
    page.iter().map(|p| p.id.clone()).collect()
}

fn nums(values: &[u64]) -> Vec<PointId> {
    values.iter().map(|n| PointId::Num(*n)).collect()
}

#[test]
fn no_tiers_give_an_empty_page() {
    assert_eq!(merge_results(vec![]), vec![]);
    assert_eq!(
        merge_results(vec![BatchResult { result: vec![] }, BatchResult { result: vec![] }]),
        vec![]
    );
}

#[test]
fn tiers_are_joined_in_order() {
    let page = merge_results(vec![
        BatchResult { result: vec![point(1, "a"), point(2, "b")] },
        BatchResult { result: vec![] },
        BatchResult { result: vec![point(3, "c")] },
        BatchResult { result: vec![point(4, "d")] },
    ]);
    assert_eq!(page, vec![point(1, "a"), point(2, "b"), point(3, "c"), point(4, "d")]);
}

#[test]
fn page_holds_at_most_the_limit() {
    let page = merge_results(vec![
        BatchResult { result: vec![point(1, ""), point(2, ""), point(3, "")] },
        BatchResult { result: vec![point(4, ""), point(5, ""), point(6, "")] },
        BatchResult { result: vec![point(7, "")] },
    ]);
    assert_eq!(page.len(), SEARCH_LIMIT as usize);
    assert_eq!(ids(&page), nums(&[1, 2, 3, 4, 5]));
}

#[test]
fn point_of_two_tiers_appears_once_in_the_earlier_tier() {
    let page = merge_results(vec![
        BatchResult { result: vec![point(42, "from the first tier")] },
        BatchResult { result: vec![point(7, "other"), point(42, "from the second tier")] },
    ]);
    assert_eq!(page, vec![point(42, "from the first tier"), point(7, "other")]);
}

#[test]
fn duplicate_within_a_tier_is_dropped() {
    let page = merge_results(vec![BatchResult {
        result: vec![point(1, "first"), point(1, "second"), point(2, "third")],
    }]);
    assert_eq!(page, vec![point(1, "first"), point(2, "third")]);
}

#[test]
fn duplicates_do_not_use_up_the_page() {
    let page = merge_results(vec![
        BatchResult { result: vec![point(1, ""), point(2, ""), point(3, "")] },
        BatchResult { result: vec![point(1, ""), point(2, ""), point(3, ""), point(4, "")] },
        BatchResult { result: vec![point(2, ""), point(5, ""), point(6, "")] },
    ]);
    assert_eq!(ids(&page), nums(&[1, 2, 3, 4, 5]));
}

#[test]
fn later_tier_never_displaces_an_earlier_one() {
    let page = merge_results(vec![
        BatchResult { result: vec![point(10, ""), point(11, "")] },
        BatchResult { result: vec![point(20, ""), point(21, ""), point(22, ""), point(23, "")] },
        BatchResult { result: vec![point(30, "")] },
    ]);
    assert_eq!(ids(&page), nums(&[10, 11, 20, 21, 22]));
}

#[test]
fn number_and_uuid_of_the_same_digits_are_different_points() {
    let page = merge_results(vec![
        BatchResult { result: vec![point(42, "")] },
        BatchResult { result: vec![uuid_point("42"), uuid_point("42")] },
    ]);
    assert_eq!(ids(&page), vec![PointId::Num(42), PointId::Uuid("42".to_string())]);
}

#[test]
fn uuid_points_are_merged_by_their_text() {
    let a = "550e8400-e29b-41d4-a716-446655440000";
    let b = "6ba7b810-9dad-11d1-80b4-00c04fd430c8";
    let page = merge_results(vec![
        BatchResult { result: vec![uuid_point(a)] },
        BatchResult { result: vec![uuid_point(b), uuid_point(a)] },
    ]);
    assert_eq!(ids(&page), vec![PointId::Uuid(a.to_string()), PointId::Uuid(b.to_string())]);
}

fn stored(id: Option<u64>, text: &str) -> StoredPoint {
    StoredPoint {
        id: id.map(PointId::Num),
        payload: Payload {
            fields: vec![Field { name: "text".to_string(), value: Value::Text(text.to_string()) }],
        },
        score: 0,
    }
}

#[test]
fn stored_points_with_identity_become_the_results_of_a_tier() {
    let batch = BatchResult::from_stored(vec![stored(Some(3), "c"), stored(Some(1), "a")]);
    assert_eq!(batch, BatchResult { result: vec![point(3, "c"), point(1, "a")] });
    assert_eq!(BatchResult::from_stored(vec![]), BatchResult { result: vec![] });
}

#[test]
fn stored_point_without_identity_is_left_out() {
    let batch = BatchResult::from_stored(vec![
        stored(None, "nameless"),
        stored(Some(2), "b"),
        stored(None, "nameless too"),
        stored(Some(2), "b again"),
    ]);
    assert_eq!(batch, BatchResult { result: vec![point(2, "b"), point(2, "b again")] });
    assert_eq!(
        BatchResult::from_stored(vec![stored(None, "x")]),
        BatchResult { result: vec![] }
    );
}
