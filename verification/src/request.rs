//! The batched requests that carry a cascade to the vector store.

use crate::filter::{cascade, create_filters, optional_view, Condition, Filter, FilterView};
use crate::merge::SEARCH_LIMIT;
use crate::point::{PointId, PointIdView};
use crate::prefix::{anchor_id, prefix_to_id};
use vstd::prelude::*;

verus! {

/// Name of the collection that holds the content of the site.
pub const COLLECTION_NAME: &'static str = "site";

/// Name of the collection that holds the vectors of the indexed prefixes.
pub const PREFIX_COLLECTION_NAME: &'static str = "prefix-cache";

/// The collection in which the anchor of a recommendation is looked up.
#[derive(Debug, PartialEq, Eq)]
pub struct LookupLocation {
    pub collection_name: String,
}

/// One tier of a recommendation: the neighbours of the anchor point that
/// pass the filter.
#[derive(Debug, PartialEq, Eq)]
pub struct RecommendPoints {
    pub collection_name: String,
    pub positive: Vec<PointId>,
    pub filter: Option<Filter>,
    pub limit: u64,
    pub with_payload: bool,
    pub lookup_from: Option<LookupLocation>,
}

/// One tier of a vector search: the neighbours of the query vector that pass
/// the filter. The vector itself is supplied by whoever sends the request.
#[derive(Debug, PartialEq, Eq)]
pub struct SearchPoints {
    pub collection_name: String,
    pub filter: Option<Filter>,
    pub limit: u64,
    pub with_payload: bool,
}

/// All tiers of a recommendation, sent as one call.
#[derive(Debug, PartialEq, Eq)]
pub struct RecommendBatchPoints {
    pub collection_name: String,
    pub recommend_points: Vec<RecommendPoints>,
}

/// All tiers of a vector search, sent as one call.
#[derive(Debug, PartialEq, Eq)]
pub struct SearchBatchPoints {
    pub collection_name: String,
    pub search_points: Vec<SearchPoints>,
}

/// The value of an optional filter.
pub open spec fn filter_view(filter: Option<Filter>) -> Option<FilterView> {
    match filter {
        Some(filter) => Some(filter@),
        None => None,
    }
}

/// What the recommendation request of a query for one tier holds: the
/// content collection, the query's anchor as the only positive example,
/// the tier's filter, the page size as limit, payloads asked for, and the
/// prefix collection as the place to look the anchor up.
pub open spec fn is_recommend_request(
    request: RecommendPoints,
    query: Seq<char>,
    filter: FilterView,
) -> bool {
    &&& request.collection_name@ == COLLECTION_NAME@
    &&& request.positive@.len() == 1
    &&& request.positive@[0]@ == PointIdView::Num(anchor_id(query) as u64)
    &&& anchor_id(query) <= u64::MAX
    &&& filter_view(request.filter) == Some(filter)
    &&& request.limit == SEARCH_LIMIT
    &&& request.with_payload
    &&& request.lookup_from matches Some(location) && location.collection_name@
        == PREFIX_COLLECTION_NAME@
}

/// What the search request for one tier holds: the content collection, the
/// tier's filter, the page size as limit, and payloads asked for.
pub open spec fn is_search_request(request: SearchPoints, filter: FilterView) -> bool {
    &&& request.collection_name@ == COLLECTION_NAME@
    &&& filter_view(request.filter) == Some(filter)
    &&& request.limit == SEARCH_LIMIT
    &&& request.with_payload
}

/// The recommendation request of a query for one tier of its cascade.
pub fn get_recommend_request(query: &str, filter: Filter) -> (request: RecommendPoints)
    ensures
        is_recommend_request(request, query@, filter@),
        request.filter == Some(filter),
{
    let mut positive: Vec<PointId> = Vec::new();
    positive.push(prefix_to_id(query));
    RecommendPoints {
        collection_name: String::from_str(COLLECTION_NAME),
        positive,
        filter: Some(filter),
        limit: SEARCH_LIMIT,
        with_payload: true,
        lookup_from: Some(
            LookupLocation { collection_name: String::from_str(PREFIX_COLLECTION_NAME) },
        ),
    }
}

/// The search request for one tier of a cascade.
pub fn get_search_request(filter: Filter) -> (request: SearchPoints)
    ensures
        is_search_request(request, filter@),
        request.filter == Some(filter),
{
    SearchPoints {
        collection_name: String::from_str(COLLECTION_NAME),
        filter: Some(filter),
        limit: SEARCH_LIMIT,
        with_payload: true,
    }
}

/// The batched recommendation for a query: one request for each tier of its
/// cascade, in the order of the tiers.
pub fn recommend_batch(query: &str, section: Option<Condition>) -> (batch: RecommendBatchPoints)
    ensures
        batch.collection_name@ == COLLECTION_NAME@,
        batch.recommend_points@.len() == 4,
        forall|i: int|
            0 <= i < 4 ==> is_recommend_request(
                #[trigger] batch.recommend_points@[i],
                query@,
                cascade(query@, optional_view(section))[i],
            ),
{
    let tiers = create_filters(query, section);
    let mut recommend_points: Vec<RecommendPoints> = Vec::new();
    recommend_points.push(get_recommend_request(query, tiers[0].clone()));
    recommend_points.push(get_recommend_request(query, tiers[1].clone()));
    recommend_points.push(get_recommend_request(query, tiers[2].clone()));
    recommend_points.push(get_recommend_request(query, tiers[3].clone()));
    RecommendBatchPoints { collection_name: String::from_str(COLLECTION_NAME), recommend_points }
}

/// The batched vector search for a query: one request for each tier of its
/// cascade, in the order of the tiers.
pub fn search_batch(query: &str, section: Option<Condition>) -> (batch: SearchBatchPoints)
    ensures
        batch.collection_name@ == COLLECTION_NAME@,
        batch.search_points@.len() == 4,
        forall|i: int|
            0 <= i < 4 ==> is_search_request(
                #[trigger] batch.search_points@[i],
                cascade(query@, optional_view(section))[i],
            ),
{
    let tiers = create_filters(query, section);
    let mut search_points: Vec<SearchPoints> = Vec::new();
    search_points.push(get_search_request(tiers[0].clone()));
    search_points.push(get_search_request(tiers[1].clone()));
    search_points.push(get_search_request(tiers[2].clone()));
    search_points.push(get_search_request(tiers[3].clone()));
    SearchBatchPoints { collection_name: String::from_str(COLLECTION_NAME), search_points }
}

} // verus!
