//! Merging the result lists of a filter cascade into one page.

use crate::point::{Payload, PointId, ScoredPoint};
use vstd::prelude::*;

verus! {

/// The number of results on a page, and the most that one tier returns.
pub const SEARCH_LIMIT: u64 = 5;

/// The results of one tier of a batched query, best first.
#[derive(Debug, PartialEq, Eq)]
pub struct BatchResult {
    pub result: Vec<ScoredPoint>,
}

/// A point as the store sends it, where the identity may be missing.
#[derive(Debug, PartialEq, Eq)]
pub struct StoredPoint {
    pub id: Option<PointId>,
    pub payload: Payload,
    /// The score, a single-precision number held as its IEEE 754 bit pattern.
    pub score: u32,
}

/// The points that have an identity, in their order.
pub open spec fn identified(points: Seq<StoredPoint>) -> Seq<ScoredPoint>
    decreases points.len(),
{
    if points.len() == 0 {
        Seq::empty()
    } else {
        let before = identified(points.drop_last());
        let point = points.last();
        match point.id {
            Some(id) => before.push(ScoredPoint { id, payload: point.payload, score: point.score }),
            None => before,
        }
    }
}

impl BatchResult {
    /// The results of a tier from the points that the store sent for it.
    ///
    /// Results are merged by identity, so a point without one has no place
    /// among them and is left out; the others keep their order, payload and
    /// score.
    pub fn from_stored(points: Vec<StoredPoint>) -> (batch: BatchResult)
        ensures
            batch.result@ == identified(points@),
    {
        let ghost sent = points@;
        let mut result: Vec<ScoredPoint> = Vec::new();
        assert(sent.take(0) =~= Seq::<StoredPoint>::empty());
        for point in turn: points
            invariant
                turn.seq() == sent,
                result@ == identified(sent.take(turn.index() as int)),
        {
            proof {
                let next = sent.take(turn.index() + 1);
                assert(next.drop_last() =~= sent.take(turn.index() as int));
                assert(next.last() == point);
            }
            match point.id {
                Some(id) => {
                    result.push(ScoredPoint { id, payload: point.payload, score: point.score });
                },
                None => {},
            }
        }
        assert(sent.take(sent.len() as int) =~= sent);
        BatchResult { result }
    }
}

/// The canonical text of a point's identity.
pub open spec fn id_text(point: ScoredPoint) -> Seq<char> {
    point.id@.normalized()
}

/// All points of all tiers, in tier order and within a tier in the order
/// in which the tier lists them.
pub open spec fn flatten(tiers: Seq<BatchResult>) -> Seq<ScoredPoint>
    decreases tiers.len(),
{
    if tiers.len() == 0 {
        Seq::empty()
    } else {
        flatten(tiers.drop_last()) + tiers.last().result@
    }
}

/// Whether one of the points has the identity with this canonical text.
pub open spec fn has_id(points: Seq<ScoredPoint>, id: Seq<char>) -> bool {
    exists|i: int| 0 <= i < points.len() && id_text(#[trigger] points[i]) == id
}

/// The page after one more point was offered: the point is added at the end
/// if the page is not full and holds no point of the same identity.
pub open spec fn accept(page: Seq<ScoredPoint>, point: ScoredPoint) -> Seq<ScoredPoint> {
    if page.len() < SEARCH_LIMIT && !has_id(page, id_text(point)) {
        page.push(point)
    } else {
        page
    }
}

/// The page that results from offering the points one after the other.
pub open spec fn merged(points: Seq<ScoredPoint>) -> Seq<ScoredPoint>
    decreases points.len(),
{
    if points.len() == 0 {
        Seq::empty()
    } else {
        accept(merged(points.drop_last()), points.last())
    }
}

fn holds_id(page: &Vec<ScoredPoint>, id: &PointId) -> (found: bool)
    ensures
        found == has_id(page@, id@.normalized()),
{
    let mut i: usize = 0;
    while i < page.len()
        invariant
            i <= page.len(),
            forall|j: int| 0 <= j < i ==> id_text(#[trigger] page@[j]) != id@.normalized(),
        decreases page.len() - i,
    {
        if page[i].id.same_id(id) {
            return true;
        }
        i += 1;
    }
    false
}

/// Merges the result lists of the tiers of one cascade into a page.
///
/// The tiers are walked in order, and each tier's points in the order given.
/// A point is taken unless a point of the same identity was taken before or
/// the page is full. So a point that several tiers return appears once, at
/// the place of its first occurrence, and no later tier displaces a point
/// of an earlier one.
pub fn merge_results(results: Vec<BatchResult>) -> (page: Vec<ScoredPoint>)
    ensures
        page@ == merged(flatten(results@)),
        page@.len() <= SEARCH_LIMIT,
        forall|i: int, j: int|
            0 <= i < j < page@.len() ==> id_text(#[trigger] page@[i]) != id_text(
                #[trigger] page@[j],
            ),
        is_page_of(page@, flatten(results@)),
{
    let ghost tiers = results@;
    let mut page: Vec<ScoredPoint> = Vec::new();
    assert(tiers.take(0) =~= Seq::<BatchResult>::empty());
    for batch in outer: results
        invariant
            outer.seq() == tiers,
            page@ == merged(flatten(tiers.take(outer.index() as int))),
    {
        let ghost before = flatten(tiers.take(outer.index() as int));
        let ghost points = batch.result@;
        assert(before + points.take(0) =~= before);
        for point in inner: batch.result
            invariant
                inner.seq() == points,
                page@ == merged(before + points.take(inner.index() as int)),
        {
            let ghost offered = before + points.take(inner.index() as int);
            proof {
                let next = before + points.take(inner.index() + 1);
                assert(next.drop_last() =~= offered);
                assert(next.last() == point);
            }
            if page.len() < SEARCH_LIMIT as usize && !holds_id(&page, &point.id) {
                page.push(point);
            }
        }
        proof {
            let next = tiers.take(outer.index() + 1);
            assert(points.take(points.len() as int) =~= points);
            assert(next.drop_last() =~= tiers.take(outer.index() as int));
            assert(next.last() == batch);
        }
    }
    assert(tiers.take(tiers.len() as int) =~= tiers);
    proof {
        lemma_merged_is_page(flatten(tiers));
    }
    page
}

/// The position of the first of the points that has the identity `id`,
/// where one of them has it.
pub open spec fn first_index(points: Seq<ScoredPoint>, id: Seq<char>) -> int
    decreases points.len(),
{
    if points.len() == 0 {
        0
    } else if has_id(points.drop_last(), id) {
        first_index(points.drop_last(), id)
    } else {
        points.len() - 1
    }
}

/// The tier in which the point at position `index` of the flattened tiers
/// lies.
pub open spec fn tier_of(tiers: Seq<BatchResult>, index: int) -> int
    decreases tiers.len(),
{
    if tiers.len() == 0 {
        0
    } else if index >= flatten(tiers.drop_last()).len() {
        tiers.len() - 1
    } else {
        tier_of(tiers.drop_last(), index)
    }
}

/// The earliest tier that returned a point of the same identity as `point`.
pub open spec fn origin_tier(tiers: Seq<BatchResult>, point: ScoredPoint) -> int {
    tier_of(tiers, first_index(flatten(tiers), id_text(point)))
}

/// What makes `page` the page of `points`: it is not over the limit; each
/// of its points is the first of `points` with its identity; its points
/// stand in the order of those first occurrences; and a point of `points`
/// whose identity is missing from the page was left out only because the
/// page was full before its turn came.
pub open spec fn is_page_of(page: Seq<ScoredPoint>, points: Seq<ScoredPoint>) -> bool {
    &&& page.len() <= SEARCH_LIMIT
    &&& forall|i: int|
        0 <= i < page.len() ==> {
            let first = first_index(points, id_text(#[trigger] page[i]));
            0 <= first < points.len() && points[first] == page[i]
        }
    &&& forall|i: int, j: int|
        0 <= i < j < page.len() ==> first_index(points, id_text(#[trigger] page[i]))
            < first_index(points, id_text(#[trigger] page[j]))
    &&& forall|m: int|
        0 <= m < points.len() ==> has_id(page, id_text(#[trigger] points[m])) || (page.len()
            == SEARCH_LIMIT && forall|i: int|
            0 <= i < page.len() ==> first_index(points, id_text(#[trigger] page[i])) < m)
}

/// Where an identity occurs among the points, `first_index` is the position
/// of its first occurrence.
pub proof fn lemma_first_index(points: Seq<ScoredPoint>, id: Seq<char>)
    requires
        has_id(points, id),
    ensures
        0 <= first_index(points, id) < points.len(),
        id_text(points[first_index(points, id)]) == id,
        forall|j: int| 0 <= j < first_index(points, id) ==> id_text(#[trigger] points[j]) != id,
    decreases points.len(),
{
    let before = points.drop_last();
    if has_id(before, id) {
        lemma_first_index(before, id);
        assert forall|j: int| 0 <= j < first_index(points, id) implies id_text(
            #[trigger] points[j],
        ) != id by {
            assert(before[j] == points[j]);
        }
    } else {
        let i = choose|i: int| 0 <= i < points.len() && id_text(#[trigger] points[i]) == id;
        if i < points.len() - 1 {
            assert(before[i] == points[i]);
        }
        assert forall|j: int| 0 <= j < points.len() - 1 implies id_text(#[trigger] points[j])
            != id by {
            assert(before[j] == points[j]);
        }
    }
}

/// The page that `merged` gives is the page of the points in the sense of
/// `is_page_of`.
pub proof fn lemma_merged_is_page(points: Seq<ScoredPoint>)
    ensures
        is_page_of(merged(points), points),
    decreases points.len(),
{
    if points.len() > 0 {
        let before = points.drop_last();
        let last = points.last();
        let old_page = merged(before);
        let page = merged(points);
        lemma_merged_is_page(before);
        // a point of the old page keeps the place of its first occurrence
        assert forall|i: int| 0 <= i < old_page.len() implies first_index(
            points,
            id_text(#[trigger] old_page[i]),
        ) == first_index(before, id_text(old_page[i])) by {
            let first = first_index(before, id_text(old_page[i]));
            assert(before[first] == old_page[i]);
        }
        assert forall|i: int| 0 <= i < old_page.len() implies before[first_index(
            before,
            id_text(#[trigger] old_page[i]),
        )] == points[first_index(before, id_text(old_page[i]))] by {}
        if old_page.len() < SEARCH_LIMIT && !has_id(old_page, id_text(last)) {
            assert(page == old_page.push(last));
            // no earlier point has the identity of the last one
            if has_id(before, id_text(last)) {
                let m = choose|m: int|
                    0 <= m < before.len() && id_text(#[trigger] before[m]) == id_text(last);
                assert(has_id(old_page, id_text(before[m])));
            }
            assert(first_index(points, id_text(last)) == points.len() - 1);
            assert forall|i: int| 0 <= i < page.len() implies {
                let first = first_index(points, id_text(#[trigger] page[i]));
                0 <= first < points.len() && points[first] == page[i]
            } by {
                if i < old_page.len() {
                    assert(page[i] == old_page[i]);
                }
            }
            assert forall|i: int, j: int| 0 <= i < j < page.len() implies first_index(
                points,
                id_text(#[trigger] page[i]),
            ) < first_index(points, id_text(#[trigger] page[j])) by {
                assert(page[i] == old_page[i]);
                if j < old_page.len() {
                    assert(page[j] == old_page[j]);
                }
            }
            assert forall|m: int| 0 <= m < points.len() implies has_id(
                page,
                id_text(#[trigger] points[m]),
            ) by {
                if m < before.len() {
                    assert(before[m] == points[m]);
                    assert(has_id(old_page, id_text(before[m])));
                    let i = choose|i: int|
                        0 <= i < old_page.len() && id_text(#[trigger] old_page[i]) == id_text(
                            before[m],
                        );
                    assert(page[i] == old_page[i]);
                } else {
                    assert(page[page.len() - 1] == last);
                }
            }
        } else {
            assert(page == old_page);
            assert forall|m: int| 0 <= m < points.len() implies has_id(
                page,
                id_text(#[trigger] points[m]),
            ) || (page.len() == SEARCH_LIMIT && forall|i: int|
                0 <= i < page.len() ==> first_index(points, id_text(#[trigger] page[i])) < m) by {
                if m < before.len() {
                    assert(before[m] == points[m]);
                }
            }
        }
    }
}

/// A page never holds more than `SEARCH_LIMIT` points, nor two points of
/// the same identity.
pub proof fn lemma_page_bounded_distinct(points: Seq<ScoredPoint>)
    ensures
        merged(points).len() <= SEARCH_LIMIT,
        forall|i: int, j: int|
            0 <= i < j < merged(points).len() ==> id_text(#[trigger] merged(points)[i]) != id_text(
                #[trigger] merged(points)[j],
            ),
{
    lemma_merged_is_page(points);
}

/// The number of points in the tiers before tier `k`.
pub open spec fn offset(tiers: Seq<BatchResult>, k: int) -> int {
    flatten(tiers.take(k)).len() as int
}

// The point `n` of tier `k` stands at position `offset(tiers, k) + n` of
// the flattened tiers.
proof fn lemma_flat_at(tiers: Seq<BatchResult>, k: int, n: int)
    requires
        0 <= k < tiers.len(),
        0 <= n < tiers[k].result@.len(),
    ensures
        0 <= offset(tiers, k) + n < flatten(tiers).len(),
        flatten(tiers)[offset(tiers, k) + n] == tiers[k].result@[n],
        tier_of(tiers, offset(tiers, k) + n) == k,
    decreases tiers.len(),
{
    let before = tiers.drop_last();
    if k == tiers.len() - 1 {
        assert(tiers.take(k) =~= before);
    } else {
        lemma_flat_at(before, k, n);
        assert(tiers.take(k) =~= before.take(k));
        assert(before[k] == tiers[k]);
    }
}

// A later position of the flattened tiers lies in no earlier tier.
proof fn lemma_tier_of_monotonic(tiers: Seq<BatchResult>, low: int, high: int)
    requires
        0 <= low <= high,
    ensures
        0 <= tier_of(tiers, low) <= tier_of(tiers, high),
        tiers.len() > 0 ==> tier_of(tiers, high) < tiers.len(),
    decreases tiers.len(),
{
    if tiers.len() > 0 {
        lemma_tier_of_monotonic(tiers.drop_last(), low, high);
    }
}

/// Tier priority. On the page that `merge_results` gives for the tiers:
/// - the points stand in the order of the tiers they come from;
/// - a point comes from the earliest tier that returned its identity;
/// - if a tier returned a point whose identity is not on the page, the page
///   is full and holds no point from a later tier.
pub proof fn lemma_tier_priority(tiers: Seq<BatchResult>)
    ensures
        forall|i: int, j: int|
            0 <= i < j < merged(flatten(tiers)).len() ==> origin_tier(
                tiers,
                #[trigger] merged(flatten(tiers))[i],
            ) <= origin_tier(tiers, #[trigger] merged(flatten(tiers))[j]),
        forall|i: int, k: int|
            0 <= i < merged(flatten(tiers)).len() && 0 <= k < origin_tier(
                tiers,
                #[trigger] merged(flatten(tiers))[i],
            ) ==> !has_id((#[trigger] tiers[k]).result@, id_text(merged(flatten(tiers))[i])),
        forall|k: int, n: int, i: int|
            0 <= k < tiers.len() && 0 <= n < tiers[k].result@.len() && !has_id(
                merged(flatten(tiers)),
                id_text(#[trigger] tiers[k].result@[n]),
            ) && 0 <= i < merged(flatten(tiers)).len() ==> merged(flatten(tiers)).len()
                == SEARCH_LIMIT && origin_tier(tiers, #[trigger] merged(flatten(tiers))[i]) <= k,
{
    let flat = flatten(tiers);
    let page = merged(flat);
    lemma_merged_is_page(flat);
    assert forall|i: int, j: int| 0 <= i < j < page.len() implies origin_tier(
        tiers,
        #[trigger] page[i],
    ) <= origin_tier(tiers, #[trigger] page[j]) by {
        lemma_tier_of_monotonic(
            tiers,
            first_index(flat, id_text(page[i])),
            first_index(flat, id_text(page[j])),
        );
    }
    assert forall|i: int, k: int|
        0 <= i < page.len() && 0 <= k < origin_tier(tiers, #[trigger] page[i]) implies !has_id(
        (#[trigger] tiers[k]).result@,
        id_text(page[i]),
    ) by {
        let id = id_text(page[i]);
        let first = first_index(flat, id);
        lemma_tier_of_monotonic(tiers, first, first);
        if has_id(tiers[k].result@, id) {
            let n = choose|n: int|
                0 <= n < tiers[k].result@.len() && id_text(#[trigger] tiers[k].result@[n]) == id;
            lemma_flat_at(tiers, k, n);
            let at = offset(tiers, k) + n;
            assert(id_text(flat[at]) == id);
            assert(has_id(flat, id));
            lemma_first_index(flat, id);
            lemma_tier_of_monotonic(tiers, first, at);
        }
    }
    assert forall|k: int, n: int, i: int|
        0 <= k < tiers.len() && 0 <= n < tiers[k].result@.len() && !has_id(
            page,
            id_text(#[trigger] tiers[k].result@[n]),
        ) && 0 <= i < page.len() implies page.len() == SEARCH_LIMIT && origin_tier(
        tiers,
        #[trigger] page[i],
    ) <= k by {
        lemma_flat_at(tiers, k, n);
        let at = offset(tiers, k) + n;
        assert(flat[at] == tiers[k].result@[n]);
        lemma_tier_of_monotonic(tiers, first_index(flat, id_text(page[i])), at);
    }
}

} // verus!
