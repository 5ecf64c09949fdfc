//! Fuzzy-search ranking. The store reports, for every document, the distance between
//! the query and each of its three text fields; this module keeps the documents with a
//! close enough field, ranks each by its closest such field and orders the hits.
use vstd::prelude::*;
use crate::records::{CalendarDate, SearchResult};

verus! {

broadcast use vstd::seq_lib::group_to_multiset_ensures;

/// Distances are held in millionths: `DISTANCE_SCALE` stands for a distance of 1.
pub const DISTANCE_SCALE: u32 = 1_000_000;

/// The largest tolerated dissimilarity, 0.6, in millionths (strictly below it matches).
pub const DEFAULT_THRESHOLD: u32 = 600_000;

/// A stored document with the query's distance to each of its text fields.
#[derive(Clone, Debug)]
pub struct Candidate {
    pub id: i32,
    pub title: String,
    pub upload_date: CalendarDate,
    pub content_distance: u32,
    pub summary_distance: u32,
    pub buzzwords_distance: u32,
}

/// A field matches when its distance is below the threshold, or is exactly zero.
pub open spec fn field_matches(distance: u32, threshold: u32) -> bool {
    distance < threshold || distance == 0
}

/// The smallest of `best` and `distance`, where `distance` counts only if it matches.
pub open spec fn closer(best: Option<u32>, distance: u32, threshold: u32) -> Option<u32> {
    if !field_matches(distance, threshold) {
        best
    } else {
        match best {
            None => Some(distance),
            Some(b) => Some(if distance < b { distance } else { b }),
        }
    }
}

/// The smallest distance among the matching fields of `c`; `None` if none matches.
pub open spec fn best_distance(c: Candidate, threshold: u32) -> Option<u32> {
    closer(
        closer(closer(None, c.content_distance, threshold), c.summary_distance, threshold),
        c.buzzwords_distance,
        threshold,
    )
}

/// The hit that `c` gives at rank `rank`.
pub open spec fn hit(c: Candidate, rank: u32) -> SearchResult {
    SearchResult { _id: c.id, title: c.title, upload_date: c.upload_date, rank }
}

/// The hits of `cands`, one for each candidate with a matching field, in input order.
pub open spec fn hits(cands: Seq<Candidate>, threshold: u32) -> Seq<SearchResult>
    decreases cands.len(),
{
    if cands.len() == 0 {
        Seq::empty()
    } else {
        let rest = hits(cands.drop_last(), threshold);
        match best_distance(cands.last(), threshold) {
            Some(d) => rest.push(hit(cands.last(), d)),
            None => rest,
        }
    }
}

pub open spec fn sorted_by_rank(r: Seq<SearchResult>) -> bool {
    forall|i: int, j: int| 0 <= i < j < r.len() ==> r[i].rank <= r[j].rank
}

pub open spec fn distinct_candidate_ids(cands: Seq<Candidate>) -> bool {
    forall|i: int, j: int| 0 <= i < j < cands.len() ==> cands[i].id != cands[j].id
}

pub open spec fn distinct_result_ids(r: Seq<SearchResult>) -> bool {
    forall|i: int, j: int| 0 <= i < j < r.len() ==> r[i]._id != r[j]._id
}

/// The ids of the candidates in `cands`.
pub open spec fn candidate_ids(cands: Seq<Candidate>) -> Set<i32>
    decreases cands.len(),
{
    if cands.len() == 0 {
        Set::empty()
    } else {
        candidate_ids(cands.drop_last()).insert(cands.last().id)
    }
}

proof fn lemma_candidate_ids(cands: Seq<Candidate>, id: i32)
    ensures
        candidate_ids(cands).contains(id) <==> exists|j: int|
            0 <= j < cands.len() && #[trigger] cands[j].id == id,
    decreases cands.len(),
{
    if cands.len() > 0 {
        let d = cands.drop_last();
        lemma_candidate_ids(d, id);
        if candidate_ids(d).contains(id) {
            let j = choose|j: int| 0 <= j < d.len() && #[trigger] d[j].id == id;
            assert(cands[j].id == id);
        }
        if exists|j: int| 0 <= j < cands.len() && #[trigger] cands[j].id == id {
            let j = choose|j: int| 0 <= j < cands.len() && #[trigger] cands[j].id == id;
            if j < d.len() {
                assert(d[j].id == id);
            }
        }
    }
}

/// The distance of the closest matching field of `c`, if any field matches.
pub fn best_field_distance(c: &Candidate, threshold: u32) -> (r: Option<u32>)
    ensures
        r == best_distance(*c, threshold),
{
    let mut best: Option<u32> = None;
    let fields = [c.content_distance, c.summary_distance, c.buzzwords_distance];
    let mut k: usize = 0;
    while k < 3
        invariant
            k <= 3,
            fields@ == seq![c.content_distance, c.summary_distance, c.buzzwords_distance],
            k == 0 ==> best == None::<u32>,
            k == 1 ==> best == closer(None, c.content_distance, threshold),
            k == 2 ==> best == closer(
                closer(None, c.content_distance, threshold),
                c.summary_distance,
                threshold,
            ),
            k == 3 ==> best == best_distance(*c, threshold),
        decreases 3 - k,
    {
        let d = fields[k];
        if d < threshold || d == 0 {
            best = match best {
                None => Some(d),
                Some(b) => Some(if d < b { d } else { b }),
            };
        }
        k = k + 1;
    }
    best
}

/// Ranks the candidates of a query: each candidate with a matching field appears once,
/// ranked by its closest matching field, and the hits come closest first.
pub fn search(cands: &Vec<Candidate>, threshold: u32) -> (r: Vec<SearchResult>)
    ensures
        sorted_by_rank(r@),
        r@.to_multiset() == hits(cands@, threshold).to_multiset(),
        distinct_candidate_ids(cands@) ==> distinct_result_ids(r@),
{
    let mut out: Vec<SearchResult> = Vec::new();
    let mut k: usize = 0;
    while k < cands.len()
        invariant
            k <= cands.len(),
            sorted_by_rank(out@),
            out@.to_multiset() == hits(cands@.take(k as int), threshold).to_multiset(),
            forall|i: int|
                0 <= i < out.len() ==> candidate_ids(cands@.take(k as int)).contains(
                    #[trigger] out@[i]._id,
                ),
            distinct_candidate_ids(cands@) ==> distinct_result_ids(out@),
        decreases cands.len() - k,
    {
        let c = &cands[k];
        let ghost prefix = cands@.take(k as int);
        assert(cands@.take(k + 1).drop_last() =~= prefix);
        match best_field_distance(c, threshold) {
            None => {},
            Some(d) => {
                let mut p: usize = 0;
                while p < out.len() && out[p].rank <= d
                    invariant
                        p <= out.len(),
                        forall|i: int| 0 <= i < p ==> #[trigger] out@[i].rank <= d,
                    decreases out.len() - p,
                {
                    p = p + 1;
                }
                let h = SearchResult {
                    _id: c.id,
                    title: c.title.clone(),
                    upload_date: c.upload_date,
                    rank: d,
                };
                assert(h == hit(*c, d));
                let ghost before = out@;
                proof {
                    before.insert_ensures(p as int, h);
                    if distinct_candidate_ids(cands@) {
                        lemma_candidate_ids(prefix, c.id);
                        assert(!candidate_ids(prefix).contains(c.id)) by {
                            if candidate_ids(prefix).contains(c.id) {
                                let j = choose|j: int|
                                    0 <= j < prefix.len() && #[trigger] prefix[j].id == c.id;
                                assert(cands@[j].id == cands@[k as int].id);
                            }
                        }
                    }
                }
                out.insert(p, h);
                assert forall|i: int, j: int| 0 <= i < j < out.len() implies out@[i].rank
                    <= out@[j].rank by {
                    if j < p {
                    } else if j == p {
                    } else if i < p {
                    } else if i == p {
                        assert(out@[j] == before[j - 1]);
                        if p < before.len() {
                            assert(before[p as int].rank > d);
                        }
                    } else {
                    }
                }
            },
        }
        assert forall|i: int| 0 <= i < out.len() implies candidate_ids(
            cands@.take(k + 1),
        ).contains(#[trigger] out@[i]._id) by {}
        k = k + 1;
    }
    assert(cands@.take(cands.len() as int) =~= cands@);
    out
}

/// A document's rank is the smallest distance among its matching fields, and it has
/// no rank when no field matches.
pub proof fn lemma_best_distance_is_minimum(c: Candidate, threshold: u32)
    ensures
        best_distance(c, threshold) is None <==> !field_matches(c.content_distance, threshold)
            && !field_matches(c.summary_distance, threshold) && !field_matches(
            c.buzzwords_distance,
            threshold,
        ),
        best_distance(c, threshold) matches Some(m) ==> {
            &&& field_matches(m, threshold)
            &&& m == c.content_distance || m == c.summary_distance || m == c.buzzwords_distance
            &&& field_matches(c.content_distance, threshold) ==> m <= c.content_distance
            &&& field_matches(c.summary_distance, threshold) ==> m <= c.summary_distance
            &&& field_matches(c.buzzwords_distance, threshold) ==> m <= c.buzzwords_distance
        },
{
}

/// The threshold is strict: a field exactly at a nonzero threshold does not match,
/// while a field at distance zero matches under every threshold and ranks its
/// document at zero.
pub proof fn lemma_threshold_boundary(c: Candidate, threshold: u32)
    ensures
        threshold > 0 ==> !field_matches(threshold, threshold),
        field_matches(0, threshold),
        c.content_distance == 0 || c.summary_distance == 0 || c.buzzwords_distance == 0
            ==> best_distance(c, threshold) == Some(0u32),
        c.content_distance >= threshold && c.content_distance > 0 && c.summary_distance
            >= threshold && c.summary_distance > 0 && c.buzzwords_distance >= threshold
            && c.buzzwords_distance > 0 ==> best_distance(c, threshold) is None,
{
}

/// `x` is the hit of some matching candidate of `cands`.
pub open spec fn is_hit_of(cands: Seq<Candidate>, threshold: u32, x: SearchResult) -> bool {
    exists|k: int|
        0 <= k < cands.len() && best_distance(#[trigger] cands[k], threshold) is Some && x == hit(
            cands[k],
            best_distance(cands[k], threshold)->0,
        )
}

proof fn lemma_hits_members(cands: Seq<Candidate>, threshold: u32)
    ensures
        forall|i: int|
            0 <= i < hits(cands, threshold).len() ==> is_hit_of(
                cands,
                threshold,
                #[trigger] hits(cands, threshold)[i],
            ),
        forall|k: int|
            0 <= k < cands.len() && best_distance(#[trigger] cands[k], threshold) is Some ==> hits(
                cands,
                threshold,
            ).contains(hit(cands[k], best_distance(cands[k], threshold)->0)),
    decreases cands.len(),
{
    if cands.len() > 0 {
        let d = cands.drop_last();
        lemma_hits_members(d, threshold);
        let rest = hits(d, threshold);
        let h = hits(cands, threshold);
        let n = cands.len() - 1;
        assert forall|i: int| 0 <= i < h.len() implies is_hit_of(cands, threshold, #[trigger] h[i]) by {
            if i < rest.len() {
                assert(h[i] == rest[i]);
                assert(is_hit_of(d, threshold, rest[i]));
                let k = choose|k: int|
                    0 <= k < d.len() && best_distance(#[trigger] d[k], threshold) is Some && rest[i]
                        == hit(d[k], best_distance(d[k], threshold)->0);
                assert(cands[k] == d[k]);
            } else {
                assert(cands[n] == cands.last());
                assert(h[i] == hit(cands[n], best_distance(cands[n], threshold)->0));
            }
        }
        assert forall|k: int|
            0 <= k < cands.len() && best_distance(#[trigger] cands[k], threshold) is Some implies h.contains(
            hit(cands[k], best_distance(cands[k], threshold)->0),
        ) by {
            let x = hit(cands[k], best_distance(cands[k], threshold)->0);
            if k < n {
                assert(cands[k] == d[k]);
                assert(rest.contains(x));
                let j = choose|j: int| 0 <= j < rest.len() && rest[j] == x;
                assert(h[j] == x);
            } else {
                assert(h[h.len() - 1] == x);
            }
        }
    }
}

/// The threshold over a whole search, where each document has one candidate: a
/// document with a field at distance zero comes back exactly once, at rank zero,
/// whatever the threshold; a document whose fields are all at or above a nonzero
/// threshold (for instance exactly at it) does not come back at all. This holds of
/// every result that `search` may return.
pub proof fn lemma_search_threshold_boundary(
    cands: Seq<Candidate>,
    threshold: u32,
    r: Seq<SearchResult>,
    k: int,
)
    requires
        distinct_candidate_ids(cands),
        0 <= k < cands.len(),
        r.to_multiset() == hits(cands, threshold).to_multiset(),
        distinct_result_ids(r),
    ensures
        ({
            let c = cands[k];
            &&& c.content_distance == 0 || c.summary_distance == 0 || c.buzzwords_distance == 0
                ==> r.contains(hit(c, 0)) && forall|i: int|
                0 <= i < r.len() && (#[trigger] r[i])._id == c.id ==> r[i] == hit(c, 0)
            &&& c.content_distance >= threshold && c.content_distance > 0 && c.summary_distance
                >= threshold && c.summary_distance > 0 && c.buzzwords_distance >= threshold
                && c.buzzwords_distance > 0 ==> forall|i: int|
                0 <= i < r.len() ==> (#[trigger] r[i])._id != c.id
        }),
{
    let c = cands[k];
    let h = hits(cands, threshold);
    lemma_hits_members(cands, threshold);
    lemma_threshold_boundary(c, threshold);
    assert forall|i: int| 0 <= i < r.len() implies h.contains(#[trigger] r[i]) by {
        assert(r.contains(r[i]));
        assert(r.to_multiset().count(r[i]) > 0);
    }
    assert forall|i: int| 0 <= i < r.len() && (#[trigger] r[i])._id == c.id implies r[i] == hit(
        c,
        best_distance(c, threshold)->0,
    ) && best_distance(c, threshold) is Some by {
        let j = choose|j: int| 0 <= j < h.len() && h[j] == r[i];
        assert(is_hit_of(cands, threshold, h[j]));
        let m = choose|m: int|
            0 <= m < cands.len() && best_distance(#[trigger] cands[m], threshold) is Some && h[j]
                == hit(cands[m], best_distance(cands[m], threshold)->0);
        if m != k {
            if m < k {
                assert(cands[m].id != cands[k].id);
            } else {
                assert(cands[k].id != cands[m].id);
            }
        }
    }
    if c.content_distance == 0 || c.summary_distance == 0 || c.buzzwords_distance == 0 {
        assert(h.contains(hit(c, 0)));
        assert(h.to_multiset().count(hit(c, 0)) > 0);
        assert(r.contains(hit(c, 0)));
    }
}

} // verus!
