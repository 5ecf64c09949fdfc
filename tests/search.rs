use dmslite::records::CalendarDate;
use dmslite::search::{best_field_distance, search, Candidate, DEFAULT_THRESHOLD};

fn candidate(id: i32, content: u32, summary: u32, buzzwords: u32) -> Candidate {
    Candidate {
        id,
        title: format!("doc {}", id),
        upload_date: CalendarDate { year: 2024, month: 3, day: id as u32 },
        content_distance: content,
        summary_distance: summary,
        buzzwords_distance: buzzwords,
    }
}

#[test]
fn search_dedups_and_orders_by_closest_field() {
    let cands = vec![
        candidate(1, 1_000_000, 100_000, 1_000_000),
        candidate(2, 500_000, 900_000, 200_000),
        candidate(3, 700_000, 800_000, 650_000),
    ];
    let r = search(&cands, DEFAULT_THRESHOLD);
    assert_eq!(r.len(), 2);
    assert_eq!(r[0]._id, 1);
    assert_eq!(r[0].rank, 100_000);
    assert_eq!(r[1]._id, 2);
    assert_eq!(r[1].rank, 200_000);
    assert_eq!(r[1].title, "doc 2");
    assert_eq!(r[1].upload_date, CalendarDate { year: 2024, month: 3, day: 2 });
}

#[test]
fn threshold_is_strict_and_zero_always_matches() {
    let at_threshold = candidate(1, 600_000, 600_000, 600_000);
    assert_eq!(best_field_distance(&at_threshold, DEFAULT_THRESHOLD), None);
    let just_below = candidate(2, 599_999, 1_000_000, 1_000_000);
    assert_eq!(best_field_distance(&just_below, DEFAULT_THRESHOLD), Some(599_999));
    let exact = candidate(3, 1_000_000, 0, 1_000_000);
    assert_eq!(best_field_distance(&exact, 0), Some(0));
    assert_eq!(best_field_distance(&exact, DEFAULT_THRESHOLD), Some(0));
    let r = search(&vec![at_threshold, exact.clone()], 0);
    assert_eq!(r.len(), 1);
    assert_eq!(r[0]._id, 3);
    assert_eq!(r[0].rank, 0);
}

#[test]
fn search_of_nothing_is_empty() {
    assert!(search(&Vec::new(), DEFAULT_THRESHOLD).is_empty());
    let far = vec![candidate(1, 900_000, 900_000, 900_000)];
    assert!(search(&far, DEFAULT_THRESHOLD).is_empty());
}

#[test]
fn search_orders_many_hits() {
    let cands = vec![
        candidate(1, 300_000, 1_000_000, 1_000_000),
        candidate(2, 1_000_000, 50_000, 1_000_000),
        candidate(3, 1_000_000, 1_000_000, 300_000),
        candidate(4, 0, 1_000_000, 1_000_000),
        candidate(5, 450_000, 400_000, 500_000),
    ];
    let r = search(&cands, DEFAULT_THRESHOLD);
    let ids: Vec<i32> = r.iter().map(|h| h._id).collect();
    let ranks: Vec<u32> = r.iter().map(|h| h.rank).collect();
    assert_eq!(ids, vec![4, 2, 1, 3, 5]);
    assert_eq!(ranks, vec![0, 50_000, 300_000, 300_000, 400_000]);
}

#[test]
fn boundary_over_a_whole_search() {
    let cands = vec![
        candidate(1, 600_000, 700_000, 900_000),
        candidate(2, 0, 0, 300_000),
        candidate(3, 550_000, 1_000_000, 1_000_000),
    ];
    let r = search(&cands, DEFAULT_THRESHOLD);
    let ids: Vec<i32> = r.iter().map(|h| h._id).collect();
    assert_eq!(ids, vec![2, 3]);
    assert_eq!(r[0].rank, 0);
}
