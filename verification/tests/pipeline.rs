//! Tests for the query execution pipeline and the shared search state.

use vince621::posts::{Post, PostIndex};
use vince621::query::{Query, SortOrder};
use vince621::search::{filter_posts, run_search, sort_results};
use vince621::state::{execute, SearchState, SharedSearchState};

fn post(id: u32, score: i32, fav_count: u32, tags: &[u32]) -> Post {
    Post { id, score, fav_count, tags: tags.to_vec() }
}

/// Six posts in ascending date order. Tag 7 marks the even dates.
fn sample_index() -> PostIndex {
    PostIndex::new(vec![
        post(10, 5, 100, &[7]),
        post(11, -3, 50, &[8]),
        post(12, 5, 7, &[7, 8]),
        post(13, 0, 50, &[9]),
        post(14, 9, 100, &[7]),
        post(15, -3, 0, &[8, 9]),
    ])
}

fn tagged(t: u32) -> Query {
    Query::HasTag(t)
}

#[test]
fn filter_keeps_exactly_the_matching_posts() {
    let posts = sample_index();
    assert_eq!(filter_posts(&posts, &tagged(7)), vec![0, 2, 4]);
    assert_eq!(filter_posts(&posts, &tagged(9)), vec![3, 5]);
    assert_eq!(filter_posts(&posts, &Query::MatchAll), vec![0, 1, 2, 3, 4, 5]);
    assert_eq!(filter_posts(&posts, &tagged(99)), Vec::<usize>::new());
}

#[test]
fn query_connectives() {
    let posts = sample_index();
    let both = Query::And(Box::new(tagged(7)), Box::new(tagged(8)));
    assert_eq!(filter_posts(&posts, &both), vec![2]);
    let either = Query::Or(Box::new(tagged(7)), Box::new(tagged(9)));
    assert_eq!(filter_posts(&posts, &either), vec![0, 2, 3, 4, 5]);
    let neither = Query::Not(Box::new(either));
    assert_eq!(filter_posts(&posts, &neither), vec![1]);
}

#[test]
fn date_ascending_keeps_natural_order() {
    let posts = sample_index();
    let r = run_search(&posts, &tagged(7), SortOrder::DateAscending);
    assert_eq!(r, vec![0, 2, 4]);
}

#[test]
fn date_descending_reverses_natural_order() {
    let posts = sample_index();
    let ascending = run_search(&posts, &tagged(7), SortOrder::DateAscending);
    let descending = run_search(&posts, &tagged(7), SortOrder::Date);
    let mut reversed = ascending.clone();
    reversed.reverse();
    assert_eq!(descending, reversed);
    assert_eq!(descending, vec![4, 2, 0]);
}

#[test]
fn score_sorts_descending_with_ties_in_index_order() {
    let posts = sample_index();
    // Scores by position: 5, -3, 5, 0, 9, -3.
    let r = run_search(&posts, &Query::MatchAll, SortOrder::Score);
    assert_eq!(r, vec![4, 0, 2, 3, 1, 5]);
}

#[test]
fn score_ascending_sorts_ascending_with_ties_in_index_order() {
    let posts = sample_index();
    let r = run_search(&posts, &Query::MatchAll, SortOrder::ScoreAscending);
    assert_eq!(r, vec![1, 5, 3, 0, 2, 4]);
}

#[test]
fn fav_count_sorts_both_directions() {
    let posts = sample_index();
    // Favorite counts by position: 100, 50, 7, 50, 100, 0.
    let descending = run_search(&posts, &Query::MatchAll, SortOrder::FavCount);
    assert_eq!(descending, vec![0, 4, 1, 3, 2, 5]);
    let ascending = run_search(&posts, &Query::MatchAll, SortOrder::FavCountAscending);
    assert_eq!(ascending, vec![5, 2, 1, 3, 0, 4]);
}

#[test]
fn sorts_handle_empty_result_sets() {
    let posts = sample_index();
    for order in [
        SortOrder::Date,
        SortOrder::DateAscending,
        SortOrder::Score,
        SortOrder::ScoreAscending,
        SortOrder::FavCount,
        SortOrder::FavCountAscending,
        SortOrder::Random,
    ] {
        assert_eq!(run_search(&posts, &tagged(99), order), Vec::<usize>::new());
    }
}

#[test]
fn random_order_is_a_permutation_of_the_match_set() {
    let posts = sample_index();
    let expected = run_search(&posts, &tagged(7), SortOrder::DateAscending);
    let mut shuffled = run_search(&posts, &tagged(7), SortOrder::Random);
    shuffled.sort_unstable();
    assert_eq!(shuffled, expected);
}

#[test]
fn sort_results_reorders_in_place() {
    let posts = sample_index();
    let mut r = vec![0usize, 2, 4];
    sort_results(&mut r, &posts, SortOrder::Score);
    // Scores at 0, 2, 4 are 5, 5, 9.
    assert_eq!(r, vec![4, 0, 2]);
}

#[test]
fn progress_counter_is_monotone_and_bounded() {
    let mut cell = SharedSearchState::new(String::from("enter a query"));
    assert_eq!(cell.generation, 0);
    let gen = cell.submit(100);
    assert_eq!(gen, 1);
    match cell.state {
        SearchState::InProgress { processed, total } => {
            assert_eq!((processed, total), (0, 100));
        }
        _ => panic!("submit must leave the state in progress"),
    }
    cell.update_progress(gen, 30);
    match cell.state {
        SearchState::InProgress { processed, .. } => assert_eq!(processed, 30),
        _ => panic!("progress must stay in progress"),
    }
    // A report that runs backward is ignored.
    cell.update_progress(gen, 20);
    // A report from another generation is ignored.
    cell.update_progress(gen + 1, 90);
    // A report past the total is ignored.
    cell.update_progress(gen, 101);
    match cell.state {
        SearchState::InProgress { processed, total } => {
            assert_eq!((processed, total), (30, 100));
        }
        _ => panic!("ignored reports must not change the state"),
    }
}

#[test]
fn stale_publish_is_discarded() {
    let mut cell = SharedSearchState::new(String::from("idle"));
    let stale = cell.submit(10);
    let fresh = cell.submit(10);
    assert!(stale != fresh);
    // The stale worker finishes after the fresh submission: its publish is
    // a no-op.
    assert!(!cell.publish_done(stale, vec![1, 2, 3]));
    match cell.state {
        SearchState::InProgress { .. } => {}
        _ => panic!("a stale publish must not replace the state"),
    }
    assert!(cell.publish_done(fresh, vec![4, 5]));
    match &cell.state {
        SearchState::Done { results, cursor } => {
            assert_eq!(results, &vec![4, 5]);
            assert_eq!(*cursor, 0);
        }
        _ => panic!("a current publish must replace the state"),
    }
}

#[test]
fn error_publication_invalidates_running_generation() {
    let mut cell = SharedSearchState::new(String::from("idle"));
    let gen = cell.submit(10);
    cell.set_error(String::from("unbalanced brace"));
    match &cell.state {
        SearchState::Idle { message } => assert_eq!(message, "unbalanced brace"),
        _ => panic!("an error must leave the state idle"),
    }
    // The execution that was running when the error was published cannot
    // overwrite it.
    assert!(!cell.publish_done(gen, vec![0]));
    match &cell.state {
        SearchState::Idle { message } => assert_eq!(message, "unbalanced brace"),
        _ => panic!("a stale publish must not replace the error"),
    }
}

#[test]
fn cursor_navigation_stays_in_bounds() {
    let mut state = SearchState::Done { results: vec![9, 8, 7], cursor: 0 };
    state.prev_result();
    match state {
        SearchState::Done { cursor, .. } => assert_eq!(cursor, 0),
        _ => panic!("navigation must keep the variant"),
    }
    state.next_result();
    state.next_result();
    state.next_result();
    match state {
        SearchState::Done { cursor, .. } => assert_eq!(cursor, 2),
        _ => panic!("navigation must keep the variant"),
    }
    state.prev_result();
    match state {
        SearchState::Done { cursor, .. } => assert_eq!(cursor, 1),
        _ => panic!("navigation must keep the variant"),
    }
    let mut idle = SearchState::Idle { message: String::from("x") };
    idle.next_result();
    match idle {
        SearchState::Idle { .. } => {}
        _ => panic!("navigation must not invent results"),
    }
}

#[test]
fn execute_publishes_ordered_results() {
    let posts = sample_index();
    let mut cell = SharedSearchState::new(String::from("idle"));
    execute(&posts, &tagged(7), SortOrder::Score, &mut cell);
    assert_eq!(cell.generation, 1);
    match &cell.state {
        SearchState::Done { results, cursor } => {
            // Scores at 0, 2, 4 are 5, 5, 9.
            assert_eq!(results, &vec![4, 0, 2]);
            assert_eq!(*cursor, 0);
        }
        _ => panic!("execute must end in a published result"),
    }
}

#[test]
fn execute_empty_index() {
    let posts = PostIndex::new(Vec::new());
    let mut cell = SharedSearchState::new(String::from("idle"));
    execute(&posts, &Query::MatchAll, SortOrder::Date, &mut cell);
    match &cell.state {
        SearchState::Done { results, .. } => assert!(results.is_empty()),
        _ => panic!("execute must end in a published result"),
    }
}

#[test]
fn extreme_scores_sort_correctly() {
    let posts = PostIndex::new(vec![
        post(1, i32::MIN, 0, &[]),
        post(2, i32::MAX, 0, &[]),
        post(3, 0, 0, &[]),
    ]);
    let r = run_search(&posts, &Query::MatchAll, SortOrder::Score);
    assert_eq!(r, vec![1, 2, 0]);
    let r = run_search(&posts, &Query::MatchAll, SortOrder::ScoreAscending);
    assert_eq!(r, vec![0, 2, 1]);
}
