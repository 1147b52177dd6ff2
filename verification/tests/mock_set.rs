use mocktail::{Body, Method, Mock, MockSet, Request, Then, When};

fn rule(path: &str, priority: u8, reply: &str) -> Mock {
    Mock::new(When::new().path(path), Then::new().text(reply)).with_priority(priority)
}

fn replies(set: &MockSet) -> Vec<Vec<u8>> {
    set.iter().iter().map(|m| m.response().body().as_bytes()).collect()
}

#[test]
fn priorities_five_one_five_resolve_in_stable_order() {
    let mut set = MockSet::new();
    set.insert(rule("/x", 5, "first five"));
    set.insert(rule("/x", 1, "one"));
    set.insert(rule("/x", 5, "second five"));
    assert_eq!(
        replies(&set),
        vec![b"one".to_vec(), b"first five".to_vec(), b"second five".to_vec()]
    );
    let priorities: Vec<u8> = set.iter().iter().map(|m| m.priority()).collect();
    assert_eq!(priorities, vec![1, 5, 5]);
    let request = Request::new(Method::GET, "/x");
    assert_eq!(set.find(&request).unwrap().response().body().as_bytes(), b"one".to_vec());
}

#[test]
fn equal_priorities_keep_insertion_order() {
    let mut set = MockSet::new();
    set.mock(When::new().path("/a"), Then::new().text("1"));
    set.mock(When::new().path("/a"), Then::new().text("2"));
    set.mock_with_priority(0, When::new().path("/a"), Then::new().text("0"));
    set.mock_with_priority(255, When::new().path("/a"), Then::new().text("255"));
    set.mock(When::new().path("/a"), Then::new().text("3"));
    assert_eq!(
        replies(&set),
        vec![b"0".to_vec(), b"1".to_vec(), b"2".to_vec(), b"3".to_vec(), b"255".to_vec()]
    );
}

#[test]
fn clearing_an_empty_set_changes_nothing() {
    let mut set = MockSet::new();
    assert!(set.is_empty());
    set.clear();
    assert!(set.is_empty());
    assert_eq!(set.len(), 0);
}

#[test]
fn clear_removes_every_mock() {
    let mut set = MockSet::new();
    set.insert(rule("/a", 5, "a"));
    set.insert(rule("/b", 5, "b"));
    assert_eq!(set.len(), 2);
    set.clear();
    assert!(set.is_empty());
    assert!(set.find(&Request::new(Method::GET, "/a")).is_none());
}

#[test]
fn an_identical_mock_is_stored_once() {
    let mut set = MockSet::new();
    set.insert(rule("/a", 5, "a"));
    set.insert(rule("/a", 5, "a"));
    assert_eq!(set.len(), 1);
    let mock = rule("/b", 2, "b");
    set.insert(mock.clone());
    set.insert(mock);
    assert_eq!(set.len(), 2);
    assert_eq!(replies(&set), vec![b"b".to_vec(), b"a".to_vec()]);
}

#[test]
fn identical_conditions_in_another_order_are_stored_once() {
    let mut set = MockSet::new();
    set.mock(When::new().post().path("/a"), Then::new().text("a"));
    set.mock(When::new().path("/a").post(), Then::new().text("a"));
    assert_eq!(set.len(), 1);
}

#[test]
fn contains_goes_by_equality() {
    let mut set = MockSet::new();
    set.insert(rule("/a", 5, "a"));
    assert!(set.contains(&rule("/a", 5, "a")));
    assert!(!set.contains(&rule("/a", 4, "a")));
    assert!(!set.contains(&rule("/a", 5, "b")));
}

#[test]
fn find_returns_the_first_match_in_order() {
    let mut set = MockSet::new();
    set.insert(rule("/a", 9, "low"));
    set.insert(rule("/b", 1, "other"));
    set.insert(rule("/a", 3, "high"));
    let found = set.find(&Request::new(Method::GET, "/a")).unwrap();
    assert_eq!(found.response().body().as_bytes(), b"high".to_vec());
    assert_eq!(found.match_count(), 0);
    assert!(set.find(&Request::new(Method::GET, "/c")).is_none());
}

#[test]
fn match_to_response_counts_the_match() {
    let mut set = MockSet::new();
    set.insert(rule("/a", 5, "a"));
    set.insert(rule("/b", 5, "b"));
    let response = set.match_to_response(&Request::new(Method::GET, "/b")).unwrap();
    assert_eq!(response.body(), &Body::text("b"));
    let counts: Vec<usize> = set.iter().iter().map(|m| m.match_count()).collect();
    assert_eq!(counts, vec![0, 1]);
    assert!(set.match_to_response(&Request::new(Method::GET, "/c")).is_none());
    let counts: Vec<usize> = set.iter().iter().map(|m| m.match_count()).collect();
    assert_eq!(counts, vec![0, 1]);
}

#[test]
fn an_exhausted_mock_gives_way_to_the_next() {
    let mut set = MockSet::new();
    set.insert(rule("/a", 1, "once").with_limit(1));
    set.insert(rule("/a", 2, "then"));
    let request = Request::new(Method::GET, "/a");
    assert_eq!(set.match_to_response(&request).unwrap().body().as_bytes(), b"once".to_vec());
    assert_eq!(set.match_to_response(&request).unwrap().body().as_bytes(), b"then".to_vec());
    assert_eq!(set.match_to_response(&request).unwrap().body().as_bytes(), b"then".to_vec());
}

#[test]
fn match_to_response_keeps_the_frames() {
    let mut set = MockSet::new();
    set.mock(
        When::new().path("/s"),
        Then::new().bytes_stream(vec![b"m1".to_vec(), b"m2".to_vec()]),
    );
    let response = set.match_to_response(&Request::new(Method::GET, "/s")).unwrap();
    assert_eq!(response.body().chunks(), vec![b"m1".to_vec(), b"m2".to_vec()]);
}

#[test]
fn remove_takes_the_mock_at_the_index() {
    let mut set = MockSet::new();
    set.insert(rule("/a", 1, "a"));
    set.insert(rule("/b", 2, "b"));
    set.insert(rule("/c", 3, "c"));
    let removed = set.remove(1);
    assert_eq!(removed.response().body().as_bytes(), b"b".to_vec());
    assert_eq!(replies(&set), vec![b"a".to_vec(), b"c".to_vec()]);
}

#[test]
fn from_mocks_sorts_and_drops_repeats() {
    let set = MockSet::from_mocks(vec![
        rule("/a", 5, "five"),
        rule("/a", 1, "one"),
        rule("/a", 5, "five"),
        rule("/a", 5, "other five"),
    ]);
    assert_eq!(
        replies(&set),
        vec![b"one".to_vec(), b"five".to_vec(), b"other five".to_vec()]
    );
    assert!(MockSet::default().is_empty());
}

#[test]
fn built_mocks_keep_their_frames() {
    let mut set = MockSet::new();
    set.mock(When::new().path("/a"), Then::new().bytes_stream(vec![b"x".to_vec(), b"y".to_vec()]));
    set.mock_with_priority(
        1,
        When::new().path("/b"),
        Then::new().bytes_stream(vec![b"".to_vec(), b"z".to_vec()]),
    );
    let frames: Vec<Vec<Vec<u8>>> =
        set.iter().iter().map(|m| m.response().body().chunks()).collect();
    assert_eq!(
        frames,
        vec![vec![b"".to_vec(), b"z".to_vec()], vec![b"x".to_vec(), b"y".to_vec()]]
    );
    let from = MockSet::from_mocks(vec![Mock::new(
        When::new(),
        Then::new().bytes_stream(vec![b"1".to_vec(), b"2".to_vec()]),
    )]);
    assert_eq!(from.iter()[0].response().body().chunks(), vec![b"1".to_vec(), b"2".to_vec()]);
    let copy = from.iter()[0].clone();
    assert_eq!(copy.response().body().chunks(), vec![b"1".to_vec(), b"2".to_vec()]);
}

#[test]
fn a_rule_that_has_matched_and_its_fresh_twin_are_both_stored() {
    let mut set = MockSet::new();
    set.insert(rule("/a", 5, "a"));
    assert!(set.match_to_response(&Request::new(Method::GET, "/a")).is_some());
    set.insert(rule("/a", 5, "a"));
    assert_eq!(set.len(), 2);
    let counts: Vec<usize> = set.iter().iter().map(|m| m.match_count()).collect();
    assert_eq!(counts, vec![1, 0]);
}
