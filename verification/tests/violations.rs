use screen_relay::violations::{ViolationQuery, DEFAULT_VIOLATION_COUNT};

fn query(count: Option<isize>) -> ViolationQuery {
    ViolationQuery { hostname: None, count }
}

#[test]
fn limit_defaults_to_fifty() {
    assert_eq!(DEFAULT_VIOLATION_COUNT, 50);
    assert_eq!(query(None).limit(), 50);
    assert_eq!(query(Some(7)).limit(), 7);
    assert_eq!(query(Some(0)).limit(), 0);
    assert_eq!(query(Some(-3)).limit(), -3);
}

#[test]
fn answer_holds_at_most_the_count() {
    assert_eq!(query(None).kept_len(0), 0);
    assert_eq!(query(None).kept_len(49), 49);
    assert_eq!(query(None).kept_len(50), 50);
    assert_eq!(query(None).kept_len(51), 50);
    assert_eq!(query(Some(3)).kept_len(10), 3);
    assert_eq!(query(Some(0)).kept_len(10), 0);
    assert_eq!(query(Some(isize::MAX)).kept_len(10), 10);
}

#[test]
fn negative_count_keeps_everything() {
    assert_eq!(query(Some(-1)).kept_len(10), 10);
    assert_eq!(query(Some(isize::MIN)).kept_len(1000), 1000);
    for (count, available) in [(-1isize, 10usize), (3, 10), (30, 10), (0, 0)] {
        let mut items: Vec<usize> = (0..available).collect();
        items.truncate(count as usize);
        assert_eq!(query(Some(count)).kept_len(available), items.len());
    }
}
