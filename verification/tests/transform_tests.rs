use readme_gen::github::{Contribution, ContributionGroup};
use readme_gen::transform::{filter_visible, sort_descending, truncate};

fn group(name: &str, private: bool, edges: Vec<i64>) -> ContributionGroup {
    ContributionGroup {
        repo_is_private: private,
        repo_name: name.to_string(),
        repo_desc: String::new(),
        repo_url: String::new(),
        edges,
    }
}

fn contribution(t: i64, name: &str) -> Contribution {
    Contribution {
        occurred_at: t,
        repo_is_private: false,
        repo_name: name.to_string(),
        repo_desc: String::new(),
        repo_url: String::new(),
    }
}

#[test]
fn filter_visible_drops_private_records() {
    let records = vec![
        group("a", false, vec![1]),
        group("b", true, vec![2]),
        group("c", false, vec![3]),
        group("d", true, vec![4]),
    ];
    let kept = filter_visible(records);
    let names: Vec<&str> = kept.iter().map(|g| g.repo_name.as_str()).collect();
    assert_eq!(names, vec!["a", "c"]);
    assert!(kept.iter().all(|g| !g.repo_is_private));
}

#[test]
fn filter_visible_is_identity_without_private() {
    let records = vec![group("a", false, vec![1]), group("b", false, vec![2])];
    let expected = vec![group("a", false, vec![1]), group("b", false, vec![2])];
    assert_eq!(filter_visible(records), expected);
}

#[test]
fn sort_descending_is_non_increasing() {
    let mut records = vec![
        contribution(3, "a"),
        contribution(9, "b"),
        contribution(1, "c"),
        contribution(7, "d"),
    ];
    sort_descending(&mut records);
    let times: Vec<i64> = records.iter().map(|c| c.occurred_at).collect();
    assert_eq!(times, vec![9, 7, 3, 1]);
    for w in records.windows(2) {
        assert!(w[0].occurred_at >= w[1].occurred_at);
    }
}

#[test]
fn sort_descending_is_stable_on_equal_keys() {
    let mut records = vec![
        contribution(5, "first"),
        contribution(8, "top"),
        contribution(5, "second"),
        contribution(5, "third"),
        contribution(2, "last"),
    ];
    sort_descending(&mut records);
    let names: Vec<&str> = records.iter().map(|c| c.repo_name.as_str()).collect();
    assert_eq!(names, vec!["top", "first", "second", "third", "last"]);
}

#[test]
fn truncate_returns_min_count_len_prefix() {
    let mut records = vec![contribution(3, "a"), contribution(2, "b"), contribution(1, "c")];
    truncate(&mut records, Some(2));
    let names: Vec<&str> = records.iter().map(|c| c.repo_name.as_str()).collect();
    assert_eq!(names, vec!["a", "b"]);

    let mut records = vec![contribution(3, "a"), contribution(2, "b")];
    truncate(&mut records, Some(10));
    assert_eq!(records.len(), 2);

    let mut records = vec![contribution(3, "a"), contribution(2, "b")];
    truncate(&mut records, Some(0));
    assert!(records.is_empty());
}

#[test]
fn truncate_defaults_to_five() {
    let mut records: Vec<Contribution> =
        (0..7).map(|i| contribution(i as i64, "r")).collect();
    truncate(&mut records, None);
    assert_eq!(records.len(), 5);
    let times: Vec<i64> = records.iter().map(|c| c.occurred_at).collect();
    assert_eq!(times, vec![0, 1, 2, 3, 4]);
}

#[test]
fn truncate_negative_count_keeps_everything() {
    let mut records = vec![contribution(3, "a"), contribution(2, "b")];
    truncate(&mut records, Some(-1));
    assert_eq!(records.len(), 2);
}
