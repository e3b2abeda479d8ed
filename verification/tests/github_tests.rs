use readme_gen::github::{
    get_contributions, get_pull_requests, get_repositories, ContributionGroup,
    GithubClientError, PullRequestNode, RepositoryNode,
};

fn group(name: &str, private: bool, edges: Vec<i64>) -> ContributionGroup {
    ContributionGroup {
        repo_is_private: private,
        repo_name: name.to_string(),
        repo_desc: format!("about {}", name),
        repo_url: format!("https://example.org/{}", name),
        edges,
    }
}

fn pr(title: &str, created_at: i64, private: bool) -> PullRequestNode {
    PullRequestNode {
        created_at,
        title: title.to_string(),
        url: format!("https://example.org/pr/{}", title),
        repo_is_private: private,
        repo_name: format!("repo-of-{}", title),
        repo_desc: String::new(),
        repo_url: String::new(),
    }
}

fn repo(name: &str, private: bool, pushed_at: i64) -> RepositoryNode {
    RepositoryNode {
        is_private: private,
        name_with_owner: name.to_string(),
        description: format!("about {}", name),
        url: format!("https://example.org/{}", name),
        pushed_at,
    }
}

#[test]
fn recent_contributions_default_count_scenario() {
    // ten repository groups, three private; the seven visible ones carry
    // distinct timestamps; with no count, the five most recent come back,
    // newest first
    let groups = vec![
        group("v10", false, vec![10]),
        group("p90", true, vec![90]),
        group("v40", false, vec![40]),
        group("v70", false, vec![70]),
        group("p95", true, vec![95]),
        group("v20", false, vec![20]),
        group("v60", false, vec![60]),
        group("p99", true, vec![99]),
        group("v50", false, vec![50]),
        group("v30", false, vec![30]),
    ];
    let out = get_contributions(groups, None);
    assert_eq!(out.len(), 5);
    let times: Vec<i64> = out.iter().map(|c| c.occurred_at).collect();
    assert_eq!(times, vec![70, 60, 50, 40, 30]);
    let names: Vec<&str> = out.iter().map(|c| c.repo_name.as_str()).collect();
    assert_eq!(names, vec!["v70", "v60", "v50", "v40", "v30"]);
    assert!(out.iter().all(|c| !c.repo_is_private));
}

#[test]
fn contributions_use_most_recent_edge() {
    let groups = vec![group("a", false, vec![100, 50, 10])];
    let out = get_contributions(groups, None);
    assert_eq!(out.len(), 1);
    assert_eq!(out[0].occurred_at, 100);
    assert_eq!(out[0].repo_desc, "about a");
    assert_eq!(out[0].repo_url, "https://example.org/a");
}

#[test]
fn contributions_respect_explicit_count() {
    let groups = vec![
        group("a", false, vec![1]),
        group("b", false, vec![3]),
        group("c", false, vec![2]),
    ];
    let out = get_contributions(groups, Some(2));
    let names: Vec<&str> = out.iter().map(|c| c.repo_name.as_str()).collect();
    assert_eq!(names, vec!["b", "c"]);

    let groups = vec![group("a", false, vec![1]), group("b", false, vec![3])];
    assert!(get_contributions(groups, Some(0)).is_empty());

    let groups: Vec<ContributionGroup> =
        (0..8).map(|i| group(&format!("g{}", i), false, vec![i as i64])).collect();
    assert_eq!(get_contributions(groups, Some(-3)).len(), 8);
}

#[test]
fn pull_requests_filtered_sorted_truncated() {
    let nodes = vec![
        pr("old", 10, false),
        pr("secret", 99, true),
        pr("new", 30, false),
        pr("mid", 20, false),
    ];
    let out = get_pull_requests(nodes, None);
    let titles: Vec<&str> = out.iter().map(|p| p.title.as_str()).collect();
    assert_eq!(titles, vec!["new", "mid", "old"]);
    assert_eq!(out[0].repo.name, "repo-of-new");

    let nodes = vec![pr("a", 1, false), pr("b", 2, false), pr("c", 3, false)];
    let out = get_pull_requests(nodes, Some(1));
    assert_eq!(out.len(), 1);
    assert_eq!(out[0].title, "c");
}

#[test]
fn repositories_filtered_sorted_truncated() {
    let nodes = vec![
        repo("stale", false, 5),
        repo("hidden", true, 99),
        repo("fresh", false, 50),
        repo("middle", false, 20),
    ];
    let out = get_repositories(nodes, None);
    let names: Vec<&str> = out.iter().map(|r| r.name.as_str()).collect();
    assert_eq!(names, vec!["fresh", "middle", "stale"]);
    assert_eq!(out[0].desc, "about fresh");
    assert_eq!(out[0].url, "https://example.org/fresh");

    let nodes = vec![repo("a", false, 1), repo("b", false, 2), repo("c", false, 3)];
    let out = get_repositories(nodes, Some(2));
    let names: Vec<&str> = out.iter().map(|r| r.name.as_str()).collect();
    assert_eq!(names, vec!["c", "b"]);
}

#[test]
fn github_error_messages() {
    assert_eq!(
        GithubClientError::InvalidAuthorizationValue.message(),
        "invalid authorization header value; is your github token correct?"
    );
    assert_eq!(GithubClientError::ClientError.message(), "http client error");
    assert_eq!(
        GithubClientError::NoData.message(),
        "graphql query didn't return any data"
    );
}
