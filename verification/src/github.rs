//! Records fetched from the code-hosting service and the provider pipelines
//! that turn a raw batch into the display-ready list: visibility filtering,
//! stable descending sort on the record's timestamp, then truncation to the
//! requested count. Records from private repositories never survive.

use vstd::prelude::*;

use crate::transform::{
    filter_visible, lemma_filter_visible_no_private, lemma_pipeline_membership, limit,
    requested_count, sort_desc, sort_descending, truncate, visible, Keyed, Visible,
};

verus! {

/// Why a fetch could not produce records.
#[derive(Clone, Copy, Debug, PartialEq, Eq, Structural)]
pub enum GithubClientError {
    /// The authorization header could not be built from the token.
    InvalidAuthorizationValue,
    /// The transport failed to reach the service.
    ClientError,
    /// The query succeeded but returned no payload.
    NoData,
}

impl GithubClientError {
    /// The description each failure carries.
    pub open spec fn spec_message(&self) -> Seq<char> {
        match self {
            GithubClientError::InvalidAuthorizationValue => "invalid authorization header value; is your github token correct?"@,
            GithubClientError::ClientError => "http client error"@,
            GithubClientError::NoData => "graphql query didn't return any data"@,
        }
    }

    /// A human-readable description of the failure.
    pub fn message(&self) -> (m: &'static str)
        ensures
            m@ == self.spec_message(),
    {
        match self {
            GithubClientError::InvalidAuthorizationValue => "invalid authorization header value; is your github token correct?",
            GithubClientError::ClientError => "http client error",
            GithubClientError::NoData => "graphql query didn't return any data",
        }
    }
}

/// A repository as shown to the template.
#[derive(Debug, PartialEq, Eq)]
pub struct Repository {
    pub name: String,
    pub desc: String,
    pub url: String,
}

/// One unit of contribution activity, attributed to a repository.
/// The timestamp counts seconds since the epoch.
#[derive(Debug, PartialEq, Eq)]
pub struct Contribution {
    pub occurred_at: i64,
    pub repo_is_private: bool,
    pub repo_name: String,
    pub repo_desc: String,
    pub repo_url: String,
}

/// A pull request as shown to the template.
#[derive(Debug, PartialEq, Eq)]
pub struct PullRequest {
    pub created_at: i64,
    pub repo: Repository,
    pub title: String,
    pub url: String,
}

/// One repository group of contribution activity as fetched upstream: the
/// repository's attributes and the timestamps of its activity edges, most
/// recent first. A group always carries at least one edge.
#[derive(Debug, PartialEq, Eq)]
pub struct ContributionGroup {
    pub repo_is_private: bool,
    pub repo_name: String,
    pub repo_desc: String,
    pub repo_url: String,
    pub edges: Vec<i64>,
}

/// One pull request as fetched upstream, with its repository's attributes.
#[derive(Debug, PartialEq, Eq)]
pub struct PullRequestNode {
    pub created_at: i64,
    pub title: String,
    pub url: String,
    pub repo_is_private: bool,
    pub repo_name: String,
    pub repo_desc: String,
    pub repo_url: String,
}

/// One repository as fetched upstream: its attributes, its privacy flag and
/// its freshness (the time of its last push).
#[derive(Debug, PartialEq, Eq)]
pub struct RepositoryNode {
    pub is_private: bool,
    pub name_with_owner: String,
    pub description: String,
    pub url: String,
    pub pushed_at: i64,
}

impl Visible for ContributionGroup {
    open spec fn private(&self) -> bool {
        self.repo_is_private
    }

    fn is_private(&self) -> (b: bool) {
        self.repo_is_private
    }
}

impl Visible for PullRequestNode {
    open spec fn private(&self) -> bool {
        self.repo_is_private
    }

    fn is_private(&self) -> (b: bool) {
        self.repo_is_private
    }
}

impl Visible for RepositoryNode {
    open spec fn private(&self) -> bool {
        self.is_private
    }

    fn is_private(&self) -> (b: bool) {
        self.is_private
    }
}

impl Keyed for Contribution {
    open spec fn key(&self) -> int {
        self.occurred_at as int
    }

    fn key_value(&self) -> (k: i64) {
        self.occurred_at
    }
}

impl Keyed for PullRequest {
    open spec fn key(&self) -> int {
        self.created_at as int
    }

    fn key_value(&self) -> (k: i64) {
        self.created_at
    }
}

impl Keyed for RepositoryNode {
    open spec fn key(&self) -> int {
        self.pushed_at as int
    }

    fn key_value(&self) -> (k: i64) {
        self.pushed_at
    }
}

/// The contribution a repository group stands for: its most recent edge,
/// carrying the repository's attributes.
pub open spec fn contribution_of(g: ContributionGroup) -> Contribution {
    Contribution {
        occurred_at: g.edges@[0],
        repo_is_private: g.repo_is_private,
        repo_name: g.repo_name,
        repo_desc: g.repo_desc,
        repo_url: g.repo_url,
    }
}

/// The contributions a batch of repository groups stands for, in fetch order.
pub open spec fn contributions_of(groups: Seq<ContributionGroup>) -> Seq<Contribution> {
    groups.map_values(|g: ContributionGroup| contribution_of(g))
}

/// The pull request a fetched node stands for.
pub open spec fn pull_request_of(n: PullRequestNode) -> PullRequest {
    PullRequest {
        created_at: n.created_at,
        repo: Repository { name: n.repo_name, desc: n.repo_desc, url: n.repo_url },
        title: n.title,
        url: n.url,
    }
}

/// The pull requests a batch of fetched nodes stands for, in fetch order.
pub open spec fn pull_requests_of(nodes: Seq<PullRequestNode>) -> Seq<PullRequest> {
    nodes.map_values(|n: PullRequestNode| pull_request_of(n))
}

/// The repository a fetched node stands for.
pub open spec fn repository_of(n: RepositoryNode) -> Repository {
    Repository { name: n.name_with_owner, desc: n.description, url: n.url }
}

/// The repositories a batch of fetched nodes stands for, in fetch order.
pub open spec fn repositories_of(nodes: Seq<RepositoryNode>) -> Seq<Repository> {
    nodes.map_values(|n: RepositoryNode| repository_of(n))
}

/// The contribution list shown for a fetched batch: the visible groups'
/// contributions, newest first, truncated to the requested count.
pub open spec fn shown_contributions(groups: Seq<ContributionGroup>, count: Option<i64>) -> Seq<
    Contribution,
> {
    limit(sort_desc(contributions_of(visible(groups))), requested_count(count))
}

/// The pull-request list shown for a fetched batch: the visible nodes' pull
/// requests, newest first, truncated to the requested count.
pub open spec fn shown_pull_requests(nodes: Seq<PullRequestNode>, count: Option<i64>) -> Seq<
    PullRequest,
> {
    limit(sort_desc(pull_requests_of(visible(nodes))), requested_count(count))
}

/// The repository list shown for a fetched batch: the visible nodes,
/// freshest first, truncated to the requested count.
pub open spec fn shown_repositories(nodes: Seq<RepositoryNode>, count: Option<i64>) -> Seq<
    Repository,
> {
    repositories_of(limit(sort_desc(visible(nodes)), requested_count(count)))
}

/// The contribution list a render shows: one contribution per visible
/// repository group (its most recent edge), newest first, truncated to the
/// requested count, five when none is given.
pub fn get_contributions(groups: Vec<ContributionGroup>, count: Option<i64>) -> (r: Vec<
    Contribution,
>)
    requires
        forall|i: int| 0 <= i < groups@.len() ==> (#[trigger] groups@[i]).edges@.len() > 0,
    ensures
        r@ == shown_contributions(groups@, count),
{
    let ghost all = groups@;
    let vis = filter_visible(groups);
    proof {
        lemma_visible_keeps_edges(all);
    }
    let mut records = map_contributions(vis);
    sort_descending(&mut records);
    truncate(&mut records, count);
    records
}

/// Filtering keeps each group's edges: a visible group is one of the fetched
/// groups, so it still carries at least one edge.
proof fn lemma_visible_keeps_edges(groups: Seq<ContributionGroup>)
    requires
        forall|i: int| 0 <= i < groups.len() ==> (#[trigger] groups[i]).edges@.len() > 0,
    ensures
        forall|i: int|
            0 <= i < visible(groups).len() ==> (#[trigger] visible(groups)[i]).edges@.len() > 0,
{
    broadcast use vstd::seq_lib::group_seq_lib_default;
    broadcast use vstd::prelude::Seq::lemma_filter_contains_rev;

    let vis = visible(groups);
    assert forall|i: int| 0 <= i < vis.len() implies (#[trigger] vis[i]).edges@.len() > 0 by {
        assert(vis.contains(vis[i]));
        assert(groups.contains(vis[i]));
        let n = choose|n: int| 0 <= n < groups.len() && groups[n] == vis[i];
        assert(groups[n].edges@.len() > 0);
    }
}

/// Turn each visible repository group into its contribution.
fn map_contributions(groups: Vec<ContributionGroup>) -> (r: Vec<Contribution>)
    requires
        forall|i: int| 0 <= i < groups@.len() ==> (#[trigger] groups@[i]).edges@.len() > 0,
    ensures
        r@ == contributions_of(groups@),
{
    let ghost orig = groups@;
    let mut rest = groups;
    let mut out: Vec<Contribution> = Vec::new();
    proof {
        assert(out@ + contributions_of(rest@) =~= contributions_of(orig));
    }
    while rest.len() > 0
        invariant
            out@ + contributions_of(rest@) == contributions_of(orig),
            forall|i: int| 0 <= i < rest@.len() ==> (#[trigger] rest@[i]).edges@.len() > 0,
        decreases rest@.len(),
    {
        let ghost pre = rest@;
        let ghost prev_out = out@;
        let g = rest.remove(0);
        let ghost gv = g;
        let occurred_at = g.edges[0];
        let record = Contribution {
            occurred_at,
            repo_is_private: g.repo_is_private,
            repo_name: g.repo_name,
            repo_desc: g.repo_desc,
            repo_url: g.repo_url,
        };
        proof {
            assert(record == contribution_of(gv));
            assert(contributions_of(pre) =~= seq![contribution_of(gv)] + contributions_of(rest@));
        }
        out.push(record);
        proof {
            assert(out@ =~= prev_out + seq![contribution_of(gv)]);
            assert(out@ + contributions_of(rest@) =~= prev_out + contributions_of(pre));
        }
    }
    proof {
        assert(contributions_of(rest@) =~= Seq::<Contribution>::empty());
        assert(out@ =~= out@ + contributions_of(rest@));
    }
    out
}

/// The pull-request list a render shows: pull requests on visible
/// repositories, newest first, truncated to the requested count, five when
/// none is given.
pub fn get_pull_requests(nodes: Vec<PullRequestNode>, count: Option<i64>) -> (r: Vec<PullRequest>)
    ensures
        r@ == shown_pull_requests(nodes@, count),
{
    let vis = filter_visible(nodes);
    let mut records = map_pull_requests(vis);
    sort_descending(&mut records);
    truncate(&mut records, count);
    records
}

/// Turn each visible fetched node into its pull request.
fn map_pull_requests(nodes: Vec<PullRequestNode>) -> (r: Vec<PullRequest>)
    ensures
        r@ == pull_requests_of(nodes@),
{
    let ghost orig = nodes@;
    let mut rest = nodes;
    let mut out: Vec<PullRequest> = Vec::new();
    proof {
        assert(out@ + pull_requests_of(rest@) =~= pull_requests_of(orig));
    }
    while rest.len() > 0
        invariant
            out@ + pull_requests_of(rest@) == pull_requests_of(orig),
        decreases rest@.len(),
    {
        let ghost pre = rest@;
        let ghost prev_out = out@;
        let n = rest.remove(0);
        let ghost nv = n;
        let record = PullRequest {
            created_at: n.created_at,
            repo: Repository { name: n.repo_name, desc: n.repo_desc, url: n.repo_url },
            title: n.title,
            url: n.url,
        };
        proof {
            assert(record == pull_request_of(nv));
            assert(pull_requests_of(pre) =~= seq![pull_request_of(nv)] + pull_requests_of(rest@));
        }
        out.push(record);
        proof {
            assert(out@ =~= prev_out + seq![pull_request_of(nv)]);
            assert(out@ + pull_requests_of(rest@) =~= prev_out + pull_requests_of(pre));
        }
    }
    proof {
        assert(pull_requests_of(rest@) =~= Seq::<PullRequest>::empty());
        assert(out@ =~= out@ + pull_requests_of(rest@));
    }
    out
}

/// The repository list a render shows: visible repositories, freshest first,
/// truncated to the requested count, five when none is given.
pub fn get_repositories(nodes: Vec<RepositoryNode>, count: Option<i64>) -> (r: Vec<Repository>)
    ensures
        r@ == shown_repositories(nodes@, count),
{
    let vis = filter_visible(nodes);
    let mut kept = vis;
    sort_descending(&mut kept);
    truncate(&mut kept, count);
    map_repositories(kept)
}

/// Turn each kept node into its repository.
fn map_repositories(nodes: Vec<RepositoryNode>) -> (r: Vec<Repository>)
    ensures
        r@ == repositories_of(nodes@),
{
    let ghost orig = nodes@;
    let mut rest = nodes;
    let mut out: Vec<Repository> = Vec::new();
    proof {
        assert(out@ + repositories_of(rest@) =~= repositories_of(orig));
    }
    while rest.len() > 0
        invariant
            out@ + repositories_of(rest@) == repositories_of(orig),
        decreases rest@.len(),
    {
        let ghost pre = rest@;
        let ghost prev_out = out@;
        let n = rest.remove(0);
        let ghost nv = n;
        let record = Repository { name: n.name_with_owner, desc: n.description, url: n.url };
        proof {
            assert(record == repository_of(nv));
            assert(repositories_of(pre) =~= seq![repository_of(nv)] + repositories_of(rest@));
        }
        out.push(record);
        proof {
            assert(out@ =~= prev_out + seq![repository_of(nv)]);
            assert(out@ + repositories_of(rest@) =~= prev_out + repositories_of(pre));
        }
    }
    proof {
        assert(repositories_of(rest@) =~= Seq::<Repository>::empty());
        assert(out@ =~= out@ + repositories_of(rest@));
    }
    out
}

/// A contribution list never shows a private repository's record: it is
/// made of the visible groups' contributions only.
pub proof fn lemma_contributions_only_visible(groups: Seq<ContributionGroup>, count: Option<i64>)
    ensures
        forall|i: int|
            0 <= i < shown_contributions(groups, count).len() ==> !(#[trigger] shown_contributions(
                groups,
                count,
            )[i]).repo_is_private,
{
    let vis = visible(groups);
    let mapped = contributions_of(vis);
    let out = shown_contributions(groups, count);
    lemma_filter_visible_no_private(groups);
    assert forall|i: int| 0 <= i < out.len() implies !(#[trigger] out[i]).repo_is_private by {
        lemma_pipeline_membership(mapped, requested_count(count), i);
        let n = choose|n: int| 0 <= n < mapped.len() && mapped[n] == out[i];
        assert(mapped[n] == contribution_of(vis[n]));
        assert(!vis[n].private());
    }
}

/// With no count given, a batch holding at least five visible repository
/// groups yields exactly five contributions.
pub proof fn lemma_contributions_default_count(groups: Seq<ContributionGroup>)
    requires
        visible(groups).len() >= 5,
    ensures
        shown_contributions(groups, None).len() == 5,
{
    assert(contributions_of(visible(groups)).len() == visible(groups).len());
    crate::transform::lemma_default_count_yields_five(contributions_of(visible(groups)));
}

/// A pull-request list never shows a private repository's record: each of
/// its records is the pull request of a visible fetched node.
pub proof fn lemma_pull_requests_only_visible(nodes: Seq<PullRequestNode>, count: Option<i64>)
    ensures
        forall|i: int|
            0 <= i < shown_pull_requests(nodes, count).len() ==> exists|n: int|
                0 <= n < visible(nodes).len() && !visible(nodes)[n].private() && (
                #[trigger] shown_pull_requests(nodes, count)[i]) == pull_request_of(
                    visible(nodes)[n],
                ),
{
    let vis = visible(nodes);
    let mapped = pull_requests_of(vis);
    let out = shown_pull_requests(nodes, count);
    lemma_filter_visible_no_private(nodes);
    assert forall|i: int| 0 <= i < out.len() implies exists|n: int|
        0 <= n < vis.len() && !(#[trigger] vis[n]).private() && (#[trigger] out[i])
            == pull_request_of(vis[n]) by {
        lemma_pipeline_membership(mapped, requested_count(count), i);
        let m = choose|m: int| 0 <= m < mapped.len() && mapped[m] == out[i];
        assert(mapped[m] == pull_request_of(vis[m]));
        assert(!vis[m].private());
        assert(0 <= m < vis.len() && !vis[m].private() && out[i] == pull_request_of(vis[m]));
    }
}

/// A repository list never shows a private repository: each of its records
/// is a visible fetched node's repository.
pub proof fn lemma_repositories_only_visible(nodes: Seq<RepositoryNode>, count: Option<i64>)
    ensures
        forall|i: int|
            0 <= i < shown_repositories(nodes, count).len() ==> exists|n: int|
                0 <= n < visible(nodes).len() && !visible(nodes)[n].private() && (
                #[trigger] shown_repositories(nodes, count)[i]) == repository_of(
                    visible(nodes)[n],
                ),
{
    let vis = visible(nodes);
    let kept = limit(sort_desc(vis), requested_count(count));
    let out = shown_repositories(nodes, count);
    lemma_filter_visible_no_private(nodes);
    assert forall|i: int| 0 <= i < out.len() implies exists|n: int|
        0 <= n < vis.len() && !(#[trigger] vis[n]).private() && (#[trigger] out[i])
            == repository_of(vis[n]) by {
        assert(out[i] == repository_of(kept[i]));
        lemma_pipeline_membership(vis, requested_count(count), i);
        let m = choose|m: int| 0 <= m < vis.len() && vis[m] == kept[i];
        assert(!vis[m].private());
        assert(0 <= m < vis.len() && !vis[m].private() && out[i] == repository_of(vis[m]));
    }
}

} // verus!
