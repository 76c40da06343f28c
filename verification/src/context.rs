//! Configuration data for one run of the bot: which repositories to act
//! on and the per-repository merge policy.

use vstd::prelude::*;

verus! {

/// Configuration options available for the action.
#[derive(Debug)]
pub struct Config {
    /// The user or organisation that owns the repos.
    pub owner: String,
    /// The repos to be run on, and their config.
    pub repos: Vec<RepoConfig>,
    /// Whether to skip applying the changes or not.
    pub dry_run: bool,
    /// The base URL of the platform API, when not the default one.
    pub github_api_base: Option<String>,
    /// Extra headers to add to each request made to the platform API.
    pub extra_headers: Vec<(String, String)>,
}

/// Per-repository policy.
#[derive(Debug, Clone)]
pub struct RepoConfig {
    /// The name of the repo.
    pub name: String,
    /// The label added when a PR does not have a body.
    pub needs_description_label: Option<String>,
    /// The statuses that must all pass for the PR to be automerged.
    pub required_statuses: Vec<String>,
    /// The label applied when all of the PR's required status checks have
    /// passed.
    pub ci_passed_label: Option<String>,
    /// Label applied when the PR's reviews are all accepting.
    pub reviewed_label: Option<String>,
    /// Label that can be manually added to PRs to not block on reviews,
    /// for trivial changes. A standing request for changes still blocks.
    pub skip_review_label: Option<String>,
    /// Label that can be manually added to PRs to block automerge.
    pub block_merge_label: Option<String>,
    /// The period in seconds between when a PR can be automerged and when
    /// the action actually tries to perform the merge.
    pub automerge_grace_period: Option<u64>,
    /// The method to use for merging the PR.
    pub merge_method: MergeMethod,
    /// Whether a comment review counts as requesting changes.
    pub comment_requests_change: bool,
    /// Whether the bot watches for comments asking why it is stuck, and
    /// answers them.
    pub react_to_comments: bool,
}

/// The method used to merge a pull request.
#[derive(Debug, Clone, Copy, PartialEq, Eq, Structural)]
pub enum MergeMethod {
    Merge,
    Squash,
    Rebase,
}

impl Default for MergeMethod {
    fn default() -> (r: Self)
        ensures
            r == MergeMethod::Merge,
    {
        MergeMethod::Merge
    }
}

} // verus!
