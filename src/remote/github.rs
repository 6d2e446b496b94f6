//! Commits and pull requests as the GitHub REST API reports them.

use vstd::prelude::*;
use crate::remote::{RemoteCommit, RemotePullRequest};
use crate::version::texts;

verus! {

/// Representation of a single commit.
#[derive(Debug, Clone, PartialEq, Eq, Default)]
pub struct GitHubCommit {
    /// SHA.
    pub sha: String,
    /// Author of the commit.
    pub author: Option<GitHubCommitAuthor>,
}

/// Author of the commit.
#[derive(Debug, Clone, PartialEq, Eq, Default)]
pub struct GitHubCommitAuthor {
    /// Username.
    pub login: Option<String>,
}

/// Label of the pull request.
#[derive(Debug, Clone, PartialEq, Eq, Default)]
pub struct PullRequestLabel {
    /// Name of the label.
    pub name: String,
}

/// Representation of a single pull request.
#[derive(Debug, Clone, PartialEq, Eq, Default)]
pub struct GitHubPullRequest {
    /// Pull request number.
    pub number: i64,
    /// Pull request title.
    pub title: Option<String>,
    /// SHA of the merge commit.
    pub merge_commit_sha: Option<String>,
    /// Labels of the pull request.
    pub labels: Vec<PullRequestLabel>,
}

/// The names of a list of labels.
pub open spec fn label_names(l: Seq<PullRequestLabel>) -> Seq<Seq<char>> {
    l.map_values(|l: PullRequestLabel| l.name@)
}

/// The names of a list of labels, in order.
pub fn names_of_labels(labels: &Vec<PullRequestLabel>) -> (r: Vec<String>)
    ensures
        texts(r@) == label_names(labels@),
{
    let mut r: Vec<String> = Vec::new();
    let mut i: usize = 0;
    while i < labels.len()
        invariant
            i <= labels.len(),
            r@.len() == i,
            forall|j: int| 0 <= j < i ==> r@[j]@ == labels@[j].name@,
        decreases labels.len() - i,
    {
        r.push(labels[i].name.clone());
        i += 1;
    }
    assert(texts(r@) =~= label_names(labels@));
    r
}

/// The login of a commit's author, if any.
pub open spec fn author_login(author: Option<GitHubCommitAuthor>) -> Option<String> {
    match author {
        Some(a) => a.login,
        None => None,
    }
}

impl GitHubCommit {
    /// The forge-neutral form of the commit.
    pub fn into_remote(self) -> (r: RemoteCommit)
        ensures
            r.id == self.sha,
            r.username == author_login(self.author),
    {
        let username = match self.author {
            Some(a) => a.login,
            None => None,
        };
        RemoteCommit { id: self.sha, username }
    }
}

impl GitHubPullRequest {
    /// The forge-neutral form of the pull request.
    pub fn into_remote(self) -> (r: RemotePullRequest)
        ensures
            r.number == self.number,
            r.title == self.title,
            r.merge_commit == self.merge_commit_sha,
            texts(r.labels@) == label_names(self.labels@),
    {
        let labels = names_of_labels(&self.labels);
        RemotePullRequest {
            number: self.number,
            title: self.title,
            labels,
            merge_commit: self.merge_commit_sha,
        }
    }
}

} // verus!
