//! Commits and pull requests as the Gitea REST API reports them.

use vstd::prelude::*;
use crate::remote::github::{label_names, names_of_labels, PullRequestLabel};
use crate::remote::{RemoteCommit, RemotePullRequest};
use crate::version::texts;

verus! {

/// Representation of a single commit.
#[derive(Debug, Clone, PartialEq, Eq, Default)]
pub struct GiteaCommit {
    /// SHA.
    pub sha: String,
    /// Author of the commit.
    pub author: Option<GiteaCommitAuthor>,
}

/// Author of the commit.
#[derive(Debug, Clone, PartialEq, Eq, Default)]
pub struct GiteaCommitAuthor {
    /// Username.
    pub login: Option<String>,
}

/// Representation of a single pull request.
#[derive(Debug, Clone, PartialEq, Eq, Default)]
pub struct GiteaPullRequest {
    /// Pull request number.
    pub number: i64,
    /// Pull request title.
    pub title: Option<String>,
    /// SHA of the merge commit.
    pub merge_commit_sha: Option<String>,
    /// Labels of the pull request.
    pub labels: Vec<PullRequestLabel>,
}

/// The login of a commit's author, if any.
pub open spec fn author_login(author: Option<GiteaCommitAuthor>) -> Option<String> {
    match author {
        Some(a) => a.login,
        None => None,
    }
}

impl GiteaCommit {
    /// The forge-neutral form of the commit.
    pub fn into_remote(self) -> (r: RemoteCommit)
        ensures
            r.id == self.sha,
            r.username == author_login(self.author),
    {
        let username = match self.author {
            Some(a) => a.login,
            None => None,
        };
        RemoteCommit { id: self.sha, username }
    }
}

impl GiteaPullRequest {
    /// The forge-neutral form of the pull request.
    pub fn into_remote(self) -> (r: RemotePullRequest)
        ensures
            r.number == self.number,
            r.title == self.title,
            r.merge_commit == self.merge_commit_sha,
            texts(r.labels@) == label_names(self.labels@),
    {
        let labels = names_of_labels(&self.labels);
        RemotePullRequest {
            number: self.number,
            title: self.title,
            labels,
            merge_commit: self.merge_commit_sha,
        }
    }
}

} // verus!
