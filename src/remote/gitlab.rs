//! Projects, commits and merge requests as the GitLab REST API reports them.

use vstd::prelude::*;
use crate::remote::{RemoteCommit, RemotePullRequest};

verus! {

/// Representation of a single GitLab project.
#[derive(Debug, Clone, PartialEq, Eq, Default)]
pub struct GitLabProject {
    /// GitLab id of the project.
    pub id: i64,
}

/// Representation of a single commit.
#[derive(Debug, Clone, PartialEq, Eq, Default)]
pub struct GitLabCommit {
    /// SHA.
    pub id: String,
    /// Author.
    pub author_name: String,
    /// Date of the commit.
    pub committed_date: String,
}

/// Representation of a single merge request.
#[derive(Debug, Clone, PartialEq, Eq, Default)]
pub struct GitLabMergeRequest {
    /// Project-wide number of the merge request.
    pub iid: i64,
    /// Title.
    pub title: String,
    /// SHA of the merge commit.
    pub merge_commit_sha: Option<String>,
    /// Labels.
    pub labels: Vec<String>,
}

impl GitLabCommit {
    /// The forge-neutral form of the commit: GitLab always names the author.
    pub fn into_remote(self) -> (r: RemoteCommit)
        ensures
            r.id == self.id,
            r.username == Some(self.author_name),
    {
        RemoteCommit { id: self.id, username: Some(self.author_name) }
    }
}

impl GitLabMergeRequest {
    /// The forge-neutral form of the merge request.
    pub fn into_remote(self) -> (r: RemotePullRequest)
        ensures
            r.number == self.iid,
            r.title == Some(self.title),
            r.merge_commit == self.merge_commit_sha,
            r.labels == self.labels,
    {
        RemotePullRequest {
            number: self.iid,
            title: Some(self.title),
            labels: self.labels,
            merge_commit: self.merge_commit_sha,
        }
    }
}

} // verus!
