//! Commits of a release, with what each forge tells of them.

use vstd::prelude::*;
use crate::remote::RemoteContributor;

verus! {

/// A git forge whose metadata a release can carry.
#[derive(Debug, Clone, Copy, PartialEq, Eq, Structural)]
pub enum Forge {
    GitHub,
    GitLab,
    Gitea,
    Bitbucket,
}

/// A commit of a release.
#[derive(Debug, Clone, PartialEq, Eq, Default)]
pub struct Commit {
    /// Full SHA of the commit.
    pub id: String,
    /// Commit message.
    pub message: String,
    /// What GitHub tells of the commit.
    pub github: RemoteContributor,
    /// What GitLab tells of the commit.
    pub gitlab: RemoteContributor,
    /// What Gitea tells of the commit.
    pub gitea: RemoteContributor,
    /// What Bitbucket tells of the commit.
    pub bitbucket: RemoteContributor,
}

impl Commit {
    /// A commit with an id and a message, and nothing known from any forge.
    pub fn new(id: String, message: String) -> (r: Commit)
        ensures
            r.id == id,
            r.message == message,
            forall|f: Forge| #[trigger] r.remote(f)@ == RemoteContributor::empty_view(),
    {
        Commit {
            id,
            message,
            github: RemoteContributor::empty(),
            gitlab: RemoteContributor::empty(),
            gitea: RemoteContributor::empty(),
            bitbucket: RemoteContributor::empty(),
        }
    }

    /// What the given forge tells of the commit.
    pub open spec fn remote(&self, forge: Forge) -> RemoteContributor {
        match forge {
            Forge::GitHub => self.github,
            Forge::GitLab => self.gitlab,
            Forge::Gitea => self.gitea,
            Forge::Bitbucket => self.bitbucket,
        }
    }

    /// Sets what the given forge tells of the commit.
    pub fn set_remote(&mut self, forge: Forge, c: RemoteContributor)
        ensures
            final(self).id == old(self).id,
            final(self).message == old(self).message,
            final(self).remote(forge) == c,
            forall|f: Forge| f != forge ==> #[trigger] final(self).remote(f) == old(self).remote(f),
    {
        match forge {
            Forge::GitHub => self.github = c,
            Forge::GitLab => self.gitlab = c,
            Forge::Gitea => self.gitea = c,
            Forge::Bitbucket => self.bitbucket = c,
        }
    }
}

} // verus!
