//! Releases: their next version, and their metadata from the forges.

use vstd::prelude::*;
use crate::commit::{Commit, Forge};
use crate::remote::{
    annotations,
    commit_ids,
    contributor_views,
    reconcile,
    reconciled,
    roster,
    RemoteCommit,
    RemotePullRequest,
    RemoteReleaseMetadata,
};
use crate::version::{
    bump_at_limit,
    bump_version,
    extends_with_white_space,
    next_version_text,
    trim_end_ignores_added_white_space,
    texts,
    trim_end,
    trim_end_spec,
    Bump,
    VersionError,
};

verus! {

/// A release: a tagged version and the commits made for it.
#[derive(Debug, PartialEq, Eq, Default)]
pub struct Release {
    /// Release version, git tag.
    pub version: Option<String>,
    /// Commits made for the release.
    pub commits: Vec<Commit>,
    /// Commit ID of the tag.
    pub commit_id: Option<String>,
    /// Timestamp of the release in seconds, from epoch.
    pub timestamp: i64,
    /// Previous release.
    pub previous: Option<Box<Release>>,
    /// Contributors on GitHub.
    pub github: RemoteReleaseMetadata,
    /// Contributors on GitLab.
    pub gitlab: RemoteReleaseMetadata,
    /// Contributors on Gitea.
    pub gitea: RemoteReleaseMetadata,
    /// Contributors on Bitbucket.
    pub bitbucket: RemoteReleaseMetadata,
}

/// A list of releases, newest first.
pub struct Releases<'a> {
    /// Releases.
    pub releases: &'a Vec<Release>,
}

/// The version of a first release.
pub open spec fn first_version() -> Seq<char> {
    seq!['0', '.', '1', '.', '0']
}

/// The messages of a list of commits, without trailing whitespace.
pub open spec fn trimmed_messages(c: Seq<Commit>) -> Seq<Seq<char>> {
    c.map_values(|c: Commit| trim_end_spec(c.message@))
}

fn trim_messages(commits: &Vec<Commit>) -> (r: Vec<String>)
    ensures
        texts(r@) == trimmed_messages(commits@),
{
    let mut r: Vec<String> = Vec::new();
    let mut i: usize = 0;
    while i < commits.len()
        invariant
            i <= commits.len(),
            r@.len() == i,
            forall|j: int| 0 <= j < i ==> r@[j]@ == trim_end_spec(commits@[j].message@),
        decreases commits.len() - i,
    {
        r.push(trim_end(commits[i].message.as_str()));
        i += 1;
    }
    assert(texts(r@) =~= trimmed_messages(commits@));
    r
}

impl Release {
    /// The next version after this release's predecessor: `0.1.0` where
    /// there is no predecessor or it has no version; else the predecessor's
    /// version bumped by this release's commits, with its prefix kept;
    /// `None` where that version cannot be read.
    pub open spec fn next_version_spec(&self, config: Bump) -> Option<Seq<char>> {
        match self.previous {
            Some(p) => match p.version {
                Some(v) => next_version_text(
                    v@,
                    trimmed_messages(self.commits@),
                    config.features_minor(),
                    config.breaking_major(),
                ),
                None => Some(first_version()),
            },
            None => Some(first_version()),
        }
    }

    /// Whether the bump of the predecessor's version would pass the limit
    /// of a part's type.
    pub open spec fn next_version_at_limit(&self) -> bool {
        match self.previous {
            Some(p) => match p.version {
                Some(v) => bump_at_limit(v@, trimmed_messages(self.commits@)),
                None => false,
            },
            None => false,
        }
    }

    /// Calculates the next version from the commits, with the default bump
    /// configuration.
    pub fn calculate_next_version(&self) -> (r: Result<String, VersionError>)
        ensures
            match r {
                Ok(s) => self.next_version_spec(
                    Bump { features_always_bump_minor: None, breaking_always_bump_major: None },
                ) == Some(s@) && !self.next_version_at_limit(),
                Err(VersionError::VersionParse(_)) => self.next_version_spec(
                    Bump { features_always_bump_minor: None, breaking_always_bump_major: None },
                ) is None,
                Err(VersionError::VersionLimit) => self.next_version_at_limit(),
            },
    {
        self.calculate_next_version_with_config(&Bump::default())
    }

    /// Calculates the next version from the commits, with the given bump
    /// configuration.
    pub fn calculate_next_version_with_config(&self, config: &Bump) -> (r: Result<
        String,
        VersionError,
    >)
        ensures
            match r {
                Ok(s) => self.next_version_spec(*config) == Some(s@)
                    && !self.next_version_at_limit(),
                Err(VersionError::VersionParse(_)) => self.next_version_spec(*config) is None,
                Err(VersionError::VersionLimit) => self.next_version_at_limit(),
            },
            (self.previous is None || self.previous->0.version is None) ==> (r matches Ok(s)
                && s@ == first_version()),
    {
        let features = match config.features_always_bump_minor {
            Some(b) => b,
            None => true,
        };
        let breaking = match config.breaking_always_bump_major {
            Some(b) => b,
            None => true,
        };
        if let Some(previous) = &self.previous {
            if let Some(version) = &previous.version {
                let messages = trim_messages(&self.commits);
                return bump_version(version.as_str(), &messages, features, breaking);
            }
        }
        proof {
            reveal_strlit("0.1.0");
        }
        let first = String::from_str("0.1.0");
        assert(first@ =~= first_version());
        Ok(first)
    }

    /// What the given forge tells of the release.
    pub open spec fn metadata(&self, forge: Forge) -> RemoteReleaseMetadata {
        match forge {
            Forge::GitHub => self.github,
            Forge::GitLab => self.gitlab,
            Forge::Gitea => self.gitea,
            Forge::Bitbucket => self.bitbucket,
        }
    }

    fn set_metadata(&mut self, forge: Forge, m: RemoteReleaseMetadata)
        ensures
            final(self).metadata(forge) == m,
            forall|f: Forge| f != forge ==> #[trigger] final(self).metadata(f) == old(self).metadata(f),
            final(self).version == old(self).version,
            final(self).commits == old(self).commits,
            final(self).commit_id == old(self).commit_id,
            final(self).timestamp == old(self).timestamp,
            final(self).previous == old(self).previous,
    {
        match forge {
            Forge::GitHub => self.github = m,
            Forge::GitLab => self.gitlab = m,
            Forge::Gitea => self.gitea = m,
            Forge::Bitbucket => self.bitbucket = m,
        }
    }

    /// Annotates the release's commits with what a forge reports, and sets
    /// the forge's roster of contributors for the release.
    pub fn update_metadata(
        &mut self,
        forge: Forge,
        commits: Vec<RemoteCommit>,
        pull_requests: Vec<RemotePullRequest>,
    )
        ensures
            reconciled(old(self).commits@, final(self).commits@, forge, commits@, pull_requests@),
            contributor_views(final(self).metadata(forge).contributors@) == roster(
                annotations(commit_ids(old(self).commits@), commits@, pull_requests@),
            ),
            forall|f: Forge| f != forge ==> #[trigger] final(self).metadata(f) == old(self).metadata(f),
            final(self).version == old(self).version,
            final(self).commit_id == old(self).commit_id,
            final(self).timestamp == old(self).timestamp,
            final(self).previous == old(self).previous,
    {
        let m = reconcile(&mut self.commits, forge, &commits, &pull_requests);
        self.set_metadata(forge, m);
    }
    /// Annotates the release's commits with what GitHub reports, and sets
    /// its roster of contributors for the release.
    pub fn update_github_metadata(
        &mut self,
        commits: Vec<RemoteCommit>,
        pull_requests: Vec<RemotePullRequest>,
    )
        ensures
            reconciled(
                old(self).commits@,
                final(self).commits@,
                Forge::GitHub,
                commits@,
                pull_requests@,
            ),
            contributor_views(final(self).github.contributors@) == roster(
                annotations(commit_ids(old(self).commits@), commits@, pull_requests@),
            ),
            final(self).version == old(self).version,
            final(self).commit_id == old(self).commit_id,
            final(self).timestamp == old(self).timestamp,
            final(self).previous == old(self).previous,
            forall|f: Forge|
                f != Forge::GitHub ==> #[trigger] final(self).metadata(f) == old(self).metadata(f),
    {
        self.update_metadata(Forge::GitHub, commits, pull_requests);
    }

    /// Annotates the release's commits with what GitLab reports, and sets
    /// its roster of contributors for the release.
    pub fn update_gitlab_metadata(
        &mut self,
        commits: Vec<RemoteCommit>,
        pull_requests: Vec<RemotePullRequest>,
    )
        ensures
            reconciled(
                old(self).commits@,
                final(self).commits@,
                Forge::GitLab,
                commits@,
                pull_requests@,
            ),
            contributor_views(final(self).gitlab.contributors@) == roster(
                annotations(commit_ids(old(self).commits@), commits@, pull_requests@),
            ),
            final(self).version == old(self).version,
            final(self).commit_id == old(self).commit_id,
            final(self).timestamp == old(self).timestamp,
            final(self).previous == old(self).previous,
            forall|f: Forge|
                f != Forge::GitLab ==> #[trigger] final(self).metadata(f) == old(self).metadata(f),
    {
        self.update_metadata(Forge::GitLab, commits, pull_requests);
    }

    /// Annotates the release's commits with what Gitea reports, and sets
    /// its roster of contributors for the release.
    pub fn update_gitea_metadata(
        &mut self,
        commits: Vec<RemoteCommit>,
        pull_requests: Vec<RemotePullRequest>,
    )
        ensures
            reconciled(
                old(self).commits@,
                final(self).commits@,
                Forge::Gitea,
                commits@,
                pull_requests@,
            ),
            contributor_views(final(self).gitea.contributors@) == roster(
                annotations(commit_ids(old(self).commits@), commits@, pull_requests@),
            ),
            final(self).version == old(self).version,
            final(self).commit_id == old(self).commit_id,
            final(self).timestamp == old(self).timestamp,
            final(self).previous == old(self).previous,
            forall|f: Forge|
                f != Forge::Gitea ==> #[trigger] final(self).metadata(f) == old(self).metadata(f),
    {
        self.update_metadata(Forge::Gitea, commits, pull_requests);
    }

    /// Annotates the release's commits with what Bitbucket reports, and sets
    /// its roster of contributors for the release.
    pub fn update_bitbucket_metadata(
        &mut self,
        commits: Vec<RemoteCommit>,
        pull_requests: Vec<RemotePullRequest>,
    )
        ensures
            reconciled(
                old(self).commits@,
                final(self).commits@,
                Forge::Bitbucket,
                commits@,
                pull_requests@,
            ),
            contributor_views(final(self).bitbucket.contributors@) == roster(
                annotations(commit_ids(old(self).commits@), commits@, pull_requests@),
            ),
            final(self).version == old(self).version,
            final(self).commit_id == old(self).commit_id,
            final(self).timestamp == old(self).timestamp,
            final(self).previous == old(self).previous,
            forall|f: Forge|
                f != Forge::Bitbucket ==> #[trigger] final(self).metadata(f) == old(self).metadata(f),
    {
        self.update_metadata(Forge::Bitbucket, commits, pull_requests);
    }
}

/// Trailing whitespace added to commit messages changes neither the next
/// version nor whether the bump is at a limit: `"feat!: add xyz\n"` counts
/// as `"feat!: add xyz"`.
pub proof fn next_version_ignores_trailing_whitespace(a: Release, b: Release, config: Bump)
    requires
        a.previous == b.previous,
        a.commits@.len() == b.commits@.len(),
        forall|i: int|
            0 <= i < a.commits@.len() ==> extends_with_white_space(
                #[trigger] a.commits@[i].message@,
                b.commits@[i].message@,
            ),
    ensures
        a.next_version_spec(config) == b.next_version_spec(config),
        a.next_version_at_limit() == b.next_version_at_limit(),
{
    assert forall|i: int| 0 <= i < a.commits@.len() implies #[trigger] trimmed_messages(
        a.commits@,
    )[i] == trimmed_messages(b.commits@)[i] by {
        trim_end_ignores_added_white_space(a.commits@[i].message@, b.commits@[i].message@);
    }
    assert(trimmed_messages(a.commits@) =~= trimmed_messages(b.commits@));
}

/// Without a previous version the next version is `0.1.0`, whatever the
/// commits and the bump configuration.
pub proof fn first_release_version(r: Release, config: Bump)
    requires
        r.previous is None || r.previous->0.version is None,
    ensures
        r.next_version_spec(config) == Some(first_version()),
{
}

} // verus!
