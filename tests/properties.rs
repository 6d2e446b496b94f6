use git_cliff_core::commit::{Commit, Forge};
use git_cliff_core::release::Release;
use git_cliff_core::remote::{
    annotate,
    reconcile,
    RemoteCommit,
    RemoteContributor,
    RemotePullRequest,
};
use git_cliff_core::version::{bump_version, render_version, split_version, Bump, SemVer, VersionError};

fn release_after(version: Option<&str>, messages: &[&str]) -> Release {
    Release {
        commits: messages
            .iter()
            .map(|m| Commit::new(String::new(), m.to_string()))
            .collect(),
        previous: Some(Box::new(Release {
            version: version.map(String::from),
            ..Default::default()
        })),
        ..Default::default()
    }
}

fn next_of(version: Option<&str>, messages: &[&str], config: &Bump) -> String {
    match release_after(version, messages).calculate_next_version_with_config(config) {
        Ok(v) => v,
        Err(_) => panic!("no next version after {version:?}"),
    }
}

fn policy(features: bool, breaking: bool) -> Bump {
    Bump {
        features_always_bump_minor: Some(features),
        breaking_always_bump_major: Some(breaking),
    }
}

fn remote_commit(id: &str, username: Option<&str>) -> RemoteCommit {
    RemoteCommit { id: String::from(id), username: username.map(String::from) }
}

fn pull_request(number: i64, title: &str, merge: Option<&str>, labels: &[&str]) -> RemotePullRequest {
    RemotePullRequest {
        number,
        title: Some(String::from(title)),
        labels: labels.iter().map(|l| l.to_string()).collect(),
        merge_commit: merge.map(String::from),
    }
}

fn commits_with_ids(ids: &[&str]) -> Vec<Commit> {
    ids.iter().map(|id| Commit::new(id.to_string(), String::from("msg"))).collect()
}

#[test]
fn first_release_is_0_1_0_under_every_policy() {
    for (features, breaking) in [(true, true), (true, false), (false, true), (false, false)] {
        assert_eq!("0.1.0", next_of(None, &["feat!: big", "fix: small"], &policy(features, breaking)));
        assert_eq!("0.1.0", next_of(None, &[], &policy(features, breaking)));
    }
    let orphan = Release { commits: vec![Commit::new(String::new(), "feat: x".to_string())], ..Default::default() };
    assert!(matches!(orphan.calculate_next_version(), Ok(v) if v == "0.1.0"));
}

#[test]
fn prefix_is_preserved() {
    assert_eq!("foo/1.1.0", next_of(Some("foo/1.0.0"), &["feat: x", "fix: y"], &Bump::default()));
}

#[test]
fn pathological_prefix_is_preserved() {
    assert_eq!(
        "zzz-123/test/1.0.1",
        next_of(Some("zzz-123/test/1.0.0"), &["fix: aaaaaa"], &Bump::default())
    );
}

#[test]
fn breaking_commit_bumps_major() {
    assert_eq!("2.0.0", next_of(Some("1.0.0"), &["feat!: add xyz", "feat: zzz"], &Bump::default()));
}

/// Before 1.0, and with neither bump forced, every release is a patch
/// release, breaking changes included.
#[test]
fn pre_stable_policy_without_forced_bumps() {
    assert_eq!(
        "0.1.1",
        next_of(Some("0.1.0"), &["feat!: add xyz", "feat: zzz"], &policy(false, false))
    );
}

#[test]
fn trailing_newline_does_not_change_the_bump() {
    for version in ["0.0.1", "0.1.0", "1.0.0", "v2.3.4"] {
        for config in [Bump::default(), policy(false, false), policy(true, false), policy(false, true)] {
            assert_eq!(
                next_of(Some(version), &["feat!: add xyz\n"], &config),
                next_of(Some(version), &["feat!: add xyz"], &config)
            );
        }
    }
}

#[test]
fn unreadable_version_is_an_error() {
    let release = release_after(Some("not-a-version"), &["fix: x"]);
    assert!(matches!(release.calculate_next_version(), Err(VersionError::VersionParse(_))));
    let dotted = release_after(Some("release.candidate"), &["fix: x"]);
    assert!(matches!(dotted.calculate_next_version(), Err(VersionError::VersionParse(_))));
    assert!(bump_version("x1.2", &vec![String::from("fix: x")], true, true).is_err());
}

#[test]
fn no_commits_keep_the_version() {
    assert!(matches!(bump_version("v1.2.3", &vec![], true, true), Ok(v) if v == "v1.2.3"));
}

#[test]
fn version_text_has_all_parts() {
    let v = SemVer {
        major: 10,
        minor: 0,
        patch: 345,
        pre: String::from("rc.1"),
        build: String::from("b5"),
    };
    assert_eq!("v10.0.345-rc.1+b5", render_version("v", &v));
    let plain = SemVer { major: 0, minor: 7, patch: 18446744073709551615, pre: String::new(), build: String::new() };
    assert_eq!("0.7.18446744073709551615", render_version("", &plain));
}

#[test]
fn split_version_finds_the_first_parsable_run() {
    match split_version("tauri-v1.5.4") {
        Ok((prefix, v)) => {
            assert_eq!("tauri-v", prefix);
            assert_eq!((1, 5, 4), (v.major, v.minor, v.patch));
        }
        Err(_) => panic!("tauri-v1.5.4 holds a version"),
    }
    match split_version("a1b/2.3.4-rc.7") {
        Ok((prefix, v)) => {
            assert_eq!("a1b/", prefix);
            assert_eq!((2, 3, 4, "rc.7"), (v.major, v.minor, v.patch, v.pre.as_str()));
        }
        Err(_) => panic!("a1b/2.3.4-rc.7 holds a version"),
    }
    match split_version("1.2.3") {
        Ok((prefix, v)) => assert_eq!(("", 1, 2, 3), (prefix.as_str(), v.major, v.minor, v.patch)),
        Err(_) => panic!("1.2.3 is a version"),
    }
}

#[test]
fn reconciling_twice_gives_the_same_metadata() {
    let rcs = vec![remote_commit("a", Some("orhun")), remote_commit("b", Some("nuhro"))];
    let prs = vec![pull_request(7, "seven", Some("a"), &["rust"])];
    let mut first = commits_with_ids(&["a", "b", "c"]);
    let m1 = reconcile(&mut first, Forge::GitHub, &rcs, &prs);
    let mut fresh = commits_with_ids(&["a", "b", "c"]);
    let m2 = reconcile(&mut fresh, Forge::GitHub, &rcs, &prs);
    assert_eq!(m1, m2);
    assert_eq!(first, fresh);
    let m3 = reconcile(&mut first, Forge::GitHub, &rcs, &prs);
    assert_eq!(m1, m3);
    assert_eq!(first, fresh);
}

#[test]
fn unmatched_sha_learns_nothing_and_appears_once() {
    let rcs = vec![remote_commit("a", Some("orhun")), remote_commit("", None)];
    let prs = vec![pull_request(1, "one", Some("a"), &["x"]), pull_request(2, "two", None, &[])];
    let mut commits = commits_with_ids(&["zz", "a", "yy"]);
    let meta = reconcile(&mut commits, Forge::GitLab, &rcs, &prs);
    assert_eq!(RemoteContributor::default(), commits[0].gitlab);
    assert_eq!(RemoteContributor::default(), commits[2].gitlab);
    assert_eq!(1, meta.contributors.iter().filter(|c| c.username.is_none()).count());
    assert_eq!(2, meta.contributors.len());
    assert_eq!(None, meta.contributors[0].username);
    assert!(meta.contributors.iter().all(|c| c.is_first_time));
}

#[test]
fn roster_groups_by_username() {
    let ids = ["c1", "c2", "c3", "c4", "c5", "c6"];
    let rcs = vec![
        remote_commit("c1", Some("orhun")),
        remote_commit("c2", Some("orhun")),
        remote_commit("c3", Some("nuhro")),
        remote_commit("c4", Some("awesome_contributor")),
        remote_commit("c5", Some("orhun")),
        remote_commit("c6", Some("someone")),
    ];
    let prs = vec![
        pull_request(11, "first", Some("c2"), &["a"]),
        pull_request(12, "second", Some("c3"), &["b"]),
        pull_request(13, "third", Some("c4"), &[]),
        pull_request(14, "fourth", Some("c5"), &["c"]),
    ];
    let mut commits = commits_with_ids(&ids);
    let meta = reconcile(&mut commits, Forge::GitHub, &rcs, &prs);
    let names: Vec<Option<&str>> = meta.contributors.iter().map(|c| c.username.as_deref()).collect();
    assert_eq!(vec![Some("orhun"), Some("nuhro"), Some("awesome_contributor"), Some("someone")], names);
    assert!(meta.contributors.iter().all(|c| c.is_first_time));
    assert_eq!((Some("first"), Some(11)), (meta.contributors[0].pr_title.as_deref(), meta.contributors[0].pr_number));
    assert_eq!(vec![String::from("a")], meta.contributors[0].pr_labels);
    assert_eq!(Some(12), meta.contributors[1].pr_number);
    assert_eq!(Some(13), meta.contributors[2].pr_number);
    assert_eq!(None, meta.contributors[3].pr_number);
    assert!(commits.iter().all(|c| !c.github.is_first_time));
}

#[test]
fn later_duplicates_win() {
    let rcs = vec![remote_commit("a", Some("old")), remote_commit("a", Some("new"))];
    let prs = vec![pull_request(1, "old", Some("a"), &["x"]), pull_request(2, "new", Some("a"), &["y", "z"])];
    let c = annotate(&String::from("a"), &rcs, &prs);
    assert_eq!(Some(String::from("new")), c.username);
    assert_eq!(Some(String::from("new")), c.pr_title);
    assert_eq!(Some(2), c.pr_number);
    assert_eq!(vec![String::from("y"), String::from("z")], c.pr_labels);
    assert!(!c.is_first_time);
}

#[test]
fn empty_sha_matches_only_an_empty_id() {
    let rcs = vec![remote_commit("", Some("ghost"))];
    let prs = vec![pull_request(3, "t", Some(""), &[])];
    assert_eq!(RemoteContributor::default(), annotate(&String::from("abc"), &rcs, &prs));
    let c = annotate(&String::new(), &rcs, &prs);
    assert_eq!(Some(String::from("ghost")), c.username);
    assert_eq!(Some(3), c.pr_number);
}

#[test]
fn reconcile_touches_only_its_forge() {
    let rcs = vec![remote_commit("a", Some("orhun"))];
    let mut release = Release { commits: commits_with_ids(&["a"]), ..Default::default() };
    release.update_metadata(Forge::Bitbucket, rcs, vec![]);
    assert_eq!(Some(String::from("orhun")), release.commits[0].bitbucket.username);
    assert_eq!(RemoteContributor::default(), release.commits[0].github);
    assert_eq!(1, release.bitbucket.contributors.len());
    assert!(release.github.contributors.is_empty());
    assert_eq!("msg", release.commits[0].message);
}

#[test]
fn unforced_pre_stable_releases_are_patch_releases() {
    assert_eq!("0.3.8", next_of(Some("0.3.7"), &["feat!: x"], &policy(false, false)));
    assert_eq!("0.3.8+build.5", next_of(Some("0.3.7+build.5"), &["feat: x"], &policy(false, false)));
    assert_eq!("0.4.0", next_of(Some("0.3.7"), &["feat!: x"], &policy(true, false)));
    assert_eq!("0.3.7-rc.2", next_of(Some("0.3.7-rc.1"), &["feat!: x"], &policy(false, false)));
    assert_eq!("0.3.7", next_of(Some("0.3.7"), &[], &policy(false, false)));
}

#[test]
fn bump_past_a_limit_is_an_error() {
    let at_patch_limit = release_after(Some("0.0.18446744073709551615"), &["fix: x"]);
    assert!(matches!(at_patch_limit.calculate_next_version(), Err(VersionError::VersionLimit)));
    let at_major_limit = release_after(Some("v18446744073709551615.0.0"), &["feat!: x"]);
    assert!(matches!(at_major_limit.calculate_next_version(), Err(VersionError::VersionLimit)));
    let at_pre_limit = release_after(Some("1.0.0-a.4294967295"), &["fix: x"]);
    assert!(matches!(at_pre_limit.calculate_next_version(), Err(VersionError::VersionLimit)));
    let zero_padded = release_after(Some("1.0.0-a.004294967295"), &["fix: x"]);
    assert!(matches!(zero_padded.calculate_next_version(), Err(VersionError::VersionParse(_))));
    assert_eq!("1.0.0-a.4294967294", next_of(Some("1.0.0-a.4294967293"), &["fix: x"], &Bump::default()));
    assert_eq!(
        "1.0.0-a.4294967296.1",
        next_of(Some("1.0.0-a.4294967296"), &["fix: x"], &Bump::default())
    );
    assert_eq!(
        "0.0.18446744073709551615",
        next_of(Some("0.0.18446744073709551615"), &[], &Bump::default())
    );
}

#[test]
fn any_trailing_whitespace_is_ignored() {
    for config in [Bump::default(), policy(false, false), policy(true, false), policy(false, true)] {
        assert_eq!(
            next_of(Some("1.0.0"), &["feat!: add xyz \t\r\n\u{a0}\u{3000}", "fix: y\n\n"], &config),
            next_of(Some("1.0.0"), &["feat!: add xyz", "fix: y"], &config)
        );
    }
    assert_eq!("2.0.0", next_of(Some("1.0.0"), &["feat!: add xyz\u{2028}"], &Bump::default()));
}
