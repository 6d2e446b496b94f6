//! Forge-neutral commit and pull request records, and the join of a
//! release's commits with them.

use vstd::prelude::*;
use vstd::string::*;
use crate::version::texts;
use crate::commit::{Commit, Forge};

pub mod github;
pub mod gitlab;
pub mod gitea;

verus! {

/// A commit as a forge reports it.
pub struct RemoteCommit {
    /// Full SHA of the commit.
    pub id: String,
    /// Username of its author, where the forge knows one.
    pub username: Option<String>,
}

/// A pull request (or merge request) as a forge reports it.
pub struct RemotePullRequest {
    /// Number of the pull request.
    pub number: i64,
    /// Title of the pull request.
    pub title: Option<String>,
    /// Names of its labels, in order.
    pub labels: Vec<String>,
    /// SHA of the commit that merged it.
    pub merge_commit: Option<String>,
}

/// What a forge tells of the author of a commit, and of its pull request.
#[derive(Debug, Clone, PartialEq, Eq, Default)]
pub struct RemoteContributor {
    /// Username of the author.
    pub username: Option<String>,
    /// Title of the pull request.
    pub pr_title: Option<String>,
    /// Number of the pull request.
    pub pr_number: Option<i64>,
    /// Labels of the pull request.
    pub pr_labels: Vec<String>,
    /// Whether the contributor was first recorded in this release.
    pub is_first_time: bool,
}

/// What a forge tells of a release: its contributors.
#[derive(Debug, Clone, PartialEq, Eq, Default)]
pub struct RemoteReleaseMetadata {
    /// One entry for each distinct username among the release's commits.
    pub contributors: Vec<RemoteContributor>,
}

impl RemoteContributor {
    /// The view of a contributor of whom nothing is known.
    pub open spec fn empty_view() -> ContributorView {
        ContributorView {
            username: None,
            pr_title: None,
            pr_number: None,
            pr_labels: Seq::empty(),
            is_first_time: false,
        }
    }

    /// A contributor of whom nothing is known.
    pub fn empty() -> (r: RemoteContributor)
        ensures
            r@ == Self::empty_view(),
    {
        let r = RemoteContributor {
            username: None,
            pr_title: None,
            pr_number: None,
            pr_labels: Vec::new(),
            is_first_time: false,
        };
        assert(r@.pr_labels =~= Seq::<Seq<char>>::empty());
        r
    }
}

/// The view of a contributor: its texts as sequences of characters.
pub ghost struct ContributorView {
    pub username: Option<Seq<char>>,
    pub pr_title: Option<Seq<char>>,
    pub pr_number: Option<i64>,
    pub pr_labels: Seq<Seq<char>>,
    pub is_first_time: bool,
}

/// The view of an optional text.
pub open spec fn opt_text(o: Option<String>) -> Option<Seq<char>> {
    match o {
        Some(s) => Some(s@),
        None => None,
    }
}

impl View for RemoteContributor {
    type V = ContributorView;

    open spec fn view(&self) -> ContributorView {
        ContributorView {
            username: opt_text(self.username),
            pr_title: opt_text(self.pr_title),
            pr_number: self.pr_number,
            pr_labels: texts(self.pr_labels@),
            is_first_time: self.is_first_time,
        }
    }
}

/// The views of a list of contributors.
pub open spec fn contributor_views(v: Seq<RemoteContributor>) -> Seq<ContributorView> {
    v.map_values(|c: RemoteContributor| c@)
}

/// The index of the last remote commit with the given SHA.
pub open spec fn last_commit_match(rcs: Seq<RemoteCommit>, id: Seq<char>) -> Option<int>
    decreases rcs.len(),
{
    if rcs.len() == 0 {
        None
    } else if rcs.last().id@ == id {
        Some(rcs.len() - 1)
    } else {
        last_commit_match(rcs.drop_last(), id)
    }
}

/// Whether a pull request was merged by the commit with the given SHA.
pub open spec fn merged_by(pr: RemotePullRequest, id: Seq<char>) -> bool {
    match pr.merge_commit {
        Some(m) => m@ == id,
        None => false,
    }
}

/// The index of the last pull request merged by the commit with the given SHA.
pub open spec fn last_pr_match(prs: Seq<RemotePullRequest>, id: Seq<char>) -> Option<int>
    decreases prs.len(),
{
    if prs.len() == 0 {
        None
    } else if merged_by(prs.last(), id) {
        Some(prs.len() - 1)
    } else {
        last_pr_match(prs.drop_last(), id)
    }
}

/// What a commit with the given SHA learns from the forge: the author of
/// the last remote commit with that SHA, and the fields of the last pull
/// request that it merged; `None` and empty where there is none.
pub open spec fn annotation(
    id: Seq<char>,
    rcs: Seq<RemoteCommit>,
    prs: Seq<RemotePullRequest>,
) -> ContributorView {
    let username = match last_commit_match(rcs, id) {
        Some(i) => opt_text(rcs[i].username),
        None => None,
    };
    match last_pr_match(prs, id) {
        Some(j) => ContributorView {
            username,
            pr_title: opt_text(prs[j].title),
            pr_number: Some(prs[j].number),
            pr_labels: texts(prs[j].labels@),
            is_first_time: false,
        },
        None => ContributorView {
            username,
            pr_title: None,
            pr_number: None,
            pr_labels: Seq::empty(),
            is_first_time: false,
        },
    }
}

/// The annotations of a list of commit SHAs, in order.
pub open spec fn annotations(
    ids: Seq<Seq<char>>,
    rcs: Seq<RemoteCommit>,
    prs: Seq<RemotePullRequest>,
) -> Seq<ContributorView> {
    ids.map_values(|id: Seq<char>| annotation(id, rcs, prs))
}

/// Whether any pull request field differs from its default.
pub open spec fn has_pr(c: ContributorView) -> bool {
    c.pr_title is Some || c.pr_number is Some || c.pr_labels.len() > 0
}

/// A contributor as it enters a release's roster.
pub open spec fn roster_entry(c: ContributorView) -> ContributorView {
    ContributorView {
        username: c.username,
        pr_title: c.pr_title,
        pr_number: c.pr_number,
        pr_labels: c.pr_labels,
        is_first_time: true,
    }
}

/// The first index at or after `k` of a roster entry with the username.
pub open spec fn find_user_from(r: Seq<ContributorView>, u: Option<Seq<char>>, k: nat) -> Option<
    nat,
>
    decreases r.len() - k,
{
    if k >= r.len() {
        None
    } else if r[k as int].username == u {
        Some(k)
    } else {
        find_user_from(r, u, k + 1)
    }
}

/// A roster after one more commit: a new username gets an entry at the
/// end; a known one takes the commit's pull request only where its entry
/// has none yet.
pub open spec fn roster_add(r: Seq<ContributorView>, c: ContributorView) -> Seq<ContributorView> {
    match find_user_from(r, c.username, 0) {
        None => r.push(roster_entry(c)),
        Some(k) => if !has_pr(r[k as int]) && has_pr(c) {
            r.update(k as int, roster_entry(c))
        } else {
            r
        },
    }
}

/// The roster of a release from the annotations of its commits, in order:
/// one entry for each username (absence of one included), in order of first
/// appearance, with the pull request of the first commit of that username
/// that has one.
pub open spec fn roster(a: Seq<ContributorView>) -> Seq<ContributorView>
    decreases a.len(),
{
    if a.len() == 0 {
        Seq::empty()
    } else {
        roster_add(roster(a.drop_last()), a.last())
    }
}

fn copy_text(o: &Option<String>) -> (r: Option<String>)
    ensures
        opt_text(r) == opt_text(*o),
{
    match o {
        Some(s) => Some(s.clone()),
        None => None,
    }
}

fn copy_texts(v: &Vec<String>) -> (r: Vec<String>)
    ensures
        texts(r@) == texts(v@),
{
    let mut r: Vec<String> = Vec::new();
    let mut i: usize = 0;
    while i < v.len()
        invariant
            i <= v.len(),
            r@.len() == i,
            forall|j: int| 0 <= j < i ==> r@[j]@ == v@[j]@,
        decreases v.len() - i,
    {
        r.push(v[i].clone());
        i += 1;
    }
    assert(texts(r@) =~= texts(v@));
    r
}

fn same_text(a: &Option<String>, b: &Option<String>) -> (r: bool)
    ensures
        r == (opt_text(*a) == opt_text(*b)),
{
    match (a, b) {
        (Some(x), Some(y)) => *x == *y,
        (None, None) => true,
        _ => false,
    }
}

fn find_commit(id: &String, rcs: &Vec<RemoteCommit>) -> (r: Option<usize>)
    ensures
        match r {
            Some(i) => i < rcs@.len() && last_commit_match(rcs@, id@) == Some(i as int),
            None => last_commit_match(rcs@, id@) is None,
        },
{
    let mut found: Option<usize> = None;
    let mut i: usize = 0;
    while i < rcs.len()
        invariant
            i <= rcs.len(),
            match found {
                Some(k) => k < i && last_commit_match(rcs@.subrange(0, i as int), id@) == Some(k as int),
                None => last_commit_match(rcs@.subrange(0, i as int), id@) is None,
            },
        decreases rcs.len() - i,
    {
        assert(rcs@.subrange(0, i + 1).drop_last() =~= rcs@.subrange(0, i as int));
        if rcs[i].id == *id {
            found = Some(i);
        }
        i += 1;
    }
    assert(rcs@.subrange(0, rcs.len() as int) =~= rcs@);
    found
}

fn find_pull_request(id: &String, prs: &Vec<RemotePullRequest>) -> (r: Option<usize>)
    ensures
        match r {
            Some(i) => i < prs@.len() && last_pr_match(prs@, id@) == Some(i as int),
            None => last_pr_match(prs@, id@) is None,
        },
{
    let mut found: Option<usize> = None;
    let mut i: usize = 0;
    while i < prs.len()
        invariant
            i <= prs.len(),
            match found {
                Some(k) => k < i && last_pr_match(prs@.subrange(0, i as int), id@) == Some(k as int),
                None => last_pr_match(prs@.subrange(0, i as int), id@) is None,
            },
        decreases prs.len() - i,
    {
        assert(prs@.subrange(0, i + 1).drop_last() =~= prs@.subrange(0, i as int));
        let merged = match &prs[i].merge_commit {
            Some(m) => *m == *id,
            None => false,
        };
        if merged {
            found = Some(i);
        }
        i += 1;
    }
    assert(prs@.subrange(0, prs.len() as int) =~= prs@);
    found
}

/// Annotates the commit with the given SHA from the forge's commits and
/// pull requests.
pub fn annotate(id: &String, rcs: &Vec<RemoteCommit>, prs: &Vec<RemotePullRequest>) -> (r:
    RemoteContributor)
    ensures
        r@ == annotation(id@, rcs@, prs@),
{
    let username = match find_commit(id, rcs) {
        Some(i) => copy_text(&rcs[i].username),
        None => None,
    };
    match find_pull_request(id, prs) {
        Some(j) => RemoteContributor {
            username,
            pr_title: copy_text(&prs[j].title),
            pr_number: Some(prs[j].number),
            pr_labels: copy_texts(&prs[j].labels),
            is_first_time: false,
        },
        None => {
            let r = RemoteContributor {
                username,
                pr_title: None,
                pr_number: None,
                pr_labels: Vec::new(),
                is_first_time: false,
            };
            assert(r@.pr_labels =~= Seq::<Seq<char>>::empty());
            r
        },
    }
}

fn entry_of(c: &RemoteContributor) -> (r: RemoteContributor)
    ensures
        r@ == roster_entry(c@),
{
    RemoteContributor {
        username: copy_text(&c.username),
        pr_title: copy_text(&c.pr_title),
        pr_number: c.pr_number,
        pr_labels: copy_texts(&c.pr_labels),
        is_first_time: true,
    }
}

fn find_user(r: &Vec<RemoteContributor>, u: &Option<String>) -> (k: Option<usize>)
    ensures
        match k {
            Some(k) => k < r@.len() && find_user_from(contributor_views(r@), opt_text(*u), 0) == Some(
                k as nat,
            ),
            None => find_user_from(contributor_views(r@), opt_text(*u), 0) is None,
        },
{
    let ghost views = contributor_views(r@);
    let mut k: usize = 0;
    while k < r.len()
        invariant
            k <= r.len(),
            views == contributor_views(r@),
            find_user_from(views, opt_text(*u), 0) == find_user_from(views, opt_text(*u), k as nat),
        decreases r.len() - k,
    {
        if same_text(&r[k].username, u) {
            return Some(k);
        }
        k += 1;
    }
    None
}

/// Adds the annotation of one more commit to a release's roster.
pub fn add_to_roster(r: &mut Vec<RemoteContributor>, c: &RemoteContributor)
    ensures
        contributor_views(final(r)@) == roster_add(contributor_views(old(r)@), c@),
{
    let ghost before = contributor_views(r@);
    match find_user(r, &c.username) {
        None => {
            r.push(entry_of(c));
            assert(contributor_views(r@) =~= before.push(roster_entry(c@)));
        },
        Some(k) => {
            let known = r[k].pr_title.is_some() || r[k].pr_number.is_some() || r[k].pr_labels.len()
                > 0;
            let fresh = c.pr_title.is_some() || c.pr_number.is_some() || c.pr_labels.len() > 0;
            if !known && fresh {
                r.set(k, entry_of(c));
                assert(contributor_views(r@) =~= before.update(k as int, roster_entry(c@)));
            }
        },
    }
}

/// The SHAs of a list of commits.
pub open spec fn commit_ids(c: Seq<Commit>) -> Seq<Seq<char>> {
    c.map_values(|c: Commit| c.id@)
}

/// Whether `after` is `before` with the forge's slot of each commit set to
/// the commit's annotation, and all else kept.
pub open spec fn reconciled(
    before: Seq<Commit>,
    after: Seq<Commit>,
    forge: Forge,
    rcs: Seq<RemoteCommit>,
    prs: Seq<RemotePullRequest>,
) -> bool {
    &&& after.len() == before.len()
    &&& forall|i: int|
        #![trigger after[i]]
        0 <= i < before.len() ==> {
            &&& after[i].id == before[i].id
            &&& after[i].message == before[i].message
            &&& after[i].remote(forge)@ == annotation(before[i].id@, rcs, prs)
            &&& forall|f: Forge| f != forge ==> #[trigger] after[i].remote(f) == before[i].remote(f)
        }
}

/// Joins a release's commits with a forge's commits and pull requests:
/// sets the forge's slot of each commit to its annotation, and returns the
/// release's roster for that forge.
pub fn reconcile(
    commits: &mut Vec<Commit>,
    forge: Forge,
    rcs: &Vec<RemoteCommit>,
    prs: &Vec<RemotePullRequest>,
) -> (r: RemoteReleaseMetadata)
    ensures
        reconciled(old(commits)@, final(commits)@, forge, rcs@, prs@),
        contributor_views(r.contributors@) == roster(
            annotations(commit_ids(old(commits)@), rcs@, prs@),
        ),
{
    let ghost before = commits@;
    let ghost ids = commit_ids(before);
    let mut rest: Vec<Commit> = Vec::new();
    core::mem::swap(commits, &mut rest);
    let n = rest.len();
    let mut contributors: Vec<RemoteContributor> = Vec::new();
    let mut i: usize = 0;
    while i < n
        invariant
            n == before.len(),
            i <= n,
            ids == commit_ids(before),
            rest@ == before.subrange(i as int, n as int),
            commits@.len() == i,
            forall|j: int|
                #![trigger commits@[j]]
                0 <= j < i ==> {
                    &&& commits@[j].id == before[j].id
                    &&& commits@[j].message == before[j].message
                    &&& commits@[j].remote(forge)@ == annotation(before[j].id@, rcs@, prs@)
                    &&& forall|f: Forge|
                        f != forge ==> #[trigger] commits@[j].remote(f) == before[j].remote(f)
                },
            contributor_views(contributors@) == roster(
                annotations(ids.subrange(0, i as int), rcs@, prs@),
            ),
        decreases n - i,
    {
        let mut c = rest.remove(0);
        assert(rest@ =~= before.subrange(i + 1, n as int));
        let a = annotate(&c.id, rcs, prs);
        proof {
            let done = annotations(ids.subrange(0, i + 1), rcs@, prs@);
            assert(done.drop_last() =~= annotations(ids.subrange(0, i as int), rcs@, prs@));
            assert(done.last() == annotation(before[i as int].id@, rcs@, prs@));
        }
        add_to_roster(&mut contributors, &a);
        c.set_remote(forge, a);
        commits.push(c);
        i += 1;
    }
    assert(ids.subrange(0, n as int) =~= ids);
    RemoteReleaseMetadata { contributors }
}

proof fn lemma_find_user(r: Seq<ContributorView>, u: Option<Seq<char>>, k: nat)
    ensures
        match find_user_from(r, u, k) {
            Some(m) => k <= m < r.len() && r[m as int].username == u,
            None => forall|m: int| k <= m < r.len() ==> r[m].username != u,
        },
    decreases r.len() - k,
{
    if k < r.len() {
        lemma_find_user(r, u, k + 1);
    }
}

/// Whether no two entries of a roster share a username.
pub open spec fn distinct_usernames(r: Seq<ContributorView>) -> bool {
    forall|i: int, j: int|
        0 <= i < j < r.len() ==> #[trigger] r[i].username != #[trigger] r[j].username
}

proof fn lemma_roster_add(r: Seq<ContributorView>, c: ContributorView)
    ensures
        r.len() <= roster_add(r, c).len() <= r.len() + 1,
        forall|m: int|
            0 <= m < r.len() ==> #[trigger] roster_add(r, c)[m].username == r[m].username,
        roster_add(r, c).len() == r.len() + 1 ==> roster_add(r, c)[r.len() as int]
            == roster_entry(c),
        exists|k: int|
            0 <= k < roster_add(r, c).len() && #[trigger] roster_add(r, c)[k].username
                == c.username,
        distinct_usernames(r) ==> distinct_usernames(roster_add(r, c)),
        forall|m: int|
            0 <= m < roster_add(r, c).len() ==> (#[trigger] roster_add(r, c)[m] == r[m]
                || roster_add(r, c)[m] == roster_entry(c)),
{
    lemma_find_user(r, c.username, 0);
    let n = roster_add(r, c);
    match find_user_from(r, c.username, 0) {
        None => {
            assert(n[r.len() as int].username == c.username);
        },
        Some(k) => {
            assert(n[k as int].username == c.username);
        },
    }
}

proof fn lemma_roster_distinct(a: Seq<ContributorView>)
    ensures
        distinct_usernames(roster(a)),
    decreases a.len(),
{
    if a.len() > 0 {
        lemma_roster_distinct(a.drop_last());
        lemma_roster_add(roster(a.drop_last()), a.last());
    }
}

proof fn lemma_roster_first_time(a: Seq<ContributorView>)
    ensures
        forall|k: int| 0 <= k < roster(a).len() ==> #[trigger] roster(a)[k].is_first_time,
    decreases a.len(),
{
    if a.len() > 0 {
        let r = roster(a.drop_last());
        let c = a.last();
        lemma_roster_first_time(a.drop_last());
        lemma_roster_add(r, c);
        let n = roster_add(r, c);
        assert forall|k: int| 0 <= k < n.len() implies #[trigger] n[k].is_first_time by {
            if n[k] != roster_entry(c) {
                assert(n[k] == r[k]);
            }
        }
    }
}

proof fn lemma_roster_covers(a: Seq<ContributorView>, i: int)
    requires
        0 <= i < a.len(),
    ensures
        exists|k: int| 0 <= k < roster(a).len() && #[trigger] roster(a)[k].username == a[i].username,
    decreases a.len(),
{
    let p = a.drop_last();
    let r = roster(p);
    let c = a.last();
    lemma_roster_add(r, c);
    let n = roster_add(r, c);
    if i < a.len() - 1 {
        lemma_roster_covers(p, i);
        assert(p[i] == a[i]);
        let k0 = choose|k: int| 0 <= k < r.len() && #[trigger] r[k].username == p[i].username;
        assert(n[k0].username == r[k0].username);
        assert(roster(a) == n);
        assert(roster(a)[k0].username == a[i].username);
    } else {
        let k1 = choose|k: int| 0 <= k < n.len() && #[trigger] n[k].username == c.username;
        assert(roster(a) == n);
        assert(roster(a)[k1].username == a[i].username);
    }
}

proof fn lemma_roster_from_commits(a: Seq<ContributorView>, k: int)
    requires
        0 <= k < roster(a).len(),
    ensures
        exists|i: int| 0 <= i < a.len() && #[trigger] a[i].username == roster(a)[k].username,
    decreases a.len(),
{
    let p = a.drop_last();
    let r = roster(p);
    let c = a.last();
    lemma_roster_add(r, c);
    let n = roster_add(r, c);
    if n[k] == roster_entry(c) {
        assert(a[a.len() - 1].username == n[k].username);
    } else {
        assert(n[k] == r[k]);
        lemma_roster_from_commits(p, k);
        let i0 = choose|i: int| 0 <= i < p.len() && #[trigger] p[i].username == r[k].username;
        assert(a[i0] == p[i0]);
    }
}

/// Whether `i` is the first commit of username `u` with a pull request.
pub open spec fn is_first_pr(a: Seq<ContributorView>, u: Option<Seq<char>>, i: int) -> bool {
    &&& 0 <= i < a.len()
    &&& a[i].username == u
    &&& has_pr(a[i])
    &&& forall|j: int| 0 <= j < i && #[trigger] a[j].username == u ==> !has_pr(a[j])
}

proof fn lemma_roster_pr(a: Seq<ContributorView>, k: int)
    requires
        0 <= k < roster(a).len(),
    ensures
        has_pr(roster(a)[k]) ==> exists|i: int|
            is_first_pr(a, roster(a)[k].username, i) && roster(a)[k] == roster_entry(
                #[trigger] a[i],
            ),
        !has_pr(roster(a)[k]) ==> forall|j: int|
            0 <= j < a.len() && #[trigger] a[j].username == roster(a)[k].username ==> !has_pr(
                a[j],
            ),
    decreases a.len(),
{
    let p = a.drop_last();
    let r = roster(p);
    let c = a.last();
    let n = roster_add(r, c);
    let last = a.len() - 1;
    assert(roster(a) == n);
    assert(a[last] == c);
    assert forall|j: int| 0 <= j < last implies #[trigger] a[j] == p[j] by {}
    lemma_roster_add(r, c);
    lemma_find_user(r, c.username, 0);
    lemma_roster_distinct(p);
    let u = n[k].username;
    match find_user_from(r, c.username, 0) {
        None => {
            if k == r.len() {
                assert(n[k] == roster_entry(c));
                assert forall|j: int| 0 <= j < p.len() implies #[trigger] p[j].username
                    != c.username by {
                    lemma_roster_covers(p, j);
                }
                assert forall|j: int| 0 <= j < last implies #[trigger] a[j].username != u by {
                    assert(a[j] == p[j]);
                }
                if has_pr(c) {
                    assert(is_first_pr(a, u, last));
                    assert(n[k] == roster_entry(a[last]));
                }
            } else {
                assert(n[k] == r[k]);
                lemma_roster_pr(p, k);
                assert(u != c.username);
                if has_pr(n[k]) {
                    let i = choose|i: int|
                        is_first_pr(p, u, i) && r[k] == roster_entry(#[trigger] p[i]);
                    assert(a[i] == p[i]);
                    assert(is_first_pr(a, u, i));
                }
            }
        },
        Some(k0) => {
            lemma_roster_pr(p, k);
            if k == k0 as int {
                if !has_pr(r[k]) && has_pr(c) {
                    assert(n[k] == roster_entry(c));
                    assert forall|j: int|
                        0 <= j < last && #[trigger] a[j].username == u implies !has_pr(a[j]) by {
                        assert(a[j] == p[j]);
                    }
                    assert(is_first_pr(a, u, last));
                    assert(n[k] == roster_entry(a[last]));
                } else {
                    assert(n[k] == r[k]);
                    if has_pr(n[k]) {
                        let i = choose|i: int|
                            is_first_pr(p, u, i) && r[k] == roster_entry(#[trigger] p[i]);
                        assert(a[i] == p[i]);
                        assert(is_first_pr(a, u, i));
                    }
                }
            } else {
                assert(n[k] == r[k]);
                assert(r[k0 as int].username == c.username);
                assert(u != c.username);
                if has_pr(n[k]) {
                    let i = choose|i: int|
                        is_first_pr(p, u, i) && r[k] == roster_entry(#[trigger] p[i]);
                    assert(a[i] == p[i]);
                    assert(is_first_pr(a, u, i));
                }
            }
        },
    }
}

/// Each entry of a release's roster carries the pull request of the first
/// commit of its username that has one; an entry without a pull request
/// stands for a username none of whose commits has one.
pub proof fn roster_takes_first_pull_request(a: Seq<ContributorView>)
    ensures
        forall|k: int|
            0 <= k < roster(a).len() && has_pr(#[trigger] roster(a)[k]) ==> exists|i: int|
                is_first_pr(a, roster(a)[k].username, i) && roster(a)[k] == roster_entry(
                    #[trigger] a[i],
                ),
        forall|k: int, j: int|
            0 <= k < roster(a).len() && !has_pr(#[trigger] roster(a)[k]) && 0 <= j < a.len()
                && #[trigger] a[j].username == roster(a)[k].username ==> !has_pr(a[j]),
{
    assert forall|k: int|
        0 <= k < roster(a).len() && has_pr(#[trigger] roster(a)[k]) implies exists|i: int|
        is_first_pr(a, roster(a)[k].username, i) && roster(a)[k] == roster_entry(
            #[trigger] a[i],
        ) by {
        lemma_roster_pr(a, k);
    }
    assert forall|k: int, j: int|
        0 <= k < roster(a).len() && !has_pr(#[trigger] roster(a)[k]) && 0 <= j < a.len()
            && #[trigger] a[j].username == roster(a)[k].username implies !has_pr(a[j]) by {
        lemma_roster_pr(a, k);
    }
}

/// The roster of a release has one entry for each username among its
/// commits (absence of one included), no other entry, and marks each as
/// first-time.
pub proof fn roster_one_entry_per_username(a: Seq<ContributorView>)
    ensures
        distinct_usernames(roster(a)),
        forall|i: int|
            0 <= i < a.len() ==> exists|k: int|
                0 <= k < roster(a).len() && #[trigger] roster(a)[k].username
                    == #[trigger] a[i].username,
        forall|k: int|
            0 <= k < roster(a).len() ==> exists|i: int|
                0 <= i < a.len() && #[trigger] a[i].username
                    == #[trigger] roster(a)[k].username,
        forall|k: int| 0 <= k < roster(a).len() ==> #[trigger] roster(a)[k].is_first_time,
{
    lemma_roster_distinct(a);
    lemma_roster_first_time(a);
    assert forall|i: int| 0 <= i < a.len() implies exists|k: int|
        0 <= k < roster(a).len() && #[trigger] roster(a)[k].username
            == #[trigger] a[i].username by {
        lemma_roster_covers(a, i);
    }
    assert forall|k: int| 0 <= k < roster(a).len() implies exists|i: int|
        0 <= i < a.len() && #[trigger] a[i].username
            == #[trigger] roster(a)[k].username by {
        lemma_roster_from_commits(a, k);
    }
}

proof fn lemma_no_commit_match(rcs: Seq<RemoteCommit>, id: Seq<char>)
    requires
        forall|j: int| 0 <= j < rcs.len() ==> (#[trigger] rcs[j]).id@ != id,
    ensures
        last_commit_match(rcs, id) is None,
    decreases rcs.len(),
{
    if rcs.len() > 0 {
        let p = rcs.drop_last();
        assert forall|j: int| 0 <= j < p.len() implies (#[trigger] p[j]).id@ != id by {
            assert(p[j] == rcs[j]);
        }
        lemma_no_commit_match(p, id);
    }
}

proof fn lemma_no_pr_match(prs: Seq<RemotePullRequest>, id: Seq<char>)
    requires
        forall|j: int| 0 <= j < prs.len() ==> !merged_by(#[trigger] prs[j], id),
    ensures
        last_pr_match(prs, id) is None,
    decreases prs.len(),
{
    if prs.len() > 0 {
        let p = prs.drop_last();
        assert forall|j: int| 0 <= j < p.len() implies !merged_by(#[trigger] p[j], id) by {
            assert(p[j] == prs[j]);
        }
        lemma_no_pr_match(p, id);
    }
}

/// A commit whose SHA matches no remote commit and no pull request learns
/// nothing, and its absent username has exactly one entry in the roster.
pub proof fn unmatched_commit_in_roster(
    ids: Seq<Seq<char>>,
    rcs: Seq<RemoteCommit>,
    prs: Seq<RemotePullRequest>,
    i: int,
)
    requires
        0 <= i < ids.len(),
        forall|j: int| 0 <= j < rcs.len() ==> (#[trigger] rcs[j]).id@ != ids[i],
        forall|j: int| 0 <= j < prs.len() ==> !merged_by(#[trigger] prs[j], ids[i]),
    ensures
        annotations(ids, rcs, prs)[i] == RemoteContributor::empty_view(),
        exists|k: int|
            0 <= k < roster(annotations(ids, rcs, prs)).len() && (#[trigger] roster(
                annotations(ids, rcs, prs),
            )[k]).username is None,
        forall|k1: int, k2: int|
            0 <= k1 < roster(annotations(ids, rcs, prs)).len() && 0 <= k2 < roster(
                annotations(ids, rcs, prs),
            ).len() && (#[trigger] roster(annotations(ids, rcs, prs))[k1]).username is None
                && (#[trigger] roster(annotations(ids, rcs, prs))[k2]).username is None ==> k1
                == k2,
{
    lemma_no_commit_match(rcs, ids[i]);
    lemma_no_pr_match(prs, ids[i]);
    let a = annotations(ids, rcs, prs);
    assert(a[i] == annotation(ids[i], rcs, prs));
    assert(a[i] == RemoteContributor::empty_view());
    roster_one_entry_per_username(a);
    let r = roster(a);
    assert(a[i].username is None);
    let k = choose|k: int| 0 <= k < r.len() && #[trigger] r[k].username == a[i].username;
    assert(r[k].username is None);
}

/// Reconciling, with the same forge data, commits that were already
/// reconciled changes no annotation and gives the same roster.
pub proof fn reconcile_idempotent(
    before: Seq<Commit>,
    after: Seq<Commit>,
    forge: Forge,
    rcs: Seq<RemoteCommit>,
    prs: Seq<RemotePullRequest>,
)
    requires
        reconciled(before, after, forge, rcs, prs),
    ensures
        reconciled(after, after, forge, rcs, prs),
        roster(annotations(commit_ids(after), rcs, prs)) == roster(
            annotations(commit_ids(before), rcs, prs),
        ),
{
    assert(commit_ids(after) =~= commit_ids(before));
    assert forall|i: int| #![trigger after[i]] 0 <= i < after.len() implies {
        &&& after[i].remote(forge)@ == annotation(after[i].id@, rcs, prs)
        &&& forall|f: Forge| f != forge ==> #[trigger] after[i].remote(f) == after[i].remote(f)
    } by {
        assert(after[i].id == before[i].id);
    }
}

/// Whether a remote whose URL has the given domain serves its own REST
/// API: every host does but `github.com`, whose API has a host of its own.
pub fn serves_own_api(domain: Option<&str>) -> (r: bool)
    ensures
        r == !(domain matches Some(d) && d@ == seq!['g', 'i', 't', 'h', 'u', 'b', '.', 'c', 'o', 'm']),
{
    let d = match domain {
        Some(d) => d,
        None => {
            return true;
        },
    };
    let host = "github.com";
    proof {
        reveal_strlit("github.com");
    }
    let n = host.unicode_len();
    if d.unicode_len() != n {
        return true;
    }
    let mut i: usize = 0;
    while i < n
        invariant
            n == host@.len(),
            n == d@.len(),
            host@ == seq!['g', 'i', 't', 'h', 'u', 'b', '.', 'c', 'o', 'm'],
            i <= n,
            forall|j: int| 0 <= j < i ==> d@[j] == host@[j],
            domain == Some(d),
        decreases n - i,
    {
        if d.get_char(i) != host.get_char(i) {
            assert(d@[i as int] != host@[i as int]);
            assert(d@ != host@);
            return true;
        }
        i += 1;
    }
    assert(d@ =~= host@);
    false
}

} // verus!
