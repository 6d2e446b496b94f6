//! Semantic versions, and the inference of the next version of a release
//! from the version before it and the commits made since.

use vstd::prelude::*;
use vstd::string::*;

verus! {

/// What a semantic version holds, as plain values.
pub ghost struct VersionModel {
    pub major: u64,
    pub minor: u64,
    pub patch: u64,
    pub pre: Seq<char>,
    pub build: Seq<char>,
}

/// A semantic version: `MAJOR.MINOR.PATCH[-pre][+build]`.
pub struct SemVer {
    pub major: u64,
    pub minor: u64,
    pub patch: u64,
    /// Pre-release identifiers, empty when there are none.
    pub pre: String,
    /// Build metadata, empty when there is none.
    pub build: String,
}

impl View for SemVer {
    type V = VersionModel;

    open spec fn view(&self) -> VersionModel {
        VersionModel {
            major: self.major,
            minor: self.minor,
            patch: self.patch,
            pre: self.pre@,
            build: self.build@,
        }
    }
}

#[verifier::external_type_specification]
#[verifier::external_body]
pub struct ExSemverError(semver::Error);

/// Errors of version inference.
pub enum VersionError {
    /// The previous version is no semantic version, neither as a whole nor
    /// after any prefix.
    VersionParse(semver::Error),
    /// A part of the version that the bump would increment is already at the
    /// largest value its type holds.
    VersionLimit,
}

/// How the bump of a version is chosen from the kinds of its commits.
pub struct Bump {
    /// Whether a feature always bumps the minor version, also before 1.0
    /// (`None` counts as `true`).
    pub features_always_bump_minor: Option<bool>,
    /// Whether a breaking change always bumps the major version, also
    /// before 1.0 (`None` counts as `true`).
    pub breaking_always_bump_major: Option<bool>,
}

impl Default for Bump {
    fn default() -> (r: Bump)
        ensures
            r.features_always_bump_minor is None,
            r.breaking_always_bump_major is None,
    {
        Bump { features_always_bump_minor: None, breaking_always_bump_major: None }
    }
}

impl Bump {
    /// The flag for features, `true` where it is unset.
    pub open spec fn features_minor(&self) -> bool {
        match self.features_always_bump_minor {
            Some(b) => b,
            None => true,
        }
    }

    /// The flag for breaking changes, `true` where it is unset.
    pub open spec fn breaking_major(&self) -> bool {
        match self.breaking_always_bump_major {
            Some(b) => b,
            None => true,
        }
    }
}

/// The version that the semver grammar reads from a text, if any.
pub uninterp spec fn semver_of(text: Seq<char>) -> Option<VersionModel>;

/// The version that follows `v` after `commits`, classified as
/// conventional commits, under the two bump flags.
pub uninterp spec fn increment_of(
    v: VersionModel,
    commits: Seq<Seq<char>>,
    features_minor: bool,
    breaking_major: bool,
) -> VersionModel;

/// Whether a character is numeric in the Unicode sense.
pub uninterp spec fn numeric_char(c: char) -> bool;

/// Whether a character has the Unicode `White_Space` property.
pub open spec fn is_white_space(c: char) -> bool {
    ||| '\u{9}' <= c <= '\u{d}'
    ||| c == ' '
    ||| c == '\u{85}'
    ||| c == '\u{a0}'
    ||| c == '\u{1680}'
    ||| '\u{2000}' <= c <= '\u{200a}'
    ||| c == '\u{2028}'
    ||| c == '\u{2029}'
    ||| c == '\u{202f}'
    ||| c == '\u{205f}'
    ||| c == '\u{3000}'
}

/// A text without its trailing whitespace.
pub open spec fn trim_end_spec(s: Seq<char>) -> Seq<char>
    decreases s.len(),
{
    if s.len() > 0 && is_white_space(s.last()) {
        trim_end_spec(s.drop_last())
    } else {
        s
    }
}

/// Whether `n` is `m` followed by whitespace only.
pub open spec fn extends_with_white_space(m: Seq<char>, n: Seq<char>) -> bool {
    &&& m.len() <= n.len()
    &&& n.subrange(0, m.len() as int) == m
    &&& forall|j: int| m.len() <= j < n.len() ==> is_white_space(#[trigger] n[j])
}

/// Trailing whitespace added to a text goes again when it is trimmed.
pub proof fn trim_end_ignores_added_white_space(m: Seq<char>, n: Seq<char>)
    requires
        extends_with_white_space(m, n),
    ensures
        trim_end_spec(n) == trim_end_spec(m),
    decreases n.len(),
{
    if n.len() > m.len() {
        let p = n.drop_last();
        assert(p.subrange(0, m.len() as int) =~= n.subrange(0, m.len() as int));
        assert forall|j: int| m.len() <= j < p.len() implies is_white_space(#[trigger] p[j]) by {
            assert(p[j] == n[j]);
        }
        trim_end_ignores_added_white_space(m, p);
    } else {
        assert(n =~= m);
    }
}

/// The text of the largest `u32`.
pub open spec fn u32_max_text() -> Seq<char> {
    seq!['4', '2', '9', '4', '9', '6', '7', '2', '9', '5']
}

/// The index of the last dot of a text.
pub open spec fn last_dot(s: Seq<char>) -> Option<int>
    decreases s.len(),
{
    if s.len() == 0 {
        None
    } else if s.last() == '.' {
        Some(s.len() - 1)
    } else {
        last_dot(s.drop_last())
    }
}

/// A text without its leading zeros.
pub open spec fn strip_zeros(s: Seq<char>) -> Seq<char>
    decreases s.len(),
{
    if s.len() > 0 && s[0] == '0' {
        strip_zeros(s.drop_first())
    } else {
        s
    }
}

/// Whether the identifier after the last dot of a pre-release is the
/// number `u32::MAX`, which a pre-release bump cannot increment.
pub open spec fn pre_at_limit(pre: Seq<char>) -> bool {
    match last_dot(pre) {
        Some(i) => strip_zeros(pre.subrange(i + 1, pre.len() as int)) == u32_max_text(),
        None => false,
    }
}

/// Whether each part that a bump may increment is below its type's limit.
pub open spec fn bumpable(v: VersionModel) -> bool {
    &&& v.major < u64::MAX
    &&& v.minor < u64::MAX
    &&& v.patch < u64::MAX
    &&& !pre_at_limit(v.pre)
}

/// A version that some text parses to.
pub open spec fn is_parsed_version(v: VersionModel) -> bool {
    exists|s: Seq<char>| semver_of(s) == Some(v)
}

/// Relies on `semver::Version::parse`: `Ok` exactly where the text is a
/// semantic version, with its parts.
#[verifier::external_body]
fn parse_version(text: &str) -> (r: Result<SemVer, semver::Error>)
    ensures
        match r {
            Ok(v) => semver_of(text@) == Some(v@),
            Err(_) => semver_of(text@) is None,
        },
{
    match semver::Version::parse(text) {
        Ok(v) => Ok(SemVer {
            major: v.major,
            minor: v.minor,
            patch: v.patch,
            pre: v.pre.as_str().to_string(),
            build: v.build.as_str().to_string(),
        }),
        Err(e) => Err(e),
    }
}

/// Relies on `next_version::VersionUpdater::increment`: the next version
/// after the commits; with no commits the version stays as it is. The
/// version came from a parse, so its pre-release and build texts are valid;
/// it is bumpable, so no addition of the bump overflows.
#[verifier::external_body]
fn increment_version(v: &SemVer, commits: &Vec<String>, features: bool, breaking: bool) -> (r:
    SemVer)
    requires
        is_parsed_version(v@),
        commits@.len() > 0 ==> bumpable(v@),
    ensures
        r@ == increment_of(v@, texts(commits@), features, breaking),
        commits@.len() == 0 ==> r@ == v@,
{
    let pre = semver::Prerelease::new(&v.pre).expect("parsed");
    let build = semver::BuildMetadata::new(&v.build).expect("parsed");
    let current = semver::Version { major: v.major, minor: v.minor, patch: v.patch, pre, build };
    let next = next_version::VersionUpdater::new()
        .with_features_always_increment_minor(features)
        .with_breaking_always_increment_major(breaking)
        .increment(&current, commits);
    let (pre, build) = (next.pre.as_str().to_string(), next.build.as_str().to_string());
    SemVer { major: next.major, minor: next.minor, patch: next.patch, pre, build }
}

/// Relies on `char::is_numeric`.
#[verifier::external_body]
fn is_numeric(c: char) -> (r: bool)
    ensures
        r == numeric_char(c),
{
    c.is_numeric()
}

/// Relies on `str::trim_end`: the characters with the Unicode `White_Space`
/// property go from the end.
#[verifier::external_body]
pub(crate) fn trim_end(s: &str) -> (r: String)
    ensures
        r@ == trim_end_spec(s@),
{
    s.trim_end().to_string()
}

/// The character of a decimal digit.
pub open spec fn digit_char(d: nat) -> char {
    seq!['0', '1', '2', '3', '4', '5', '6', '7', '8', '9'][d as int]
}

/// The decimal digits of a number, without leading zeros.
pub open spec fn decimal_digits(n: nat) -> Seq<char>
    decreases n,
{
    if n < 10 {
        seq![digit_char(n)]
    } else {
        decimal_digits(n / 10).push(digit_char(n % 10))
    }
}

/// Appends the decimal digits of a number.
fn push_decimal(s: &mut String, n: u64)
    ensures
        final(s)@ == old(s)@ + decimal_digits(n as nat),
    decreases n,
{
    if n >= 10 {
        push_decimal(s, n / 10);
    }
    let d = n % 10;
    proof {
        reveal_strlit("0");
        reveal_strlit("1");
        reveal_strlit("2");
        reveal_strlit("3");
        reveal_strlit("4");
        reveal_strlit("5");
        reveal_strlit("6");
        reveal_strlit("7");
        reveal_strlit("8");
        reveal_strlit("9");
    }
    let t: &str = if d == 0 {
        "0"
    } else if d == 1 {
        "1"
    } else if d == 2 {
        "2"
    } else if d == 3 {
        "3"
    } else if d == 4 {
        "4"
    } else if d == 5 {
        "5"
    } else if d == 6 {
        "6"
    } else if d == 7 {
        "7"
    } else if d == 8 {
        "8"
    } else {
        "9"
    };
    assert(t@ =~= seq![digit_char(d as nat)]);
    s.append(t);
    assert(s@ =~= old(s)@ + decimal_digits(n as nat));
}

/// The text of a version: `MAJOR.MINOR.PATCH`, then `-pre` and `+build`
/// where they are not empty.
pub open spec fn version_text(v: VersionModel) -> Seq<char> {
    let core = decimal_digits(v.major as nat) + seq!['.'] + decimal_digits(v.minor as nat) + seq![
        '.',
    ] + decimal_digits(v.patch as nat);
    let with_pre = if v.pre.len() > 0 {
        core + seq!['-'] + v.pre
    } else {
        core
    };
    if v.build.len() > 0 {
        with_pre + seq!['+'] + v.build
    } else {
        with_pre
    }
}

/// Writes a version as text, after a prefix.
pub fn render_version(prefix: &str, v: &SemVer) -> (r: String)
    ensures
        r@ == prefix@ + version_text(v@),
{
    let mut s = String::from_str(prefix);
    proof {
        reveal_strlit(".");
        reveal_strlit("-");
        reveal_strlit("+");
    }
    push_decimal(&mut s, v.major);
    s.append(".");
    push_decimal(&mut s, v.minor);
    s.append(".");
    push_decimal(&mut s, v.patch);
    if v.pre.as_str().unicode_len() > 0 {
        s.append("-");
        s.append(v.pre.as_str());
    }
    if v.build.as_str().unicode_len() > 0 {
        s.append("+");
        s.append(v.build.as_str());
    }
    assert(s@ =~= prefix@ + version_text(v@));
    s
}

/// Whether a numeric run begins at `i`: the character there is numeric and
/// the one before it, if any, is not.
pub open spec fn starts_number(v: Seq<char>, i: int) -> bool {
    0 <= i < v.len() && numeric_char(v[i]) && (i == 0 || !numeric_char(v[i - 1]))
}

/// The first position at or after `i` where a numeric run begins and the
/// rest of the text, from there on, is a semantic version.
pub open spec fn first_split_from(v: Seq<char>, i: nat) -> Option<nat>
    decreases v.len() - i,
{
    if i >= v.len() {
        None
    } else if starts_number(v, i as int) && semver_of(v.subrange(i as int, v.len() as int)) is Some {
        Some(i)
    } else {
        first_split_from(v, i + 1)
    }
}

/// A version text read as a prefix and a semantic version: the whole text
/// with an empty prefix where it parses; else, where it has a dot, the text
/// split at the first numeric run from which the rest parses.
pub open spec fn split_version_spec(v: Seq<char>) -> Option<(Seq<char>, VersionModel)> {
    if semver_of(v) is Some {
        Some((Seq::empty(), semver_of(v)->0))
    } else if v.contains('.') {
        match first_split_from(v, 0) {
            Some(i) => Some(
                (v.subrange(0, i as int), semver_of(v.subrange(i as int, v.len() as int))->0),
            ),
            None => None,
        }
    } else {
        None
    }
}

/// A version with its patch number bumped and no pre-release.
pub open spec fn patch_bump(v: VersionModel) -> VersionModel {
    VersionModel {
        major: v.major,
        minor: v.minor,
        patch: (v.patch + 1) as u64,
        pre: Seq::empty(),
        build: v.build,
    }
}

/// Whether the policy makes every release a patch release: before 1.0,
/// without a pre-release, with commits, and with neither bump forced.
pub open spec fn patch_only(v: VersionModel, commits: Seq<Seq<char>>, features_minor: bool, breaking_major: bool) -> bool {
    commits.len() > 0 && !features_minor && !breaking_major && v.major == 0 && v.pre.len() == 0
}

/// The version after `v` given the commits: a patch release where the
/// policy says so, else the conventional-commit increment.
pub open spec fn next_of(
    v: VersionModel,
    commits: Seq<Seq<char>>,
    features_minor: bool,
    breaking_major: bool,
) -> VersionModel {
    if patch_only(v, commits, features_minor, breaking_major) {
        patch_bump(v)
    } else {
        increment_of(v, commits, features_minor, breaking_major)
    }
}

/// Before 1.0, with neither bump forced, any commits make a patch release,
/// breaking changes and features included.
pub proof fn unforced_pre_stable_bump_is_patch(v: VersionModel, commits: Seq<Seq<char>>)
    requires
        v.major == 0,
        v.pre.len() == 0,
        commits.len() > 0,
    ensures
        next_of(v, commits, false, false) == patch_bump(v),
{
}

/// `0.1.0` after a breaking change and a feature, with neither bump forced,
/// becomes `0.1.1`.
pub proof fn unforced_breaking_change_on_0_1_0(v: VersionModel, commits: Seq<Seq<char>>)
    requires
        v == (VersionModel { major: 0, minor: 1, patch: 0, pre: Seq::empty(), build: Seq::empty() }),
        commits.len() > 0,
    ensures
        version_text(next_of(v, commits, false, false)) == seq!['0', '.', '1', '.', '1'],
{
    assert(decimal_digits(0) == seq!['0']);
    assert(decimal_digits(1) == seq!['1']);
    assert(version_text(patch_bump(v)) =~= seq!['0', '.', '1', '.', '1']);
}

/// The text of the next version after `current`, with its prefix kept;
/// `None` where `current` holds no semantic version.
pub open spec fn next_version_text(
    current: Seq<char>,
    commits: Seq<Seq<char>>,
    features_minor: bool,
    breaking_major: bool,
) -> Option<Seq<char>> {
    match split_version_spec(current) {
        Some((prefix, v)) => Some(
            prefix + version_text(next_of(v, commits, features_minor, breaking_major)),
        ),
        None => None,
    }
}

/// Whether the bump of `current` after `commits` would pass a limit.
pub open spec fn bump_at_limit(current: Seq<char>, commits: Seq<Seq<char>>) -> bool {
    match split_version_spec(current) {
        Some((_, v)) => commits.len() > 0 && !bumpable(v),
        None => false,
    }
}

/// The views of a list of texts.
pub open spec fn texts(v: Seq<String>) -> Seq<Seq<char>> {
    v.map_values(|c: String| c@)
}

proof fn lemma_first_split(v: Seq<char>, i: nat)
    requires
        first_split_from(v, i) is Some,
    ensures
        ({
            let k = first_split_from(v, i)->0;
            &&& i <= k < v.len()
            &&& starts_number(v, k as int)
            &&& semver_of(v.subrange(k as int, v.len() as int)) is Some
        }),
    decreases v.len() - i,
{
    if i < v.len() && !(starts_number(v, i as int) && semver_of(
        v.subrange(i as int, v.len() as int),
    ) is Some) {
        lemma_first_split(v, i + 1);
    }
}

proof fn lemma_split_is_parsed(v: Seq<char>)
    requires
        split_version_spec(v) is Some,
    ensures
        is_parsed_version((split_version_spec(v)->0).1),
{
    if semver_of(v) is Some {
        assert(semver_of(v) == Some((split_version_spec(v)->0).1));
    } else {
        lemma_first_split(v, 0);
        let i = first_split_from(v, 0)->0;
        let w = v.subrange(i as int, v.len() as int);
        assert(semver_of(w) == Some((split_version_spec(v)->0).1));
    }
}

fn contains_dot(s: &str) -> (r: bool)
    ensures
        r == s@.contains('.'),
{
    let n = s.unicode_len();
    let mut i: usize = 0;
    while i < n
        invariant
            n == s@.len(),
            i <= n,
            forall|j: int| 0 <= j < i ==> s@[j] != '.',
        decreases n - i,
    {
        if s.get_char(i) == '.' {
            return true;
        }
        i += 1;
    }
    false
}

/// Reads a version text as a prefix and a semantic version.
pub fn split_version(version: &str) -> (r: Result<(String, SemVer), VersionError>)
    ensures
        match r {
            Ok((prefix, v)) => split_version_spec(version@) == Some((prefix@, v@)),
            Err(e) => e is VersionParse && split_version_spec(version@) is None,
        },
{
    let e = match parse_version(version) {
        Ok(v) => {
            return Ok((String::new(), v));
        },
        Err(e) => e,
    };
    if !contains_dot(version) {
        return Err(VersionError::VersionParse(e));
    }
    let n = version.unicode_len();
    let mut found_numeric = false;
    let mut i: usize = 0;
    while i < n
        invariant
            n == version@.len(),
            i <= n,
            semver_of(version@) is None,
            version@.contains('.'),
            found_numeric == (i > 0 && numeric_char(version@[i - 1])),
            first_split_from(version@, 0) == first_split_from(version@, i as nat),
        decreases n - i,
    {
        let c = version.get_char(i);
        let numeric = is_numeric(c);
        if numeric && !found_numeric {
            found_numeric = true;
            let rest = version.substring_char(i, n);
            if let Ok(v) = parse_version(rest) {
                let prefix = String::from_str(version.substring_char(0, i));
                return Ok((prefix, v));
            }
        } else if !numeric && found_numeric {
            found_numeric = false;
        }
        i += 1;
    }
    Err(VersionError::VersionParse(e))
}

fn text_eq(a: &str, b: &str) -> (r: bool)
    ensures
        r == (a@ == b@),
{
    let n = a.unicode_len();
    if b.unicode_len() != n {
        return false;
    }
    let mut i: usize = 0;
    while i < n
        invariant
            n == a@.len(),
            n == b@.len(),
            i <= n,
            forall|j: int| 0 <= j < i ==> a@[j] == b@[j],
        decreases n - i,
    {
        if a.get_char(i) != b.get_char(i) {
            assert(a@[i as int] != b@[i as int]);
            return false;
        }
        i += 1;
    }
    assert(a@ =~= b@);
    true
}

fn is_pre_at_limit(pre: &str) -> (r: bool)
    ensures
        r == pre_at_limit(pre@),
{
    let n = pre.unicode_len();
    let mut k: usize = n;
    assert(pre@.subrange(0, n as int) =~= pre@);
    while k > 0 && pre.get_char(k - 1) != '.'
        invariant
            n == pre@.len(),
            k <= n,
            last_dot(pre@) == last_dot(pre@.subrange(0, k as int)),
        decreases k,
    {
        assert(pre@.subrange(0, k as int).drop_last() =~= pre@.subrange(0, k - 1));
        k -= 1;
    }
    if k == 0 {
        assert(pre@.subrange(0, 0) =~= Seq::<char>::empty());
        return false;
    }
    assert(pre@.subrange(0, k as int).last() == pre@[k - 1]);
    assert(last_dot(pre@) == Some(k - 1));
    let ghost tail = pre@.subrange(k as int, n as int);
    let mut m: usize = k;
    while m < n && pre.get_char(m) == '0'
        invariant
            n == pre@.len(),
            k <= m <= n,
            strip_zeros(tail) == strip_zeros(pre@.subrange(m as int, n as int)),
        decreases n - m,
    {
        assert(pre@.subrange(m as int, n as int).drop_first() =~= pre@.subrange(m + 1, n as int));
        m += 1;
    }
    assert(strip_zeros(pre@.subrange(m as int, n as int)) == pre@.subrange(m as int, n as int));
    proof {
        reveal_strlit("4294967295");
    }
    assert("4294967295"@ =~= u32_max_text());
    text_eq(pre.substring_char(m, n), "4294967295")
}

fn is_bumpable(v: &SemVer) -> (r: bool)
    ensures
        r == bumpable(v@),
{
    v.major < u64::MAX && v.minor < u64::MAX && v.patch < u64::MAX && !is_pre_at_limit(
        v.pre.as_str(),
    )
}

/// The next version after `current`, given the commits since it, with the
/// prefix of `current` kept.
pub fn bump_version(current: &str, commits: &Vec<String>, features: bool, breaking: bool) -> (r:
    Result<String, VersionError>)
    ensures
        match r {
            Ok(s) => next_version_text(current@, texts(commits@), features, breaking) == Some(s@)
                && !bump_at_limit(current@, texts(commits@)),
            Err(VersionError::VersionParse(_)) => next_version_text(
                current@,
                texts(commits@),
                features,
                breaking,
            ) is None,
            Err(VersionError::VersionLimit) => bump_at_limit(current@, texts(commits@)),
        },
{
    match split_version(current) {
        Ok((prefix, v)) => {
            proof {
                lemma_split_is_parsed(current@);
                assert(texts(commits@).len() == commits@.len());
            }
            if commits.len() > 0 && !is_bumpable(&v) {
                return Err(VersionError::VersionLimit);
            }
            let next = if commits.len() > 0 && !features && !breaking && v.major == 0
                && v.pre.as_str().unicode_len() == 0 {
                let bumped = SemVer {
                    major: v.major,
                    minor: v.minor,
                    patch: v.patch + 1,
                    pre: String::new(),
                    build: v.build.clone(),
                };
                assert(bumped@ =~= patch_bump(v@));
                bumped
            } else {
                increment_version(&v, commits, features, breaking)
            };
            Ok(render_version(prefix.as_str(), &next))
        },
        Err(e) => Err(e),
    }
}

} // verus!
