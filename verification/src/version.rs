//! Client-version resolution: finding a version in free text, comparing
//! versions component by component, and choosing the version to report.

use crate::text::{chars_of, concat2, opt_view, owned, str_eq};
use std::cmp::Ordering;
use vstd::prelude::*;

verus! {

/// The version that is reported when nothing newer is known.
pub const KNOWN_STABLE_VERSION: &'static str = "4.1.26";

/// The shell version that belongs to [`KNOWN_STABLE_VERSION`].
pub const KNOWN_STABLE_ELECTRON: &'static str = "39.2.3";

/// The browser-engine version that belongs to [`KNOWN_STABLE_VERSION`].
pub const KNOWN_STABLE_CHROME: &'static str = "132.0.6834.160";

/// The pattern of a version: three runs of digits joined by dots.
pub const VERSION_PATTERN: &'static str = "\\d+\\.\\d+\\.\\d+";

/// The leftmost match of the regular expression `pattern` in `text`, as the
/// `regex` crate finds it; `None` when `pattern` does not compile or `text`
/// holds no match.
pub uninterp spec fn regex_first_match(pattern: Seq<char>, text: Seq<char>) -> Option<Seq<char>>;

/// Compiles `pattern` with `regex::Regex::new` and searches `text` with
/// `regex::Regex::find`. The contract only names the outcome: the text of
/// the leftmost match, or `None` without a match or without a valid pattern.
#[verifier::external_body]
fn regex_find(pattern: &str, text: &str) -> (r: Option<String>)
    ensures
        opt_view(r) == regex_first_match(pattern@, text@),
{
    match regex::Regex::new(pattern) {
        Ok(re) => re.find(text).map(|m| m.as_str().to_string()),
        Err(_) => None,
    }
}

/// The first version-shaped part of `text`.
pub open spec fn version_in(text: Seq<char>) -> Option<Seq<char>> {
    regex_first_match(VERSION_PATTERN@, text)
}

/// Finds the first `X.Y.Z` in `text`.
pub fn parse_version(text: &str) -> (r: Option<String>)
    ensures
        opt_view(r) == version_in(text@),
{
    regex_find(VERSION_PATTERN, text)
}


/// True for the ten ASCII decimal digits.
pub open spec fn is_digit(c: char) -> bool {
    '0' <= c && c <= '9'
}

/// The number that the digit `c` stands for.
pub open spec fn digit_value(c: char) -> int {
    (c as u32) as int - 48
}

/// Every character of `s` is a decimal digit.
pub open spec fn all_digits(s: Seq<char>) -> bool {
    forall|i: int| 0 <= i < s.len() ==> is_digit(#[trigger] s[i])
}

/// The number that the digit string `s` writes in base ten; 0 for the empty string.
pub open spec fn decimal_value(s: Seq<char>) -> int
    decreases s.len(),
{
    if s.len() == 0 {
        0
    } else {
        decimal_value(s.drop_last()) * 10 + digit_value(s.last())
    }
}

/// `s` without a leading `+`.
pub open spec fn unsigned_part(s: Seq<char>) -> Seq<char> {
    if s.len() > 0 && s[0] == '+' {
        s.subrange(1, s.len() as int)
    } else {
        s
    }
}

/// The integers that a list of 32-bit numbers holds.
pub open spec fn as_ints(v: Seq<u32>) -> Seq<int> {
    v.map_values(|x: u32| x as int)
}

/// What a component counts for: its value if it is an optional `+` followed
/// by at least one digit and the number fits 32 bits, else nothing.
pub open spec fn parse_u32(s: Seq<char>) -> Option<int> {
    let digits = unsigned_part(s);
    if digits.len() > 0 && all_digits(digits) && decimal_value(digits) <= u32::MAX {
        Some(decimal_value(digits))
    } else {
        None
    }
}

/// The position of the first `c` in `s`, or the length of `s` without one.
pub open spec fn index_of(s: Seq<char>, c: char) -> int
    decreases s.len(),
{
    if s.len() == 0 || s[0] == c {
        0
    } else {
        1 + index_of(s.drop_first(), c)
    }
}

/// The pieces of `s` between occurrences of `sep`; always at least one piece.
pub open spec fn split_on(s: Seq<char>, sep: char) -> Seq<Seq<char>>
    decreases s.len(),
{
    let i = index_of(s, sep);
    if i < 0 || i >= s.len() {
        seq![s]
    } else {
        seq![s.take(i)] + split_on(s.skip(i + 1), sep)
    }
}

/// The values of those pieces that count, in order; the others are left out.
pub open spec fn parsed_parts(pieces: Seq<Seq<char>>) -> Seq<int>
    decreases pieces.len(),
{
    if pieces.len() == 0 {
        Seq::empty()
    } else {
        let head = parsed_parts(pieces.drop_last());
        match parse_u32(pieces.last()) {
            Some(v) => head.push(v),
            None => head,
        }
    }
}

/// The numeric components of the version `v`.
pub open spec fn semver_parts(v: Seq<char>) -> Seq<int> {
    parsed_parts(split_on(v, '.'))
}

/// Component `i` of `p`, or zero where `p` has none.
pub open spec fn part_or_zero(p: Seq<int>, i: int) -> int {
    if 0 <= i < p.len() {
        p[i]
    } else {
        0
    }
}

/// Compares `a` and `b` from component `from` on: -1, 0 or 1 as the first
/// component that differs is smaller in `a`, absent, or greater in `a`.
pub open spec fn order_from(a: Seq<int>, b: Seq<int>, from: int) -> int
    decreases
            (if a.len() >= b.len() {
                a.len()
            } else {
                b.len()
            }) - from,
{
    if from < 0 || (from >= a.len() && from >= b.len()) {
        0
    } else if part_or_zero(a, from) < part_or_zero(b, from) {
        -1
    } else if part_or_zero(a, from) > part_or_zero(b, from) {
        1
    } else {
        order_from(a, b, from + 1)
    }
}

/// The order of two versions: -1 when `v1` is older, 0 when they count as
/// equal, 1 when `v1` is newer.
pub open spec fn semver_order(v1: Seq<char>, v2: Seq<char>) -> int {
    order_from(semver_parts(v1), semver_parts(v2), 0)
}

/// A position in front of which no `c` stands, and that holds `c` or ends the
/// text, is the position that [`index_of`] names.
pub proof fn lemma_index_of_is(s: Seq<char>, c: char, i: int)
    requires
        0 <= i <= s.len(),
        forall|j: int| 0 <= j < i ==> s[j] != c,
        i < s.len() ==> s[i] == c,
    ensures
        index_of(s, c) == i,
    decreases s.len(),
{
    if s.len() == 0 || s[0] == c {
    } else {
        let t = s.drop_first();
        assert forall|j: int| 0 <= j < i - 1 implies t[j] != c by {
            assert(t[j] == s[j + 1]);
        }
        if i < s.len() {
            assert(t[i - 1] == s[i]);
        }
        lemma_index_of_is(t, c, i - 1);
    }
}

/// The value of the first digits of a digit string is at most the value of the
/// whole.
pub proof fn lemma_decimal_monotone(d: Seq<char>, k: int)
    requires
        all_digits(d),
        0 <= k <= d.len(),
    ensures
        0 <= decimal_value(d.take(k)) <= decimal_value(d),
    decreases d.len() - k,
{
    lemma_decimal_nonnegative(d.take(k));
    if k == d.len() {
        assert(d.take(k) =~= d);
    } else {
        lemma_decimal_monotone(d, k + 1);
        let t = d.take(k + 1);
        assert(t.drop_last() =~= d.take(k));
        assert(t.last() == d[k]);
        assert(is_digit(d[k]));
    }
}

/// The value of a digit string is not negative.
pub proof fn lemma_decimal_nonnegative(d: Seq<char>)
    requires
        all_digits(d),
    ensures
        0 <= decimal_value(d),
    decreases d.len(),
{
    if d.len() > 0 {
        let t = d.drop_last();
        assert forall|i: int| 0 <= i < t.len() implies is_digit(#[trigger] t[i]) by {
            assert(t[i] == d[i]);
        }
        lemma_decimal_nonnegative(t);
        assert(is_digit(d[d.len() - 1]));
    }
}

/// The views of a list of character vectors.
pub open spec fn pieces_view(v: Seq<Vec<char>>) -> Seq<Seq<char>> {
    v.map_values(|p: Vec<char>| p@)
}

/// Cuts `s` at every `sep`.
pub fn split_chars(s: &Vec<char>, sep: char) -> (r: Vec<Vec<char>>)
    ensures
        pieces_view(r@) == split_on(s@, sep),
{
    let mut parts: Vec<Vec<char>> = Vec::new();
    let mut cur: Vec<char> = Vec::new();
    let ghost mut start: int = 0;
    let mut i: usize = 0;
    assert(s@.skip(0) =~= s@);
    assert(pieces_view(parts@) =~= Seq::empty());
    while i < s.len()
        invariant
            0 <= start <= i <= s.len(),
            cur@ == s@.subrange(start, i as int),
            forall|j: int| start <= j < i ==> s@[j] != sep,
            split_on(s@, sep) == pieces_view(parts@) + split_on(s@.skip(start), sep),
        decreases s.len() - i,
    {
        let c = s[i];
        if c == sep {
            proof {
                let rest = s@.skip(start);
                assert forall|j: int| 0 <= j < i - start implies rest[j] != sep by {
                    assert(rest[j] == s@[start + j]);
                }
                lemma_index_of_is(rest, sep, i - start);
                assert(rest.take(i - start) =~= s@.subrange(start, i as int));
                assert(rest.skip(i - start + 1) =~= s@.skip(i + 1));
                assert(pieces_view(parts@.push(cur)) =~= pieces_view(parts@) + seq![cur@]);
                assert(split_on(rest, sep) == seq![cur@] + split_on(s@.skip(i + 1), sep));
                assert(pieces_view(parts@) + (seq![cur@] + split_on(s@.skip(i + 1), sep))
                    =~= (pieces_view(parts@) + seq![cur@]) + split_on(s@.skip(i + 1), sep));
                start = i + 1;
            }
            parts.push(cur);
            cur = Vec::new();
            assert(cur@ =~= s@.subrange(start, i + 1));
        } else {
            cur.push(c);
            assert(cur@ =~= s@.subrange(start, i + 1));
        }
        i += 1;
    }
    proof {
        let rest = s@.skip(start);
        assert forall|j: int| 0 <= j < rest.len() implies rest[j] != sep by {
            assert(rest[j] == s@[start + j]);
        }
        lemma_index_of_is(rest, sep, rest.len() as int);
        assert(rest =~= cur@);
        assert(pieces_view(parts@.push(cur)) =~= pieces_view(parts@) + seq![cur@]);
    }
    parts.push(cur);
    parts
}

/// Reads one component of a version.
pub fn parse_component(p: &Vec<char>) -> (r: Option<u32>)
    ensures
        match r {
            Some(v) => parse_u32(p@) == Some(v as int),
            None => parse_u32(p@) is None,
        },
{
    let n = p.len();
    let begin: usize = if n > 0 && p[0] == '+' {
        1
    } else {
        0
    };
    if begin == n {
        return None;
    }
    let ghost d = p@.subrange(begin as int, n as int);
    assert(d =~= unsigned_part(p@));
    let mut acc: u64 = 0;
    let mut i: usize = begin;
    assert(d.take(0) =~= Seq::<char>::empty());
    while i < n
        invariant
            begin <= i <= n,
            n == p.len(),
            d == unsigned_part(p@),
            d.len() == n - begin,
            forall|j: int| 0 <= j < d.len() ==> d[j] == p@[begin + j],
            all_digits(d.take(i - begin)),
            acc == decimal_value(d.take(i - begin)),
            acc <= u32::MAX,
        decreases n - i,
    {
        let c = p[i];
        if !('0' <= c && c <= '9') {
            assert(d[i - begin] == c);
            assert(!is_digit(d[i - begin]));
            return None;
        }
        let digit: u64 = (c as u32 - 48) as u64;
        acc = acc * 10 + digit;
        proof {
            let t = d.take(i - begin + 1);
            assert(t.drop_last() =~= d.take(i - begin));
            assert(t.last() == c);
            assert forall|j: int| 0 <= j < t.len() implies is_digit(#[trigger] t[j]) by {
                if j < i - begin {
                    assert(d.take(i - begin)[j] == t[j]);
                }
            }
        }
        if acc > 0xffff_ffff {
            proof {
                if all_digits(d) {
                    lemma_decimal_monotone(d, i - begin + 1);
                }
            }
            return None;
        }
        i += 1;
    }
    assert(d.take(n - begin) =~= d);
    Some(acc as u32)
}

/// The numeric components of a version string.
pub fn version_components(v: &str) -> (r: Vec<u32>)
    ensures
        as_ints(r@) == semver_parts(v@),
{
    let pieces = split_chars(&chars_of(v), '.');
    let mut out: Vec<u32> = Vec::new();
    let mut i: usize = 0;
    assert(pieces_view(pieces@).take(0) =~= Seq::empty());
    assert(as_ints(out@) =~= Seq::empty());
    while i < pieces.len()
        invariant
            i <= pieces.len(),
            pieces_view(pieces@) == split_on(v@, '.'),
            as_ints(out@) == parsed_parts(pieces_view(pieces@).take(i as int)),
        decreases pieces.len() - i,
    {
        let ghost before = out@;
        let parsed = parse_component(&pieces[i]);
        proof {
            let t = pieces_view(pieces@).take(i + 1);
            assert(t.drop_last() =~= pieces_view(pieces@).take(i as int));
            assert(t.last() == pieces@[i as int]@);
        }
        match parsed {
            Some(x) => {
                out.push(x);
                assert(as_ints(out@) =~= as_ints(before).push(x as int));
            },
            None => {},
        }
        i += 1;
    }
    assert(pieces_view(pieces@).take(pieces.len() as int) =~= pieces_view(pieces@));
    out
}

/// The sign of the comparison of two versions: -1, 0 or 1.
pub fn semver_sign(v1: &str, v2: &str) -> (r: i8)
    ensures
        r == semver_order(v1@, v2@),
        -1 <= r <= 1,
{
    let a = version_components(v1);
    let b = version_components(v2);
    let ghost sa = semver_parts(v1@);
    let ghost sb = semver_parts(v2@);
    let n = if a.len() >= b.len() {
        a.len()
    } else {
        b.len()
    };
    let mut i: usize = 0;
    while i < n
        invariant
            i <= n,
            n == (if a.len() >= b.len() {
                a.len()
            } else {
                b.len()
            }),
            sa == semver_parts(v1@),
            sb == semver_parts(v2@),
            sa == as_ints(a@),
            sb == as_ints(b@),
            order_from(sa, sb, 0) == order_from(sa, sb, i as int),
        decreases n - i,
    {
        let x: u32 = if i < a.len() {
            a[i]
        } else {
            0
        };
        let y: u32 = if i < b.len() {
            b[i]
        } else {
            0
        };
        assert(x == part_or_zero(sa, i as int));
        assert(y == part_or_zero(sb, i as int));
        if x < y {
            return -1;
        }
        if x > y {
            return 1;
        }
        i += 1;
    }
    0
}

/// Compares two versions component by component, from the left; a missing
/// component counts as zero and one that is no number is passed over.
pub fn compare_semver(v1: &str, v2: &str) -> (r: Ordering)
    ensures
        match r {
            Ordering::Less => semver_order(v1@, v2@) == -1,
            Ordering::Equal => semver_order(v1@, v2@) == 0,
            Ordering::Greater => semver_order(v1@, v2@) == 1,
        },
{
    let sign = semver_sign(v1, v2);
    if sign < 0 {
        Ordering::Less
    } else if sign > 0 {
        Ordering::Greater
    } else {
        Ordering::Equal
    }
}


/// Tells whether `candidate` is strictly newer than `best`.
pub fn is_newer(candidate: &str, best: &str) -> (r: bool)
    ensures
        r == (semver_order(candidate@, best@) > 0),
{
    semver_sign(candidate, best) > 0
}

/// Where the reported version came from.
#[derive(Clone, Copy, Debug, PartialEq, Eq, Structural)]
pub enum VersionSource {
    LocalInstallation,
    KnownStableFallback,
    RemoteAPI,
    ChangelogWeb,
    CargoToml,
}

/// The three versions that go into the user agent.
#[derive(Debug)]
pub struct VersionConfig {
    pub version: String,
    pub electron: String,
    pub chrome: String,
}

/// What the local installation of the editor says of its version.
#[derive(Debug)]
pub struct LocalVersion {
    pub short_version: String,
    pub bundle_version: String,
}

/// `candidate` is present and strictly newer than `best`.
pub open spec fn supersedes(candidate: Option<Seq<char>>, best: Seq<char>) -> bool {
    candidate matches Some(c) && semver_order(c, best) > 0
}

/// The better of the local version and the floor.
pub open spec fn local_or_floor(local: Option<Seq<char>>) -> Seq<char> {
    if supersedes(local, KNOWN_STABLE_VERSION@) {
        local->0
    } else {
        KNOWN_STABLE_VERSION@
    }
}

/// The version that is reported, given the local and the remote version.
pub open spec fn selected_version(local: Option<Seq<char>>, remote: Option<Seq<char>>) -> Seq<
    char,
> {
    if supersedes(remote, local_or_floor(local)) {
        remote->0
    } else {
        local_or_floor(local)
    }
}

/// The source of the version that is reported.
pub open spec fn selected_source(
    local: Option<Seq<char>>,
    remote: Option<Seq<char>>,
) -> VersionSource {
    if supersedes(remote, local_or_floor(local)) {
        VersionSource::RemoteAPI
    } else if supersedes(local, KNOWN_STABLE_VERSION@) {
        VersionSource::LocalInstallation
    } else {
        VersionSource::KnownStableFallback
    }
}

/// Chooses among the floor, the local version and the remote version: the
/// local one replaces the floor only if strictly newer, the remote one
/// replaces the better of those two only if strictly newer.
pub fn select_version(local: Option<String>, remote: Option<String>) -> (r: (
    VersionConfig,
    VersionSource,
))
    ensures
        r.0.version@ == selected_version(opt_view(local), opt_view(remote)),
        r.0.electron@ == KNOWN_STABLE_ELECTRON@,
        r.0.chrome@ == KNOWN_STABLE_CHROME@,
        r.1 == selected_source(opt_view(local), opt_view(remote)),
{
    let mut best: String = owned(KNOWN_STABLE_VERSION);
    let mut source = VersionSource::KnownStableFallback;
    match local {
        Some(l) => {
            if is_newer(l.as_str(), best.as_str()) {
                best = l;
                source = VersionSource::LocalInstallation;
            }
        },
        None => {},
    }
    match remote {
        Some(v) => {
            if is_newer(v.as_str(), best.as_str()) {
                best = v;
                source = VersionSource::RemoteAPI;
            }
        },
        None => {},
    }
    (
        VersionConfig {
            version: best,
            electron: owned(KNOWN_STABLE_ELECTRON),
            chrome: owned(KNOWN_STABLE_CHROME),
        },
        source,
    )
}

/// The version found in what the installation reports: in the short
/// version, else in the bundle version.
pub open spec fn local_version_in(short_version: Seq<char>, bundle_version: Seq<char>) -> Option<
    Seq<char>,
> {
    match version_in(short_version) {
        Some(v) => Some(v),
        None => version_in(bundle_version),
    }
}

/// The version that a local installation counts for, if it reports one.
pub open spec fn local_candidate(local: Option<LocalVersion>) -> Option<Seq<char>> {
    match local {
        Some(l) => local_version_in(l.short_version@, l.bundle_version@),
        None => None,
    }
}

/// Resolves the version to report from what the local installation says
/// and from the version that the remote probe found.
pub fn resolve_version_config(local: Option<LocalVersion>, remote: Option<String>) -> (r: (
    VersionConfig,
    VersionSource,
))
    ensures
        r.0.version@ == selected_version(local_candidate(local), opt_view(remote)),
        r.0.electron@ == KNOWN_STABLE_ELECTRON@,
        r.0.chrome@ == KNOWN_STABLE_CHROME@,
        r.1 == selected_source(local_candidate(local), opt_view(remote)),
{
    let candidate = match &local {
        Some(l) => {
            match parse_version(l.short_version.as_str()) {
                Some(v) => Some(v),
                None => parse_version(l.bundle_version.as_str()),
            }
        },
        None => None,
    };
    select_version(candidate, remote)
}

/// The primary address that is asked for the latest version.
pub const VERSION_URL: &'static str =
    "https://antigravity-auto-updater-974169037036.us-central1.run.app";

/// The address that is asked when the primary one gave no version.
pub const CHANGELOG_URL: &'static str = "https://antigravity.google/changelog";

/// Seconds after which a request for the remote version is given up.
pub const HTTP_TIMEOUT_SECS: u64 = 5;

/// Seconds that the caller waits for the worker that makes the requests.
pub const RECEIVE_TIMEOUT_SECS: u64 = 6;

/// One of the two places that are asked for the latest version.
#[derive(Clone, Copy, Debug, PartialEq, Eq, Structural)]
pub enum ProbeTarget {
    UpdateServer,
    Changelog,
}

/// What to do next while looking for the remote version.
#[derive(Debug)]
pub enum ProbeStep {
    /// Ask this place.
    Fetch(ProbeTarget),
    /// The search is over, with this result.
    Done(Option<String>),
}

/// The address of a place to ask.
pub fn probe_url(target: ProbeTarget) -> (r: &'static str)
    ensures
        r@ == (match target {
            ProbeTarget::UpdateServer => VERSION_URL@,
            ProbeTarget::Changelog => CHANGELOG_URL@,
        }),
{
    match target {
        ProbeTarget::UpdateServer => VERSION_URL,
        ProbeTarget::Changelog => CHANGELOG_URL,
    }
}

/// The version in the body of an answer, if there was an answer.
pub open spec fn version_in_body(body: Option<&str>) -> Option<Seq<char>> {
    match body {
        Some(b) => version_in(b@),
        None => None,
    }
}

/// Decides what follows the answer `body` of `target` (`None` when the
/// request failed): a version ends the search, the update server without
/// one is followed by the changelog, the changelog ends it either way.
pub fn after_probe(target: ProbeTarget, body: Option<&str>) -> (r: ProbeStep)
    ensures
        match r {
            ProbeStep::Fetch(next) => {
                &&& target == ProbeTarget::UpdateServer
                &&& version_in_body(body) is None
                &&& next == ProbeTarget::Changelog
            },
            ProbeStep::Done(found) => {
                &&& opt_view(found) == version_in_body(body)
                &&& (target == ProbeTarget::Changelog || found is Some)
            },
        },
{
    let found = match body {
        Some(b) => parse_version(b),
        None => None,
    };
    match target {
        ProbeTarget::UpdateServer => {
            if found.is_some() {
                ProbeStep::Done(found)
            } else {
                ProbeStep::Fetch(ProbeTarget::Changelog)
            }
        },
        ProbeTarget::Changelog => ProbeStep::Done(found),
    }
}

/// The version of this package.
pub const PACKAGE_VERSION: &'static str = "4.1.26";

/// The version of this package.
pub fn get_current_version() -> (r: String)
    ensures
        r@ == PACKAGE_VERSION@,
{
    owned(PACKAGE_VERSION)
}

/// The platform part of the user agent for an operating system's name.
pub open spec fn platform_info(os: Seq<char>) -> Seq<char> {
    if os == "macos"@ {
        "Macintosh; Intel Mac OS X 10_15_7"@
    } else if os == "windows"@ {
        "Windows NT 10.0; Win64; x64"@
    } else {
        "X11; Linux x86_64"@
    }
}

/// The platform part of the user agent: one of three fixed strings, the
/// Linux one for every name that is neither `macos` nor `windows`.
pub fn platform_string(os: &str) -> (r: &'static str)
    ensures
        r@ == platform_info(os@),
{
    if str_eq(os, "macos") {
        "Macintosh; Intel Mac OS X 10_15_7"
    } else if str_eq(os, "windows") {
        "Windows NT 10.0; Win64; x64"
    } else {
        "X11; Linux x86_64"
    }
}

/// `Antigravity/<version> (<platform>) Chrome/<chrome> Electron/<electron>`.
pub open spec fn user_agent_text(
    version: Seq<char>,
    platform: Seq<char>,
    chrome: Seq<char>,
    electron: Seq<char>,
) -> Seq<char> {
    "Antigravity/"@ + version + " ("@ + platform + ") Chrome/"@ + chrome + " Electron/"@
        + electron
}

/// Puts a user agent together from its four parts.
pub fn format_user_agent(version: &str, platform: &str, chrome: &str, electron: &str) -> (r:
    String)
    ensures
        r@ == user_agent_text(version@, platform@, chrome@, electron@),
{
    let mut out = concat2("Antigravity/", version);
    out.append(" (");
    out.append(platform);
    out.append(") Chrome/");
    out.append(chrome);
    out.append(" Electron/");
    out.append(electron);
    out
}

/// The user agent for a resolved version on the operating system `os`.
pub fn build_user_agent(config: &VersionConfig, os: &str) -> (r: String)
    ensures
        r@ == user_agent_text(
            config.version@,
            platform_info(os@),
            config.chrome@,
            config.electron@,
        ),
{
    format_user_agent(
        config.version.as_str(),
        platform_string(os),
        config.chrome.as_str(),
        config.electron.as_str(),
    )
}

/// The user agent of this package's own version, as on a Mac.
pub fn get_default_user_agent() -> (r: String)
    ensures
        r@ == user_agent_text(
            PACKAGE_VERSION@,
            "Macintosh; Intel Mac OS X 10_15_7"@,
            "132.0.6834.160"@,
            "39.2.3"@,
        ),
{
    format_user_agent(
        PACKAGE_VERSION,
        "Macintosh; Intel Mac OS X 10_15_7",
        "132.0.6834.160",
        "39.2.3",
    )
}

/// The user agent that the native authorization flow sends.
pub fn native_oauth_user_agent(version: &str) -> (r: String)
    ensures
        r@ == "vscode/1.X.X (Antigravity/"@ + version@ + ")"@,
{
    let mut out = concat2("vscode/1.X.X (Antigravity/", version);
    out.append(")");
    out
}

/// The order of a list of components with itself is equality.
pub proof fn lemma_order_reflexive(a: Seq<int>, from: int)
    ensures
        order_from(a, a, from) == 0,
    decreases a.len() - from,
{
    if from < 0 || from >= a.len() {
    } else {
        lemma_order_reflexive(a, from + 1);
    }
}

/// Swapping the two sides negates the order.
pub proof fn lemma_order_antisymmetric(a: Seq<int>, b: Seq<int>, from: int)
    ensures
        order_from(a, b, from) == -order_from(b, a, from),
    decreases
            (if a.len() >= b.len() {
                a.len()
            } else {
                b.len()
            }) - from,
{
    if from < 0 || (from >= a.len() && from >= b.len()) {
    } else if part_or_zero(a, from) == part_or_zero(b, from) {
        lemma_order_antisymmetric(a, b, from + 1);
    }
}

/// Beyond the end of both lists nothing differs.
pub proof fn lemma_order_past_end(a: Seq<int>, b: Seq<int>, from: int)
    requires
        from >= a.len(),
        from >= b.len(),
    ensures
        order_from(a, b, from) == 0,
{
}

/// The order is transitive, and strict where one of the two steps is.
pub proof fn lemma_order_transitive(a: Seq<int>, b: Seq<int>, c: Seq<int>, from: int)
    requires
        order_from(a, b, from) >= 0,
        order_from(b, c, from) >= 0,
    ensures
        order_from(a, c, from) >= 0,
        order_from(a, b, from) > 0 || order_from(b, c, from) > 0 ==> order_from(a, c, from) > 0,
    decreases a.len() + b.len() + c.len() - from,
{
    if from < 0 {
    } else if from >= a.len() && from >= b.len() && from >= c.len() {
    } else {
        let x = part_or_zero(a, from);
        let y = part_or_zero(b, from);
        let z = part_or_zero(c, from);
        lemma_order_first(a, b, from);
        lemma_order_first(b, c, from);
        lemma_order_first(a, c, from);
        if x == y && y == z {
            lemma_order_transitive(a, b, c, from + 1);
        }
    }
}

/// At a position within reach the first components decide, or the rest does.
pub proof fn lemma_order_first(a: Seq<int>, b: Seq<int>, from: int)
    requires
        from >= 0,
    ensures
        part_or_zero(a, from) < part_or_zero(b, from) ==> order_from(a, b, from) == -1,
        part_or_zero(a, from) > part_or_zero(b, from) ==> order_from(a, b, from) == 1,
        part_or_zero(a, from) == part_or_zero(b, from) ==> order_from(a, b, from) == order_from(
            a,
            b,
            from + 1,
        ),
{
    if from >= a.len() && from >= b.len() {
        lemma_order_past_end(a, b, from + 1);
    }
}

/// The reported version is never older than the floor, than the local
/// version or than the remote version.
pub proof fn law_selected_is_newest(local: Option<Seq<char>>, remote: Option<Seq<char>>)
    ensures
        semver_order(selected_version(local, remote), KNOWN_STABLE_VERSION@) >= 0,
        local matches Some(l) ==> semver_order(selected_version(local, remote), l) >= 0,
        remote matches Some(v) ==> semver_order(selected_version(local, remote), v) >= 0,
{
    let floor = semver_parts(KNOWN_STABLE_VERSION@);
    let mid = local_or_floor(local);
    let best = selected_version(local, remote);
    lemma_order_reflexive(floor, 0);
    lemma_order_reflexive(semver_parts(mid), 0);
    lemma_order_reflexive(semver_parts(best), 0);
    lemma_order_antisymmetric(semver_parts(best), semver_parts(mid), 0);
    lemma_order_transitive(semver_parts(best), semver_parts(mid), floor, 0);
    match local {
        Some(l) => {
            lemma_order_antisymmetric(semver_parts(mid), semver_parts(l), 0);
            lemma_order_reflexive(semver_parts(l), 0);
            lemma_order_transitive(semver_parts(best), semver_parts(mid), semver_parts(l), 0);
        },
        None => {},
    }
    match remote {
        Some(v) => {
            lemma_order_antisymmetric(semver_parts(best), semver_parts(v), 0);
            lemma_order_reflexive(semver_parts(v), 0);
        },
        None => {},
    }
}

} // verus!
