//! Update check against the GitHub releases API: version parsing and what a fetched release
//! means. The request itself runs outside.

use crate::connstr::{first_index, lemma_first_index};
use crate::text::{chars_of, find_char, parse_uint, parse_uint_exec, slice, string_of, trim, trimmed_of};
use vstd::prelude::*;

verus! {

broadcast use vstd::string::group_string_axioms;

pub const REPO: &'static str = "methodify/cobalt-sqlworks";

pub const RELEASES_PAGE: &'static str = "https://github.com/methodify/cobalt-sqlworks/releases/latest";

#[derive(Clone, Debug)]
pub struct UpdateInfo {
    pub version: String,
    pub url: String,
    pub notes: String,
}

#[derive(Clone, Debug)]
pub enum UpdateOutcome {
    UpToDate { manual: bool },
    Available { info: UpdateInfo, manual: bool },
    Failed { error: String, manual: bool },
}

/// The latest release as GitHub describes it.
#[derive(Clone, Debug)]
pub struct Release {
    pub tag_name: String,
    pub html_url: String,
    pub body: Option<String>,
    pub draft: bool,
    pub prerelease: bool,
}

/// Drop one leading `v` or `V`.
pub open spec fn strip_one_v(s: Seq<char>) -> Seq<char> {
    if s.len() > 0 && (s[0] == 'v' || s[0] == 'V') {
        s.drop_first()
    } else {
        s
    }
}

/// The length of the part before the first `-` or `+`.
pub open spec fn core_len(s: Seq<char>) -> nat
    decreases s.len(),
{
    if s.len() == 0 || s[0] == '-' || s[0] == '+' {
        0
    } else {
        1 + core_len(s.drop_first())
    }
}

/// The part before the first `.`.
pub open spec fn seg_head(s: Seq<char>) -> Seq<char> {
    match first_index(s, '.') {
        Some(i) => s.take(i),
        None => s,
    }
}

/// The part after the first `.`, when there is one.
pub open spec fn seg_tail(s: Seq<char>) -> Option<Seq<char>> {
    match first_index(s, '.') {
        Some(i) => Some(s.skip(i + 1)),
        None => None,
    }
}

/// A `u64` component.
pub open spec fn component(s: Seq<char>) -> Option<nat> {
    parse_uint(s, u64::MAX as nat)
}

/// `v1.2.3` / `1.2.3` / `1.2.3-beta` → (1, 2, 3): the trimmed text, one optional leading `v`
/// or `V`, then up to the first `-` or `+` one to three `.`-separated `u64` fields; a missing
/// minor or patch counts as 0. Anything else (an empty or non-decimal field, a fourth field, a
/// second `v`) → `None`.
pub open spec fn version_of(s: Seq<char>) -> Option<(nat, nat, nat)> {
    let t = strip_one_v(trim(s));
    let core = t.take(core_len(t) as int);
    let minor = match seg_tail(core) {
        Some(rest) => component(seg_head(rest)),
        None => Some(0nat),
    };
    let patch = match seg_tail(core) {
        Some(rest) => match seg_tail(rest) {
            Some(rest2) => if seg_tail(rest2) is None {
                component(rest2)
            } else {
                None
            },
            None => Some(0nat),
        },
        None => Some(0nat),
    };
    match (component(seg_head(core)), minor, patch) {
        (Some(a), Some(b), Some(c)) => Some((a, b, c)),
        _ => None,
    }
}

/// Lexicographic order on versions.
pub open spec fn version_gt(a: (nat, nat, nat), b: (nat, nat, nat)) -> bool {
    a.0 > b.0 || (a.0 == b.0 && (a.1 > b.1 || (a.1 == b.1 && a.2 > b.2)))
}

/// `candidate` names a later version than `current`; unparsable versions are never newer.
pub open spec fn newer(candidate: Seq<char>, current: Seq<char>) -> bool {
    match (version_of(candidate), version_of(current)) {
        (Some(c), Some(n)) => version_gt(c, n),
        _ => false,
    }
}

/// The first segment of `v`, and the rest after the `.`.
fn split_dot(v: &Vec<char>) -> (r: (Vec<char>, Option<Vec<char>>))
    ensures
        r.0@ == seg_head(v@),
        match r.1 {
            Some(t) => seg_tail(v@) == Some(t@),
            None => seg_tail(v@) is None,
        },
{
    let d = find_char(v, '.', 0);
    proof {
        lemma_first_index(
            v@,
            '.',
            match d {
                Some(k) => Some(k as int),
                None => None,
            },
        );
    }
    match d {
        Some(i) => {
            let h = slice(v, 0, i);
            let t = slice(v, i + 1, v.len());
            assert(h@ =~= v@.take(i as int));
            assert(t@ =~= v@.skip(i + 1));
            (h, Some(t))
        },
        None => {
            let h = slice(v, 0, v.len());
            assert(h@ =~= v@);
            (h, None)
        },
    }
}

fn component_exec(v: &Vec<char>) -> (r: Option<u64>)
    ensures
        match component(v@) {
            Some(n) => r == Some(n as u64),
            None => r is None,
        },
{
    parse_uint_exec(v, u64::MAX)
}

/// Parse a version tag.
pub fn parse_version(s: &str) -> (r: Option<(u64, u64, u64)>)
    ensures
        match version_of(s@) {
            Some((a, b, c)) => r == Some((a as u64, b as u64, c as u64)),
            None => r is None,
        },
{
    let v = trimmed_of(s);
    let i: usize = if v.len() > 0 && (v[0] == 'v' || v[0] == 'V') {
        1
    } else {
        0
    };
    let ghost t = v@.skip(i as int);
    assert(v@.skip(0) =~= v@);
    assert(t == strip_one_v(v@));
    let mut j: usize = i;
    assert(v@.skip(j as int) =~= t);
    while j < v.len() && v[j] != '-' && v[j] != '+'
        invariant
            i <= j <= v.len(),
            t == v@.skip(i as int),
            (j - i) + core_len(v@.skip(j as int)) == core_len(t),
        decreases v.len() - j,
    {
        assert(v@.skip(j as int).drop_first() =~= v@.skip(j + 1));
        j = j + 1;
    }
    assert(core_len(v@.skip(j as int)) == 0);
    let core = slice(&v, i, j);
    assert(core@ =~= t.take(core_len(t) as int));
    let (h0, rest0) = split_dot(&core);
    let major = match component_exec(&h0) {
        Some(x) => x,
        None => return None,
    };
    let (minor, patch) = match rest0 {
        None => (0u64, 0u64),
        Some(r1) => {
            let (h1, rest1) = split_dot(&r1);
            let minor = match component_exec(&h1) {
                Some(x) => x,
                None => return None,
            };
            let patch = match rest1 {
                None => 0u64,
                Some(r2) => {
                    let (_, rest2) = split_dot(&r2);
                    if rest2.is_some() {
                        return None;
                    }
                    match component_exec(&r2) {
                        Some(x) => x,
                        None => return None,
                    }
                },
            };
            (minor, patch)
        },
    };
    Some((major, minor, patch))
}

/// Whether `candidate` names a later version than `current`.
pub fn is_newer(candidate: &str, current: &str) -> (r: bool)
    ensures
        r == newer(candidate@, current@),
{
    match (parse_version(candidate), parse_version(current)) {
        (Some(c), Some(n)) => c.0 > n.0 || (c.0 == n.0 && (c.1 > n.1 || (c.1 == n.1 && c.2 > n.2))),
        _ => false,
    }
}

/// No version is newer than itself.
pub proof fn law_newer_irreflexive(v: Seq<char>)
    ensures
        !newer(v, v),
{
}

/// Of two versions at most one is newer than the other.
pub proof fn law_newer_asymmetric(a: Seq<char>, b: Seq<char>)
    ensures
        !(newer(a, b) && newer(b, a)),
{
}

/// Newer is transitive.
pub proof fn law_newer_transitive(a: Seq<char>, b: Seq<char>, c: Seq<char>)
    requires
        newer(a, b),
        newer(b, c),
    ensures
        newer(a, c),
{
}

/// Of two versions that both parse and differ, one is newer than the other: every difference
/// counts, down to the patch number, so `1.2.4` is newer than `1.2.3` and `1.3.0` than `1.2.9`.
pub proof fn law_newer_total(a: Seq<char>, b: Seq<char>)
    requires
        version_of(a) is Some,
        version_of(b) is Some,
        version_of(a) != version_of(b),
    ensures
        newer(a, b) || newer(b, a),
{
}

/// With the same major and minor numbers, the larger patch number is the newer version; and a
/// larger major number is newer whatever follows it.
pub proof fn law_newer_by_component(a: Seq<char>, b: Seq<char>)
    requires
        version_of(a) is Some,
        version_of(b) is Some,
    ensures
        version_of(a).unwrap().0 == version_of(b).unwrap().0 && version_of(a).unwrap().1 == version_of(b).unwrap().1
            ==> (newer(a, b) <==> version_of(a).unwrap().2 > version_of(b).unwrap().2),
        version_of(a).unwrap().0 > version_of(b).unwrap().0 ==> newer(a, b),
{
}

/// Drop every leading `v`.
pub open spec fn strip_v(s: Seq<char>) -> Seq<char>
    decreases s.len(),
{
    if s.len() > 0 && s[0] == 'v' {
        strip_v(s.drop_first())
    } else {
        s
    }
}

/// What a fetched release means for a check that was `manual` or automatic, given the running
/// version `current`.
pub fn release_outcome(fetched: Result<Release, String>, manual: bool, current: &str) -> (r: UpdateOutcome)
    ensures
        match fetched {
            Err(e) => r == (UpdateOutcome::Failed { error: e, manual }),
            Ok(rel) => if rel.draft || rel.prerelease {
                r matches UpdateOutcome::Failed { error, manual: m } && m == manual && error@
                    == "latest release is a draft or pre-release"@
            } else if newer(rel.tag_name@, current@) {
                r matches UpdateOutcome::Available { info, manual: m } && m == manual && info.version@ == strip_v(
                    rel.tag_name@,
                ) && info.url@ == rel.html_url@ && info.notes@ == match rel.body {
                    Some(b) => b@,
                    None => Seq::<char>::empty(),
                }
            } else {
                r == (UpdateOutcome::UpToDate { manual })
            },
        },
{
    match fetched {
        Err(e) => UpdateOutcome::Failed { error: e, manual },
        Ok(rel) => {
            if rel.draft || rel.prerelease {
                return UpdateOutcome::Failed { error: "latest release is a draft or pre-release".to_owned(), manual };
            }
            if is_newer(rel.tag_name.as_str(), current) {
                let v = chars_of(rel.tag_name.as_str());
                let mut i: usize = 0;
                assert(v@.skip(0) =~= v@);
                while i < v.len() && v[i] == 'v'
                    invariant
                        i <= v.len(),
                        v@ == rel.tag_name@,
                        strip_v(v@.skip(i as int)) == strip_v(rel.tag_name@),
                    decreases v.len() - i,
                {
                    assert(v@.skip(i as int).drop_first() =~= v@.skip(i + 1));
                    i = i + 1;
                }
                let version = slice(&v, i, v.len());
                assert(version@ =~= v@.skip(i as int));
                let notes = match rel.body {
                    Some(b) => b,
                    None => String::new(),
                };
                UpdateOutcome::Available {
                    info: UpdateInfo { version: string_of(&version), url: rel.html_url, notes },
                    manual,
                }
            } else {
                UpdateOutcome::UpToDate { manual }
            }
        },
    }
}

} // verus!
