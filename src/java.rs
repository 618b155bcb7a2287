//! Runtime discovery: reading the version a runtime reports, collecting the
//! installed runtimes, and choosing one that a version can run on.
use vstd::prelude::*;

use crate::models::Platform;
use crate::text::{
    chars_of, parse_u32_chars, parse_u32_spec, seq_contains, seq_starts_with, text_contains,
    text_eq, text_starts_with,
};

verus! {

/// The first capture group of the leftmost match of `pattern` in `haystack`,
/// as the `regex` crate finds it.
pub uninterp spec fn regex_first_group(pattern: Seq<char>, haystack: Seq<char>) -> Option<
    Seq<char>,
>;

/// Relies on `regex::Regex::new`, `Regex::captures` and `Captures::get(1)`:
/// the text of the first capture group of the leftmost match, or none when
/// the pattern does not compile, nothing matches, or the group is unset.
#[verifier::external_body]
fn regex_group_one(pattern: &str, haystack: &str) -> (r: Option<String>)
    ensures
        match r {
            Some(s) => regex_first_group(pattern@, haystack@) == Some(s@),
            None => regex_first_group(pattern@, haystack@) is None,
        },
{
    let re = match regex::Regex::new(pattern) {
        Ok(re) => re,
        Err(_) => return None,
    };
    let caps = re.captures(haystack)?;
    let group = caps.get(1)?;
    Some(group.as_str().to_string())
}

/// A quoted version after `version`, in either numbering grammar.
pub const MODERN_VERSION_PATTERN: &'static str = r#"version\s+"(\d+(?:\.\d+)*(?:_\d+)?(?:-[a-zA-Z0-9]+)?)""#;

/// A quoted legacy `1.X.Y[_U]` version after `version`.
pub const LEGACY_VERSION_PATTERN: &'static str = r#"version\s+"(1\.\d+\.\d+(?:_\d+)?(?:-[a-zA-Z0-9]+)?)""#;

/// The full version string in what `java -version` printed: the first
/// pattern's group, or else the legacy pattern's.
pub open spec fn full_version_spec(output: Seq<char>) -> Option<Seq<char>> {
    match regex_first_group(MODERN_VERSION_PATTERN@, output) {
        Some(v) => Some(v),
        None => regex_first_group(LEGACY_VERSION_PATTERN@, output),
    }
}

/// The full version string that a runtime printed for `-version`.
pub fn get_java_full_version(output: &str) -> (r: Option<String>)
    ensures
        match r {
            Some(v) => full_version_spec(output@) == Some(v@),
            None => full_version_spec(output@) is None,
        },
{
    match regex_group_one(MODERN_VERSION_PATTERN, output) {
        Some(v) => Some(v),
        None => regex_group_one(LEGACY_VERSION_PATTERN, output),
    }
}

/// The characters of `s` up to its first `.`, or all of it.
pub open spec fn until_dot(s: Seq<char>) -> Seq<char>
    decreases s.len(),
{
    if s.len() == 0 {
        s
    } else if s[0] == '.' {
        Seq::empty()
    } else {
        seq![s[0]] + until_dot(s.drop_first())
    }
}

/// The major version of a full version string: the second dotted component
/// of a legacy `1.X...` string, else the first component.
pub open spec fn major_spec(version: Seq<char>) -> Option<u32> {
    if seq_starts_with(version, "1."@) {
        parse_u32_spec(until_dot(version.subrange(2, version.len() as int)))
    } else {
        parse_u32_spec(until_dot(version))
    }
}

/// The end of the dotted component of `chars` that starts at `start`.
fn component_end(chars: &Vec<char>, start: usize) -> (r: usize)
    requires
        start <= chars@.len(),
    ensures
        start <= r <= chars@.len(),
        until_dot(chars@.subrange(start as int, chars@.len() as int)) == chars@.subrange(
            start as int,
            r as int,
        ),
{
    let n = chars.len();
    let mut k: usize = start;
    while k < n && chars[k] != '.'
        invariant
            start <= k <= n,
            n == chars@.len(),
            until_dot(chars@.subrange(start as int, n as int)) == chars@.subrange(
                start as int,
                k as int,
            ) + until_dot(chars@.subrange(k as int, n as int)),
        decreases n - k,
    {
        let ghost rest = chars@.subrange(k as int, n as int);
        assert(rest.drop_first() =~= chars@.subrange(k + 1, n as int));
        assert(chars@.subrange(start as int, k as int) + seq![rest[0]] =~= chars@.subrange(
            start as int,
            k + 1,
        ));
        k = k + 1;
    }
    assert(chars@.subrange(start as int, k as int) + Seq::<char>::empty() =~= chars@.subrange(
        start as int,
        k as int,
    ));
    k
}

/// The major version of a full version string, under either grammar.
pub fn major_from_full_version(version: &str) -> (r: Option<u32>)
    ensures
        r == major_spec(version@),
{
    let chars = chars_of(version);
    proof {
        reveal_strlit("1.");
    }
    let start: usize = if text_starts_with(version, "1.") {
        2
    } else {
        0
    };
    assert(start == 0 ==> chars@.subrange(0, chars@.len() as int) =~= version@);
    let end = component_end(&chars, start);
    parse_u32_chars(&chars, start, end)
}

/// The major version of the runtime that printed `output` for `-version`.
pub fn get_java_version(output: &str) -> (r: Option<u32>)
    ensures
        r == (match full_version_spec(output@) {
            Some(v) => major_spec(v),
            None => None,
        }),
{
    match get_java_full_version(output) {
        Some(v) => major_from_full_version(v.as_str()),
        None => None,
    }
}

/// An installed runtime: where its executable is, the version it reports,
/// and that version's major number.
#[derive(Clone, Debug)]
pub struct RuntimeCandidate {
    pub executable_path: String,
    pub version_string: String,
    pub major: u32,
}

impl RuntimeCandidate {
    /// The candidate for an executable that reported `version_string`, if
    /// the string has a major version.
    pub fn from_probe(executable_path: &String, version_string: &String) -> (r: Option<Self>)
        ensures
            match major_spec(version_string@) {
                Some(m) => r == Some(
                    RuntimeCandidate {
                        executable_path: *executable_path,
                        version_string: *version_string,
                        major: m,
                    },
                ),
                None => r is None,
            },
    {
        match major_from_full_version(version_string.as_str()) {
            Some(m) => Some(
                RuntimeCandidate {
                    executable_path: executable_path.clone(),
                    version_string: version_string.clone(),
                    major: m,
                },
            ),
            None => None,
        }
    }
}

/// Some candidate of `s` has the executable path `path`.
pub open spec fn has_path(s: Seq<RuntimeCandidate>, path: Seq<char>) -> bool {
    exists|i: int| 0 <= i < s.len() && (#[trigger] s[i]).executable_path@ == path
}

/// The candidates of `(path, version)` probes in probe order: those whose
/// version has a major number, each path kept at its first appearance.
pub open spec fn probe_candidates(probes: Seq<(String, String)>) -> Seq<RuntimeCandidate>
    decreases probes.len(),
{
    if probes.len() == 0 {
        Seq::empty()
    } else {
        let prev = probe_candidates(probes.drop_last());
        let p = probes.last();
        match major_spec(p.1@) {
            Some(m) => if has_path(prev, p.0@) {
                prev
            } else {
                prev.push(RuntimeCandidate { executable_path: p.0, version_string: p.1, major: m })
            },
            None => prev,
        }
    }
}

/// `s` with `c` placed after every element whose major is not above its own.
pub open spec fn insert_by_major(s: Seq<RuntimeCandidate>, c: RuntimeCandidate) -> Seq<
    RuntimeCandidate,
>
    decreases s.len(),
{
    if s.len() == 0 {
        seq![c]
    } else if s.last().major <= c.major {
        s.push(c)
    } else {
        insert_by_major(s.drop_last(), c).push(s.last())
    }
}

/// `s` sorted by ascending major version; equal majors keep their order.
pub open spec fn sort_by_major(s: Seq<RuntimeCandidate>) -> Seq<RuntimeCandidate>
    decreases s.len(),
{
    if s.len() == 0 {
        s
    } else {
        insert_by_major(sort_by_major(s.drop_last()), s.last())
    }
}

/// The majors of `s` never decrease.
pub open spec fn sorted_by_major(s: Seq<RuntimeCandidate>) -> bool {
    forall|i: int, j: int| 0 <= i < j < s.len() ==> s[i].major <= s[j].major
}

proof fn lemma_insert_at(s: Seq<RuntimeCandidate>, c: RuntimeCandidate, j: int)
    requires
        0 <= j <= s.len(),
        forall|k: int| j <= k < s.len() ==> (#[trigger] s[k]).major > c.major,
        j > 0 ==> s[j - 1].major <= c.major,
    ensures
        insert_by_major(s, c) == s.insert(j, c),
    decreases s.len(),
{
    if s.len() == 0 {
        assert(s.insert(j, c) =~= seq![c]);
    } else if j == s.len() {
        assert(s.insert(j, c) =~= s.push(c));
    } else {
        let t = s.drop_last();
        assert forall|k: int| j <= k < t.len() implies (#[trigger] t[k]).major > c.major by {
            assert(t[k] == s[k]);
        }
        lemma_insert_at(t, c, j);
        assert(t.insert(j, c).push(s.last()) =~= s.insert(j, c));
    }
}

proof fn lemma_insert_bounded(s: Seq<RuntimeCandidate>, c: RuntimeCandidate, b: u32)
    requires
        forall|k: int| 0 <= k < s.len() ==> (#[trigger] s[k]).major <= b,
        c.major <= b,
    ensures
        forall|k: int|
            0 <= k < insert_by_major(s, c).len() ==> (#[trigger] insert_by_major(s, c)[k]).major
                <= b,
        insert_by_major(s, c).len() == s.len() + 1,
    decreases s.len(),
{
    if s.len() > 0 && s.last().major > c.major {
        let t = s.drop_last();
        assert forall|k: int| 0 <= k < t.len() implies (#[trigger] t[k]).major <= b by {
            assert(t[k] == s[k]);
        }
        lemma_insert_bounded(t, c, b);
    }
}

proof fn lemma_insert_sorted(s: Seq<RuntimeCandidate>, c: RuntimeCandidate)
    requires
        sorted_by_major(s),
    ensures
        sorted_by_major(insert_by_major(s, c)),
    decreases s.len(),
{
    if s.len() > 0 && s.last().major > c.major {
        let t = s.drop_last();
        assert(sorted_by_major(t)) by {
            assert forall|i: int, j: int| 0 <= i < j < t.len() implies t[i].major
                <= t[j].major by {
                assert(t[i] == s[i] && t[j] == s[j]);
            }
        }
        lemma_insert_sorted(t, c);
        assert forall|k: int| 0 <= k < t.len() implies (#[trigger] t[k]).major
            <= s.last().major by {
            assert(t[k] == s[k]);
        }
        lemma_insert_bounded(t, c, s.last().major);
    }
}

/// Sorting by major yields ascending majors.
pub proof fn lemma_sort_by_major_sorted(s: Seq<RuntimeCandidate>)
    ensures
        sorted_by_major(sort_by_major(s)),
    decreases s.len(),
{
    if s.len() > 0 {
        lemma_sort_by_major_sorted(s.drop_last());
        lemma_insert_sorted(sort_by_major(s.drop_last()), s.last());
    }
}

/// No two candidates share an executable path.
pub open spec fn distinct_paths(s: Seq<RuntimeCandidate>) -> bool {
    forall|i: int, j: int|
        0 <= i < j < s.len() ==> (#[trigger] s[i]).executable_path@ != (#[trigger] s[j]).executable_path@
}

proof fn lemma_probe_candidates_distinct(probes: Seq<(String, String)>)
    ensures
        distinct_paths(probe_candidates(probes)),
    decreases probes.len(),
{
    if probes.len() > 0 {
        lemma_probe_candidates_distinct(probes.drop_last());
        let prev = probe_candidates(probes.drop_last());
        let p = probes.last();
        if major_spec(p.1@) is Some && !has_path(prev, p.0@) {
            let r = probe_candidates(probes);
            assert forall|i: int, j: int| 0 <= i < j < r.len() implies (#[trigger] r[i]).executable_path@
                != (#[trigger] r[j]).executable_path@ by {
                if j < prev.len() {
                    assert(r[i] == prev[i] && r[j] == prev[j]);
                } else {
                    assert(r[i] == prev[i]);
                }
            }
        }
    }
}

proof fn lemma_insert_members(s: Seq<RuntimeCandidate>, c: RuntimeCandidate, k: int)
    requires
        0 <= k < insert_by_major(s, c).len(),
    ensures
        insert_by_major(s, c).len() == s.len() + 1,
        insert_by_major(s, c)[k] == c || exists|m: int| 0 <= m < s.len() && s[m] == insert_by_major(s, c)[k],
    decreases s.len(),
{
    if s.len() == 0 {
    } else if s.last().major <= c.major {
        if k < s.len() {
            assert(s[k] == insert_by_major(s, c)[k]);
        }
    } else {
        let t = s.drop_last();
        let r = insert_by_major(s, c);
        lemma_insert_bounded_len(t, c);
        if k < r.len() - 1 {
            lemma_insert_members(t, c, k);
            if insert_by_major(t, c)[k] != c {
                let m = choose|m: int| 0 <= m < t.len() && t[m] == insert_by_major(t, c)[k];
                assert(s[m] == t[m]);
            }
        } else {
            assert(s[s.len() - 1] == r[k]);
        }
    }
}

proof fn lemma_insert_bounded_len(s: Seq<RuntimeCandidate>, c: RuntimeCandidate)
    ensures
        insert_by_major(s, c).len() == s.len() + 1,
    decreases s.len(),
{
    if s.len() > 0 && s.last().major > c.major {
        lemma_insert_bounded_len(s.drop_last(), c);
    }
}

proof fn lemma_insert_distinct(s: Seq<RuntimeCandidate>, c: RuntimeCandidate)
    requires
        distinct_paths(s),
        !has_path(s, c.executable_path@),
    ensures
        distinct_paths(insert_by_major(s, c)),
    decreases s.len(),
{
    lemma_insert_bounded_len(s, c);
    let r = insert_by_major(s, c);
    if s.len() == 0 {
    } else if s.last().major <= c.major {
        assert forall|i: int, j: int| 0 <= i < j < r.len() implies (#[trigger] r[i]).executable_path@
            != (#[trigger] r[j]).executable_path@ by {
            if j < s.len() {
                assert(r[i] == s[i] && r[j] == s[j]);
            } else {
                assert(r[i] == s[i]);
            }
        }
    } else {
        let t = s.drop_last();
        assert(distinct_paths(t)) by {
            assert forall|i: int, j: int| 0 <= i < j < t.len() implies (#[trigger] t[i]).executable_path@
                != (#[trigger] t[j]).executable_path@ by {
                assert(t[i] == s[i] && t[j] == s[j]);
            }
        }
        assert(!has_path(t, c.executable_path@)) by {
            if has_path(t, c.executable_path@) {
                let m = choose|m: int| 0 <= m < t.len() && (#[trigger] t[m]).executable_path@ == c.executable_path@;
                assert(s[m] == t[m]);
            }
        }
        lemma_insert_distinct(t, c);
        let u = insert_by_major(t, c);
        lemma_insert_bounded_len(t, c);
        assert forall|i: int, j: int| 0 <= i < j < r.len() implies (#[trigger] r[i]).executable_path@
            != (#[trigger] r[j]).executable_path@ by {
            if j < r.len() - 1 {
                assert(r[i] == u[i] && r[j] == u[j]);
            } else {
                assert(r[j] == s.last());
                assert(r[i] == u[i]);
                lemma_insert_members(t, c, i);
                if u[i] != c {
                    let m = choose|m: int| 0 <= m < t.len() && t[m] == u[i];
                    assert(s[m] == t[m]);
                    assert(s[s.len() - 1] == s.last());
                } else {
                    assert(s[s.len() - 1].executable_path@ != c.executable_path@);
                }
            }
        }
    }
}

proof fn lemma_sort_members(s: Seq<RuntimeCandidate>, k: int)
    requires
        0 <= k < sort_by_major(s).len(),
    ensures
        sort_by_major(s).len() == s.len(),
        exists|m: int| 0 <= m < s.len() && s[m] == sort_by_major(s)[k],
    decreases s.len(),
{
    lemma_sort_len(s);
    let t = s.drop_last();
    lemma_sort_len(t);
    lemma_insert_members(sort_by_major(t), s.last(), k);
    if sort_by_major(s)[k] == s.last() {
        assert(s[s.len() - 1] == sort_by_major(s)[k]);
    } else {
        let m = choose|m: int| 0 <= m < sort_by_major(t).len() && sort_by_major(t)[m] == sort_by_major(s)[k];
        lemma_sort_members(t, m);
        let n = choose|n: int| 0 <= n < t.len() && t[n] == sort_by_major(t)[m];
        assert(s[n] == t[n]);
    }
}

proof fn lemma_sort_len(s: Seq<RuntimeCandidate>)
    ensures
        sort_by_major(s).len() == s.len(),
    decreases s.len(),
{
    if s.len() > 0 {
        lemma_sort_len(s.drop_last());
        lemma_insert_bounded_len(sort_by_major(s.drop_last()), s.last());
    }
}

/// Sorting keeps candidates with distinct paths distinct.
pub proof fn lemma_sort_keeps_paths_distinct(s: Seq<RuntimeCandidate>)
    requires
        distinct_paths(s),
    ensures
        distinct_paths(sort_by_major(s)),
    decreases s.len(),
{
    if s.len() > 0 {
        let t = s.drop_last();
        assert(distinct_paths(t)) by {
            assert forall|i: int, j: int| 0 <= i < j < t.len() implies (#[trigger] t[i]).executable_path@
                != (#[trigger] t[j]).executable_path@ by {
                assert(t[i] == s[i] && t[j] == s[j]);
            }
        }
        lemma_sort_keeps_paths_distinct(t);
        assert(!has_path(sort_by_major(t), s.last().executable_path@)) by {
            if has_path(sort_by_major(t), s.last().executable_path@) {
                let k = choose|k: int| 0 <= k < sort_by_major(t).len() && (#[trigger] sort_by_major(t)[k]).executable_path@ == s.last().executable_path@;
                lemma_sort_members(t, k);
                let m = choose|m: int| 0 <= m < t.len() && t[m] == sort_by_major(t)[k];
                assert(s[m] == t[m]);
                assert(s[s.len() - 1] == s.last());
            }
        }
        lemma_insert_distinct(sort_by_major(t), s.last());
    }
}

fn contains_path(s: &Vec<RuntimeCandidate>, path: &str) -> (r: bool)
    ensures
        r == has_path(s@, path@),
{
    let mut i: usize = 0;
    while i < s.len()
        invariant
            i <= s@.len(),
            forall|k: int| 0 <= k < i ==> (#[trigger] s@[k]).executable_path@ != path@,
        decreases s@.len() - i,
    {
        if text_eq(s[i].executable_path.as_str(), path) {
            return true;
        }
        i = i + 1;
    }
    false
}

fn insert_sorted(out: &mut Vec<RuntimeCandidate>, c: RuntimeCandidate)
    ensures
        final(out)@ == insert_by_major(old(out)@, c),
{
    let mut j: usize = out.len();
    while j > 0 && out[j - 1].major > c.major
        invariant
            j <= out@.len(),
            forall|k: int| j <= k < out@.len() ==> (#[trigger] out@[k]).major > c.major,
        decreases j,
    {
        j = j - 1;
    }
    proof {
        lemma_insert_at(out@, c, j as int);
    }
    out.insert(j, c);
}

/// The runtimes found by probing, as `(executable path, full version)`
/// pairs in search order: those with a readable major version, each path
/// once, sorted by ascending major (equal majors keep search order).
pub fn find_all_java_installations(probes: &Vec<(String, String)>) -> (r: Vec<RuntimeCandidate>)
    ensures
        r@ == sort_by_major(probe_candidates(probes@)),
        sorted_by_major(r@),
        distinct_paths(r@),
{
    let mut found: Vec<RuntimeCandidate> = Vec::new();
    let mut i: usize = 0;
    while i < probes.len()
        invariant
            i <= probes@.len(),
            found@ == probe_candidates(probes@.subrange(0, i as int)),
        decreases probes@.len() - i,
    {
        let ghost prefix = probes@.subrange(0, i + 1);
        assert(prefix.drop_last() =~= probes@.subrange(0, i as int));
        assert(prefix.last() == probes@[i as int]);
        let p = &probes[i];
        match RuntimeCandidate::from_probe(&p.0, &p.1) {
            Some(c) => {
                if !contains_path(&found, p.0.as_str()) {
                    found.push(c);
                }
            },
            None => {},
        }
        i = i + 1;
    }
    assert(probes@.subrange(0, i as int) =~= probes@);
    let mut sorted: Vec<RuntimeCandidate> = Vec::new();
    let mut k: usize = 0;
    while k < found.len()
        invariant
            k <= found@.len(),
            sorted@ == sort_by_major(found@.subrange(0, k as int)),
        decreases found@.len() - k,
    {
        let ghost prefix = found@.subrange(0, k + 1);
        assert(prefix.drop_last() =~= found@.subrange(0, k as int));
        let c = RuntimeCandidate {
            executable_path: found[k].executable_path.clone(),
            version_string: found[k].version_string.clone(),
            major: found[k].major,
        };
        assert(c == prefix.last());
        insert_sorted(&mut sorted, c);
        k = k + 1;
    }
    assert(found@.subrange(0, k as int) =~= found@);
    proof {
        lemma_sort_by_major_sorted(found@);
        lemma_probe_candidates_distinct(probes@);
        lemma_sort_keeps_paths_distinct(found@);
    }
    sorted
}

/// Some candidate has exactly the required major.
pub open spec fn has_exact(s: Seq<RuntimeCandidate>, required: u32) -> bool {
    exists|i: int| 0 <= i < s.len() && (#[trigger] s[i]).major == required
}

/// Position `i` holds the first candidate with exactly the required major.
pub open spec fn first_exact(s: Seq<RuntimeCandidate>, required: u32, i: int) -> bool {
    &&& 0 <= i < s.len()
    &&& s[i].major == required
    &&& forall|k: int| 0 <= k < i ==> (#[trigger] s[k]).major != required
}

/// Position `i` holds the first candidate with the smallest major above the
/// required one.
pub open spec fn first_closest_above(s: Seq<RuntimeCandidate>, required: u32, i: int) -> bool {
    &&& 0 <= i < s.len()
    &&& s[i].major > required
    &&& forall|k: int| 0 <= k < s.len() && (#[trigger] s[k]).major > required ==> s[i].major <= s[k].major
    &&& forall|k: int| 0 <= k < i && (#[trigger] s[k]).major > required ==> s[k].major > s[i].major
}

/// Position `i` holds the runtime to use: the first exact match; failing
/// that, unless the match must be strict, the first closest-above one.
pub open spec fn chosen_runtime(s: Seq<RuntimeCandidate>, required: u32, strict: bool, i: int) -> bool {
    first_exact(s, required, i) || (!strict && !has_exact(s, required) && first_closest_above(
        s,
        required,
        i,
    ))
}

/// No runtime qualifies: no exact match, and either the match is strict or
/// no candidate is above the required major.
pub open spec fn no_runtime(s: Seq<RuntimeCandidate>, required: u32, strict: bool) -> bool {
    !has_exact(s, required) && (strict || forall|k: int|
        0 <= k < s.len() ==> (#[trigger] s[k]).major <= required)
}

/// The position of the runtime to use among candidates in search order.
pub fn select_runtime(candidates: &Vec<RuntimeCandidate>, required: u32, strict: bool) -> (r:
    Option<usize>)
    ensures
        match r {
            Some(i) => chosen_runtime(candidates@, required, strict, i as int),
            None => no_runtime(candidates@, required, strict),
        },
{
    let n = candidates.len();
    let mut i: usize = 0;
    while i < n
        invariant
            i <= n,
            n == candidates@.len(),
            forall|k: int| 0 <= k < i ==> (#[trigger] candidates@[k]).major != required,
        decreases n - i,
    {
        if candidates[i].major == required {
            return Some(i);
        }
        i = i + 1;
    }
    if strict {
        return None;
    }
    let mut best: Option<usize> = None;
    let mut k: usize = 0;
    while k < n
        invariant
            k <= n,
            n == candidates@.len(),
            !has_exact(candidates@, required),
            match best {
                Some(b) => b < k && first_closest_above(
                    candidates@.subrange(0, k as int),
                    required,
                    b as int,
                ),
                None => forall|j: int|
                    0 <= j < k ==> (#[trigger] candidates@[j]).major <= required,
            },
        decreases n - k,
    {
        let ghost pre = candidates@.subrange(0, k as int);
        let ghost post = candidates@.subrange(0, k + 1);
        assert forall|j: int| 0 <= j < k implies post[j] == pre[j] by {}
        let m = candidates[k].major;
        if m > required {
            match best {
                Some(b) => {
                    if m < candidates[b].major {
                        best = Some(k);
                        assert(first_closest_above(post, required, k as int)) by {
                            assert forall|j: int|
                                0 <= j < post.len() && (#[trigger] post[j]).major > required implies post[k as int].major
                                <= post[j].major by {
                                if j < k {
                                    assert(post[j] == pre[j]);
                                }
                            }
                        }
                    } else {
                        assert(first_closest_above(post, required, b as int)) by {
                            assert forall|j: int|
                                0 <= j < post.len() && (#[trigger] post[j]).major > required implies post[b as int].major
                                <= post[j].major by {
                                if j < k {
                                    assert(post[j] == pre[j]);
                                }
                            }
                            assert forall|j: int|
                                0 <= j < b && (#[trigger] post[j]).major > required implies post[j].major
                                > post[b as int].major by {
                                assert(post[j] == pre[j]);
                            }
                        }
                    }
                },
                None => {
                    best = Some(k);
                    assert(first_closest_above(post, required, k as int)) by {
                        assert forall|j: int|
                            0 <= j < post.len() && (#[trigger] post[j]).major > required implies post[k as int].major
                            <= post[j].major by {
                            if j < k {
                                assert(post[j] == candidates@[j]);
                            }
                        }
                    }
                },
            }
        } else {
            match best {
                Some(b) => {
                    assert(first_closest_above(post, required, b as int)) by {
                        assert forall|j: int|
                            0 <= j < post.len() && (#[trigger] post[j]).major > required implies post[b as int].major
                            <= post[j].major by {
                            if j < k {
                                assert(post[j] == pre[j]);
                            }
                        }
                        assert forall|j: int|
                            0 <= j < b && (#[trigger] post[j]).major > required implies post[j].major
                            > post[b as int].major by {
                            assert(post[j] == pre[j]);
                        }
                    }
                },
                None => {},
            }
        }
        k = k + 1;
    }
    assert(candidates@.subrange(0, k as int) =~= candidates@);
    best
}

/// The executable of the runtime to use among candidates in search order:
/// under `strict` only an exact major match; otherwise an exact match if
/// there is one, else the closest major above the required one.
pub fn find_compatible_java(candidates: &Vec<RuntimeCandidate>, required_version: u32, strict_match: bool) -> (r: Option<String>)
    ensures
        match r {
            Some(p) => exists|i: int|
                chosen_runtime(candidates@, required_version, strict_match, i) && p == (
                #[trigger] candidates@[i]).executable_path,
            None => no_runtime(candidates@, required_version, strict_match),
        },
{
    match select_runtime(candidates, required_version, strict_match) {
        Some(i) => Some(candidates[i].executable_path.clone()),
        None => None,
    }
}

/// The name of the runtime executable on a platform.
pub open spec fn executable_name_spec(platform: Platform) -> Seq<char> {
    match platform {
        Platform::Windows => "java.exe"@,
        _ => "java"@,
    }
}

/// The name of the runtime executable on `platform`.
pub fn java_executable_name(platform: Platform) -> (r: &'static str)
    ensures
        r@ == executable_name_spec(platform),
{
    match platform {
        Platform::Windows => "java.exe",
        _ => "java",
    }
}

/// The directories under which runtimes are usually installed.
pub open spec fn search_roots_spec(platform: Platform) -> Seq<Seq<char>> {
    match platform {
        Platform::Windows => seq![
            "C:\\Program Files\\Java"@,
            "C:\\Program Files (x86)\\Java"@,
            "C:\\Program Files\\AdoptOpenJDK"@,
            "C:\\Program Files (x86)\\AdoptOpenJDK"@,
            "C:\\Program Files\\Eclipse Adoptium"@,
            "C:\\Program Files (x86)\\Eclipse Adoptium"@,
            "C:\\Program Files\\Zulu"@,
            "C:\\Program Files (x86)\\Zulu"@,
            "C:\\Program Files\\BellSoft"@,
            "C:\\Program Files (x86)\\BellSoft"@,
        ],
        Platform::Linux => seq!["/usr/lib/jvm"@, "/usr/java"@, "/opt/java"@],
        Platform::Osx => seq![
            "/Library/Java/JavaVirtualMachines"@,
            "/System/Library/Java/JavaVirtualMachines"@,
            "/Library/Internet Plug-Ins/JavaAppletPlugin.plugin/Contents/Home"@,
        ],
    }
}

/// The directories searched for runtimes on `platform`, in search order.
pub fn runtime_search_roots(platform: Platform) -> (r: Vec<&'static str>)
    ensures
        r@.map_values(|s: &'static str| s@) == search_roots_spec(platform),
{
    let r: Vec<&'static str> = match platform {
        Platform::Windows => vec![
            "C:\\Program Files\\Java",
            "C:\\Program Files (x86)\\Java",
            "C:\\Program Files\\AdoptOpenJDK",
            "C:\\Program Files (x86)\\AdoptOpenJDK",
            "C:\\Program Files\\Eclipse Adoptium",
            "C:\\Program Files (x86)\\Eclipse Adoptium",
            "C:\\Program Files\\Zulu",
            "C:\\Program Files (x86)\\Zulu",
            "C:\\Program Files\\BellSoft",
            "C:\\Program Files (x86)\\BellSoft",
        ],
        Platform::Linux => vec!["/usr/lib/jvm", "/usr/java", "/opt/java"],
        Platform::Osx => vec![
            "/Library/Java/JavaVirtualMachines",
            "/System/Library/Java/JavaVirtualMachines",
            "/Library/Internet Plug-Ins/JavaAppletPlugin.plugin/Contents/Home",
        ],
    };
    assert(r@.map_values(|s: &'static str| s@) =~= search_roots_spec(platform));
    r
}

/// The installation directory names that mark a version-8 runtime.
pub open spec fn java8_home_markers() -> Seq<Seq<char>> {
    seq!["jre1.8"@, "jdk1.8"@, "jre8"@, "jdk8"@]
}

/// Whether an installation directory's name marks a version-8 runtime.
pub fn is_java8_home_name(name: &str) -> (r: bool)
    ensures
        r == exists|k: int| 0 <= k < 4 && seq_contains(name@, #[trigger] java8_home_markers()[k]),
{
    let a = text_contains(name, "jre1.8");
    let b = text_contains(name, "jdk1.8");
    let c = text_contains(name, "jre8");
    let d = text_contains(name, "jdk8");
    let r = a || b || c || d;
    assert(r == exists|k: int| 0 <= k < 4 && seq_contains(name@, #[trigger] java8_home_markers()[k])) by {
        let m = java8_home_markers();
        assert(m[0] == "jre1.8"@ && m[1] == "jdk1.8"@ && m[2] == "jre8"@ && m[3] == "jdk8"@);
        if r {
            if a {
                assert(seq_contains(name@, m[0]));
            } else if b {
                assert(seq_contains(name@, m[1]));
            } else if c {
                assert(seq_contains(name@, m[2]));
            } else {
                assert(seq_contains(name@, m[3]));
            }
        }
    }
    r
}

} // verus!
