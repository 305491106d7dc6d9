//! The version of the program: `MAJOR.MINOR.shortsha`.

use vstd::prelude::*;
use crate::scan;
use crate::text;
use crate::text_lemmas;

verus! {

/// The short name of the commit: the one that is given, else what git says, where it succeeds,
/// else `unknown`.
pub open spec fn sha_of(given: Option<Seq<char>>, git: Option<(bool, Seq<char>)>) -> Seq<char> {
    match (given, git) {
        (Some(sha), _) => sha,
        (None, Some((true, output))) => text::trim(output),
        (None, _) => "unknown"@,
    }
}

/// The short name of the commit, where `git` is whether git succeeded and what it said.
pub fn short_sha(given: Option<&str>, git: Option<(bool, &str)>) -> (sha: String)
    ensures
        sha@ == sha_of(
            match given {
                Some(s) => Some(s@),
                None => None,
            },
            match git {
                Some((success, output)) => Some((success, output@)),
                None => None,
            },
        ),
{
    match given {
        Some(sha) => sha.to_owned(),
        None => match git {
            Some((true, output)) => scan::from_chars(scan::trimmed(&scan::to_chars(output))),
            _ => "unknown".to_owned(),
        },
    }
}

/// The version of the program: its numbers and the short name of the commit, with a dot between
/// each two.
pub open spec fn version_of(major: Seq<char>, minor: Seq<char>, sha: Seq<char>) -> Seq<char> {
    major + "."@ + minor + "."@ + sha
}

/// The version of the program.
pub fn version(major: &str, minor: &str, sha: &str) -> (s: String)
    ensures
        s@ == version_of(major@, minor@, sha@),
{
    let mut s = major.to_owned();
    s.append(".");
    s.append(minor);
    s.append(".");
    s.append(sha);
    s
}

/// A commit that is given is taken as it is, whatever git says; what git says counts without the
/// white space around it, and only where git succeeds.
pub proof fn law_given_commit_comes_first(
    given: Seq<char>,
    git: Option<(bool, Seq<char>)>,
    before: Seq<char>,
    sha: Seq<char>,
    after: Seq<char>,
)
    requires
        text_lemmas::all_space(before),
        text_lemmas::all_space(after),
        text_lemmas::starts_solid(sha),
        text_lemmas::ends_solid(sha),
    ensures
        sha_of(Some(given), git) == given,
        sha_of(None, Some((true, before + sha + after))) == sha,
        sha_of(None, Some((false, sha))) == "unknown"@,
        sha_of(None, None) == "unknown"@,
{
    text_lemmas::law_trimming(before, sha, after);
}

/// The parts of a version can be read back: the first number is what stands before the first dot,
/// the second what stands before the next, and the commit is all that follows.
pub proof fn law_version_is_read_back(major: Seq<char>, minor: Seq<char>, sha: Seq<char>)
    requires
        text_lemmas::lacks(major, '.'),
        text_lemmas::lacks(minor, '.'),
    ensures
        ({
            let whole = version_of(major, minor, sha);
            let rest = whole.skip(major.len() as int + 1);
            &&& text::span_until(whole, '.') == major.len()
            &&& whole.take(major.len() as int) == major
            &&& text::span_until(rest, '.') == minor.len()
            &&& rest.take(minor.len() as int) == minor
            &&& rest.skip(minor.len() as int + 1) == sha
        }),
{
    reveal_strlit(".");
    let whole = version_of(major, minor, sha);
    let m = major.len() as int;
    let n = minor.len() as int;
    let rest = whole.skip(m + 1);
    assert(rest =~= minor + "."@ + sha);
    assert forall|i: int| 0 <= i < m implies #[trigger] whole[i] != '.' by {
        assert(whole[i] == major[i]);
    }
    assert forall|i: int| 0 <= i < n implies #[trigger] rest[i] != '.' by {
        assert(rest[i] == minor[i]);
    }
    text_lemmas::span_is(whole, '.', m);
    text_lemmas::span_is(rest, '.', n);
    assert(whole.take(m) =~= major);
    assert(rest.take(n) =~= minor);
    assert(rest.skip(n + 1) =~= sha);
}

} // verus!
