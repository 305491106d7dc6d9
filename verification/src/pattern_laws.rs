//! What holds of the patterns.

use vstd::prelude::*;
use crate::patterns;
use crate::patterns::{EntryModel, PatternEntry};
use crate::text;
use crate::text_lemmas;

verus! {

/// What is found is the first entry that matches.
proof fn match_from_bound(entries: Seq<EntryModel>, raw: Seq<char>, i: int)
    requires
        0 <= i,
    ensures
        match patterns::match_from(entries, raw, i) {
            Some(k) => i <= k < entries.len() && patterns::matches(entries[k].regex, raw)
                && forall|j: int|
                i <= j < k ==> !patterns::matches((#[trigger] entries[j]).regex, raw),
            None => forall|j: int|
                i <= j < entries.len() ==> !patterns::matches((#[trigger] entries[j]).regex, raw),
        },
    decreases entries.len() - i,
{
    if i < entries.len() && !patterns::matches(entries[i].regex, raw) {
        match_from_bound(entries, raw, i + 1);
    }
}

/// Entries behind a match do not change what is found.
proof fn match_from_extended(
    entries: Seq<EntryModel>,
    more: Seq<EntryModel>,
    raw: Seq<char>,
    i: int,
)
    requires
        0 <= i,
        patterns::match_from(entries, raw, i) is Some,
    ensures
        patterns::match_from(entries + more, raw, i) == patterns::match_from(entries, raw, i),
    decreases entries.len() - i,
{
    if i < entries.len() {
        assert((entries + more)[i] == entries[i]);
        if !patterns::matches(entries[i].regex, raw) {
            match_from_extended(entries, more, raw, i + 1);
        }
    }
}

/// The first pattern that matches decides: no earlier one matches.
pub proof fn law_first_match_decides(entries: Seq<EntryModel>, raw: Seq<char>, k: int)
    requires
        0 <= k < entries.len(),
        patterns::matches(entries[k].regex, raw),
        forall|j: int| 0 <= j < k ==> !patterns::matches((#[trigger] entries[j]).regex, raw),
    ensures
        patterns::first_match(entries, raw) == Some(k),
        patterns::classification(entries, raw).0 == entries[k].prompt,
        !entries[k].strip_prefix ==> patterns::classification(entries, raw).1 == raw,
{
    match_from_bound(entries, raw, 0);
}

/// Where no pattern matches, the task is a general one and is described by its whole text.
pub proof fn law_no_match_is_general(entries: Seq<EntryModel>, raw: Seq<char>)
    requires
        forall|j: int|
            0 <= j < entries.len() ==> !patterns::matches((#[trigger] entries[j]).regex, raw),
    ensures
        patterns::classification(entries, raw) == ("todo"@, raw),
{
    match_from_bound(entries, raw, 0);
}

/// A task that some pattern matches is not changed by patterns that are added behind.
pub proof fn law_patterns_behind_a_match_do_not_count(
    entries: Seq<EntryModel>,
    more: Seq<EntryModel>,
    raw: Seq<char>,
)
    requires
        patterns::first_match(entries, raw) is Some,
    ensures
        patterns::classification(entries + more, raw) == patterns::classification(entries, raw),
{
    match_from_bound(entries, raw, 0);
    match_from_extended(entries, more, raw, 0);
    let k = patterns::first_match(entries, raw)->0;
    assert((entries + more)[k] == entries[k]);
}

/// A task that no pattern in front matches is not changed by these patterns.
pub proof fn law_patterns_in_front_without_a_match_do_not_count(
    front: Seq<EntryModel>,
    more: Seq<EntryModel>,
    raw: Seq<char>,
)
    requires
        patterns::first_match(front, raw) is None,
    ensures
        patterns::classification(front + more, raw) == patterns::classification(more, raw),
{
    let all = front + more;
    let n = front.len() as int;
    match_from_bound(front, raw, 0);
    match_from_bound(more, raw, 0);
    assert forall|j: int| 0 <= j < all.len() implies (#[trigger] all[j]) == (if j < n {
        front[j]
    } else {
        more[j - n]
    }) by {}
    match patterns::first_match(more, raw) {
        Some(k) => {
            assert(all[n + k] == more[k]);
            law_first_match_decides(all, raw, n + k);
        },
        None => {
            law_no_match_is_general(all, raw);
        },
    }
}

/// What the expression of a pattern that compiles leaves of the text is what describes the task,
/// without the white space at its ends, where the prefix is to be stripped, and the whole text
/// otherwise. Nothing else that the text or the rest holds counts.
pub proof fn law_the_match_is_stripped(
    entries: Seq<EntryModel>,
    raw: Seq<char>,
    k: int,
    re: regex::Regex,
)
    requires
        0 <= k < entries.len(),
        patterns::regex_compile(entries[k].regex, usize::BITS as nat) == Ok::<
            regex::Regex,
            regex::Error,
        >(re),
        patterns::regex_is_match(re, raw),
        forall|j: int, other: regex::Regex|
            0 <= j < k && patterns::regex_compile(
                (#[trigger] entries[j]).regex,
                usize::BITS as nat,
            ) == Ok::<regex::Regex, regex::Error>(other) ==> !(
            #[trigger] patterns::regex_is_match(other, raw)),
    ensures
        patterns::classification(entries, raw) == (
            entries[k].prompt,
            if entries[k].strip_prefix {
                text::trim(patterns::regex_replace(re, raw, ""@))
            } else {
                raw
            },
        ),
{
    law_first_match_decides(entries, raw, k);
}

/// A task that no expression matches is given to the prompt `todo` as it is.
pub proof fn law_unmatched_text_is_kept(entries: Seq<EntryModel>, raw: Seq<char>)
    requires
        forall|j: int, re: regex::Regex|
            0 <= j < entries.len() && patterns::regex_compile(
                (#[trigger] entries[j]).regex,
                usize::BITS as nat,
            ) == Ok::<regex::Regex, regex::Error>(re) ==> !(
            #[trigger] patterns::regex_is_match(re, raw)),
    ensures
        patterns::classification(entries, raw) == ("todo"@, raw),
{
    law_no_match_is_general(entries, raw);
}

/// Once the entry of a task is known, its prompt is the one of the entry; the description is the
/// rest, trimmed, where the entry strips its prefix, and the whole text otherwise. What the texts
/// hold does not count.
pub proof fn law_the_entry_alone_resolves(
    entries: Seq<EntryModel>,
    k: int,
    raw: Seq<char>,
    before: Seq<char>,
    rest: Seq<char>,
    after: Seq<char>,
)
    requires
        0 <= k < entries.len(),
        text_lemmas::all_space(before),
        text_lemmas::all_space(after),
        text_lemmas::starts_solid(rest),
        text_lemmas::ends_solid(rest),
    ensures
        entries[k].strip_prefix ==> patterns::resolution(
            entries,
            Some(k),
            raw,
            before + rest + after,
        ) == (entries[k].prompt, rest),
        !entries[k].strip_prefix ==> patterns::resolution(entries, Some(k), raw, rest) == (
            entries[k].prompt,
            raw,
        ),
        patterns::resolution(entries, None, raw, rest) == ("todo"@, raw),
{
    text_lemmas::law_trimming(before, rest, after);
}

/// What is found is the first entry whose pattern does not compile.
proof fn invalid_from_bound(entries: Seq<EntryModel>, i: int)
    requires
        0 <= i,
    ensures
        match patterns::invalid_from(entries, i) {
            Some(k) => i <= k < entries.len() && patterns::compiled(entries[k].regex) is Err
                && forall|j: int|
                i <= j < k ==> patterns::compiled((#[trigger] entries[j]).regex) is Ok,
            None => forall|j: int|
                i <= j < entries.len() ==> patterns::compiled((#[trigger] entries[j]).regex) is Ok,
        },
    decreases entries.len() - i,
{
    if i < entries.len() && patterns::compiled(entries[i].regex) is Ok {
        invalid_from_bound(entries, i + 1);
    }
}

/// The patterns are refused exactly where one of them does not compile, and then on account of
/// the first such.
pub proof fn law_the_first_bad_pattern_is_refused(entries: Seq<EntryModel>)
    ensures
        match patterns::first_invalid(entries) {
            Some(k) => 0 <= k < entries.len() && patterns::regex_compile(
                entries[k].regex,
                usize::BITS as nat,
            ) is Err && forall|j: int|
                0 <= j < k ==> patterns::regex_compile(
                    (#[trigger] entries[j]).regex,
                    usize::BITS as nat,
                ) is Ok,
            None => forall|j: int|
                0 <= j < entries.len() ==> patterns::regex_compile(
                    (#[trigger] entries[j]).regex,
                    usize::BITS as nat,
                ) is Ok,
        },
{
    invalid_from_bound(entries, 0);
}

/// The entries are taken one for one, in order and as they are.
pub proof fn law_every_entry_is_taken(entries: Seq<PatternEntry>)
    ensures
        patterns::entry_models(entries).len() == entries.len(),
        forall|i: int|
            0 <= i < entries.len() ==> {
                let model = #[trigger] patterns::entry_models(entries)[i];
                &&& model.regex == entries[i].regex@
                &&& model.prompt == entries[i].prompt@
                &&& model.strip_prefix == entries[i].strip_prefix
                &&& model.description == entries[i].description@
            },
{
}

} // verus!
