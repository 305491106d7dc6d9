//! The patterns that decide which prompt a task is given to.

use vstd::prelude::*;
use regex::Regex;
use crate::scan;
use crate::text;

verus! {

/// A compiled regular expression of the crate `regex`.
#[verifier::external_type_specification]
#[verifier::external_body]
pub struct ExRegex(Regex);

/// Why the crate `regex` refused a pattern.
#[verifier::external_type_specification]
#[verifier::external_body]
pub struct ExRegexError(regex::Error);

/// What `Regex::new` makes of a pattern on a machine whose pointers have so many bits: the limit
/// on the size of a compiled expression is counted in bytes of its representation in memory.
pub uninterp spec fn regex_compile(pattern: Seq<char>, pointer_bits: nat) -> Result<
    Regex,
    regex::Error,
>;

/// Whether the expression matches somewhere in the text, as `Regex::is_match` finds.
pub uninterp spec fn regex_is_match(re: Regex, haystack: Seq<char>) -> bool;

/// The text with its leftmost match replaced, as `Regex::replace` returns it.
pub uninterp spec fn regex_replace(re: Regex, haystack: Seq<char>, rep: Seq<char>) -> Seq<char>;

/// What a `regex::Error` shows as, through its `Display`.
pub uninterp spec fn regex_error_text(error: regex::Error) -> Seq<char>;

/// Calls `Regex::new`. What it returns is a function of the pattern and of the width of a
/// pointer.
#[verifier::external_body]
fn compile(pattern: &str) -> (r: Result<Regex, regex::Error>)
    ensures
        r == regex_compile(pattern@, usize::BITS as nat),
{
    Regex::new(pattern)
}

/// Calls `Regex::is_match`. What it returns is a function of the expression and the text.
#[verifier::external_body]
fn is_match(re: &Regex, haystack: &str) -> (b: bool)
    ensures
        b == regex_is_match(*re, haystack@),
{
    re.is_match(haystack)
}

/// Calls `Regex::replace` with a string as the replacement. What it returns is a function of the
/// expression, the text and the replacement. A text without a match comes back unchanged; where
/// there is a match and the replacement is empty, one stretch of the text is left out.
#[verifier::external_body]
fn replace(re: &Regex, haystack: &str, rep: &str) -> (out: String)
    ensures
        out@ == regex_replace(*re, haystack@, rep@),
        !regex_is_match(*re, haystack@) ==> out@ == haystack@,
        rep@.len() == 0 ==> exists|i: int, j: int| #[trigger] is_cut(out@, haystack@, i, j),
{
    re.replace(haystack, rep).into_owned()
}

/// Calls `to_string` on a `regex::Error`. What it returns is a function of the error.
#[verifier::external_body]
pub(crate) fn error_text(error: &regex::Error) -> (s: String)
    ensures
        s@ == regex_error_text(*error),
{
    error.to_string()
}

/// Whether `part` is `whole` without what stands in it from `i` up to `j`.
pub open spec fn is_cut(part: Seq<char>, whole: Seq<char>, i: int, j: int) -> bool {
    &&& 0 <= i <= j <= whole.len()
    &&& part == whole.take(i) + whole.skip(j)
}

/// One entry of `patterns.json`.
pub struct PatternEntry {
    /// The regular expression that is held against the text of a task.
    pub regex: String,
    /// The name of the prompt file, without its extension.
    pub prompt: String,
    /// Whether what the expression matched is left out of the task's description.
    pub strip_prefix: bool,
    /// What the entry is for. Nothing depends on it.
    pub description: String,
}

/// What a pattern entry holds.
#[verifier::ext_equal]
pub struct EntryModel {
    pub regex: Seq<char>,
    pub prompt: Seq<char>,
    pub strip_prefix: bool,
    pub description: Seq<char>,
}

impl View for PatternEntry {
    type V = EntryModel;

    open spec fn view(&self) -> EntryModel {
        EntryModel {
            regex: self.regex@,
            prompt: self.prompt@,
            strip_prefix: self.strip_prefix,
            description: self.description@,
        }
    }
}

/// What each of the entries holds.
pub open spec fn entry_models(entries: Seq<PatternEntry>) -> Seq<EntryModel> {
    Seq::new(entries.len(), |i: int| entries[i]@)
}

/// `strip_prefix` of an entry that does not say.
pub fn bool_true() -> (b: bool)
    ensures
        b,
{
    true
}

/// What a pattern compiles to.
pub open spec fn compiled(pattern: Seq<char>) -> Result<Regex, regex::Error> {
    regex_compile(pattern, usize::BITS as nat)
}

/// Whether a pattern compiles and matches in `raw`.
pub open spec fn matches(pattern: Seq<char>, raw: Seq<char>) -> bool {
    compiled(pattern) matches Ok(re) && regex_is_match(re, raw)
}

/// `raw` without the leftmost match of the pattern.
pub open spec fn remainder(pattern: Seq<char>, raw: Seq<char>) -> Seq<char> {
    regex_replace(compiled(pattern)->Ok_0, raw, ""@)
}

/// The first entry at or after `i` whose pattern does not compile.
pub open spec fn invalid_from(entries: Seq<EntryModel>, i: int) -> Option<int>
    decreases entries.len() - i,
{
    if i < 0 || i >= entries.len() {
        None
    } else if compiled(entries[i].regex) is Err {
        Some(i)
    } else {
        invalid_from(entries, i + 1)
    }
}

/// The first entry whose pattern does not compile.
pub open spec fn first_invalid(entries: Seq<EntryModel>) -> Option<int> {
    invalid_from(entries, 0)
}

/// The first entry at or after `i` whose pattern matches in `raw`.
pub open spec fn match_from(entries: Seq<EntryModel>, raw: Seq<char>, i: int) -> Option<int>
    decreases entries.len() - i,
{
    if i < 0 || i >= entries.len() {
        None
    } else if matches(entries[i].regex, raw) {
        Some(i)
    } else {
        match_from(entries, raw, i + 1)
    }
}

/// The first entry whose pattern matches in `raw`.
pub open spec fn first_match(entries: Seq<EntryModel>, raw: Seq<char>) -> Option<int> {
    match_from(entries, raw, 0)
}

/// The name of the prompt and the description of the task `raw`, where `hit` is the entry that it
/// belongs to and `rest` is what is left of it without the match.
pub open spec fn resolution(
    entries: Seq<EntryModel>,
    hit: Option<int>,
    raw: Seq<char>,
    rest: Seq<char>,
) -> (Seq<char>, Seq<char>) {
    match hit {
        Some(i) => (
            entries[i].prompt,
            if entries[i].strip_prefix {
                text::trim(rest)
            } else {
                raw
            },
        ),
        None => ("todo"@, raw),
    }
}

/// The name of the prompt and the description of the task `raw`.
pub open spec fn classification(entries: Seq<EntryModel>, raw: Seq<char>) -> (
    Seq<char>,
    Seq<char>,
) {
    let hit = first_match(entries, raw);
    let rest = match hit {
        Some(i) => remainder(entries[i].regex, raw),
        None => raw,
    };
    resolution(entries, hit, raw, rest)
}

/// A pattern entry whose regular expression is none.
pub struct InvalidRegex {
    /// The regular expression.
    pub regex: String,
    /// What is wrong with it.
    pub cause: regex::Error,
}

/// Pairs an entry with the expression that its pattern compiled to.
pub fn pair_compiled(entry: PatternEntry, compiled: Result<Regex, regex::Error>) -> (r: Result<
    (Regex, PatternEntry),
    InvalidRegex,
>)
    ensures
        r == (match compiled {
            Ok(re) => Ok((re, entry)),
            Err(cause) => Err(InvalidRegex { regex: entry.regex, cause }),
        }),
{
    match compiled {
        Ok(re) => Ok((re, entry)),
        Err(cause) => Err(InvalidRegex { regex: entry.regex, cause }),
    }
}

/// The patterns, in the order in which they are tried.
pub struct PatternSet(Vec<(Regex, PatternEntry)>);

impl View for PatternSet {
    type V = Seq<EntryModel>;

    closed spec fn view(&self) -> Seq<EntryModel> {
        Seq::new(self.0@.len(), |i: int| self.0@[i].1@)
    }
}

impl PatternSet {
    /// Each expression is what the pattern of its entry compiles to.
    #[verifier::type_invariant]
    spec fn compiled_from_entries(&self) -> bool {
        forall|i: int|
            0 <= i < self.0@.len() ==> compiled((#[trigger] self.0@[i]).1.regex@) == Ok::<
                Regex,
                regex::Error,
            >(self.0@[i].0)
    }

    /// Compiles the pattern of each entry. The first that does not compile is the error.
    pub fn load(entries: Vec<PatternEntry>) -> (r: Result<PatternSet, InvalidRegex>)
        ensures
            match r {
                Ok(set) => {
                    &&& first_invalid(entry_models(entries@)) is None
                    &&& set@ == entry_models(entries@)
                },
                Err(e) => {
                    &&& first_invalid(entry_models(entries@)) matches Some(i)
                    &&& 0 <= i < entries@.len()
                    &&& e.regex@ == entries@[i].regex@
                    &&& compiled(e.regex@) == Err::<Regex, regex::Error>(e.cause)
                },
            },
    {
        let ghost models = entry_models(entries@);
        let mut patterns: Vec<(Regex, PatternEntry)> = Vec::new();
        for entry in it: entries
            invariant
                it.seq() == entries@,
                models == entry_models(entries@),
                patterns@.len() == it.index(),
                first_invalid(models) == invalid_from(models, it.index()),
                forall|i: int|
                    0 <= i < patterns@.len() ==> compiled((#[trigger] patterns@[i]).1.regex@)
                        == Ok::<Regex, regex::Error>(patterns@[i].0),
                forall|i: int|
                    0 <= i < patterns@.len() ==> (#[trigger] patterns@[i]).1@ == models[i],
        {
            assert(entry@ == models[it.index()]);
            let result = compile(&entry.regex);
            match pair_compiled(entry, result) {
                Ok(pattern) => patterns.push(pattern),
                Err(e) => return Err(e),
            }
        }
        let set = PatternSet(patterns);
        assert(set@ == models);
        Ok(set)
    }

    /// The name of the prompt and the description of the task `raw`, where `hit` is the entry that
    /// it belongs to and `rest` is what is left of it without the match.
    pub fn resolve(&self, hit: Option<usize>, raw: &str, rest: &str) -> (r: (&str, String))
        requires
            hit matches Some(i) ==> i < self@.len(),
        ensures
            (r.0@, r.1@) == resolution(
                self@,
                match hit {
                    Some(i) => Some(i as int),
                    None => None,
                },
                raw@,
                rest@,
            ),
    {
        match hit {
            Some(i) => {
                let entry = &self.0[i].1;
                let description = if entry.strip_prefix {
                    scan::from_chars(scan::trimmed(&scan::to_chars(rest)))
                } else {
                    raw.to_owned()
                };
                (entry.prompt.as_str(), description)
            },
            None => ("todo", raw.to_owned()),
        }
    }

    /// The name of the prompt and the description of the task `raw`: those of the first pattern
    /// that matches, and `todo` with the whole text where none does.
    pub fn classify(&self, raw: &str) -> (r: (&str, String))
        ensures
            (r.0@, r.1@) == classification(self@, raw@),
            r.1@ != raw@ ==> exists|rest: Seq<char>, i: int, j: int| #[trigger]
                is_cut(rest, raw@, i, j) && r.1@ == text::trim(rest),
    {
        proof {
            use_type_invariant(self);
        }
        let mut i: usize = 0;
        while i < self.0.len()
            invariant
                i <= self.0@.len(),
                self.compiled_from_entries(),
                first_match(self@, raw@) == match_from(self@, raw@, i as int),
            decreases self.0@.len() - i,
        {
            let pattern = &self.0[i];
            assert(compiled(self.0@[i as int].1.regex@) == Ok::<Regex, regex::Error>(
                self.0@[i as int].0,
            ));
            assert(self@[i as int] == pattern.1@);
            if is_match(&pattern.0, raw) {
                if pattern.1.strip_prefix {
                    let rest = replace(&pattern.0, raw, "");
                    proof {
                        reveal_strlit("");
                    }
                    return self.resolve(Some(i), raw, &rest);
                }
                return self.resolve(Some(i), raw, raw);
            }
            i += 1;
        }
        self.resolve(None, raw, raw)
    }
}

} // verus!
