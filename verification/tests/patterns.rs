use full_yolo::patterns::{bool_true, pair_compiled, PatternEntry, PatternSet};
use regex::Regex;

fn entry(regex: &str, prompt: &str, strip_prefix: bool) -> PatternEntry {
    PatternEntry {
        regex: regex.to_string(),
        prompt: prompt.to_string(),
        strip_prefix,
        description: String::new(),
    }
}

fn load(entries: Vec<PatternEntry>) -> PatternSet {
    match PatternSet::load(entries) {
        Ok(set) => set,
        Err(e) => panic!("{}", e.regex),
    }
}

fn defaults() -> PatternSet {
    load(vec![
        entry(r"^ARCHITECT:\s*", "architect", true),
        entry(r"^RESEARCH:\s*", "research", true),
        entry(r"^TEST:\s*", "test", true),
        entry(r".*", "todo", false),
    ])
}

fn classify(set: &PatternSet, raw: &str) -> (String, String) {
    let (prompt, description) = set.classify(raw);
    (prompt.to_string(), description)
}

fn pair(a: &str, b: &str) -> (String, String) {
    (a.to_string(), b.to_string())
}

#[test]
fn prefixes_select_the_prompt() {
    let set = defaults();
    assert_eq!(classify(&set, "ARCHITECT: Design the API"), pair("architect", "Design the API"));
    assert_eq!(classify(&set, "RESEARCH:Compare"), pair("research", "Compare"));
    assert_eq!(classify(&set, "TEST:  Integration"), pair("test", "Integration"));
    assert_eq!(classify(&set, "Implement /users"), pair("todo", "Implement /users"));
    assert_eq!(classify(&set, "see TEST: later"), pair("todo", "see TEST: later"));
}

#[test]
fn an_added_pattern_counts() {
    let set = load(vec![entry(r"^DEPLOY:\s*", "deploy", true), entry(".*", "todo", false)]);
    assert_eq!(classify(&set, "DEPLOY: to staging"), pair("deploy", "to staging"));
}

#[test]
fn first_match_wins() {
    let set = load(vec![entry("b", "first", false), entry("^a", "second", false)]);
    assert_eq!(classify(&set, "ab"), pair("first", "ab"));
    assert_eq!(classify(&set, "a"), pair("second", "a"));
}

#[test]
fn patterns_in_front_without_a_match_do_not_count() {
    let set = load(vec![
        entry("^X:", "x", true),
        entry("z+$", "z", false),
        entry(r"^ARCHITECT:\s*", "architect", true),
        entry(r"^RESEARCH:\s*", "research", true),
        entry(r"^TEST:\s*", "test", true),
        entry(r".*", "todo", false),
    ]);
    for raw in ["ARCHITECT: a", "RESEARCH: b", "TEST: c", "d", ""] {
        assert_eq!(classify(&set, raw), classify(&defaults(), raw));
    }
    let none = load(vec![entry("^X:", "x", true), entry("^Y:", "y", true)]);
    assert_eq!(classify(&none, "d"), pair("todo", "d"));
}

#[test]
fn patterns_behind_a_match_do_not_count() {
    let short = load(vec![entry("^a", "one", true)]);
    let long = load(vec![entry("^a", "one", true), entry("a", "two", false)]);
    assert_eq!(classify(&short, "a b"), classify(&long, "a b"));
    assert_eq!(classify(&long, "xa"), pair("two", "xa"));
}

#[test]
fn no_match_is_general() {
    let set = load(vec![entry("^X:", "x", true)]);
    assert_eq!(classify(&set, "plain"), pair("todo", "plain"));
    assert_eq!(classify(&load(vec![]), "plain"), pair("todo", "plain"));
}

#[test]
fn only_the_leftmost_match_is_stripped_and_the_rest_is_trimmed() {
    let set = load(vec![entry("ab", "p", true)]);
    assert_eq!(classify(&set, "x ab y ab"), pair("p", "x  y ab"));
    assert_eq!(classify(&set, "ab  y"), pair("p", "y"));
    assert_eq!(classify(&set, "ab"), pair("p", ""));
    let keep = load(vec![entry("ab", "p", false)]);
    assert_eq!(classify(&keep, "ab  y"), pair("p", "ab  y"));
}

#[test]
fn a_bad_pattern_is_the_error() {
    let bad = PatternSet::load(vec![entry("ok", "p", true), entry("a(b", "q", true), entry("[", "r", true)]);
    match bad {
        Ok(_) => panic!("loaded"),
        Err(e) => {
            assert_eq!(e.regex, "a(b");
            assert_eq!(e.cause, Regex::new("a(b").unwrap_err());
        }
    }
}

#[test]
fn a_compiled_pattern_is_paired_with_its_entry() {
    match pair_compiled(entry("a", "p", true), Regex::new("a")) {
        Ok((re, e)) => {
            assert_eq!(re.as_str(), "a");
            assert_eq!(e.prompt, "p");
        }
        Err(_) => panic!("refused"),
    }
    match pair_compiled(entry("(", "p", true), Regex::new("(")) {
        Ok(_) => panic!("accepted"),
        Err(e) => assert_eq!(e.regex, "("),
    }
}

#[test]
fn a_hit_is_resolved() {
    let set = load(vec![entry("a", "p", true), entry("b", "q", false)]);
    let (prompt, text) = set.resolve(Some(0), "raw", "  rest ");
    assert_eq!((prompt, text.as_str()), ("p", "rest"));
    let (prompt, text) = set.resolve(Some(1), "raw", "rest");
    assert_eq!((prompt, text.as_str()), ("q", "raw"));
    let (prompt, text) = set.resolve(None, "raw", "rest");
    assert_eq!((prompt, text.as_str()), ("todo", "raw"));
}

#[test]
fn prefixes_are_stripped_by_default() {
    assert!(bool_true());
}
