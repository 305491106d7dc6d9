use full_yolo::scan;

fn chars(s: &str) -> Vec<char> {
    s.chars().collect()
}

fn string(s: &[char]) -> String {
    s.iter().collect()
}

/// Every text of at most `max` characters over the alphabet.
fn all_texts(alphabet: &[char], max: usize) -> Vec<String> {
    let mut all = vec![String::new()];
    let mut last = vec![String::new()];
    for _ in 0..max {
        let mut next = Vec::new();
        for s in &last {
            for c in alphabet {
                let mut t = s.clone();
                t.push(*c);
                next.push(t);
            }
        }
        all.extend(next.iter().cloned());
        last = next;
    }
    all
}

#[test]
fn whitespace_is_the_unicode_property() {
    for n in 0..=0x10ffffu32 {
        if let Some(c) = char::from_u32(n) {
            assert_eq!(scan::is_whitespace(c), c.is_whitespace(), "{:?}", c);
        }
    }
}

#[test]
fn chars_and_back() {
    for s in ["", "abc", "a\u{3000}b\u{1f600}", "\r\n"] {
        assert_eq!(scan::to_chars(s), chars(s));
        assert_eq!(scan::from_chars(&chars(s)), s);
    }
}

#[test]
fn lines_end_at_line_feeds() {
    for s in all_texts(&['a', '\r', '\n'], 7) {
        let want: Vec<String> = s.lines().map(String::from).collect();
        let got: Vec<String> = scan::split_lines(&chars(&s)).iter().map(|l| string(l)).collect();
        assert_eq!(got, want, "{:?}", s);
    }
}

#[test]
fn trimming_takes_white_space_off_the_ends() {
    for s in all_texts(&['a', ' ', '\r', '\u{a0}'], 5) {
        assert_eq!(string(scan::trimmed(&chars(&s))), s.trim(), "{:?}", s);
        assert_eq!(string(scan::without_leading_space(&chars(&s))), s.trim_start(), "{:?}", s);
        let t = s.trim_start();
        assert_eq!(scan::count_leading_space(&chars(&s)), s.chars().count() - t.chars().count());
    }
}

#[test]
fn width_counts_bytes() {
    for s in ["", "a", "\u{a0}", "\u{2003}x", "\u{1f600}\u{e9}", "\u{7f}\u{80}\u{7ff}\u{800}\u{ffff}\u{10000}"] {
        assert_eq!(scan::byte_width(&chars(s)), s.len() as u128);
    }
}

#[test]
fn patterns_are_found_and_replaced() {
    for s in all_texts(&['a', 'b'], 8) {
        for pat in ["a", "ab", "aa", "aba"] {
            let v = chars(&s);
            let p = chars(pat);
            assert_eq!(scan::starts_with(&v, &p), s.starts_with(pat));
            assert_eq!(scan::first_of(&v, &p), s.find(pat));
            assert_eq!(string(&scan::replaced_first(&v, &p, &chars("xyz"))), s.replacen(pat, "xyz", 1));
            assert_eq!(string(&scan::replaced_all(&v, &p, &chars("xyz"))), s.replace(pat, "xyz"));
            assert_eq!(string(scan::without_repeated(&v, &p)), s.trim_start_matches(pat));
        }
    }
    assert_eq!(scan::first_of(&chars("abc"), &[]), Some(0));
    assert_eq!(scan::first_of(&[], &chars("a")), None);
}

#[test]
fn parts_are_joined() {
    let parts = vec![chars("a"), chars(""), chars("bc")];
    assert_eq!(string(&scan::joined(&parts, &chars(", "))), "a, , bc");
    assert_eq!(string(&scan::joined(&parts[..1], &chars(", "))), "a");
    assert_eq!(string(&scan::joined(&[], &chars(", "))), "");
}

#[test]
fn upper_case_letters() {
    assert!(scan::is_all_upper(&chars("ABCXYZ")));
    assert!(scan::is_all_upper(&[]));
    assert!(!scan::is_all_upper(&chars("ABc")));
    assert!(!scan::is_all_upper(&chars("A B")));
    assert!(!scan::is_all_upper(&chars("\u{c9}")));
    assert!(!scan::is_all_upper(&chars("@")));
    assert!(!scan::is_all_upper(&chars("[")));
}

#[test]
fn spans_and_copies() {
    assert_eq!(scan::count_until(&chars("ab:c:"), ':'), 2);
    assert_eq!(scan::count_until(&chars("abc"), ':'), 3);
    assert_eq!(scan::count_until(&chars(":"), ':'), 0);
    assert!(scan::stands_at(&chars("abc"), &chars("bc"), 1));
    assert!(!scan::stands_at(&chars("abc"), &chars("bc"), 2));
    assert_eq!(scan::copied(&chars("xy")), chars("xy"));
    let mut v = chars("x");
    scan::push_all(&mut v, &chars("yz"));
    assert_eq!(v, chars("xyz"));
    assert!(scan::same_text("todo", "todo"));
    assert!(!scan::same_text("todo", "Todo"));
}
