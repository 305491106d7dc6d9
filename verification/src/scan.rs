//! Operations on text, on slices of characters.

use vstd::prelude::*;
use vstd::slice::slice_subrange;
use crate::text;

verus! {

/// `String::push` of std: the string is followed by `c`.
pub assume_specification[ String::push ](s: &mut String, c: char)
    ensures
        final(s)@ == old(s)@.push(c),
;

/// The characters of `s`, in order.
pub fn to_chars(s: &str) -> (chars: Vec<char>)
    ensures
        chars@ == s@,
{
    let mut chars: Vec<char> = Vec::new();
    for c in it: s.chars()
        invariant
            chars@ == it.seq().take(it.index()),
            it.seq() == s@,
    {
        chars.push(c);
    }
    chars
}

/// The string made of `chars`.
pub fn from_chars(chars: &[char]) -> (s: String)
    ensures
        s@ == chars@,
{
    let mut s = String::new();
    let mut i: usize = 0;
    while i < chars.len()
        invariant
            i <= chars@.len(),
            s@ == chars@.take(i as int),
        decreases chars@.len() - i,
    {
        s.push(chars[i]);
        i += 1;
    }
    assert(chars@.take(chars@.len() as int) == chars@);
    s
}

/// Whether `a` and `b` are the same text.
pub fn same_text(a: &str, b: &str) -> (r: bool)
    ensures
        r == (a@ == b@),
{
    a.to_owned() == b.to_owned()
}

/// Whether `c` is white space.
pub fn is_whitespace(c: char) -> (b: bool)
    ensures
        b == text::is_space(c),
{
    let n: u32 = c as u32;
    (0x09 <= n && n <= 0x0d) || n == 0x20 || n == 0x85 || n == 0xa0 || n == 0x1680
        || (0x2000 <= n && n <= 0x200a) || n == 0x2028 || n == 0x2029 || n == 0x202f
        || n == 0x205f || n == 0x3000
}

/// How many characters of white space `s` begins with.
pub fn count_leading_space(s: &[char]) -> (n: usize)
    ensures
        n == text::leading_space(s@),
        n <= s@.len(),
{
    let mut n: usize = 0;
    assert(s@.skip(0) == s@);
    while n < s.len() && is_whitespace(s[n])
        invariant
            n <= s@.len(),
            text::leading_space(s@) == n + text::leading_space(s@.skip(n as int)),
        decreases s@.len() - n,
    {
        assert(s@.skip(n as int).skip(1) == s@.skip(n + 1));
        n += 1;
    }
    n
}

/// `s` without the white space that it begins with.
pub fn without_leading_space(s: &[char]) -> (r: &[char])
    ensures
        r@ == text::trim_start(s@),
{
    let n = count_leading_space(s);
    slice_subrange(s, n, s.len())
}

/// `s` without the white space at either end.
pub fn trimmed(s: &[char]) -> (r: &[char])
    ensures
        r@ == text::trim(s@),
{
    let t = without_leading_space(s);
    let mut n: usize = t.len();
    assert(t@.take(n as int) == t@);
    while n > 0 && is_whitespace(t[n - 1])
        invariant
            n <= t@.len(),
            text::trim_end(t@) == text::trim_end(t@.take(n as int)),
        decreases n,
    {
        assert(t@.take(n as int).drop_last() == t@.take(n - 1));
        n -= 1;
    }
    slice_subrange(t, 0, n)
}

/// How many bytes the UTF-8 encoding of `s` takes.
pub fn byte_width(s: &[char]) -> (w: u128)
    ensures
        w == vstd::utf8::encode_utf8(s@).len(),
{
    let mut w: u128 = 0;
    let mut i: usize = 0;
    assert(s@.skip(0) == s@);
    while i < s.len()
        invariant
            i <= s@.len(),
            w + vstd::utf8::encode_utf8(s@.skip(i as int)).len() == vstd::utf8::encode_utf8(
                s@,
            ).len(),
            w <= 4 * i,
        decreases s@.len() - i,
    {
        let n: u32 = s[i] as u32;
        proof {
            vstd::utf8::char_is_scalar(s@[i as int]);
        }
        assert(s@.skip(i as int).drop_first() == s@.skip(i + 1));
        if n < 0x80 {
            w += 1;
        } else if n < 0x800 {
            w += 2;
        } else if n < 0x10000 {
            w += 3;
        } else {
            w += 4;
        }
        i += 1;
    }
    w
}

/// How many characters of `s` come before the first `c`.
pub fn count_until(s: &[char], c: char) -> (n: usize)
    ensures
        n == text::span_until(s@, c),
        n <= s@.len(),
        n < s@.len() ==> s@[n as int] == c,
{
    let mut n: usize = 0;
    assert(s@.skip(0) == s@);
    while n < s.len() && s[n] != c
        invariant
            n <= s@.len(),
            text::span_until(s@, c) == n + text::span_until(s@.skip(n as int), c),
        decreases s@.len() - n,
    {
        assert(s@.skip(n as int).skip(1) == s@.skip(n + 1));
        n += 1;
    }
    n
}

/// A copy of `s`.
pub fn copied(s: &[char]) -> (v: Vec<char>)
    ensures
        v@ == s@,
{
    let mut v: Vec<char> = Vec::new();
    push_all(&mut v, s);
    v
}

/// Puts `s` at the end of `v`.
pub fn push_all(v: &mut Vec<char>, s: &[char])
    ensures
        final(v)@ == old(v)@ + s@,
{
    let ghost before = v@;
    let mut i: usize = 0;
    while i < s.len()
        invariant
            i <= s@.len(),
            v@ == before + s@.take(i as int),
        decreases s@.len() - i,
    {
        v.push(s[i]);
        i += 1;
    }
    assert(s@.take(i as int) == s@);
}

/// The lines of `s`.
pub fn split_lines(s: &[char]) -> (v: Vec<Vec<char>>)
    ensures
        text::views(v@) == text::lines(s@),
{
    let mut v: Vec<Vec<char>> = Vec::new();
    let mut pos: usize = 0;
    assert(s@.skip(0) == s@);
    while pos < s.len()
        invariant
            pos <= s@.len(),
            text::lines(s@) == text::views(v@) + text::lines(s@.skip(pos as int)),
        decreases s@.len() - pos,
    {
        let rest = slice_subrange(s, pos, s.len());
        assert(rest@ == s@.skip(pos as int));
        let n = count_until(rest, '\n');
        let ghost before = v@;
        if n == rest.len() {
            let line = copied(rest);
            v.push(line);
            assert(text::views(v@) == text::views(before).push(rest@));
            assert(text::views(v@) == text::lines(s@));
            assert(s@.skip(s@.len() as int) == Seq::<char>::empty());
            pos = s.len();
        } else {
            let line = if n > 0 && rest[n - 1] == '\r' {
                slice_subrange(rest, 0, n - 1)
            } else {
                slice_subrange(rest, 0, n)
            };
            assert(line@ == text::chomp(rest@.take(n as int)));
            let line = copied(line);
            v.push(line);
            assert(text::views(v@) == text::views(before).push(line@));
            assert(rest@.skip(n + 1) == s@.skip(pos + n + 1));
            let ghost later = text::lines(s@.skip(pos + n + 1));
            assert(text::views(before) + (seq![line@] + later) == text::views(v@) + later);
            pos = pos + n + 1;
        }
    }
    assert(s@.skip(pos as int) == Seq::<char>::empty());
    assert(text::views(v@) + Seq::<Seq<char>>::empty() == text::views(v@));
    v
}

/// Whether `s` begins with `pat`.
pub fn starts_with(s: &[char], pat: &[char]) -> (b: bool)
    ensures
        b == pat@.is_prefix_of(s@),
{
    stands_at(s, pat, 0)
}

/// Whether `pat` stands in `s` at `at`.
pub fn stands_at(s: &[char], pat: &[char], at: usize) -> (b: bool)
    requires
        at <= s@.len(),
    ensures
        b == text::occurs_at(s@, pat@, at as int),
        at == 0 ==> b == pat@.is_prefix_of(s@),
{
    let len = s.len();
    if pat.len() > len - at {
        return false;
    }
    let ghost part = s@.subrange(at as int, at + pat@.len());
    let mut i: usize = 0;
    while i < pat.len()
        invariant
            i <= pat@.len(),
            len == s@.len(),
            at + pat@.len() <= len,
            part == s@.subrange(at as int, at + pat@.len()),
            forall|j: int| 0 <= j < i ==> part[j] == pat@[j],
        decreases pat@.len() - i,
    {
        assert(part[i as int] == s@[at + i]);
        if s[at + i] != pat[i] {
            return false;
        }
        i += 1;
    }
    assert(part == pat@);
    true
}

/// The first place at which `pat` stands in `s`.
pub fn first_of(s: &[char], pat: &[char]) -> (r: Option<usize>)
    ensures
        match r {
            Some(i) => text::find(s@, pat@) == Some(i as int) && text::occurs_at(
                s@,
                pat@,
                i as int,
            ),
            None => text::find(s@, pat@) is None,
        },
{
    let mut i: usize = 0;
    while i <= s.len() && pat.len() <= s.len() - i
        invariant
            i <= s@.len() + 1,
            text::find(s@, pat@) == text::find_from(s@, pat@, i as int),
        decreases s@.len() + 1 - i,
    {
        if stands_at(s, pat, i) {
            return Some(i);
        }
        if i == s.len() {
            assert(text::find_from(s@, pat@, i + 1) is None);
            return None;
        }
        i += 1;
    }
    None
}

/// `s` with the first `pat` in it replaced by `rep`.
pub fn replaced_first(s: &[char], pat: &[char], rep: &[char]) -> (r: Vec<char>)
    ensures
        r@ == text::replace_first(s@, pat@, rep@),
{
    match first_of(s, pat) {
        Some(i) => {
            let len = s.len();
            let mut r = copied(slice_subrange(s, 0, i));
            push_all(&mut r, rep);
            push_all(&mut r, slice_subrange(s, i + pat.len(), len));
            r
        },
        None => copied(s),
    }
}

/// `s` with every `pat` in it replaced by `rep`, from the left and without overlap.
pub fn replaced_all(s: &[char], pat: &[char], rep: &[char]) -> (r: Vec<char>)
    requires
        pat@.len() > 0,
    ensures
        r@ == text::replace_all(s@, pat@, rep@),
{
    let len = s.len();
    let mut r: Vec<char> = Vec::new();
    let mut pos: usize = 0;
    assert(s@.skip(0) == s@);
    loop
        invariant
            len == s@.len(),
            pos <= len,
            pat@.len() > 0,
            text::replace_all(s@, pat@, rep@) == r@ + text::replace_all(
                s@.skip(pos as int),
                pat@,
                rep@,
            ),
        decreases len - pos,
    {
        let rest = slice_subrange(s, pos, len);
        assert(rest@ == s@.skip(pos as int));
        let ghost before = r@;
        match first_of(rest, pat) {
            Some(i) => {
                let ghost after = text::replace_all(rest@.skip(i + pat@.len()), pat@, rep@);
                push_all(&mut r, slice_subrange(rest, 0, i));
                push_all(&mut r, rep);
                assert(before + (rest@.take(i as int) + rep@ + after) == r@ + after);
                assert(rest@.skip(i + pat@.len()) == s@.skip(pos + i + pat@.len()));
                pos = pos + i + pat.len();
            },
            None => {
                push_all(&mut r, rest);
                return r;
            },
        }
    }
}

/// `s` without as many `pat` in a row as it begins with.
pub fn without_repeated<'a>(s: &'a [char], pat: &[char]) -> (r: &'a [char])
    requires
        pat@.len() > 0,
    ensures
        r@ == text::strip_repeated(s@, pat@),
{
    let len = s.len();
    let mut pos: usize = 0;
    assert(s@.skip(0) == s@);
    loop
        invariant
            len == s@.len(),
            pos <= len,
            pat@.len() > 0,
            text::strip_repeated(s@, pat@) == text::strip_repeated(s@.skip(pos as int), pat@),
        decreases len - pos,
    {
        let rest = slice_subrange(s, pos, len);
        assert(rest@ == s@.skip(pos as int));
        if !starts_with(rest, pat) {
            return rest;
        }
        assert(rest@.skip(pat@.len() as int) == s@.skip(pos + pat@.len()));
        pos = pos + pat.len();
    }
}

/// The `parts` in order, with `sep` between each two.
pub fn joined(parts: &[Vec<char>], sep: &[char]) -> (r: Vec<char>)
    ensures
        r@ == text::join(text::views(parts@), sep@),
{
    let ghost all = text::views(parts@);
    let mut r: Vec<char> = Vec::new();
    let mut i: usize = 0;
    while i < parts.len()
        invariant
            i <= parts@.len(),
            all == text::views(parts@),
            r@ == text::join(all.take(i as int), sep@),
        decreases parts@.len() - i,
    {
        assert(all.take(i + 1).drop_last() == all.take(i as int));
        if i > 0 {
            push_all(&mut r, sep);
        }
        push_all(&mut r, &parts[i]);
        i += 1;
    }
    assert(all.take(i as int) == all);
    r
}

/// Whether every character of `s` is one of the letters `A` to `Z`.
pub fn is_all_upper(s: &[char]) -> (b: bool)
    ensures
        b == text::all_upper(s@),
{
    let mut i: usize = 0;
    while i < s.len()
        invariant
            i <= s@.len(),
            forall|j: int| 0 <= j < i ==> text::is_upper(#[trigger] s@[j]),
        decreases s@.len() - i,
    {
        let c = s[i];
        if !('A' <= c && c <= 'Z') {
            assert(!text::is_upper(s@[i as int]));
            return false;
        }
        i += 1;
    }
    true
}

} // verus!
