//! Facts about text.

use vstd::prelude::*;
use crate::text;

verus! {

/// No character of `s` is `c`.
pub open spec fn lacks(s: Seq<char>, c: char) -> bool {
    forall|i: int| 0 <= i < s.len() ==> #[trigger] s[i] != c
}

/// The leading white space is white space, and what follows it is none.
pub proof fn leading_space_bound(s: Seq<char>)
    ensures
        text::leading_space(s) <= s.len(),
        forall|i: int|
            0 <= i < text::leading_space(s) ==> text::is_space(#[trigger] s[i]),
        text::leading_space(s) < s.len() ==> !text::is_space(s[text::leading_space(s) as int]),
    decreases s.len(),
{
    if s.len() > 0 && text::is_space(s[0]) {
        leading_space_bound(s.skip(1));
        assert forall|i: int| 0 <= i < text::leading_space(s) implies text::is_space(
            #[trigger] s[i],
        ) by {
            if i > 0 {
                assert(s[i] == s.skip(1)[i - 1]);
            }
        }
    }
}

/// The leading white space ends at the first character that is none.
pub proof fn leading_space_is(s: Seq<char>, n: int)
    requires
        0 <= n <= s.len(),
        forall|i: int| 0 <= i < n ==> text::is_space(#[trigger] s[i]),
        n < s.len() ==> !text::is_space(s[n]),
    ensures
        text::leading_space(s) == n,
    decreases s.len(),
{
    if n > 0 {
        assert(text::is_space(s[0]));
        assert forall|i: int| 0 <= i < n - 1 implies text::is_space(#[trigger] s.skip(1)[i]) by {
            assert(s.skip(1)[i] == s[i + 1]);
        }
        leading_space_is(s.skip(1), n - 1);
    }
}

/// The span ends at the first `c`.
pub proof fn span_is(s: Seq<char>, c: char, n: int)
    requires
        0 <= n <= s.len(),
        forall|i: int| 0 <= i < n ==> #[trigger] s[i] != c,
        n < s.len() ==> s[n] == c,
    ensures
        text::span_until(s, c) == n,
    decreases s.len(),
{
    if n > 0 {
        assert(s[0] != c);
        assert forall|i: int| 0 <= i < n - 1 implies #[trigger] s.skip(1)[i] != c by {
            assert(s.skip(1)[i] == s[i + 1]);
        }
        span_is(s.skip(1), c, n - 1);
    }
}

/// The span holds no `c`, and one follows it unless it is all of the text.
pub proof fn span_bound(s: Seq<char>, c: char)
    ensures
        text::span_until(s, c) <= s.len(),
        forall|i: int| 0 <= i < text::span_until(s, c) ==> #[trigger] s[i] != c,
        text::span_until(s, c) < s.len() ==> s[text::span_until(s, c) as int] == c,
    decreases s.len(),
{
    if s.len() > 0 && s[0] != c {
        span_bound(s.skip(1), c);
        assert forall|i: int| 0 <= i < text::span_until(s, c) implies #[trigger] s[i] != c by {
            if i > 0 {
                assert(s[i] == s.skip(1)[i - 1]);
            }
        }
    }
}

/// White space at the end changes nothing of what is left once `s` is trimmed.
pub proof fn trim_ignores_trailing(s: Seq<char>, c: char)
    requires
        text::is_space(c),
    ensures
        text::trim(s.push(c)) == text::trim(s),
        text::leading_space(s) < s.len() ==> text::leading_space(s.push(c)) == text::leading_space(
            s,
        ) && text::trim_start(s.push(c)) == text::trim_start(s).push(c),
        text::leading_space(s) == s.len() ==> text::trim_start(s.push(c)).len() == 0,
{
    leading_space_bound(s);
    let n = text::leading_space(s) as int;
    let t = s.push(c);
    if n < s.len() {
        leading_space_is(t, n);
        assert(t.skip(n) == s.skip(n).push(c));
        assert(s.skip(n).push(c).drop_last() == s.skip(n));
    } else {
        leading_space_is(t, t.len() as int);
        assert(t.skip(t.len() as int) == s.skip(n));
    }
}

/// Text that is trimmed at its end is a prefix of it, and does not end with white space.
pub proof fn trim_end_bound(s: Seq<char>)
    ensures
        text::trim_end(s).is_prefix_of(s),
        text::trim_end(s).len() > 0 ==> !text::is_space(text::trim_end(s).last()),
    decreases s.len(),
{
    if s.len() > 0 && text::is_space(s.last()) {
        trim_end_bound(s.drop_last());
        let t = text::trim_end(s);
        assert(t == s.drop_last().subrange(0, t.len() as int));
        assert(t =~= s.subrange(0, t.len() as int));
    } else {
        assert(s =~= s.subrange(0, s.len() as int));
    }
}

/// Trimmed text is left as it is when it is trimmed once more.
pub proof fn trim_twice(s: Seq<char>)
    ensures
        text::trim(text::trim(s)) == text::trim(s),
        text::trim(s).len() > 0 ==> !text::is_space(text::trim(s)[0]) && !text::is_space(
            text::trim(s).last(),
        ),
{
    let t = text::trim_start(s);
    let u = text::trim(s);
    leading_space_bound(s);
    trim_end_bound(t);
    if u.len() > 0 {
        assert(u[0] == t.subrange(0, u.len() as int)[0]);
        assert(t[0] == s[text::leading_space(s) as int]);
        leading_space_is(u, 0);
        assert(u.skip(0) == u);
    } else {
        leading_space_is(u, 0);
        assert(u.skip(0) == u);
    }
}

/// The first place is found where the pattern stands there and nowhere before.
pub proof fn find_is(s: Seq<char>, pat: Seq<char>, from: int, at: int)
    requires
        0 <= from <= at,
        text::occurs_at(s, pat, at),
        forall|i: int| from <= i < at ==> !text::occurs_at(s, pat, i),
    ensures
        text::find_from(s, pat, from) == Some(at),
    decreases at - from,
{
    if from < at {
        find_is(s, pat, from + 1, at);
    }
}

/// What is found is the first place at which the pattern stands.
pub proof fn find_from_bound(s: Seq<char>, pat: Seq<char>, from: int)
    requires
        0 <= from,
    ensures
        match text::find_from(s, pat, from) {
            Some(at) => from <= at && text::occurs_at(s, pat, at) && forall|i: int|
                from <= i < at ==> !text::occurs_at(s, pat, i),
            None => forall|i: int| from <= i ==> !text::occurs_at(s, pat, i),
        },
    decreases s.len() + 1 - from,
{
    if from + pat.len() <= s.len() && !text::occurs_at(s, pat, from) {
        find_from_bound(s, pat, from + 1);
    }
}

/// The parts joined, seen from the front.
pub proof fn join_front(parts: Seq<Seq<char>>, sep: Seq<char>)
    requires
        parts.len() >= 2,
    ensures
        text::join(parts, sep) == parts[0] + sep + text::join(parts.skip(1), sep),
    decreases parts.len(),
{
    let front = parts.drop_last();
    if parts.len() == 2 {
        assert(parts.skip(1)[0] == parts[1]);
        assert(text::join(front, sep) == parts[0]);
    } else {
        join_front(front, sep);
        assert(front.skip(1) == parts.skip(1).drop_last());
        assert(text::join(parts, sep) == parts[0] + sep + (text::join(front.skip(1), sep) + sep
            + parts.last()));
    }
}

/// No line of a text holds a line feed, and the last line is not empty where the text does not
/// end with one.
pub proof fn lines_bound(s: Seq<char>)
    ensures
        forall|i: int|
            0 <= i < text::lines(s).len() ==> lacks(#[trigger] text::lines(s)[i], '\n'),
        s.len() > 0 ==> text::lines(s).len() > 0,
        s.len() > 0 && !text::ends_with_newline(s) ==> text::lines(s).last().len() > 0,
    decreases s.len(),
{
    let n = text::span_until(s, '\n') as int;
    span_bound(s, '\n');
    if s.len() == 0 {
    } else if n >= s.len() {
        assert(text::lines(s)[0] == s);
    } else {
        let rest = s.skip(n + 1);
        lines_bound(rest);
        let ls = text::lines(s);
        let line = text::chomp(s.take(n));
        assert(ls == seq![line] + text::lines(rest));
        assert forall|i: int| 0 <= i < ls.len() implies lacks(
            #[trigger] ls[i],
            '\n',
        ) by {
            if i == 0 {
                assert forall|j: int| 0 <= j < line.len() implies #[trigger] line[j] != '\n' by {
                    assert(line[j] == s[j]);
                }
            } else {
                assert(ls[i] == text::lines(rest)[i - 1]);
            }
        }
        if rest.len() > 0 {
            assert(rest.last() == s.last());
            assert(ls.last() == text::lines(rest).last());
        }
    }
}

/// A line, a line feed and more: the line comes first.
pub proof fn lines_cons(line: Seq<char>, rest: Seq<char>)
    requires
        lacks(line, '\n'),
    ensures
        text::lines(line + "\n"@ + rest) == seq![text::chomp(line)] + text::lines(rest),
{
    reveal_strlit("\n");
    let s = line + "\n"@ + rest;
    let n = line.len() as int;
    assert(s[n] == '\n');
    assert forall|i: int| 0 <= i < n implies #[trigger] s[i] != '\n' by {
        assert(s[i] == line[i]);
    }
    span_is(s, '\n', n);
    assert(s.take(n) == line);
    assert(s.skip(n + 1) == rest);
}

/// The lines put together, seen from the front.
pub proof fn unlines_front(ls: Seq<Seq<char>>, newline: bool)
    requires
        ls.len() >= 2,
    ensures
        text::unlines(ls, newline) == ls[0] + "\n"@ + text::unlines(ls.skip(1), newline),
{
    join_front(ls, "\n"@);
}

/// What the lines are once they are put together and split again: each that ends with a line feed
/// loses a carriage return at its end.
pub open spec fn reread(ls: Seq<Seq<char>>, newline: bool) -> Seq<Seq<char>> {
    Seq::new(
        ls.len(),
        |i: int|
            if newline || i < ls.len() - 1 {
                text::chomp(ls[i])
            } else {
                ls[i]
            },
    )
}

/// The lines put together and split again.
pub proof fn lines_of_unlines(ls: Seq<Seq<char>>, newline: bool)
    requires
        forall|i: int| 0 <= i < ls.len() ==> lacks(#[trigger] ls[i], '\n'),
        ls.len() > 0,
        !newline ==> ls.last().len() > 0,
    ensures
        text::lines(text::unlines(ls, newline)) == reread(ls, newline),
    decreases ls.len(),
{
    let s = text::unlines(ls, newline);
    if ls.len() == 1 {
        assert(lacks(ls[0], '\n'));
        if newline {
            lines_cons(ls[0], seq![]);
            assert(s == ls[0] + "\n"@ + Seq::<char>::empty());
            assert(text::lines(Seq::<char>::empty()) == Seq::<Seq<char>>::empty());
            assert(text::lines(s) == reread(ls, newline));
        } else {
            span_is(s, '\n', s.len() as int);
            assert(text::lines(s) == reread(ls, newline));
        }
    } else {
        let rest = ls.skip(1);
        assert forall|i: int| 0 <= i < rest.len() implies lacks(
            #[trigger] rest[i],
            '\n',
        ) by {
            assert(rest[i] == ls[i + 1]);
        }
        assert(rest.last() == ls.last());
        lines_of_unlines(rest, newline);
        unlines_front(ls, newline);
        assert(lacks(ls[0], '\n'));
        lines_cons(ls[0], text::unlines(rest, newline));
        assert(text::lines(s) == reread(ls, newline)) by {
            let got = seq![text::chomp(ls[0])] + reread(rest, newline);
            assert forall|i: int| 0 <= i < ls.len() implies got[i] == reread(ls, newline)[i] by {
                if i > 0 {
                    assert(got[i] == reread(rest, newline)[i - 1]);
                    assert(rest[i - 1] == ls[i]);
                }
            }
            assert(got == reread(ls, newline));
        }
    }
}

/// Whether every line feed of `s` follows something other than a carriage return.
pub open spec fn plain_newlines(s: Seq<char>) -> bool {
    forall|i: int| 0 <= i < s.len() - 1 && #[trigger] s[i] == '\r' ==> s[i + 1] != '\n'
}

/// Lines that are put together again make the text that they were split from.
pub proof fn unlines_of_lines(s: Seq<char>)
    requires
        plain_newlines(s),
        s.len() > 0,
    ensures
        text::unlines(text::lines(s), text::ends_with_newline(s)) == s,
    decreases s.len(),
{
    reveal_strlit("\n");
    let n = text::span_until(s, '\n') as int;
    let ls = text::lines(s);
    let newline = text::ends_with_newline(s);
    span_bound(s, '\n');
    if n < s.len() {
        let line = s.take(n);
        let rest = s.skip(n + 1);
        if n > 0 && line.last() == '\r' {
            assert(s[n - 1] == '\r');
        }
        assert(text::chomp(line) == line);
        assert(ls == seq![line] + text::lines(rest));
        assert(s =~= line + "\n"@ + rest);
        if rest.len() == 0 {
            assert(text::lines(rest) == Seq::<Seq<char>>::empty());
            assert(ls =~= seq![line]);
        } else {
            assert forall|i: int| 0 <= i < rest.len() - 1 && #[trigger] rest[i]
                == '\r' implies rest[i + 1] != '\n' by {
                assert(s[n + 1 + i] == '\r');
            }
            unlines_of_lines(rest);
            lines_bound(rest);
            assert(rest.last() == s.last());
            unlines_front(ls, newline);
            assert(ls.skip(1) =~= text::lines(rest));
        }
    }
}

/// A character of one line is a character of the text.
pub proof fn unlines_update(ls: Seq<Seq<char>>, newline: bool, k: int, q: int, c: char) -> (p: int)
    requires
        0 <= k < ls.len(),
        0 <= q < ls[k].len(),
    ensures
        0 <= p < text::unlines(ls, newline).len(),
        text::unlines(ls, newline)[p] == ls[k][q],
        text::unlines(ls.update(k, ls[k].update(q, c)), newline) == text::unlines(
            ls,
            newline,
        ).update(p, c),
    decreases ls.len(),
{
    reveal_strlit("\n");
    let s = text::unlines(ls, newline);
    let changed = ls.update(k, ls[k].update(q, c));
    if ls.len() == 1 {
        assert(text::unlines(changed, newline) =~= s.update(q, c));
        q
    } else {
        unlines_front(ls, newline);
        unlines_front(changed, newline);
        let rest = ls.skip(1);
        if k == 0 {
            assert(changed.skip(1) =~= rest);
            assert(text::unlines(changed, newline) =~= s.update(q, c));
            q
        } else {
            let p = unlines_update(rest, newline, k - 1, q, c);
            assert(changed.skip(1) =~= rest.update(k - 1, rest[k - 1].update(q, c)));
            let at = ls[0].len() + 1 + p;
            assert(text::unlines(changed, newline) =~= s.update(at, c));
            at
        }
    }
}

/// Whether every character of `s` is white space.
pub open spec fn all_space(s: Seq<char>) -> bool {
    forall|i: int| 0 <= i < s.len() ==> text::is_space(#[trigger] s[i])
}

/// Whether `s` is empty or begins with something other than white space.
pub open spec fn starts_solid(s: Seq<char>) -> bool {
    s.len() > 0 ==> !text::is_space(s[0])
}

/// Whether `s` is empty or ends with something other than white space.
pub open spec fn ends_solid(s: Seq<char>) -> bool {
    s.len() > 0 ==> !text::is_space(s.last())
}

/// White space is these characters and no others.
pub proof fn law_white_space(c: char)
    ensures
        text::is_space(c) <==> {
            ||| c == '\t' || c == '\n' || c == '\u{b}' || c == '\u{c}' || c == '\r' || c == ' '
            ||| c == '\u{85}' || c == '\u{a0}' || c == '\u{1680}' || c == '\u{2000}'
            ||| c == '\u{2001}' || c == '\u{2002}' || c == '\u{2003}' || c == '\u{2004}'
            ||| c == '\u{2005}' || c == '\u{2006}' || c == '\u{2007}' || c == '\u{2008}'
            ||| c == '\u{2009}' || c == '\u{200a}' || c == '\u{2028}' || c == '\u{2029}'
            ||| c == '\u{202f}' || c == '\u{205f}' || c == '\u{3000}'
        },
{
}

/// Trimming takes off the white space at the ends and nothing else, however much there is.
pub proof fn law_trimming(before: Seq<char>, s: Seq<char>, after: Seq<char>)
    requires
        all_space(before),
        all_space(after),
        starts_solid(s),
    ensures
        text::trim_start(before + s) == s,
        ends_solid(s) ==> text::trim(before + s + after) == s,
    decreases after.len(),
{
    let t = before + s;
    assert forall|i: int| 0 <= i < before.len() implies text::is_space(#[trigger] t[i]) by {
        assert(t[i] == before[i]);
    }
    leading_space_is(t, before.len() as int);
    assert(t.skip(before.len() as int) =~= s);
    if ends_solid(s) {
        if after.len() == 0 {
            assert(t + after =~= t);
        } else {
            let shorter = after.drop_last();
            assert forall|i: int| 0 <= i < shorter.len() implies text::is_space(
                #[trigger] shorter[i],
            ) by {
                assert(shorter[i] == after[i]);
            }
            assert(text::is_space(after[after.len() - 1]));
            law_trimming(before, s, shorter);
            assert(t + after =~= (t + shorter).push(after.last()));
            trim_ignores_trailing(t + shorter, after.last());
        }
    }
}

/// A line is indented by as many bytes as the white space takes that it begins with.
pub proof fn law_indentation(w: Seq<char>, s: Seq<char>)
    requires
        all_space(w),
        starts_solid(s),
    ensures
        text::indent(w + s) == vstd::utf8::encode_utf8(w).len(),
{
    let t = w + s;
    assert forall|i: int| 0 <= i < w.len() implies text::is_space(#[trigger] t[i]) by {
        assert(t[i] == w[i]);
    }
    leading_space_is(t, w.len() as int);
    assert(t.take(w.len() as int) =~= w);
}

/// A text is split at its line feeds. A carriage return right before a line feed goes with it,
/// and a text has no empty line behind its last line feed.
pub proof fn law_lines(line: Seq<char>, rest: Seq<char>)
    requires
        lacks(line, '\n'),
    ensures
        text::lines(seq![]) == Seq::<Seq<char>>::empty(),
        line.len() > 0 ==> text::lines(line) == seq![line],
        text::lines(line + "\r\n"@ + rest) == seq![line] + text::lines(rest),
        !(line.len() > 0 && line.last() == '\r') ==> text::lines(line + "\n"@ + rest)
            == seq![line] + text::lines(rest),
{
    reveal_strlit("\r\n");
    reveal_strlit("\n");
    if line.len() > 0 {
        span_is(line, '\n', line.len() as int);
    }
    lines_cons(line, rest);
    let long = line.push('\r');
    assert forall|i: int| 0 <= i < long.len() implies #[trigger] long[i] != '\n' by {
        if i < line.len() {
            assert(long[i] == line[i]);
        }
    }
    lines_cons(long, rest);
    assert(long + "\n"@ + rest =~= line + "\r\n"@ + rest);
    assert(long.drop_last() =~= line);
}

/// The lines of a text are those up to a line feed, followed by those of what is behind it.
pub proof fn law_lines_of_two(a: Seq<char>, b: Seq<char>)
    requires
        a.len() == 0 || a.last() == '\n',
    ensures
        text::lines(a + b) == text::lines(a) + text::lines(b),
    decreases a.len(),
{
    reveal_strlit("\n");
    if a.len() == 0 {
        assert(a + b =~= b);
    } else {
        span_bound(a, '\n');
        let n = text::span_until(a, '\n') as int;
        if n >= a.len() {
            assert(a[a.len() - 1] != '\n');
        }
        let line = a.take(n);
        let rest = a.skip(n + 1);
        assert forall|i: int| 0 <= i < line.len() implies #[trigger] line[i] != '\n' by {
            assert(line[i] == a[i]);
        }
        if rest.len() > 0 {
            assert(rest.last() == a.last());
        }
        assert(a =~= line + "\n"@ + rest);
        assert(a + b =~= line + "\n"@ + (rest + b));
        lines_cons(line, rest);
        lines_cons(line, rest + b);
        law_lines_of_two(rest, b);
        assert(text::lines(a + b) =~= text::lines(a) + text::lines(b));
    }
}

/// Joined parts stand in order with the separator between each two, and nowhere else.
pub proof fn law_joining(part: Seq<char>, rest: Seq<Seq<char>>, sep: Seq<char>)
    ensures
        text::join(seq![], sep) == Seq::<char>::empty(),
        text::join(seq![part], sep) == part,
        rest.len() > 0 ==> text::join(seq![part] + rest, sep) == part + sep + text::join(rest, sep),
{
    let all = seq![part] + rest;
    if rest.len() > 0 {
        join_front(all, sep);
        assert(all.skip(1) =~= rest);
    }
}

/// What is found is the place behind the shortest text that the pattern follows.
pub proof fn law_finding(a: Seq<char>, pat: Seq<char>, b: Seq<char>)
    requires
        forall|a2: Seq<char>, b2: Seq<char>|
            #[trigger] (a2 + pat + b2) == a + pat + b ==> a.len() <= a2.len(),
    ensures
        text::find(a + pat + b, pat) == Some(a.len() as int),
{
    let s = a + pat + b;
    let n = a.len() as int;
    assert(s.subrange(n, n + pat.len()) =~= pat);
    assert(text::occurs_at(s, pat, n));
    assert forall|i: int| 0 <= i < n implies !text::occurs_at(s, pat, i) by {
        if text::occurs_at(s, pat, i) {
            let a2 = s.take(i);
            let b2 = s.skip(i + pat.len());
            assert(a2 + s.subrange(i, i + pat.len()) + b2 =~= s);
            assert(a2 + pat + b2 == s);
        }
    }
    find_is(s, pat, 0, n);
}

/// A text in which the pattern stands nowhere has no place for it.
pub proof fn law_not_finding(s: Seq<char>, pat: Seq<char>)
    requires
        forall|a: Seq<char>, b: Seq<char>| s != #[trigger] (a + pat + b),
    ensures
        text::find(s, pat) is None,
{
    find_from_bound(s, pat, 0);
    if let Some(i) = text::find(s, pat) {
        let a = s.take(i);
        let b = s.skip(i + pat.len());
        assert(s =~= a + s.subrange(i, i + pat.len()) + b);
        assert(s == a + pat + b);
    }
}

/// The strings and the vectors are taken one for one, each with what it holds.
pub proof fn law_every_text_is_taken(v: Seq<String>, u: Seq<Vec<char>>)
    ensures
        text::texts(v).len() == v.len(),
        forall|i: int| 0 <= i < v.len() ==> #[trigger] text::texts(v)[i] == v[i]@,
        text::views(u).len() == u.len(),
        forall|i: int| 0 <= i < u.len() ==> #[trigger] text::views(u)[i] == u[i]@,
{
}

} // verus!
