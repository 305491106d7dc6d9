//! What holds of the tasks of a `todo.md` as they are worked off.

use vstd::prelude::*;
use crate::patterns;
use crate::patterns::EntryModel;
use crate::text;
use crate::text_lemmas;
use crate::todo;

verus! {

/// The task that stands on the line that it names is the one of the list, and the lines ascend.
proof fn tasks_upto_lines(ls: Seq<Seq<char>>, n: nat)
    requires
        n <= ls.len(),
    ensures
        forall|i: int|
            0 <= i < todo::tasks_upto(ls, n).len() ==> {
                let t = #[trigger] todo::tasks_upto(ls, n)[i];
                &&& t.line_index < n
                &&& todo::is_open(ls[t.line_index as int])
                &&& t == todo::task_at(ls, t.line_index as int)
            },
        forall|i: int, j: int|
            0 <= i < j < todo::tasks_upto(ls, n).len() ==> (#[trigger] todo::tasks_upto(
                ls,
                n,
            )[i]).line_index < (#[trigger] todo::tasks_upto(ls, n)[j]).line_index,
        forall|k: int|
            0 <= k < n && todo::is_open(#[trigger] ls[k]) ==> exists|i: int|
                0 <= i < todo::tasks_upto(ls, n).len() && (#[trigger] todo::tasks_upto(
                    ls,
                    n,
                )[i]).line_index == k,
    decreases n,
{
    if n > 0 {
        let m = (n - 1) as nat;
        tasks_upto_lines(ls, m);
        let before = todo::tasks_upto(ls, m);
        let after = todo::tasks_upto(ls, n);
        assert forall|k: int| 0 <= k < n && todo::is_open(#[trigger] ls[k]) implies exists|i: int|
            0 <= i < after.len() && (#[trigger] after[i]).line_index == k by {
            if k < m {
                let i = choose|i: int|
                    0 <= i < before.len() && (#[trigger] before[i]).line_index == k;
                assert(after[i] == before[i]);
            } else {
                assert(after[before.len() as int].line_index == k);
            }
        }
    }
}

/// The tasks of a `todo.md` are its lines that are marked as not done: each task stands on such a
/// line, in the order of the lines, and each such line has its task.
pub proof fn law_tasks_are_the_open_lines(content: Seq<char>)
    ensures
        ({
            let ls = text::lines(content);
            let ts = todo::tasks(ls);
            &&& forall|i: int|
                0 <= i < ts.len() ==> (#[trigger] ts[i]).line_index < ls.len() && todo::is_open(
                    ls[ts[i].line_index as int],
                )
            &&& forall|i: int, j: int|
                0 <= i < j < ts.len() ==> (#[trigger] ts[i]).line_index < (
                #[trigger] ts[j]).line_index
            &&& forall|k: int|
                0 <= k < ls.len() && todo::is_open(#[trigger] ls[k]) ==> exists|i: int|
                    0 <= i < ts.len() && (#[trigger] ts[i]).line_index == k
        }),
{
    let ls = text::lines(content);
    let ts = todo::tasks(ls);
    tasks_upto_lines(ls, ls.len());
    assert forall|k: int| 0 <= k < ls.len() && todo::is_open(#[trigger] ls[k]) implies exists|
        i: int,
    |
        0 <= i < ts.len() && (#[trigger] ts[i]).line_index == k by {
        let i = choose|i: int|
            0 <= i < todo::tasks_upto(ls, ls.len()).len() && (#[trigger] todo::tasks_upto(
                ls,
                ls.len(),
            )[i]).line_index == k;
        assert(ts[i].line_index == k);
    }
}

/// What the selection finds is the first item that may be worked on.
proof fn eligible_from_bound(its: Seq<todo::ItemModel>, ls: Seq<Seq<char>>, i: int)
    requires
        0 <= i,
    ensures
        match todo::eligible_from(its, ls, i) {
            Some(k) => i <= k < its.len() && todo::is_eligible(its[k], ls) && forall|j: int|
                i <= j < k ==> !todo::is_eligible(#[trigger] its[j], ls),
            None => forall|j: int|
                i <= j < its.len() ==> !todo::is_eligible(#[trigger] its[j], ls),
        },
    decreases its.len() - i,
{
    if i < its.len() && !todo::is_eligible(its[i], ls) {
        eligible_from_bound(its, ls, i + 1);
    }
}

/// A special item is only worked on once every task above it is checked off.
pub proof fn law_special_waits(its: Seq<todo::ItemModel>, content: Seq<char>, i: int, k: int)
    requires
        todo::selection(its, text::lines(content)) == Some(i),
        its[i].prompt_name != "todo"@,
        0 <= k < its[i].line_index,
        k < text::lines(content).len(),
    ensures
        !todo::is_open(text::lines(content)[k]),
{
    eligible_from_bound(its, text::lines(content), 0);
}

/// Nothing is selected only where every item is a special one with a task left to do above it.
pub proof fn law_none_selected_means_all_blocked(
    its: Seq<todo::ItemModel>,
    content: Seq<char>,
    j: int,
)
    requires
        todo::selection(its, text::lines(content)) is None,
        0 <= j < its.len(),
    ensures
        its[j].prompt_name != "todo"@,
        todo::open_above(text::lines(content), its[j].line_index),
{
    eligible_from_bound(its, text::lines(content), 0);
    assert(!todo::is_eligible(its[j], text::lines(content)));
}

/// A general item is always eligible: where there is one, something is selected, and nothing that
/// stands behind it.
pub proof fn law_general_is_eligible(its: Seq<todo::ItemModel>, content: Seq<char>, j: int)
    requires
        0 <= j < its.len(),
        its[j].prompt_name == "todo"@,
    ensures
        todo::selection(its, text::lines(content)) matches Some(i) && 0 <= i <= j,
{
    eligible_from_bound(its, text::lines(content), 0);
    assert(todo::is_eligible(its[j], text::lines(content)));
}

/// Of the items of a `todo.md` the first is selected whenever there is one, whatever the patterns
/// are: the tasks are worked on in the order of the file.
pub proof fn law_first_item_is_next(content: Seq<char>, entries: Seq<EntryModel>)
    ensures
        todo::lines_reach(todo::items(content, entries), text::lines(content)),
        todo::selection(todo::items(content, entries), text::lines(content)) == (
        if todo::items(content, entries).len() > 0 {
            Some(0int)
        } else {
            None
        }),
{
    let ls = text::lines(content);
    let ts = todo::tasks(ls);
    let its = todo::items(content, entries);
    tasks_upto_lines(ls, ls.len());
    assert forall|i: int| 0 <= i < its.len() implies (#[trigger] its[i]).line_index
        <= ls.len() by {
        assert(its[i].line_index == ts[i].line_index);
    }
    if its.len() > 0 {
        assert(its[0].line_index == ts[0].line_index);
        assert forall|k: int| 0 <= k < its[0].line_index implies !todo::is_open(
            #[trigger] ls[k],
        ) by {
            if todo::is_open(ls[k]) {
                let i = choose|i: int| 0 <= i < ts.len() && (#[trigger] ts[i]).line_index == k;
                assert(ts[0].line_index <= ts[i].line_index);
            }
        }
        assert(todo::is_eligible(its[0], ls));
    }
}

/// Whether two lines count as the same for the tasks that they are part of.
spec fn alike(a: Seq<char>, b: Seq<char>) -> bool {
    &&& todo::is_blank(a) == todo::is_blank(b)
    &&& todo::is_open(a) == todo::is_open(b)
    &&& !todo::is_blank(a) ==> text::indent(a) == text::indent(b) && todo::step_text(a)
        == todo::step_text(b)
    &&& !todo::is_blank(a) ==> forall|n: nat|
        #[trigger] todo::ends_task(a, n) == todo::ends_task(b, n)
    &&& todo::is_open(a) ==> todo::task_text(a) == todo::task_text(b)
}

/// Lines that are alike hold the same sub-steps.
proof fn steps_alike(a: Seq<Seq<char>>, b: Seq<Seq<char>>, j: int, indent: nat)
    requires
        a.len() == b.len(),
        forall|i: int| #![trigger a[i]] #![trigger b[i]] 0 <= i < a.len() ==> alike(a[i], b[i]),
    ensures
        todo::steps_from(a, j, indent) == todo::steps_from(b, j, indent),
    decreases a.len() - j,
{
    if 0 <= j < a.len() {
        assert(alike(a[j], b[j]));
        steps_alike(a, b, j + 1, indent);
    }
}

/// A line with a task is not blank.
proof fn open_is_not_blank(line: Seq<char>)
    ensures
        todo::is_open(line) ==> !todo::is_blank(line),
{
    reveal_strlit("- [ ] ");
}

/// Lines that are alike hold the same tasks.
proof fn tasks_alike(a: Seq<Seq<char>>, b: Seq<Seq<char>>, n: nat)
    requires
        a.len() == b.len(),
        n <= a.len(),
        forall|i: int| #![trigger a[i]] #![trigger b[i]] 0 <= i < a.len() ==> alike(a[i], b[i]),
    ensures
        todo::tasks_upto(a, n) == todo::tasks_upto(b, n),
    decreases n,
{
    if n > 0 {
        let i = n - 1;
        tasks_alike(a, b, i as nat);
        assert(alike(a[i], b[i]));
        if todo::is_open(a[i]) {
            open_is_not_blank(a[i]);
            steps_alike(a, b, i + 1, text::indent(a[i]));
            assert(todo::task_at(a, i) == todo::task_at(b, i));
        }
    }
}

/// A mark that holds no carriage return begins a text or not whether one follows the text.
proof fn prefix_of_push(pat: Seq<char>, s: Seq<char>, c: char)
    requires
        text_lemmas::lacks(pat, c),
    ensures
        pat.is_prefix_of(s.push(c)) == pat.is_prefix_of(s),
{
    let t = s.push(c);
    if pat.is_prefix_of(t) {
        if pat.len() > s.len() {
            assert(pat.last() == t.subrange(0, pat.len() as int)[pat.len() - 1]);
            assert(pat[pat.len() - 1] == c);
        }
        assert(t.subrange(0, pat.len() as int) =~= s.subrange(0, pat.len() as int));
    }
    if pat.is_prefix_of(s) {
        assert(t.subrange(0, pat.len() as int) =~= s.subrange(0, pat.len() as int));
    }
}

/// What follows a text is not part of the marks that it begins with.
proof fn strip_repeated_push(s: Seq<char>, pat: Seq<char>, c: char)
    requires
        pat.len() > 0,
        text_lemmas::lacks(pat, c),
    ensures
        text::strip_repeated(s.push(c), pat) == text::strip_repeated(s, pat).push(c),
    decreases s.len(),
{
    prefix_of_push(pat, s, c);
    if pat.is_prefix_of(s) {
        assert(s.push(c).skip(pat.len() as int) == s.skip(pat.len() as int).push(c));
        strip_repeated_push(s.skip(pat.len() as int), pat, c);
    }
}

/// A carriage return at the end of a line does not count.
proof fn carriage_return_is_alike(line: Seq<char>)
    ensures
        alike(line.push('\r'), line),
{
    reveal_strlit("- [ ] ");
    reveal_strlit("- [x] ");
    reveal_strlit("- [X] ");
    reveal_strlit("- ");
    let c = '\r';
    let long = line.push(c);
    let t = text::trim_start(line);
    text_lemmas::leading_space_bound(line);
    text_lemmas::trim_ignores_trailing(line, c);
    let n = text::leading_space(line) as int;
    if n < line.len() {
        assert(text::trim_start(long) == t.push(c));
        assert(long.take(n) == line.take(n));
        prefix_of_push(todo::open_mark(), t, c);
        prefix_of_push(todo::done_mark(), t, c);
        prefix_of_push(todo::done_mark_upper(), t, c);
        strip_repeated_push(t, "- "@, c);
        text_lemmas::trim_ignores_trailing(text::strip_repeated(t, "- "@), c);
        if todo::is_open(line) {
            let m = todo::open_mark().len() as int;
            assert(t.push(c).skip(m) == t.skip(m).push(c));
            text_lemmas::trim_ignores_trailing(t.skip(m), c);
        }
    } else {
        assert(t.len() == 0);
    }
}

/// A line is alike without the carriage return at its end.
proof fn chomp_is_alike(line: Seq<char>)
    ensures
        alike(line, text::chomp(line)),
{
    if line.len() > 0 && line.last() == '\r' {
        carriage_return_is_alike(line.drop_last());
        assert(line.drop_last().push('\r') == line);
    }
}

/// Where a line holds a task that is not done, checking it off turns the blank in its mark into
/// an `x` and nothing else.
proof fn marked_line(line: Seq<char>)
    requires
        todo::is_open(line),
    ensures
        ({
            let marked = text::replace_first(line, todo::open_mark(), todo::done_mark());
            let n = text::leading_space(line) as int;
            &&& n + 3 < line.len()
            &&& line[n + 3] == ' '
            &&& marked == line.update(n + 3, 'x')
            &&& text::leading_space(marked) == n
            &&& todo::done_mark().is_prefix_of(text::trim_start(marked))
            &&& !todo::is_open(marked)
            &&& !todo::is_blank(marked)
        }),
{
    reveal_strlit("- [ ] ");
    reveal_strlit("- [x] ");
    let open = todo::open_mark();
    let done = todo::done_mark();
    let n = text::leading_space(line) as int;
    let t = text::trim_start(line);
    text_lemmas::leading_space_bound(line);
    assert(t.subrange(0, 6) =~= open);
    assert(line.subrange(n, n + 6) =~= t.subrange(0, 6));
    assert forall|i: int| 0 <= i < n implies !text::occurs_at(line, open, i) by {
        if text::occurs_at(line, open, i) {
            assert(line.subrange(i, i + 6)[0] == open[0]);
            assert(text::is_space(line[i]));
        }
    }
    text_lemmas::find_is(line, open, 0, n);
    let marked = text::replace_first(line, open, done);
    assert forall|i: int| 0 <= i < line.len() implies marked[i] == line.update(n + 3, 'x')[i] by {
        if n <= i < n + 6 {
            let j = i - n;
            assert(marked[i] == done[j]);
            assert(line.subrange(n, n + 6)[j] == line[i]);
            assert(open[j] == line[i]);
        }
    }
    assert(marked =~= line.update(n + 3, 'x'));
    assert forall|i: int| 0 <= i < n implies text::is_space(#[trigger] marked[i]) by {
        assert(marked[i] == line[i]);
    }
    assert(marked[n] == '-');
    text_lemmas::leading_space_is(marked, n);
    let u = text::trim_start(marked);
    assert(u.subrange(0, 6) =~= done);
    if todo::is_open(marked) {
        assert(u.subrange(0, 6)[3] == open[3]);
    }
}

/// The lines of the steps are the same once a task is checked off: its line ends a task before
/// and after.
proof fn steps_after_check(ls: Seq<Seq<char>>, k: int, j: int, indent: nat)
    requires
        0 <= k < ls.len(),
        todo::is_open(ls[k]),
    ensures
        todo::steps_from(todo::checked_lines(ls, k), j, indent) == todo::steps_from(ls, j, indent),
    decreases ls.len() - j,
{
    if 0 <= j < ls.len() {
        steps_after_check(ls, k, j + 1, indent);
        if j == k {
            marked_line(ls[k]);
            open_is_not_blank(ls[k]);
        }
    }
}

/// The tasks of the first lines once the one on line `k` is checked off.
proof fn tasks_after_check(ls: Seq<Seq<char>>, k: int, n: nat)
    requires
        0 <= k < ls.len(),
        n <= ls.len(),
        todo::is_open(ls[k]),
    ensures
        n <= k ==> todo::tasks_upto(todo::checked_lines(ls, k), n) == todo::tasks_upto(ls, n),
        n > k ==> {
            let p = todo::tasks_upto(ls, k as nat).len() as int;
            &&& 0 <= p < todo::tasks_upto(ls, n).len()
            &&& todo::tasks_upto(ls, n)[p].line_index == k
            &&& todo::tasks_upto(todo::checked_lines(ls, k), n) == todo::tasks_upto(ls, n).remove(p)
        },
    decreases n,
{
    let c = todo::checked_lines(ls, k);
    if n > 0 {
        let i = n - 1;
        let m = i as nat;
        tasks_after_check(ls, k, m);
        let p = todo::tasks_upto(ls, k as nat).len() as int;
        if i == k {
            marked_line(ls[k]);
            let before = todo::tasks_upto(ls, m);
            let after = todo::tasks_upto(ls, n);
            assert(after == before.push(todo::task_at(ls, k)));
            assert(after.remove(p) =~= before);
        } else {
            assert(c[i] == ls[i]);
            if todo::is_open(ls[i]) {
                steps_after_check(ls, k, i + 1, text::indent(ls[i]));
                assert(todo::task_at(c, i) == todo::task_at(ls, i));
                if i > k {
                    let before = todo::tasks_upto(ls, m);
                    let t = todo::task_at(ls, i);
                    assert(before.push(t).remove(p) =~= before.remove(p).push(t));
                }
            }
        }
    }
}

/// Checking off a task takes it, and it alone, off the list: every other task keeps its line, its
/// text, its label and its sub-steps.
pub proof fn law_checking_off_removes_the_task(content: Seq<char>, i: int)
    requires
        0 <= i < todo::tasks(text::lines(content)).len(),
    ensures
        ({
            let ts = todo::tasks(text::lines(content));
            todo::tasks(text::lines(todo::checked_off(content, ts[i].line_index as int)))
                == ts.remove(i)
        }),
{
    let ls = text::lines(content);
    let ts = todo::tasks(ls);
    let k = ts[i].line_index as int;
    let newline = text::ends_with_newline(content);
    tasks_upto_lines(ls, ls.len());
    tasks_after_check(ls, k, ls.len());
    let p = todo::tasks_upto(ls, k as nat).len() as int;
    assert(p == i) by {
        assert(todo::tasks_upto(ls, ls.len())[p].line_index == k);
        assert(todo::tasks_upto(ls, ls.len())[i].line_index == k);
    }
    let checked = todo::checked_lines(ls, k);
    text_lemmas::lines_bound(content);
    marked_line(ls[k]);
    if content.len() == 0 {
        assert(text::lines(content) == Seq::<Seq<char>>::empty());
    }
    assert forall|j: int| 0 <= j < checked.len() implies text_lemmas::lacks(
        #[trigger] checked[j],
        '\n',
    ) by {
        assert(text_lemmas::lacks(ls[j], '\n'));
    }
    text_lemmas::lines_of_unlines(checked, newline);
    let again = text_lemmas::reread(checked, newline);
    assert forall|j: int|
        #![trigger checked[j]]
        #![trigger again[j]]
        0 <= j < checked.len() implies alike(checked[j], again[j]) by {
        chomp_is_alike(checked[j]);
        same_is_alike(checked[j]);
    }
    tasks_alike(checked, again, ls.len());
}

/// A line is alike itself.
proof fn same_is_alike(line: Seq<char>)
    ensures
        alike(line, line),
{
}

/// Checking off an item takes it, and it alone, off the items of a `todo.md`.
pub proof fn law_checking_off_removes_the_item(
    content: Seq<char>,
    entries: Seq<EntryModel>,
    i: int,
)
    requires
        0 <= i < todo::items(content, entries).len(),
    ensures
        todo::items(
            todo::checked_off(content, todo::items(content, entries)[i].line_index as int),
            entries,
        ) == todo::items(content, entries).remove(i),
{
    law_checking_off_removes_the_task(content, i);
    let ts = todo::tasks(text::lines(content));
    let k = ts[i].line_index as int;
    let its = todo::items(content, entries);
    assert(its[i].line_index == k);
    assert(todo::items(todo::checked_off(content, k), entries) =~= its.remove(i));
}

/// The text after the first item was checked off `n` times in a row.
pub open spec fn worked_off(content: Seq<char>, n: nat) -> Seq<char>
    decreases n,
{
    let ts = todo::tasks(text::lines(content));
    if n == 0 || ts.len() == 0 {
        content
    } else {
        worked_off(todo::checked_off(content, ts[0].line_index as int), (n - 1) as nat)
    }
}

/// Checking off the next task again and again leaves nothing to do once it was done as often as
/// there are tasks, and takes the tasks in order until then.
pub proof fn law_working_off_empties_the_list(content: Seq<char>, n: nat)
    requires
        n <= todo::tasks(text::lines(content)).len(),
    ensures
        todo::tasks(text::lines(worked_off(content, n))) == todo::tasks(text::lines(content)).skip(
            n as int,
        ),
        n == todo::tasks(text::lines(content)).len() ==> todo::tasks(
            text::lines(worked_off(content, n)),
        ).len() == 0,
    decreases n,
{
    let ts = todo::tasks(text::lines(content));
    if n > 0 {
        let next = todo::checked_off(content, ts[0].line_index as int);
        law_checking_off_removes_the_task(content, 0);
        law_working_off_empties_the_list(next, (n - 1) as nat);
        assert(ts.remove(0) =~= ts.skip(1));
        assert(ts.skip(1).skip(n - 1) =~= ts.skip(n as int));
    } else {
        assert(ts.skip(0) =~= ts);
    }
}

/// The label of a task is made of the letters `A` to `Z` alone.
pub proof fn law_label_is_upper_case(raw: Seq<char>)
    ensures
        text::all_upper(todo::label_of(raw)),
{
    reveal_strlit("TODO");
}

/// No sub-step is empty.
proof fn steps_are_not_empty(ls: Seq<Seq<char>>, j: int, indent: nat, i: int)
    requires
        0 <= i < todo::steps_from(ls, j, indent).len(),
    ensures
        todo::steps_from(ls, j, indent)[i].len() > 0,
    decreases ls.len() - j,
{
    if 0 <= j < ls.len() {
        if todo::is_blank(ls[j]) {
            steps_are_not_empty(ls, j + 1, indent, i);
        } else if !todo::ends_task(ls[j], indent) {
            if todo::step_text(ls[j]).len() == 0 {
                steps_are_not_empty(ls, j + 1, indent, i);
            } else if i > 0 {
                steps_are_not_empty(ls, j + 1, indent, i - 1);
            }
        }
    }
}

/// Checking off a task changes one character of the text, a blank that becomes an `x`, where no
/// line of the text ends with a carriage return.
pub proof fn law_checking_off_changes_one_character(content: Seq<char>, i: int)
    requires
        0 <= i < todo::tasks(text::lines(content)).len(),
        text_lemmas::plain_newlines(content),
    ensures
        exists|p: int|
            0 <= p < content.len() && #[trigger] content[p] == ' ' && todo::checked_off(
                content,
                todo::tasks(text::lines(content))[i].line_index as int,
            ) == content.update(p, 'x'),
{
    let ls = text::lines(content);
    let ts = todo::tasks(ls);
    let k = ts[i].line_index as int;
    tasks_upto_lines(ls, ls.len());
    if content.len() == 0 {
        assert(ls == Seq::<Seq<char>>::empty());
    }
    text_lemmas::unlines_of_lines(content);
    marked_line(ls[k]);
    let q = text::leading_space(ls[k]) as int + 3;
    let p = text_lemmas::unlines_update(ls, text::ends_with_newline(content), k, q, 'x');
    assert(content[p] == ' ');
}

/// Checking off a line on which nothing is marked as not done leaves the text as it is, where no
/// line of the text ends with a carriage return.
pub proof fn law_line_without_mark_is_kept(content: Seq<char>, k: int)
    requires
        0 <= k < text::lines(content).len(),
        text::find(text::lines(content)[k], todo::open_mark()) is None,
        text_lemmas::plain_newlines(content),
    ensures
        todo::checked_off(content, k) == content,
{
    let ls = text::lines(content);
    if content.len() == 0 {
        assert(ls == Seq::<Seq<char>>::empty());
    }
    text_lemmas::unlines_of_lines(content);
    assert(todo::checked_lines(ls, k) =~= ls);
}

/// Checking off a line, whatever it holds, keeps the number of lines and every other line that
/// does not end with a carriage return.
pub proof fn law_other_lines_are_kept(content: Seq<char>, k: int, j: int)
    requires
        0 <= k < text::lines(content).len(),
        0 <= j < text::lines(content).len(),
        j != k,
        text::chomp(text::lines(content)[j]) == text::lines(content)[j],
    ensures
        text::lines(todo::checked_off(content, k)).len() == text::lines(content).len(),
        text::lines(todo::checked_off(content, k))[j] == text::lines(content)[j],
{
    reveal_strlit("- [ ] ");
    reveal_strlit("- [x] ");
    let ls = text::lines(content);
    let newline = text::ends_with_newline(content);
    if content.len() == 0 {
        assert(ls == Seq::<Seq<char>>::empty());
    }
    text_lemmas::lines_bound(content);
    let checked = todo::checked_lines(ls, k);
    text_lemmas::find_from_bound(ls[k], todo::open_mark(), 0);
    assert(checked[k].len() == ls[k].len());
    assert forall|m: int| 0 <= m < checked.len() implies text_lemmas::lacks(
        #[trigger] checked[m],
        '\n',
    ) by {
        assert(text_lemmas::lacks(ls[m], '\n'));
        if m == k {
            let line = checked[k];
            assert forall|q: int| 0 <= q < line.len() implies #[trigger] line[q] != '\n' by {
                match text::find(ls[k], todo::open_mark()) {
                    Some(at) => {
                        if q < at || q >= at + 6 {
                            assert(line[q] == ls[k][q]);
                        } else {
                            assert(line[q] == todo::done_mark()[q - at]);
                        }
                    },
                    None => {},
                }
            }
        }
    }
    text_lemmas::lines_of_unlines(checked, newline);
}

/// No sub-step of a task is empty.
pub proof fn law_steps_are_not_empty(content: Seq<char>, i: int, k: int)
    requires
        0 <= i < todo::tasks(text::lines(content)).len(),
        0 <= k < todo::tasks(text::lines(content))[i].sub_steps.len(),
    ensures
        todo::tasks(text::lines(content))[i].sub_steps[k].len() > 0,
{
    let ls = text::lines(content);
    tasks_upto_lines(ls, ls.len());
    let t = todo::tasks_upto(ls, ls.len())[i];
    let line = ls[t.line_index as int];
    steps_are_not_empty(ls, t.line_index as int + 1, text::indent(line), k);
}

/// No sub-step has white space at either end.
proof fn steps_are_trimmed(ls: Seq<Seq<char>>, j: int, indent: nat, i: int)
    requires
        0 <= i < todo::steps_from(ls, j, indent).len(),
    ensures
        text::trim(todo::steps_from(ls, j, indent)[i]) == todo::steps_from(ls, j, indent)[i],
    decreases ls.len() - j,
{
    if 0 <= j < ls.len() {
        if todo::is_blank(ls[j]) {
            steps_are_trimmed(ls, j + 1, indent, i);
        } else if !todo::ends_task(ls[j], indent) {
            if todo::step_text(ls[j]).len() == 0 {
                steps_are_trimmed(ls, j + 1, indent, i);
            } else if i > 0 {
                steps_are_trimmed(ls, j + 1, indent, i - 1);
            } else {
                text_lemmas::trim_twice(
                    text::strip_repeated(text::trim_start(ls[j]), "- "@),
                );
            }
        }
    }
}

/// Neither the text of a task nor any sub-step of it has white space at either end.
pub proof fn law_texts_are_trimmed(content: Seq<char>, i: int)
    requires
        0 <= i < todo::tasks(text::lines(content)).len(),
    ensures
        ({
            let t = todo::tasks(text::lines(content))[i];
            &&& text::trim(t.text) == t.text
            &&& forall|k: int|
                0 <= k < t.sub_steps.len() ==> text::trim(#[trigger] t.sub_steps[k])
                    == t.sub_steps[k]
        }),
{
    let ls = text::lines(content);
    tasks_upto_lines(ls, ls.len());
    let t = todo::tasks_upto(ls, ls.len())[i];
    let line = ls[t.line_index as int];
    text_lemmas::trim_twice(text::trim_start(line).skip(todo::open_mark().len() as int));
    assert forall|k: int| 0 <= k < t.sub_steps.len() implies text::trim(#[trigger] t.sub_steps[k])
        == t.sub_steps[k] by {
        steps_are_trimmed(ls, t.line_index as int + 1, text::indent(line), k);
    }
}

/// Whether `line` is white space, however much, and then `- [ ] ` and anything.
pub open spec fn holds_open_task(line: Seq<char>) -> bool {
    exists|w: Seq<char>, s: Seq<char>|
        text_lemmas::all_space(w) && line == #[trigger] (w + "- [ ] "@ + s)
}

/// A line that begins with the mark, at whatever depth, holds a task that is not done.
proof fn marked_is_open(w: Seq<char>, s: Seq<char>)
    requires
        text_lemmas::all_space(w),
    ensures
        todo::is_open(w + "- [ ] "@ + s),
        text::trim_start(w + "- [ ] "@ + s) == "- [ ] "@ + s,
        todo::task_text(w + "- [ ] "@ + s) == text::trim(s),
{
    reveal_strlit("- [ ] ");
    let mark = "- [ ] "@;
    let t = mark + s;
    text_lemmas::law_trimming(w, t, seq![]);
    assert(w + t =~= w + mark + s);
    assert(t.subrange(0, mark.len() as int) =~= mark);
    assert(t.skip(mark.len() as int) =~= s);
}

/// A line with a task that is not done begins with the mark, at whatever depth.
proof fn open_is_marked(line: Seq<char>)
    requires
        todo::is_open(line),
    ensures
        holds_open_task(line),
{
    text_lemmas::leading_space_bound(line);
    let n = text::leading_space(line) as int;
    let mark = "- [ ] "@;
    let w = line.take(n);
    let s = line.skip(n).skip(mark.len() as int);
    assert(line =~= w + mark + s) by {
        assert(line.skip(n) =~= line.skip(n).subrange(0, mark.len() as int) + s);
        assert(line =~= w + line.skip(n));
    }
    assert forall|i: int| 0 <= i < w.len() implies text::is_space(#[trigger] w[i]) by {
        assert(w[i] == line[i]);
    }
}

/// The lines that hold a task are those that begin with the mark, at whatever depth.
proof fn open_lines_are_marked(line: Seq<char>)
    ensures
        todo::is_open(line) <==> holds_open_task(line),
{
    if todo::is_open(line) {
        open_is_marked(line);
    }
    if holds_open_task(line) {
        let (w, s) = choose|w: Seq<char>, s: Seq<char>|
            text_lemmas::all_space(w) && line == #[trigger] (w + "- [ ] "@ + s);
        marked_is_open(w, s);
    }
}

/// Whether one of the tasks stands on line `k` and has the text.
pub open spec fn has_task(ts: Seq<todo::TaskModel>, k: int, text: Seq<char>) -> bool {
    exists|i: int|
        0 <= i < ts.len() && (#[trigger] ts[i]).line_index == k && ts[i].text == text
}

/// Each line that begins with `- [ ] `, at whatever depth, is a task, whose text is what follows
/// on the line; and no other line is one.
pub proof fn law_tasks_stand_at_any_depth(content: Seq<char>)
    ensures
        ({
            let ls = text::lines(content);
            let ts = todo::tasks(ls);
            &&& forall|k: int, w: Seq<char>, s: Seq<char>|
                0 <= k < ls.len() && text_lemmas::all_space(w) && #[trigger] ls[k] == #[trigger] (w
                    + "- [ ] "@ + s) ==> has_task(ts, k, text::trim(s))
            &&& forall|i: int|
                0 <= i < ts.len() ==> (#[trigger] ts[i]).line_index < ls.len() && holds_open_task(
                    ls[ts[i].line_index as int],
                )
            &&& forall|i: int, j: int|
                0 <= i < j < ts.len() ==> (#[trigger] ts[i]).line_index < (
                #[trigger] ts[j]).line_index
        }),
{
    let ls = text::lines(content);
    let ts = todo::tasks(ls);
    tasks_upto_lines(ls, ls.len());
    law_tasks_are_the_open_lines(content);
    assert forall|k: int, w: Seq<char>, s: Seq<char>|
        0 <= k < ls.len() && text_lemmas::all_space(w) && #[trigger] ls[k] == #[trigger] (w
            + "- [ ] "@ + s) implies has_task(ts, k, text::trim(s)) by {
        marked_is_open(w, s);
        assert(todo::is_open(ls[k]));
        let i = choose|i: int| 0 <= i < ts.len() && (#[trigger] ts[i]).line_index == k;
        assert(ts[i] == todo::task_at(ls, k));
    }
    assert forall|i: int| 0 <= i < ts.len() implies (#[trigger] ts[i]).line_index < ls.len()
        && holds_open_task(ls[ts[i].line_index as int]) by {
        open_is_marked(ls[ts[i].line_index as int]);
    }
}

/// The lines of a text that has the line in its middle.
proof fn line_in_the_middle(before: Seq<char>, line: Seq<char>, after: Seq<char>)
    requires
        before.len() == 0 || before.last() == '\n',
        text_lemmas::lacks(line, '\n'),
        line.len() > 0,
        after.len() == 0 || after[0] == '\n',
    ensures
        text::lines(before + line + after).len() == text::lines(before).len() + 1 + (
        if after.len() == 0 {
            0
        } else {
            text::lines(after.skip(1)).len()
        }),
        text::lines(before + line + after) == text::lines(before) + seq![
            if after.len() == 0 {
                line
            } else {
                text::chomp(line)
            },
        ] + (if after.len() == 0 {
            seq![]
        } else {
            text::lines(after.skip(1))
        }),
{
    reveal_strlit("\n");
    let rest = line + after;
    assert(before + line + after =~= before + rest);
    text_lemmas::law_lines_of_two(before, rest);
    if after.len() == 0 {
        assert(rest =~= line);
        text_lemmas::law_lines(line, seq![]);
        assert(text::lines(before) + seq![line] + Seq::<Seq<char>>::empty() =~= text::lines(before)
            + text::lines(rest));
    } else {
        assert(rest =~= line + "\n"@ + after.skip(1));
        text_lemmas::lines_cons(line, after.skip(1));
        assert(text::lines(before) + seq![text::chomp(line)] + text::lines(after.skip(1))
            =~= text::lines(before) + text::lines(rest));
    }
}

/// Wherever in a text a line begins with `- [ ] `, at whatever depth, there is a task with the
/// number of that line and the text that follows on it.
pub proof fn law_an_open_line_is_found(
    before: Seq<char>,
    w: Seq<char>,
    s: Seq<char>,
    after: Seq<char>,
)
    requires
        before.len() == 0 || before.last() == '\n',
        text_lemmas::all_space(w),
        text_lemmas::lacks(w, '\n'),
        text_lemmas::lacks(s, '\n'),
        after.len() == 0 || after[0] == '\n',
    ensures
        has_task(
            todo::tasks(text::lines(before + (w + "- [ ] "@ + s) + after)),
            text::lines(before).len() as int,
            text::trim(s),
        ),
{
    reveal_strlit("- [ ] ");
    let mark = "- [ ] "@;
    let line = w + mark + s;
    let content = before + line + after;
    assert forall|i: int| 0 <= i < line.len() implies #[trigger] line[i] != '\n' by {
        if i < w.len() {
            assert(line[i] == w[i]);
        } else if i >= w.len() + 6 {
            assert(line[i] == s[i - w.len() - 6]);
        }
    }
    line_in_the_middle(before, line, after);
    let k = text::lines(before).len() as int;
    let ls = text::lines(content);
    let ts = todo::tasks(ls);
    law_tasks_stand_at_any_depth(content);
    if after.len() > 0 && line.last() == '\r' {
        let short = s.drop_last();
        assert(s.len() > 0 && s.last() == '\r');
        assert(line.drop_last() =~= w + mark + short);
        assert(ls[k] == w + mark + short);
        assert(short.push('\r') =~= s);
        text_lemmas::trim_ignores_trailing(short, '\r');
    } else {
        assert(ls[k] == w + mark + s);
    }
}

/// A task is called by what stands before the first colon of its text, where that is made of the
/// letters `A` to `Z` alone, and `TODO` otherwise.
pub proof fn law_label_of_a_task(content: Seq<char>, i: int, head: Seq<char>, rest: Seq<char>)
    requires
        0 <= i < todo::tasks(text::lines(content)).len(),
        text_lemmas::lacks(head, ':'),
        todo::tasks(text::lines(content))[i].text == head || todo::tasks(
            text::lines(content),
        )[i].text == head + ":"@ + rest,
    ensures
        (forall|j: int| 0 <= j < head.len() ==> 'A' <= #[trigger] head[j] && head[j] <= 'Z')
            ==> todo::tasks(text::lines(content))[i].label == head,
        (exists|j: int| 0 <= j < head.len() && !('A' <= #[trigger] head[j] && head[j] <= 'Z'))
            ==> todo::tasks(text::lines(content))[i].label == "TODO"@,
{
    reveal_strlit(":");
    let ls = text::lines(content);
    tasks_upto_lines(ls, ls.len());
    let t = todo::tasks_upto(ls, ls.len())[i];
    let raw = t.text;
    let n = head.len() as int;
    assert forall|j: int| 0 <= j < n implies #[trigger] raw[j] != ':' by {
        assert(raw[j] == head[j]);
    }
    text_lemmas::span_is(raw, ':', n);
    assert(raw.take(n) =~= head);
    if exists|j: int| 0 <= j < head.len() && !('A' <= #[trigger] head[j] && head[j] <= 'Z') {
        let j = choose|j: int|
            0 <= j < head.len() && !('A' <= #[trigger] head[j] && head[j] <= 'Z');
        assert(!text::is_upper(head[j]));
    }
}

/// `- ` as often as `n` says.
pub open spec fn dashes(n: nat) -> Seq<char> {
    Seq::new(
        2 * n,
        |i: int|
            if i % 2 == 0 {
                '-'
            } else {
                ' '
            },
    )
}

/// Whether `line` says `x`: white space, then `- ` any number of times, then `x` with white space
/// around it.
pub open spec fn says(line: Seq<char>, x: Seq<char>) -> bool {
    exists|w: Seq<char>, n: nat, y: Seq<char>|
        {
            &&& text_lemmas::all_space(w)
            &&& line == #[trigger] (w + dashes(n) + y)
            &&& n == 0 ==> text_lemmas::starts_solid(y)
            &&& !"- "@.is_prefix_of(y)
            &&& x == text::trim(y)
        }
}

/// Whether `line` is part of what stands below the line `head`: it is blank, or indented deeper
/// and no task, be it done or not.
pub open spec fn is_below(line: Seq<char>, head: Seq<char>) -> bool {
    ||| text_lemmas::all_space(line)
    ||| {
        &&& text::indent(line) > text::indent(head)
        &&& !"- [ ] "@.is_prefix_of(text::trim_start(line))
        &&& !"- [x] "@.is_prefix_of(text::trim_start(line))
        &&& !"- [X] "@.is_prefix_of(text::trim_start(line))
    }
}

/// The dashes are stripped, however many there are.
proof fn dashes_are_stripped(n: nat, y: Seq<char>)
    requires
        !"- "@.is_prefix_of(y),
    ensures
        text::strip_repeated(dashes(n) + y, "- "@) == y,
    decreases n,
{
    reveal_strlit("- ");
    let s = dashes(n) + y;
    if n == 0 {
        assert(s =~= y);
    } else {
        let m = (n - 1) as nat;
        assert(s.subrange(0, 2) =~= "- "@);
        assert(s.skip(2) =~= dashes(m) + y) by {
            assert forall|i: int| 0 <= i < 2 * m implies s.skip(2)[i] == dashes(m)[i] by {
                assert((i + 2) % 2 == i % 2);
            }
        }
        dashes_are_stripped(m, y);
    }
}

/// What a line says is the text of the sub-step that it holds.
proof fn said_is_step_text(line: Seq<char>, x: Seq<char>)
    requires
        says(line, x),
    ensures
        todo::step_text(line) == x,
        todo::is_blank(line) ==> x.len() == 0,
{
    let (w, n, y) = choose|w: Seq<char>, n: nat, y: Seq<char>|
        {
            &&& text_lemmas::all_space(w)
            &&& line == #[trigger] (w + dashes(n) + y)
            &&& n == 0 ==> text_lemmas::starts_solid(y)
            &&& !"- "@.is_prefix_of(y)
            &&& x == text::trim(y)
        };
    let t = dashes(n) + y;
    if n == 0 {
        assert(t =~= y);
    } else {
        assert(t[0] == '-');
    }
    text_lemmas::law_trimming(w, t, seq![]);
    assert(w + t =~= line);
    dashes_are_stripped(n, y);
    if todo::is_blank(line) {
        assert(y.len() == 0);
        assert(text::trim(y) =~= y) by {
            text_lemmas::law_trimming(seq![], y, seq![]);
            assert(Seq::<char>::empty() + y + Seq::<char>::empty() =~= y);
        }
    }
}

/// A line of white space is blank, and no other line is.
proof fn blank_is_all_space(line: Seq<char>)
    ensures
        todo::is_blank(line) <==> text_lemmas::all_space(line),
{
    text_lemmas::leading_space_bound(line);
    if text_lemmas::all_space(line) {
        text_lemmas::leading_space_is(line, line.len() as int);
    }
}

/// Whether `line` stands below the line `head` and says `x`.
pub open spec fn says_below(line: Seq<char>, head: Seq<char>, x: Seq<char>) -> bool {
    is_below(line, head) && says(line, x)
}

/// Texts without the empty ones, seen from the front.
proof fn filter_front(xs: Seq<Seq<char>>)
    ensures
        xs.len() == 0 ==> xs.filter(|x: Seq<char>| x.len() > 0).len() == 0,
        xs.len() > 0 ==> xs.filter(|x: Seq<char>| x.len() > 0) == (if xs[0].len() > 0 {
            seq![xs[0]]
        } else {
            seq![]
        }) + xs.skip(1).filter(|x: Seq<char>| x.len() > 0),
{
    reveal(Seq::filter);
    let pred = |x: Seq<char>| x.len() > 0;
    if xs.len() > 0 {
        let first = seq![xs[0]];
        let rest = xs.skip(1);
        assert(first + rest =~= xs);
        Seq::filter_distributes_over_add(first, rest, pred);
        assert(first.drop_last() =~= Seq::<Seq<char>>::empty());
        assert(first.drop_last().filter(pred) =~= Seq::<Seq<char>>::empty());
        assert(first.filter(pred) =~= (if xs[0].len() > 0 {
            first
        } else {
            seq![]
        }));
    }
}

/// The sub-steps are what the lines below say, up to the first that is not below.
proof fn steps_are_said(ls: Seq<Seq<char>>, head: Seq<char>, j: int, xs: Seq<Seq<char>>)
    requires
        0 <= j,
        j + xs.len() <= ls.len(),
        forall|i: int| 0 <= i < xs.len() ==> says_below(ls[j + i], head, #[trigger] xs[i]),
        j + xs.len() < ls.len() ==> !is_below(ls[j + xs.len()], head),
    ensures
        todo::steps_from(ls, j, text::indent(head)) == xs.filter(|x: Seq<char>| x.len() > 0),
    decreases xs.len(),
{
    filter_front(xs);
    if xs.len() == 0 {
        if j < ls.len() {
            blank_is_all_space(ls[j]);
        }
        assert(todo::steps_from(ls, j, text::indent(head)) =~= Seq::<Seq<char>>::empty());
    } else {
        let rest = xs.skip(1);
        assert forall|i: int| 0 <= i < rest.len() implies says_below(
            ls[j + 1 + i],
            head,
            #[trigger] rest[i],
        ) by {
            assert(rest[i] == xs[i + 1]);
            assert(says_below(ls[j + (i + 1)], head, xs[i + 1]));
        }
        steps_are_said(ls, head, j + 1, rest);
        assert(says_below(ls[j + 0], head, xs[0]));
        said_is_step_text(ls[j], xs[0]);
        blank_is_all_space(ls[j]);
    }
}

/// The sub-steps of a task are what the lines say that stand below its line, in order and
/// without the empty ones: all of them, up to the first line that is not below.
pub proof fn law_sub_steps_are_the_lines_below(content: Seq<char>, i: int, xs: Seq<Seq<char>>)
    requires
        0 <= i < todo::tasks(text::lines(content)).len(),
        ({
            let ls = text::lines(content);
            let k = todo::tasks(ls)[i].line_index as int;
            &&& k + 1 + xs.len() <= ls.len()
            &&& forall|j: int|
                0 <= j < xs.len() ==> says_below(ls[k + 1 + j], ls[k], #[trigger] xs[j])
            &&& k + 1 + xs.len() < ls.len() ==> !is_below(ls[k + 1 + xs.len()], ls[k])
        }),
    ensures
        todo::tasks(text::lines(content))[i].sub_steps == xs.filter(|x: Seq<char>| x.len() > 0),
{
    let ls = text::lines(content);
    tasks_upto_lines(ls, ls.len());
    let t = todo::tasks_upto(ls, ls.len())[i];
    let k = t.line_index as int;
    steps_are_said(ls, ls[k], k + 1, xs);
}

/// The items of a `todo.md` are its tasks, one for one: each keeps its line, its label and its
/// sub-steps, and has the prompt and the description that its text is classified as.
pub proof fn law_items_are_the_tasks(content: Seq<char>, entries: Seq<EntryModel>, i: int)
    ensures
        todo::items(content, entries).len() == todo::tasks(text::lines(content)).len(),
        0 <= i < todo::items(content, entries).len() ==> {
            let item = todo::items(content, entries)[i];
            let task = todo::tasks(text::lines(content))[i];
            &&& item.line_index == task.line_index
            &&& item.label == task.label
            &&& item.sub_steps == task.sub_steps
            &&& (item.prompt_name, item.description) == patterns::classification(
                entries,
                task.text,
            )
        },
{
}

/// Whether an item may be worked on: its prompt is `todo`, or no line above its own begins with
/// `- [ ] `, at whatever depth.
pub open spec fn may_run(item: todo::ItemModel, ls: Seq<Seq<char>>) -> bool {
    item.prompt_name == "todo"@ || forall|k: int|
        0 <= k < item.line_index && k < ls.len() ==> !holds_open_task(#[trigger] ls[k])
}

/// What is eligible may run, and the other way round.
proof fn eligible_may_run(item: todo::ItemModel, ls: Seq<Seq<char>>)
    ensures
        todo::is_eligible(item, ls) <==> may_run(item, ls),
{
    assert forall|k: int| 0 <= k < ls.len() implies todo::is_open(#[trigger] ls[k])
        == holds_open_task(ls[k]) by {
        open_lines_are_marked(ls[k]);
    }
    if todo::open_above(ls, item.line_index) {
        let k = choose|k: int|
            0 <= k < item.line_index && k < ls.len() && todo::is_open(#[trigger] ls[k]);
        assert(holds_open_task(ls[k]));
    }
}

/// The item that is worked on next is the first that may run, and nothing is worked on only where
/// none may.
pub proof fn law_next_is_the_first_that_may_run(its: Seq<todo::ItemModel>, content: Seq<char>)
    ensures
        match todo::selection(its, text::lines(content)) {
            Some(i) => 0 <= i < its.len() && may_run(its[i], text::lines(content)) && forall|j: int|
                0 <= j < i ==> !may_run(#[trigger] its[j], text::lines(content)),
            None => forall|j: int|
                0 <= j < its.len() ==> !may_run(#[trigger] its[j], text::lines(content)),
        },
{
    let ls = text::lines(content);
    eligible_from_bound(its, ls, 0);
    assert forall|j: int| 0 <= j < its.len() implies todo::is_eligible(#[trigger] its[j], ls)
        == may_run(its[j], ls) by {
        eligible_may_run(its[j], ls);
    }
}

/// Checking off a line turns the first `- [ ] ` on it into `- [x] `, keeps the rest of it and the
/// other lines, and ends the text with a line feed exactly where it ended with one.
pub proof fn law_first_mark_is_turned(content: Seq<char>, k: int, a: Seq<char>, b: Seq<char>)
    requires
        0 <= k < text::lines(content).len(),
        text::lines(content)[k] == a + "- [ ] "@ + b,
        forall|a2: Seq<char>, b2: Seq<char>|
            #[trigger] (a2 + "- [ ] "@ + b2) == a + "- [ ] "@ + b ==> a.len() <= a2.len(),
    ensures
        todo::checked_off(content, k) == text::join(
            text::lines(content).update(k, a + "- [x] "@ + b),
            "\n"@,
        ) + (if content.last() == '\n' {
            "\n"@
        } else {
            seq![]
        }),
{
    text_lemmas::law_finding(a, "- [ ] "@, b);
    let line = a + "- [ ] "@ + b;
    let n = a.len() as int;
    assert(line.take(n) =~= a);
    assert(line.skip(n + "- [ ] "@.len()) =~= b);
    if content.len() == 0 {
        assert(text::lines(content) == Seq::<Seq<char>>::empty());
    }
    let joined = text::join(text::lines(content).update(k, a + "- [x] "@ + b), "\n"@);
    assert(joined + Seq::<char>::empty() =~= joined);
}

/// Checking off a line on which `- [ ] ` does not stand keeps every line.
pub proof fn law_without_a_mark_every_line_is_kept(content: Seq<char>, k: int)
    requires
        0 <= k < text::lines(content).len(),
        forall|a: Seq<char>, b: Seq<char>|
            text::lines(content)[k] != #[trigger] (a + "- [ ] "@ + b),
    ensures
        todo::checked_off(content, k) == text::join(text::lines(content), "\n"@) + (
        if content.last() == '\n' {
            "\n"@
        } else {
            seq![]
        }),
{
    let ls = text::lines(content);
    text_lemmas::law_not_finding(ls[k], "- [ ] "@);
    assert(ls.update(k, ls[k]) =~= ls);
    if content.len() == 0 {
        assert(ls == Seq::<Seq<char>>::empty());
    }
    let joined = text::join(ls, "\n"@);
    assert(joined + Seq::<char>::empty() =~= joined);
}

/// A line with a task, and the same line with the task checked off.
proof fn turned_line(w: Seq<char>, s: Seq<char>)
    requires
        text_lemmas::all_space(w),
        text_lemmas::lacks(w, '\n'),
        text_lemmas::lacks(s, '\n'),
    ensures
        text_lemmas::lacks(w + "- [ ] "@ + s, '\n'),
        text_lemmas::lacks(w + "- [x] "@ + s, '\n'),
        (w + "- [ ] "@ + s).len() == w.len() + 6 + s.len(),
        (w + "- [x] "@ + s).len() == w.len() + 6 + s.len(),
        (w + "- [x] "@ + s).last() == (w + "- [ ] "@ + s).last(),
        w + "- [x] "@ + s == (w + "- [ ] "@ + s).update(w.len() as int + 3, 'x'),
        text::replace_first(w + "- [ ] "@ + s, todo::open_mark(), todo::done_mark()) == w
            + "- [x] "@ + s,
{
    reveal_strlit("- [ ] ");
    reveal_strlit("- [x] ");
    let line = w + "- [ ] "@ + s;
    let done = w + "- [x] "@ + s;
    assert(done =~= line.update(w.len() as int + 3, 'x'));
    assert forall|i: int| 0 <= i < line.len() implies #[trigger] line[i] != '\n' by {
        if i < w.len() {
            assert(line[i] == w[i]);
        } else if i >= w.len() + 6 {
            assert(line[i] == s[i - w.len() - 6]);
        }
    }
    assert forall|i: int| 0 <= i < done.len() implies #[trigger] done[i] != '\n' by {
        assert(line[i] != '\n');
    }
    marked_is_open(w, s);
    marked_line(line);
    assert forall|i: int| 0 <= i < w.len() implies text::is_space(#[trigger] line[i]) by {
        assert(line[i] == w[i]);
    }
    text_lemmas::leading_space_is(line, w.len() as int);
}

/// Checking off a line of a text puts the other line in its place, where no line ends with a
/// carriage return.
proof fn line_is_replaced(before: Seq<char>, line: Seq<char>, done: Seq<char>, after: Seq<char>)
    requires
        before.len() == 0 || before.last() == '\n',
        text_lemmas::lacks(line, '\n'),
        text_lemmas::lacks(done, '\n'),
        line.len() > 0,
        done.len() > 0,
        done.last() == line.last(),
        after.len() == 0 || after[0] == '\n',
        text::replace_first(line, todo::open_mark(), todo::done_mark()) == done,
        text_lemmas::plain_newlines(before + line + after),
        text_lemmas::plain_newlines(before + done + after),
    ensures
        todo::checked_off(before + line + after, text::lines(before).len() as int) == before + done
            + after,
{
    let content = before + line + after;
    let out = before + done + after;
    line_in_the_middle(before, line, after);
    line_in_the_middle(before, done, after);
    let k = text::lines(before).len() as int;
    if after.len() > 0 {
        let end = (before.len() + line.len()) as int;
        assert(content[end] == after[0]);
        assert(content[end - 1] == line.last());
        assert(line.last() != '\r');
        assert(out.last() == after.last() && content.last() == after.last());
    } else {
        assert(out.last() == done.last() && content.last() == line.last());
    }
    assert(text::lines(content)[k] == line);
    assert(todo::checked_lines(text::lines(content), k) =~= text::lines(out));
    text_lemmas::unlines_of_lines(out);
}

/// Wherever in a text a task stands, checking it off turns its `- [ ] ` into `- [x] ` and leaves
/// everything before and behind as it is, where no line ends with a carriage return.
pub proof fn law_checking_off_in_the_text(
    before: Seq<char>,
    w: Seq<char>,
    s: Seq<char>,
    after: Seq<char>,
)
    requires
        before.len() == 0 || before.last() == '\n',
        text_lemmas::all_space(w),
        text_lemmas::lacks(w, '\n'),
        text_lemmas::lacks(s, '\n'),
        after.len() == 0 || after[0] == '\n',
        text_lemmas::plain_newlines(before + (w + "- [ ] "@ + s) + after),
    ensures
        todo::checked_off(
            before + (w + "- [ ] "@ + s) + after,
            text::lines(before).len() as int,
        ) == before + (w + "- [x] "@ + s) + after,
{
    turned_line(w, s);
    let line = w + "- [ ] "@ + s;
    let done = w + "- [x] "@ + s;
    let content = before + line + after;
    let out = before + done + after;
    let at = (before.len() + w.len() + 3) as int;
    assert(out =~= content.update(at, 'x'));
    assert forall|i: int| 0 <= i < out.len() - 1 && #[trigger] out[i] == '\r' implies out[i + 1]
        != '\n' by {
        assert(content[i] == '\r');
    }
    line_is_replaced(before, line, done, after);
}

/// The tasks and the items are taken one for one, in order and as they are.
pub proof fn law_every_task_is_taken(tasks: Seq<todo::Task>, items: Seq<todo::TodoItem>)
    ensures
        todo::task_models(tasks).len() == tasks.len(),
        forall|i: int|
            0 <= i < tasks.len() ==> {
                let model = #[trigger] todo::task_models(tasks)[i];
                &&& model.line_index == tasks[i].line_index
                &&& model.text == tasks[i].text@
                &&& model.label == tasks[i].label@
                &&& model.sub_steps == text::texts(tasks[i].sub_steps@)
            },
        todo::item_models(items).len() == items.len(),
        forall|i: int|
            0 <= i < items.len() ==> {
                let model = #[trigger] todo::item_models(items)[i];
                &&& model.line_index == items[i].line_index
                &&& model.prompt_name == items[i].prompt_name@
                &&& model.label == items[i].label@
                &&& model.description == items[i].description@
                &&& model.sub_steps == text::texts(items[i].sub_steps@)
            },
{
}

} // verus!
