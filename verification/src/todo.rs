//! The tasks of a `todo.md`: which there are, which comes next, and how one is checked off.

use vstd::prelude::*;
use crate::patterns;
use crate::patterns::PatternSet;
use crate::scan;
use crate::text;

verus! {

/// What a line with a task that is not done begins with.
pub open spec fn open_mark() -> Seq<char> {
    "- [ ] "@
}

/// What a line with a task that is done begins with.
pub open spec fn done_mark() -> Seq<char> {
    "- [x] "@
}

/// Another way to mark a task as done.
pub open spec fn done_mark_upper() -> Seq<char> {
    "- [X] "@
}

/// Whether `line` holds a task that is not done.
pub open spec fn is_open(line: Seq<char>) -> bool {
    open_mark().is_prefix_of(text::trim_start(line))
}

/// Whether `line` holds nothing but white space.
pub open spec fn is_blank(line: Seq<char>) -> bool {
    text::trim_start(line).len() == 0
}

/// Whether `line` is no longer part of a task whose line is indented by `indent`.
pub open spec fn ends_task(line: Seq<char>, indent: nat) -> bool {
    let t = text::trim_start(line);
    ||| text::indent(line) <= indent
    ||| open_mark().is_prefix_of(t)
    ||| done_mark().is_prefix_of(t)
    ||| done_mark_upper().is_prefix_of(t)
}

/// The text of the sub-step that `line` holds.
pub open spec fn step_text(line: Seq<char>) -> Seq<char> {
    text::trim(text::strip_repeated(text::trim_start(line), "- "@))
}

/// The sub-steps from line `j` on of a task whose line is indented by `indent`.
pub open spec fn steps_from(ls: Seq<Seq<char>>, j: int, indent: nat) -> Seq<Seq<char>>
    decreases ls.len() - j,
{
    if j < 0 || j >= ls.len() {
        seq![]
    } else if is_blank(ls[j]) {
        steps_from(ls, j + 1, indent)
    } else if ends_task(ls[j], indent) {
        seq![]
    } else if step_text(ls[j]).len() == 0 {
        steps_from(ls, j + 1, indent)
    } else {
        seq![step_text(ls[j])] + steps_from(ls, j + 1, indent)
    }
}

/// The text of the task that `line` holds.
pub open spec fn task_text(line: Seq<char>) -> Seq<char> {
    text::trim(text::trim_start(line).skip(open_mark().len() as int))
}

/// What stands before the first colon of `raw`, if it is made of the letters `A` to `Z` alone,
/// and `TODO` otherwise.
pub open spec fn label_of(raw: Seq<char>) -> Seq<char> {
    let head = raw.take(text::span_until(raw, ':') as int);
    if text::all_upper(head) {
        head
    } else {
        "TODO"@
    }
}

/// What a task holds.
#[verifier::ext_equal]
pub struct TaskModel {
    pub line_index: nat,
    pub text: Seq<char>,
    pub label: Seq<char>,
    pub sub_steps: Seq<Seq<char>>,
}

/// The task on line `i`.
pub open spec fn task_at(ls: Seq<Seq<char>>, i: int) -> TaskModel {
    TaskModel {
        line_index: i as nat,
        text: task_text(ls[i]),
        label: label_of(task_text(ls[i])),
        sub_steps: steps_from(ls, i + 1, text::indent(ls[i])),
    }
}

/// The tasks on the first `n` lines that are not done, in order.
pub open spec fn tasks_upto(ls: Seq<Seq<char>>, n: nat) -> Seq<TaskModel>
    decreases n,
{
    if n == 0 {
        seq![]
    } else if is_open(ls[n - 1]) {
        tasks_upto(ls, (n - 1) as nat).push(task_at(ls, n - 1))
    } else {
        tasks_upto(ls, (n - 1) as nat)
    }
}

/// The tasks that are not done, in order.
pub open spec fn tasks(ls: Seq<Seq<char>>) -> Seq<TaskModel> {
    tasks_upto(ls, ls.len())
}

/// A task of a `todo.md` that is not done.
pub struct Task {
    /// The line that it stands on, counted from zero.
    pub line_index: usize,
    /// What follows the mark on that line.
    pub text: String,
    /// What the task is called when it is announced.
    pub label: String,
    /// The lines below it that belong to it.
    pub sub_steps: Vec<String>,
}

impl View for Task {
    type V = TaskModel;

    open spec fn view(&self) -> TaskModel {
        TaskModel {
            line_index: self.line_index as nat,
            text: self.text@,
            label: self.label@,
            sub_steps: text::texts(self.sub_steps@),
        }
    }
}

/// What each of the tasks holds.
pub open spec fn task_models(v: Seq<Task>) -> Seq<TaskModel> {
    Seq::new(v.len(), |i: int| v[i]@)
}

/// What a task holds once its prompt is known.
#[verifier::ext_equal]
pub struct ItemModel {
    pub line_index: nat,
    pub prompt_name: Seq<char>,
    pub label: Seq<char>,
    pub description: Seq<char>,
    pub sub_steps: Seq<Seq<char>>,
}

/// A task with the name of its prompt and its description.
pub open spec fn item_of(
    task: TaskModel,
    prompt_name: Seq<char>,
    description: Seq<char>,
) -> ItemModel {
    ItemModel {
        line_index: task.line_index,
        prompt_name,
        label: task.label,
        description,
        sub_steps: task.sub_steps,
    }
}

/// The tasks, each classified by the patterns.
pub open spec fn classified(ts: Seq<TaskModel>, entries: Seq<patterns::EntryModel>) -> Seq<
    ItemModel,
> {
    Seq::new(
        ts.len(),
        |i: int|
            item_of(
                ts[i],
                patterns::classification(entries, ts[i].text).0,
                patterns::classification(entries, ts[i].text).1,
            ),
    )
}

/// The items of a `todo.md`: its tasks that are not done, in order, each classified.
pub open spec fn items(content: Seq<char>, entries: Seq<patterns::EntryModel>) -> Seq<ItemModel> {
    classified(tasks(text::lines(content)), entries)
}

/// A task that is not done, ready to be worked on.
pub struct TodoItem {
    /// The line that it stands on, counted from zero.
    pub line_index: usize,
    /// The name of the prompt that it is given to.
    pub prompt_name: String,
    /// What it is called when it is announced.
    pub label: String,
    /// What is to be done.
    pub description: String,
    /// The lines below it that belong to it.
    pub sub_steps: Vec<String>,
}

impl View for TodoItem {
    type V = ItemModel;

    open spec fn view(&self) -> ItemModel {
        ItemModel {
            line_index: self.line_index as nat,
            prompt_name: self.prompt_name@,
            label: self.label@,
            description: self.description@,
            sub_steps: text::texts(self.sub_steps@),
        }
    }
}

impl Clone for TodoItem {
    fn clone(&self) -> (item: TodoItem)
        ensures
            item@ == self@,
    {
        let mut sub_steps: Vec<String> = Vec::new();
        let mut i: usize = 0;
        while i < self.sub_steps.len()
            invariant
                i <= self.sub_steps@.len(),
                sub_steps@ == self.sub_steps@.take(i as int),
            decreases self.sub_steps@.len() - i,
        {
            sub_steps.push(self.sub_steps[i].clone());
            i += 1;
        }
        assert(sub_steps@ == self.sub_steps@);
        TodoItem {
            line_index: self.line_index,
            prompt_name: self.prompt_name.clone(),
            label: self.label.clone(),
            description: self.description.clone(),
            sub_steps,
        }
    }
}

/// What each of the items holds.
pub open spec fn item_models(v: Seq<TodoItem>) -> Seq<ItemModel> {
    Seq::new(v.len(), |i: int| v[i]@)
}

/// Whether `line` holds a task that is not done.
pub fn line_is_open(line: &[char]) -> (b: bool)
    ensures
        b == is_open(line@),
{
    scan::starts_with(scan::without_leading_space(line), &scan::to_chars("- [ ] "))
}

/// How many bytes of white space `line` begins with.
fn indent_of(line: &[char]) -> (w: u128)
    ensures
        w == text::indent(line@),
{
    let n = scan::count_leading_space(line);
    scan::byte_width(vstd::slice::slice_subrange(line, 0, n))
}

/// Whether `line` is no longer part of a task whose line is indented by `indent`.
fn line_ends_task(line: &[char], indent: u128) -> (b: bool)
    ensures
        b == ends_task(line@, indent as nat),
{
    let t = scan::without_leading_space(line);
    indent_of(line) <= indent || scan::starts_with(t, &scan::to_chars("- [ ] "))
        || scan::starts_with(t, &scan::to_chars("- [x] ")) || scan::starts_with(
        t,
        &scan::to_chars("- [X] "),
    )
}

/// The sub-steps from line `from` on of a task whose line is indented by `indent`.
fn collect_steps(ls: &Vec<Vec<char>>, from: usize, indent: u128) -> (steps: Vec<String>)
    requires
        from <= ls@.len(),
    ensures
        text::texts(steps@) == steps_from(text::views(ls@), from as int, indent as nat),
{
    let ghost all = text::views(ls@);
    let dash = scan::to_chars("- ");
    proof {
        reveal_strlit("- ");
    }
    let mut steps: Vec<String> = Vec::new();
    let mut j: usize = from;
    while j < ls.len()
        invariant
            from <= j <= ls@.len(),
            all == text::views(ls@),
            dash@ == "- "@,
            dash@.len() > 0,
            steps_from(all, from as int, indent as nat) == text::texts(steps@) + steps_from(
                all,
                j as int,
                indent as nat,
            ),
        decreases ls@.len() - j,
    {
        let line = &ls[j];
        assert(line@ == all[j as int]);
        let t = scan::without_leading_space(line);
        if t.len() == 0 {
            j += 1;
            continue;
        }
        if line_ends_task(line, indent) {
            return steps;
        }
        let step = scan::trimmed(scan::without_repeated(t, &dash));
        let ghost before = steps@;
        let ghost rest = steps_from(all, j + 1, indent as nat);
        if step.len() > 0 {
            steps.push(scan::from_chars(step));
            assert(text::texts(steps@) == text::texts(before).push(step@));
            assert(text::texts(before) + (seq![step@] + rest) == text::texts(steps@) + rest);
        }
        j += 1;
    }
    steps
}

/// What the task `raw` is called when it is announced.
pub fn label(raw: &[char]) -> (s: String)
    ensures
        s@ == label_of(raw@),
{
    let n = scan::count_until(raw, ':');
    let head = vstd::slice::slice_subrange(raw, 0, n);
    assert(head@ == raw@.take(n as int));
    if scan::is_all_upper(head) {
        scan::from_chars(head)
    } else {
        "TODO".to_owned()
    }
}

/// The tasks of a `todo.md` that are not done, in order.
pub fn find_tasks(content: &str) -> (v: Vec<Task>)
    ensures
        task_models(v@) == tasks(text::lines(content@)),
{
    let ls = scan::split_lines(&scan::to_chars(content));
    let ghost all = text::views(ls@);
    let mark = scan::to_chars("- [ ] ");
    let mut v: Vec<Task> = Vec::new();
    let mut i: usize = 0;
    while i < ls.len()
        invariant
            i <= ls@.len(),
            all == text::views(ls@),
            mark@ == open_mark(),
            task_models(v@) == tasks_upto(all, i as nat),
        decreases ls@.len() - i,
    {
        let line = &ls[i];
        assert(line@ == all[i as int]);
        let t = scan::without_leading_space(line);
        if scan::starts_with(t, &mark) {
            let raw = scan::trimmed(vstd::slice::slice_subrange(t, mark.len(), t.len()));
            assert(raw@ == task_text(line@));
            let sub_steps = collect_steps(&ls, i + 1, indent_of(line));
            let task = Task {
                line_index: i,
                text: scan::from_chars(raw),
                label: label(raw),
                sub_steps,
            };
            assert(task@ == task_at(all, i as int));
            let ghost before = v@;
            v.push(task);
            assert(task_models(v@) == task_models(before).push(task@));
        }
        i += 1;
    }
    v
}

/// The task with the name of its prompt and its description.
pub fn classified_task(task: Task, prompt_name: &str, description: String) -> (item: TodoItem)
    ensures
        item@ == item_of(task@, prompt_name@, description@),
{
    TodoItem {
        line_index: task.line_index,
        prompt_name: prompt_name.to_owned(),
        label: task.label,
        description,
        sub_steps: task.sub_steps,
    }
}

/// The items of a `todo.md`: its tasks that are not done, in order, each classified.
pub fn parse_todo(content: &str, patterns: &PatternSet) -> (v: Vec<TodoItem>)
    ensures
        item_models(v@) == items(content@, patterns@),
{
    let found = find_tasks(content);
    let ghost ts = task_models(found@);
    let mut v: Vec<TodoItem> = Vec::new();
    for task in it: found
        invariant
            it.seq() == found@,
            ts == task_models(found@),
            v@.len() == it.index(),
            forall|i: int|
                0 <= i < v@.len() ==> (#[trigger] v@[i])@ == classified(ts, patterns@)[i],
    {
        assert(task@ == ts[it.index()]);
        let (prompt_name, description) = patterns.classify(&task.text);
        v.push(classified_task(task, prompt_name, description));
    }
    assert(item_models(v@) == classified(ts, patterns@));
    v
}

/// Whether one of the first `n` lines holds a task that is not done.
pub open spec fn open_above(ls: Seq<Seq<char>>, n: nat) -> bool {
    exists|k: int| 0 <= k < n && k < ls.len() && is_open(#[trigger] ls[k])
}

/// Whether an item may be worked on: a general one always, a special one once no task above it is
/// left to do.
pub open spec fn is_eligible(item: ItemModel, ls: Seq<Seq<char>>) -> bool {
    item.prompt_name == "todo"@ || !open_above(ls, item.line_index)
}

/// The first item at or after `i` that may be worked on.
pub open spec fn eligible_from(its: Seq<ItemModel>, ls: Seq<Seq<char>>, i: int) -> Option<int>
    decreases its.len() - i,
{
    if i < 0 || i >= its.len() {
        None
    } else if is_eligible(its[i], ls) {
        Some(i)
    } else {
        eligible_from(its, ls, i + 1)
    }
}

/// The first item that may be worked on.
pub open spec fn selection(its: Seq<ItemModel>, ls: Seq<Seq<char>>) -> Option<int> {
    eligible_from(its, ls, 0)
}

/// Whether every special item that the selection looks at stands on a line of the text or right
/// below it.
pub open spec fn lines_reach(its: Seq<ItemModel>, ls: Seq<Seq<char>>) -> bool {
    forall|i: int|
        #![trigger its[i]]
        0 <= i < its.len() && (forall|j: int| 0 <= j < i ==> !is_eligible(#[trigger] its[j], ls))
            && its[i].prompt_name != "todo"@ ==> its[i].line_index <= ls.len()
}

/// The item to work on next: the first that may be worked on.
pub fn select_next_item<'a>(items: &'a [TodoItem], raw_content: &str) -> (r: Option<&'a TodoItem>)
    requires
        lines_reach(item_models(items@), text::lines(raw_content@)),
    ensures
        match selection(item_models(items@), text::lines(raw_content@)) {
            Some(i) => 0 <= i < items@.len() && r == Some(&items@[i]),
            None => r is None,
        },
{
    let ls = scan::split_lines(&scan::to_chars(raw_content));
    let ghost all = text::views(ls@);
    let ghost its = item_models(items@);
    let mut i: usize = 0;
    while i < items.len()
        invariant
            i <= items@.len(),
            all == text::views(ls@),
            all == text::lines(raw_content@),
            its == item_models(items@),
            lines_reach(its, all),
            forall|j: int| 0 <= j < i ==> !is_eligible(#[trigger] its[j], all),
            selection(its, all) == eligible_from(its, all, i as int),
        decreases items@.len() - i,
    {
        let item = &items[i];
        assert(item@ == its[i as int]);
        if scan::same_text(&item.prompt_name, "todo") {
            return Some(item);
        }
        let mut blocked = false;
        let mut k: usize = 0;
        while k < item.line_index && !blocked
            invariant
                k <= item.line_index <= ls@.len(),
                all == text::views(ls@),
                blocked ==> open_above(all, item.line_index as nat),
                !blocked ==> forall|m: int| 0 <= m < k ==> !is_open(#[trigger] all[m]),
            decreases item.line_index - k,
        {
            let line = &ls[k];
            assert(line@ == all[k as int]);
            blocked = line_is_open(line);
            k += 1;
        }
        if !blocked {
            return Some(item);
        }
        i += 1;
    }
    None
}

/// The lines with the first mark of a task that is not done on line `k` turned into the mark of
/// one that is.
pub open spec fn checked_lines(ls: Seq<Seq<char>>, k: int) -> Seq<Seq<char>> {
    ls.update(k, text::replace_first(ls[k], open_mark(), done_mark()))
}

/// The text with the task on line `k` checked off.
pub open spec fn checked_off(content: Seq<char>, k: int) -> Seq<char> {
    text::unlines(checked_lines(text::lines(content), k), text::ends_with_newline(content))
}

/// A line that was to be checked off but that the text does not have.
#[derive(Clone, Copy, PartialEq, Eq, Debug)]
pub struct LineOutOfRange;

/// The content of a `todo.md` once the task on line `line_index` is checked off.
pub fn mark_done(content: &str, line_index: usize) -> (r: Result<String, LineOutOfRange>)
    ensures
        match r {
            Ok(out) => line_index < text::lines(content@).len() && out@ == checked_off(
                content@,
                line_index as int,
            ),
            Err(_) => line_index >= text::lines(content@).len(),
        },
{
    let chars = scan::to_chars(content);
    let mut ls = scan::split_lines(&chars);
    let ghost all = text::views(ls@);
    if line_index >= ls.len() {
        return Err(LineOutOfRange);
    }
    let line = scan::replaced_first(
        &ls[line_index],
        &scan::to_chars("- [ ] "),
        &scan::to_chars("- [x] "),
    );
    ls.set(line_index, line);
    assert(text::views(ls@) == checked_lines(all, line_index as int));
    let newline = scan::to_chars("\n");
    let mut out = scan::joined(&ls, &newline);
    if chars.len() > 0 && chars[chars.len() - 1] == '\n' {
        scan::push_all(&mut out, &newline);
    }
    Ok(scan::from_chars(&out))
}

} // verus!
