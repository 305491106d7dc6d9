//! Prompt files: the metadata at their top, and how a task is filled into them.

use vstd::prelude::*;
use vstd::slice::slice_subrange;
use crate::scan;
use crate::text;

verus! {

/// The metadata of a prompt file and its body, where the file begins with metadata.
pub open spec fn split_file(content: Seq<char>) -> Option<(Seq<char>, Seq<char>)> {
    let rest = content.skip("---\n"@.len() as int);
    if "---\n"@.is_prefix_of(content) {
        match text::find(rest, "\n---\n"@) {
            Some(end) => Some((rest.take(end), rest.skip(end + "\n---\n"@.len()))),
            None => None,
        }
    } else {
        None
    }
}

/// What one line of metadata does, given whether it stands in the list of tools: the tool that
/// it names, if any, and whether the next line stands in the list.
pub open spec fn read_line(line: Seq<char>, in_tools: bool) -> (Option<Seq<char>>, bool) {
    let t = text::trim(line);
    let value = text::trim(t.skip("allowedTools:"@.len() as int));
    if "allowedTools:"@.is_prefix_of(t) {
        if value.len() > 0 {
            (Some(value), false)
        } else {
            (None, true)
        }
    } else if in_tools {
        if "- "@.is_prefix_of(t) {
            (Some(text::trim(t.skip("- "@.len() as int))), true)
        } else {
            (None, line.len() > 0 && (line[0] == ' ' || line[0] == '\t'))
        }
    } else {
        (None, false)
    }
}

/// The tools that the first `n` lines of metadata name, and whether the next line stands in the
/// list of tools.
pub open spec fn read_lines(ls: Seq<Seq<char>>, n: nat) -> (Seq<Seq<char>>, bool)
    decreases n,
{
    if n == 0 {
        (seq![], false)
    } else {
        let (tools, in_tools) = read_lines(ls, (n - 1) as nat);
        match read_line(ls[n - 1], in_tools) {
            (Some(tool), next) => (tools.push(tool), next),
            (None, next) => (tools, next),
        }
    }
}

/// The tools that the metadata names, in order.
pub open spec fn tools_of(metadata: Seq<char>) -> Seq<Seq<char>> {
    read_lines(text::lines(metadata), text::lines(metadata).len()).0
}

/// The tools that a prompt file names, in order.
pub open spec fn file_tools(content: Seq<char>) -> Seq<Seq<char>> {
    match split_file(content) {
        Some((metadata, _)) => tools_of(metadata),
        None => seq![],
    }
}

/// The body of a prompt file: all of it where it does not begin with metadata.
pub open spec fn file_body(content: Seq<char>) -> Seq<char> {
    match split_file(content) {
        Some((_, body)) => body,
        None => content,
    }
}

/// The metadata of a prompt file.
pub struct PromptMeta {
    /// The tools that the prompt may use. Where there are none, it may use all.
    pub allowed_tools: Vec<String>,
}

impl Default for PromptMeta {
    fn default() -> (meta: PromptMeta)
        ensures
            meta.allowed_tools@.len() == 0,
    {
        PromptMeta { allowed_tools: Vec::new() }
    }
}

/// The tool that a line of metadata names, if any, and whether the next line stands in the list
/// of tools, given whether this one does.
fn tool_on_line(line: &[char], in_tools: bool) -> (r: (Option<String>, bool))
    ensures
        r.1 == read_line(line@, in_tools).1,
        match r.0 {
            Some(tool) => read_line(line@, in_tools).0 == Some(tool@),
            None => read_line(line@, in_tools).0 is None,
        },
{
    let t = scan::trimmed(line);
    let key = scan::to_chars("allowedTools:");
    let dash = scan::to_chars("- ");
    if scan::starts_with(t, &key) {
        let value = scan::trimmed(slice_subrange(t, key.len(), t.len()));
        if value.len() > 0 {
            (Some(scan::from_chars(value)), false)
        } else {
            (None, true)
        }
    } else if in_tools {
        if scan::starts_with(t, &dash) {
            let tool = scan::trimmed(slice_subrange(t, dash.len(), t.len()));
            (Some(scan::from_chars(tool)), true)
        } else {
            (None, line.len() > 0 && (line[0] == ' ' || line[0] == '\t'))
        }
    } else {
        (None, false)
    }
}

/// The tools that the metadata names, in order.
fn parse_tools(metadata: &[char]) -> (tools: Vec<String>)
    ensures
        text::texts(tools@) == tools_of(metadata@),
{
    let ls = scan::split_lines(metadata);
    let ghost all = text::views(ls@);
    let mut tools: Vec<String> = Vec::new();
    let mut in_tools = false;
    let mut i: usize = 0;
    assert(text::texts(tools@) == Seq::<Seq<char>>::empty());
    while i < ls.len()
        invariant
            i <= ls@.len(),
            all == text::views(ls@),
            (text::texts(tools@), in_tools) == read_lines(all, i as nat),
        decreases ls@.len() - i,
    {
        let line = &ls[i];
        assert(line@ == all[i as int]);
        let (tool, next) = tool_on_line(line, in_tools);
        let ghost before = tools@;
        if let Some(tool) = tool {
            tools.push(tool);
            assert(text::texts(tools@) == text::texts(before).push(tool@));
        }
        in_tools = next;
        i += 1;
    }
    tools
}

/// Splits a prompt file into its metadata and its body. A file that does not begin with `---`
/// on a line of its own, or in which no such line follows, is all body.
pub fn parse_frontmatter(content: &str) -> (r: (PromptMeta, &str))
    ensures
        text::texts(r.0.allowed_tools@) == file_tools(content@),
        r.1@ == file_body(content@),
{
    let chars = scan::to_chars(content);
    let open = scan::to_chars("---\n");
    let close = scan::to_chars("\n---\n");
    let meta = PromptMeta::default();
    if !scan::starts_with(&chars, &open) {
        assert(text::texts(meta.allowed_tools@) == Seq::<Seq<char>>::empty());
        return (meta, content);
    }
    let rest = slice_subrange(&chars, open.len(), chars.len());
    assert(rest@ == content@.skip("---\n"@.len() as int));
    match scan::first_of(rest, &close) {
        Some(end) => {
            let metadata = slice_subrange(rest, 0, end);
            assert(metadata@ == rest@.take(end as int));
            let meta = PromptMeta { allowed_tools: parse_tools(metadata) };
            let body = content.substring_char(open.len() + end + close.len(), chars.len());
            assert(body@ == rest@.skip(end + "\n---\n"@.len()));
            (meta, body)
        },
        None => {
            assert(text::texts(meta.allowed_tools@) == Seq::<Seq<char>>::empty());
            (meta, content)
        },
    }
}

/// The sub-steps as a list, each on a line of its own.
pub open spec fn steps_block(steps: Seq<Seq<char>>) -> Seq<char> {
    if steps.len() == 0 {
        "(no sub-steps provided)"@
    } else {
        text::join(Seq::new(steps.len(), |i: int| "- "@ + steps[i]), "\n"@)
    }
}

/// The template with the task and then the sub-steps filled in.
pub open spec fn filled(template: Seq<char>, task: Seq<char>, steps: Seq<Seq<char>>) -> Seq<char> {
    text::replace_all(
        text::replace_all(template, "{{TASK}}"@, task),
        "{{SUB_STEPS}}"@,
        steps_block(steps),
    )
}

/// The sub-steps as a list, each on a line of its own.
fn list_steps(sub_steps: &[String]) -> (block: Vec<char>)
    ensures
        block@ == steps_block(text::texts(sub_steps@)),
{
    if sub_steps.len() == 0 {
        return scan::to_chars("(no sub-steps provided)");
    }
    let ghost steps = text::texts(sub_steps@);
    let ghost want = Seq::new(steps.len(), |i: int| "- "@ + steps[i]);
    let mut parts: Vec<Vec<char>> = Vec::new();
    let mut i: usize = 0;
    while i < sub_steps.len()
        invariant
            i <= sub_steps@.len(),
            steps == text::texts(sub_steps@),
            want == Seq::new(steps.len(), |i: int| "- "@ + steps[i]),
            parts@.len() == i,
            forall|j: int| 0 <= j < i ==> (#[trigger] parts@[j])@ == want[j],
        decreases sub_steps@.len() - i,
    {
        let mut part = scan::to_chars("- ");
        scan::push_all(&mut part, &scan::to_chars(&sub_steps[i]));
        parts.push(part);
        i += 1;
    }
    assert(text::views(parts@) == want);
    scan::joined(&parts, &scan::to_chars("\n"))
}

/// The prompt for a task: the template with `{{TASK}}` and `{{SUB_STEPS}}` filled in.
pub fn fill_prompt(template: &str, task: &str, sub_steps: &[String]) -> (s: String)
    ensures
        s@ == filled(template@, task@, text::texts(sub_steps@)),
{
    proof {
        reveal_strlit("{{TASK}}");
        reveal_strlit("{{SUB_STEPS}}");
    }
    let steps = list_steps(sub_steps);
    let with_task = scan::replaced_all(
        &scan::to_chars(template),
        &scan::to_chars("{{TASK}}"),
        &scan::to_chars(task),
    );
    let prompt = scan::replaced_all(&with_task, &scan::to_chars("{{SUB_STEPS}}"), &steps);
    scan::from_chars(&prompt)
}

} // verus!
