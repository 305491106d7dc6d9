//! What holds of prompt files and of the prompts made from them.

use vstd::prelude::*;
use crate::prompt;
use crate::text;
use crate::text_lemmas;

verus! {

/// Where a file begins with metadata, the metadata and the body between their rulers make up the
/// whole file.
pub proof fn law_split_loses_nothing(content: Seq<char>)
    ensures
        prompt::split_file(content) matches Some((metadata, body)) ==> content == "---\n"@
            + metadata + "\n---\n"@ + body,
{
    let open = "---\n"@;
    let close = "\n---\n"@;
    let rest = content.skip(open.len() as int);
    text_lemmas::find_from_bound(rest, close, 0);
    if let Some((metadata, body)) = prompt::split_file(content) {
        let end = text::find(rest, close)->0;
        assert(content =~= open + rest);
        assert(rest =~= rest.take(end) + rest.subrange(end, end + close.len()) + rest.skip(
            end + close.len(),
        ));
        assert(open + rest =~= open + metadata + close + body);
    }
}

/// A file that does not begin with the ruler is all body and names no tool.
pub proof fn law_file_without_metadata_is_body(content: Seq<char>)
    requires
        !"---\n"@.is_prefix_of(content),
    ensures
        prompt::file_body(content) == content,
        prompt::file_tools(content).len() == 0,
{
}

/// The lines of metadata that name the tools.
pub open spec fn tool_lines(tools: Seq<Seq<char>>) -> Seq<Seq<char>> {
    seq!["allowedTools:"@] + Seq::new(tools.len(), |i: int| "  - "@ + tools[i])
}

/// A prompt file that names the tools and has the body.
pub open spec fn file_with_tools(tools: Seq<Seq<char>>, body: Seq<char>) -> Seq<char> {
    "---\n"@ + text::unlines(tool_lines(tools), false) + "\n---\n"@ + body
}

/// Whether `tool` can be named on a line of its own: it is not empty, holds no line feed and has
/// no white space at either end.
pub open spec fn is_tool_name(tool: Seq<char>) -> bool {
    &&& tool.len() > 0
    &&& text_lemmas::lacks(tool, '\n')
    &&& text::trim(tool) == tool
}

/// A tool name begins and ends with something other than white space.
proof fn tool_name_ends(tool: Seq<char>)
    requires
        is_tool_name(tool),
    ensures
        !text::is_space(tool[0]),
        !text::is_space(tool.last()),
{
    let t = text::trim_start(tool);
    text_lemmas::leading_space_bound(tool);
    text_lemmas::trim_end_bound(t);
    assert(text::trim_end(t).len() <= t.len());
}

/// What begins and ends with something other than white space stays as it is when it is trimmed.
proof fn trim_keeps(s: Seq<char>)
    requires
        s.len() > 0,
        !text::is_space(s[0]),
        !text::is_space(s.last()),
    ensures
        text::trim(s) == s,
{
    text_lemmas::leading_space_is(s, 0);
    assert(s.skip(0) =~= s);
}

/// A line of the list names its tool.
proof fn tool_line_is_read(tool: Seq<char>)
    requires
        is_tool_name(tool),
    ensures
        prompt::read_line("  - "@ + tool, true) == (Some(tool), true),
        text_lemmas::lacks("  - "@ + tool, '\n'),
        text::chomp("  - "@ + tool) == "  - "@ + tool,
{
    reveal_strlit("  - ");
    reveal_strlit("- ");
    reveal_strlit("allowedTools:");
    tool_name_ends(tool);
    let line = "  - "@ + tool;
    let t = "- "@ + tool;
    text_lemmas::leading_space_is(line, 2);
    assert(line.skip(2) =~= t);
    assert(line.last() == tool.last());
    assert(t.last() == tool.last());
    assert(text::trim_end(t) == t);
    assert(text::trim(line) == t);
    if "allowedTools:"@.is_prefix_of(t) {
        assert(t.subrange(0, "allowedTools:"@.len() as int)[0] == t[0]);
    }
    assert(t.subrange(0, 2) =~= "- "@);
    assert(t.skip(2) =~= tool);
}

/// The first lines of the list name the first tools.
proof fn tools_are_read(tools: Seq<Seq<char>>, n: nat)
    requires
        n <= tools.len(),
        forall|i: int| 0 <= i < tools.len() ==> is_tool_name(#[trigger] tools[i]),
    ensures
        prompt::read_lines(tool_lines(tools), n + 1) == (tools.take(n as int), true),
    decreases n,
{
    let ls = tool_lines(tools);
    if n == 0 {
        reveal_strlit("allowedTools:");
        let key = "allowedTools:"@;
        trim_keeps(key);
        assert(key.subrange(0, key.len() as int) =~= key);
        assert(key.skip(key.len() as int) =~= Seq::<char>::empty());
        let none = Seq::<char>::empty();
        assert(text::trim(none) =~= none);
        assert(ls[0] == key);
        assert(prompt::read_lines(ls, 0) == (Seq::<Seq<char>>::empty(), false));
        assert(tools.take(0) =~= Seq::<Seq<char>>::empty());
    } else {
        tools_are_read(tools, (n - 1) as nat);
        assert(is_tool_name(tools[n - 1]));
        tool_line_is_read(tools[n - 1]);
        assert(ls[n as int] == "  - "@ + tools[n - 1]);
        assert(tools.take(n - 1).push(tools[n - 1]) =~= tools.take(n as int));
    }
}

/// In the lines put together every line feed is followed by a blank, if that is what each line
/// but the first begins with.
proof fn blank_follows_line_feed(ls: Seq<Seq<char>>, i: int)
    requires
        ls.len() > 0,
        forall|k: int| 0 <= k < ls.len() ==> text_lemmas::lacks(#[trigger] ls[k], '\n'),
        forall|k: int| 1 <= k < ls.len() ==> (#[trigger] ls[k]).len() > 0 && ls[k][0] == ' ',
        0 <= i < text::unlines(ls, false).len(),
        text::unlines(ls, false)[i] == '\n',
    ensures
        i + 1 < text::unlines(ls, false).len(),
        text::unlines(ls, false)[i + 1] == ' ',
    decreases ls.len(),
{
    reveal_strlit("\n");
    let s = text::unlines(ls, false);
    assert(text_lemmas::lacks(ls[0], '\n'));
    if ls.len() > 1 {
        text_lemmas::unlines_front(ls, false);
        let rest = ls.skip(1);
        let tail = text::unlines(rest, false);
        let n = ls[0].len() as int;
        assert(rest[0] == ls[1]);
        assert(tail.len() > 0 && tail[0] == ' ') by {
            if rest.len() > 1 {
                text_lemmas::unlines_front(rest, false);
            }
        }
        if i < n {
            assert(s[i] == ls[0][i]);
        } else if i > n {
            assert forall|k: int| 0 <= k < rest.len() implies text_lemmas::lacks(
                #[trigger] rest[k],
                '\n',
            ) by {
                assert(rest[k] == ls[k + 1]);
            }
            assert forall|k: int| 1 <= k < rest.len() implies (#[trigger] rest[k]).len() > 0
                && rest[k][0] == ' ' by {
                assert(rest[k] == ls[k + 1]);
            }
            assert(s[i] == tail[i - n - 1]);
            blank_follows_line_feed(rest, i - n - 1);
            assert(s[i + 1] == tail[i - n]);
        } else {
            assert(s[i + 1] == tail[0]);
        }
    }
}

/// A prompt file that names tools, each on a line of its own under `allowedTools:`, is read as
/// these tools and the body that follows, whatever the body is.
pub proof fn law_named_tools_are_read(tools: Seq<Seq<char>>, body: Seq<char>)
    requires
        forall|i: int| 0 <= i < tools.len() ==> is_tool_name(#[trigger] tools[i]),
    ensures
        prompt::file_tools(file_with_tools(tools, body)) == tools,
        prompt::file_body(file_with_tools(tools, body)) == body,
{
    reveal_strlit("---\n");
    reveal_strlit("\n---\n");
    reveal_strlit("allowedTools:");
    reveal_strlit("  - ");
    let open = "---\n"@;
    let close = "\n---\n"@;
    let ls = tool_lines(tools);
    let metadata = text::unlines(ls, false);
    let file = file_with_tools(tools, body);
    let rest = metadata + close + body;
    assert forall|k: int| 0 <= k < ls.len() implies text_lemmas::lacks(#[trigger] ls[k], '\n')
        && text::chomp(ls[k]) == ls[k] && ls[k].len() > 0 by {
        if k > 0 {
            assert(is_tool_name(tools[k - 1]));
            tool_line_is_read(tools[k - 1]);
        }
    }
    assert(file.skip(open.len() as int) =~= rest);
    assert(file.subrange(0, open.len() as int) =~= open);
    let end = metadata.len() as int;
    assert(rest.subrange(end, end + close.len()) =~= close);
    assert forall|i: int| 0 <= i < end implies !text::occurs_at(rest, close, i) by {
        if text::occurs_at(rest, close, i) {
            let found = rest.subrange(i, i + close.len());
            assert(found[0] == rest[i] && found[1] == rest[i + 1]);
            assert(rest[i] == metadata[i]);
            assert forall|k: int| 1 <= k < ls.len() implies (#[trigger] ls[k]).len() > 0
                && ls[k][0] == ' ' by {
                assert(ls[k] == "  - "@ + tools[k - 1]);
            }
            blank_follows_line_feed(ls, i);
            assert(rest[i + 1] == metadata[i + 1]);
        }
    }
    text_lemmas::find_is(rest, close, 0, end);
    assert(rest.take(end) =~= metadata);
    assert(rest.skip(end + close.len()) =~= body);
    text_lemmas::lines_of_unlines(ls, false);
    assert(text_lemmas::reread(ls, false) =~= ls);
    tools_are_read(tools, tools.len());
    assert(tools.take(tools.len() as int) =~= tools);
}

/// A tool that a line names is not empty and is trimmed.
proof fn read_tool_is_a_name(line: Seq<char>, in_tools: bool)
    ensures
        prompt::read_line(line, in_tools).0 matches Some(tool) ==> tool.len() > 0 && text::trim(
            tool,
        ) == tool,
{
    reveal_strlit("- ");
    let t = text::trim(line);
    let value = t.skip("allowedTools:"@.len() as int);
    let tool = t.skip("- "@.len() as int);
    text_lemmas::trim_twice(line);
    text_lemmas::trim_twice(value);
    text_lemmas::trim_twice(tool);
    if "- "@.is_prefix_of(t) {
        if t.len() == 2 {
            assert(t.subrange(0, 2)[1] == t[1]);
        }
        assert(tool.last() == t.last());
        text_lemmas::leading_space_bound(tool);
        let rest = text::trim_start(tool);
        assert(rest.len() > 0 && rest.last() == tool.last());
        assert(text::trim_end(rest) == rest);
    }
}

/// The tools that lines name are not empty and are trimmed.
proof fn read_tools_are_names(ls: Seq<Seq<char>>, n: nat, i: int)
    requires
        0 <= i < prompt::read_lines(ls, n).0.len(),
    ensures
        prompt::read_lines(ls, n).0[i].len() > 0,
        text::trim(prompt::read_lines(ls, n).0[i]) == prompt::read_lines(ls, n).0[i],
    decreases n,
{
    if n > 0 {
        let (tools, in_tools) = prompt::read_lines(ls, (n - 1) as nat);
        read_tool_is_a_name(ls[n - 1], in_tools);
        if i < tools.len() {
            read_tools_are_names(ls, (n - 1) as nat, i);
        }
    }
}

/// No tool that a prompt file names is empty or has white space at either end.
pub proof fn law_tools_are_names(content: Seq<char>, i: int)
    requires
        0 <= i < prompt::file_tools(content).len(),
    ensures
        prompt::file_tools(content)[i].len() > 0,
        text::trim(prompt::file_tools(content)[i]) == prompt::file_tools(content)[i],
{
    if let Some((metadata, _)) = prompt::split_file(content) {
        read_tools_are_names(text::lines(metadata), text::lines(metadata).len(), i);
    }
}

/// A template in which neither placeholder stands is the prompt, whatever the task is.
pub proof fn law_template_without_placeholder_is_kept(
    template: Seq<char>,
    task: Seq<char>,
    steps: Seq<Seq<char>>,
)
    requires
        text::find(template, "{{TASK}}"@) is None,
        text::find(template, "{{SUB_STEPS}}"@) is None,
    ensures
        prompt::filled(template, task, steps) == template,
{
}

/// Whether `pat` differs from itself shifted by `d` where the two overlap.
spec fn differs_shifted(pat: Seq<char>, d: int) -> bool {
    exists|j: int| 0 <= j && j + d < pat.len() && #[trigger] pat[j] != pat[j + d]
}

/// Whether `pat` never stands in a text twice with a part in common.
spec fn never_overlaps(pat: Seq<char>) -> bool {
    forall|d: int| 0 < d < pat.len() ==> #[trigger] differs_shifted(pat, d)
}

/// Where a pattern that never overlaps itself stands right after a text in which it does not
/// stand, that is its first place.
proof fn first_separator(piece: Seq<char>, pat: Seq<char>, after: Seq<char>)
    requires
        pat.len() > 0,
        never_overlaps(pat),
        text::find(piece, pat) is None,
    ensures
        text::find(piece + pat + after, pat) == Some(piece.len() as int),
{
    let s = piece + pat + after;
    let n = piece.len() as int;
    assert(s.subrange(n, n + pat.len()) =~= pat);
    text_lemmas::find_from_bound(piece, pat, 0);
    assert forall|i: int| 0 <= i < n implies !text::occurs_at(s, pat, i) by {
        if text::occurs_at(s, pat, i) {
            let found = s.subrange(i, i + pat.len());
            let d = n - i;
            if d < pat.len() {
                assert(differs_shifted(pat, d));
                let j = choose|j: int|
                    0 <= j && j + d < pat.len() && #[trigger] pat[j] != pat[j + d];
                assert(found[j + d] == s[n + j]);
                assert(s[n + j] == pat[j]);
            } else {
                assert(piece.subrange(i, i + pat.len()) =~= found);
                assert(text::occurs_at(piece, pat, i));
            }
        }
    }
    text_lemmas::find_is(s, pat, 0, n);
}

/// Where the pattern stands between pieces in which it does not stand, all of it is replaced.
proof fn separators_are_replaced(pieces: Seq<Seq<char>>, pat: Seq<char>, rep: Seq<char>)
    requires
        pieces.len() > 0,
        pat.len() > 0,
        never_overlaps(pat),
        forall|i: int| 0 <= i < pieces.len() ==> text::find(#[trigger] pieces[i], pat) is None,
    ensures
        text::replace_all(text::join(pieces, pat), pat, rep) == text::join(pieces, rep),
    decreases pieces.len(),
{
    assert(text::find(pieces[0], pat) is None);
    if pieces.len() > 1 {
        let rest = pieces.skip(1);
        text_lemmas::join_front(pieces, pat);
        text_lemmas::join_front(pieces, rep);
        let tail = text::join(rest, pat);
        let s = pieces[0] + pat + tail;
        first_separator(pieces[0], pat, tail);
        let n = pieces[0].len() as int;
        assert(s.take(n) =~= pieces[0]);
        assert(s.skip(n + pat.len()) =~= tail);
        assert forall|i: int| 0 <= i < rest.len() implies text::find(
            #[trigger] rest[i],
            pat,
        ) is None by {
            assert(rest[i] == pieces[i + 1]);
        }
        separators_are_replaced(rest, pat, rep);
    }
}

/// The placeholder of the task never overlaps itself.
proof fn task_placeholder_never_overlaps()
    ensures
        "{{TASK}}"@.len() > 0,
        never_overlaps("{{TASK}}"@),
{
    reveal_strlit("{{TASK}}");
    let pat = "{{TASK}}"@;
    assert forall|d: int| 0 < d < pat.len() implies #[trigger] differs_shifted(pat, d) by {
        if d == 1 {
            assert(pat[1] != pat[1 + d]);
        } else {
            assert(pat[0] != pat[0 + d]);
        }
    }
}

/// The placeholder of the sub-steps never overlaps itself.
proof fn steps_placeholder_never_overlaps()
    ensures
        "{{SUB_STEPS}}"@.len() > 0,
        never_overlaps("{{SUB_STEPS}}"@),
{
    reveal_strlit("{{SUB_STEPS}}");
    let pat = "{{SUB_STEPS}}"@;
    assert forall|d: int| 0 < d < pat.len() implies #[trigger] differs_shifted(pat, d) by {
        if d == 1 {
            assert(pat[1] != pat[1 + d]);
        } else {
            assert(pat[0] != pat[0 + d]);
        }
    }
}

/// The prompt is the template with every `{{TASK}}` replaced by the task, and then every
/// `{{SUB_STEPS}}` replaced by the list of the sub-steps: `pieces` is what stands between the
/// first, `parts` what then stands between the second.
pub proof fn law_every_placeholder_is_filled(
    pieces: Seq<Seq<char>>,
    parts: Seq<Seq<char>>,
    task: Seq<char>,
    steps: Seq<Seq<char>>,
)
    requires
        pieces.len() > 0,
        parts.len() > 0,
        forall|i: int|
            0 <= i < pieces.len() ==> text::find(#[trigger] pieces[i], "{{TASK}}"@) is None,
        forall|i: int|
            0 <= i < parts.len() ==> text::find(#[trigger] parts[i], "{{SUB_STEPS}}"@) is None,
        text::join(pieces, task) == text::join(parts, "{{SUB_STEPS}}"@),
    ensures
        prompt::filled(text::join(pieces, "{{TASK}}"@), task, steps) == text::join(
            parts,
            prompt::steps_block(steps),
        ),
{
    task_placeholder_never_overlaps();
    steps_placeholder_never_overlaps();
    separators_are_replaced(pieces, "{{TASK}}"@, task);
    separators_are_replaced(parts, "{{SUB_STEPS}}"@, prompt::steps_block(steps));
}

/// Whether `line`, without the white space around it, begins with `allowedTools:`.
pub open spec fn is_key_line(line: Seq<char>) -> bool {
    "allowedTools:"@.is_prefix_of(text::trim(line))
}

/// What stands behind `allowedTools:` on a line that begins with it.
pub open spec fn key_value(line: Seq<char>) -> Seq<char> {
    text::trim(text::trim(line).skip("allowedTools:"@.len() as int))
}

/// Whether `line`, without the white space around it, begins with a dash and a blank.
pub open spec fn is_dash_line(line: Seq<char>) -> bool {
    "- "@.is_prefix_of(text::trim(line))
}

/// Whether the list of tools goes on behind `line`: it is an entry, or is indented.
pub open spec fn keeps_list(line: Seq<char>) -> bool {
    !is_key_line(line) && (is_dash_line(line) || (line.len() > 0 && (line[0] == ' ' || line[0]
        == '\t')))
}

/// Whether line `j` stands in a list of tools: somewhere above there is `allowedTools:` with
/// nothing behind it, and every line between keeps the list.
pub open spec fn in_list(ls: Seq<Seq<char>>, j: int) -> bool {
    exists|h: int|
        {
            &&& 0 <= h < j
            &&& is_key_line(#[trigger] ls[h])
            &&& key_value(ls[h]).len() == 0
            &&& forall|g: int| h < g < j ==> keeps_list(#[trigger] ls[g])
        }
}

/// The tool that line `j` names, if any.
pub open spec fn tool_named(ls: Seq<Seq<char>>, j: int) -> Option<Seq<char>> {
    if is_key_line(ls[j]) {
        if key_value(ls[j]).len() > 0 {
            Some(key_value(ls[j]))
        } else {
            None
        }
    } else if is_dash_line(ls[j]) && in_list(ls, j) {
        Some(text::trim(text::trim(ls[j]).skip(2)))
    } else {
        None
    }
}

/// Whether a line stands in the list depends on the line above it and on whether that one does.
proof fn in_list_next(ls: Seq<Seq<char>>, j: int)
    requires
        0 <= j < ls.len(),
    ensures
        in_list(ls, j + 1) <==> (is_key_line(ls[j]) && key_value(ls[j]).len() == 0) || (in_list(
            ls,
            j,
        ) && keeps_list(ls[j])),
        !in_list(ls, 0),
{
    if in_list(ls, j + 1) {
        let h = choose|h: int|
            {
                &&& 0 <= h < j + 1
                &&& is_key_line(#[trigger] ls[h])
                &&& key_value(ls[h]).len() == 0
                &&& forall|g: int| h < g < j + 1 ==> keeps_list(#[trigger] ls[g])
            };
        if h < j {
            assert(keeps_list(ls[j]));
            assert(is_key_line(ls[h]));
        }
    }
    if is_key_line(ls[j]) && key_value(ls[j]).len() == 0 {
        assert(is_key_line(ls[j]));
    } else if in_list(ls, j) && keeps_list(ls[j]) {
        let h = choose|h: int|
            {
                &&& 0 <= h < j
                &&& is_key_line(#[trigger] ls[h])
                &&& key_value(ls[h]).len() == 0
                &&& forall|g: int| h < g < j ==> keeps_list(#[trigger] ls[g])
            };
        assert(is_key_line(ls[h]));
        assert forall|g: int| h < g < j + 1 implies keeps_list(#[trigger] ls[g]) by {}
    }
}

/// The tools of the first lines are those that they name.
proof fn first_lines_name(ls: Seq<Seq<char>>, n: nat)
    requires
        n <= ls.len(),
    ensures
        prompt::read_lines(ls, n).1 == in_list(ls, n as int),
        prompt::read_lines(ls, n).0 == Seq::new(n, |j: int| j).filter_map(
            |j: int| tool_named(ls, j),
        ),
    decreases n,
{
    reveal_strlit("- ");
    let f = |j: int| tool_named(ls, j);
    let upto = Seq::new(n, |j: int| j);
    if n == 0 {
        assert(upto.filter_map(f) =~= Seq::<Seq<char>>::empty());
    } else {
        let m = (n - 1) as nat;
        first_lines_name(ls, m);
        in_list_next(ls, m as int);
        assert(upto.drop_last() =~= Seq::new(m, |j: int| j));
        assert(upto.last() == m);
        let before = Seq::new(m, |j: int| j).filter_map(f);
        match tool_named(ls, m as int) {
            Some(tool) => {
                assert(upto.filter_map(f) == before + seq![tool]);
                assert(before + seq![tool] =~= before.push(tool));
            },
            None => {
                assert(upto.filter_map(f) == before);
            },
        }
    }
}

/// The tools of a prompt file are those that the lines of its metadata name, in order and none
/// else: one behind `allowedTools:`, or one behind each dash of the list under it, whatever other
/// lines there are.
pub proof fn law_tools_are_those_the_lines_name(metadata: Seq<char>, body: Seq<char>)
    requires
        text::find(metadata + "\n---\n"@ + body, "\n---\n"@) == Some(metadata.len() as int),
    ensures
        prompt::file_tools("---\n"@ + metadata + "\n---\n"@ + body) == Seq::new(
            text::lines(metadata).len(),
            |j: int| j,
        ).filter_map(|j: int| tool_named(text::lines(metadata), j)),
        prompt::file_body("---\n"@ + metadata + "\n---\n"@ + body) == body,
{
    let open = "---\n"@;
    let close = "\n---\n"@;
    let rest = metadata + close + body;
    let file = open + metadata + close + body;
    assert(file.subrange(0, open.len() as int) =~= open);
    assert(file.skip(open.len() as int) =~= rest);
    assert(rest.take(metadata.len() as int) =~= metadata);
    assert(rest.skip(metadata.len() as int + close.len()) =~= body);
    first_lines_name(text::lines(metadata), text::lines(metadata).len());
}

/// A file in which the ruler that ends the metadata is missing is all body and names no tool.
pub proof fn law_metadata_without_an_end_is_body(content: Seq<char>)
    requires
        forall|metadata: Seq<char>, body: Seq<char>|
            content != #[trigger] ("---\n"@ + metadata + "\n---\n"@ + body),
    ensures
        prompt::file_body(content) == content,
        prompt::file_tools(content).len() == 0,
{
    law_split_loses_nothing(content);
}

/// What follows the first line feed of a text that begins with a line is behind that line.
proof fn ruler_is_a_line(line: Seq<char>, more: Seq<char>)
    requires
        text_lemmas::lacks(line, '\n'),
        (line + "\n"@ + more).len() >= 4,
        (line + "\n"@ + more).subrange(0, 4) == "---\n"@,
    ensures
        line == "---"@,
{
    reveal_strlit("\n");
    reveal_strlit("---\n");
    reveal_strlit("---");
    let s = line + "\n"@ + more;
    let found = s.subrange(0, 4);
    assert(found[0] == s[0] && found[1] == s[1] && found[2] == s[2] && found[3] == s[3]);
    if line.len() < 3 {
        assert(s[line.len() as int] == '\n');
    } else if line.len() > 3 {
        assert(s[3] == line[3]);
    }
    assert(line =~= "---"@) by {
        assert(line.len() == 3);
        assert(line[0] == s[0] && line[1] == s[1] && line[2] == s[2]);
    }
}

/// A ruler in lines put together is one of the lines.
proof fn ruler_in_lines(ls: Seq<Seq<char>>, after: Seq<char>, i: int)
    requires
        ls.len() > 0,
        forall|k: int| 0 <= k < ls.len() ==> text_lemmas::lacks(#[trigger] ls[k], '\n'),
        forall|k: int| 1 <= k < ls.len() ==> #[trigger] ls[k] != "---"@,
        0 <= i < text::join(ls, "\n"@).len(),
    ensures
        !text::occurs_at(text::join(ls, "\n"@) + ("\n"@ + after), "\n---\n"@, i),
    decreases ls.len(),
{
    reveal_strlit("\n");
    reveal_strlit("---\n");
    reveal_strlit("\n---\n");
    let close = "\n---\n"@;
    let s = text::join(ls, "\n"@) + ("\n"@ + after);
    let n = ls[0].len() as int;
    assert(text_lemmas::lacks(ls[0], '\n'));
    if text::occurs_at(s, close, i) {
        let found = s.subrange(i, i + 5);
        assert(found[0] == s[i]);
        if ls.len() == 1 {
            assert(s[i] == ls[0][i]);
        } else {
            let rest = ls.skip(1);
            let tail = text::join(rest, "\n"@) + ("\n"@ + after);
            text_lemmas::join_front(ls, "\n"@);
            assert(s =~= ls[0] + "\n"@ + tail);
            if i < n {
                assert(s[i] == ls[0][i]);
            } else if i == n {
                assert(rest[0] == ls[1]);
                let more = if rest.len() == 1 {
                    after
                } else {
                    text::join(rest.skip(1), "\n"@) + ("\n"@ + after)
                };
                if rest.len() > 1 {
                    text_lemmas::join_front(rest, "\n"@);
                }
                assert(tail =~= ls[1] + "\n"@ + more);
                assert(tail.subrange(0, 4) =~= "---\n"@) by {
                    assert forall|k: int| 0 <= k < 4 implies tail.subrange(0, 4)[k]
                        == "---\n"@[k] by {
                        assert(tail[k] == s[n + 1 + k]);
                        assert(found[k + 1] == s[i + k + 1]);
                    }
                }
                assert(text_lemmas::lacks(ls[1], '\n'));
                ruler_is_a_line(ls[1], more);
            } else {
                assert forall|k: int| 0 <= k < rest.len() implies text_lemmas::lacks(
                    #[trigger] rest[k],
                    '\n',
                ) by {
                    assert(rest[k] == ls[k + 1]);
                }
                assert forall|k: int| 1 <= k < rest.len() implies #[trigger] rest[k]
                    != "---"@ by {
                    assert(rest[k] == ls[k + 1]);
                }
                let j = i - n - 1;
                assert(tail.subrange(j, j + 5) =~= found);
                assert(text::occurs_at(tail, close, j));
                ruler_in_lines(rest, after, j);
            }
        }
    }
}

/// Metadata that is made of lines, none of which but the first is a ruler, ends at the ruler
/// behind it.
proof fn metadata_of_lines(ls: Seq<Seq<char>>, body: Seq<char>)
    requires
        ls.len() > 0,
        forall|k: int| 0 <= k < ls.len() ==> text_lemmas::lacks(#[trigger] ls[k], '\n'),
        forall|k: int| 1 <= k < ls.len() ==> #[trigger] ls[k] != "---"@,
    ensures
        text::find(text::join(ls, "\n"@) + "\n---\n"@ + body, "\n---\n"@) == Some(
            text::join(ls, "\n"@).len() as int,
        ),
{
    reveal_strlit("\n");
    reveal_strlit("---\n");
    reveal_strlit("\n---\n");
    let close = "\n---\n"@;
    let metadata = text::join(ls, "\n"@);
    let rest = metadata + close + body;
    let end = metadata.len() as int;
    let after = "---\n"@ + body;
    assert("\n"@ + after =~= close + body);
    assert(rest =~= metadata + ("\n"@ + after));
    assert(rest.subrange(end, end + close.len()) =~= close);
    assert forall|i: int| 0 <= i < end implies !text::occurs_at(rest, close, i) by {
        ruler_in_lines(ls, after, i);
    }
    text_lemmas::find_is(rest, close, 0, end);
}

/// The lines of a text that is made of lines: each loses a carriage return at its end, and an
/// empty one at the end is lost.
proof fn lines_of_joined(ls: Seq<Seq<char>>)
    requires
        ls.len() > 1 || (ls.len() == 1 && ls[0].len() > 0),
        forall|k: int| 0 <= k < ls.len() ==> text_lemmas::lacks(#[trigger] ls[k], '\n'),
    ensures
        ({
            let got = text::lines(text::join(ls, "\n"@));
            &&& got.len() == ls.len() - (if ls.last().len() == 0 {
                1int
            } else {
                0int
            })
            &&& forall|k: int|
                0 <= k < got.len() ==> (#[trigger] got[k] == ls[k] || got[k] == text::chomp(ls[k]))
        }),
{
    if ls.last().len() > 0 {
        text_lemmas::lines_of_unlines(ls, false);
    } else {
        let short = ls.drop_last();
        assert forall|k: int| 0 <= k < short.len() implies text_lemmas::lacks(
            #[trigger] short[k],
            '\n',
        ) by {
            assert(short[k] == ls[k]);
        }
        text_lemmas::lines_of_unlines(short, true);
        assert(text::join(ls, "\n"@) =~= text::unlines(short, true));
        assert forall|k: int| 0 <= k < short.len() implies short[k] == ls[k] by {}
    }
}

/// A carriage return at the end of a line of metadata does not count.
proof fn chomped_line_counts_the_same(line: Seq<char>)
    ensures
        text::trim(text::chomp(line)) == text::trim(line),
        line.len() > 0 && line[0] != '\r' ==> text::chomp(line).len() > 0 && text::chomp(line)[0]
            == line[0],
        line.len() > 0 && line[0] == '\r' ==> text::chomp(line).len() == 0 || text::chomp(line)[0]
            == '\r',
        line.len() == 0 ==> text::chomp(line).len() == 0,
{
    if line.len() > 0 && line.last() == '\r' {
        text_lemmas::trim_ignores_trailing(line.drop_last(), '\r');
        assert(line.drop_last().push('\r') =~= line);
    }
}

/// Whether `line` ends the list of tools: it is no entry and not indented.
pub open spec fn ends_list(line: Seq<char>) -> bool {
    !is_dash_line(line) && !(line.len() > 0 && (line[0] == ' ' || line[0] == '\t'))
}

/// The lines of metadata: others, then the list of tools, then others again.
pub open spec fn metadata_lines(
    front: Seq<Seq<char>>,
    tools: Seq<Seq<char>>,
    behind: Seq<Seq<char>>,
) -> Seq<Seq<char>> {
    front + seq!["allowedTools:"@] + Seq::new(tools.len(), |i: int| "  - "@ + tools[i]) + behind
}

/// The lines of the list among others name the tools, and the others name none.
proof fn list_among_others(
    ls: Seq<Seq<char>>,
    f: int,
    tools: Seq<Seq<char>>,
    n: nat,
)
    requires
        0 <= f,
        f + 1 + tools.len() <= ls.len(),
        n <= ls.len(),
        forall|i: int| 0 <= i < tools.len() ==> is_tool_name(#[trigger] tools[i]),
        forall|k: int| 0 <= k < f ==> !is_key_line(#[trigger] ls[k]),
        ls[f] == "allowedTools:"@,
        forall|i: int| 0 <= i < tools.len() ==> ls[f + 1 + i] == "  - "@ + #[trigger] tools[i],
        forall|k: int| f + 1 + tools.len() <= k < ls.len() ==> !is_key_line(#[trigger] ls[k]),
        f + 1 + tools.len() < ls.len() ==> ends_list(ls[f + 1 + tools.len()]),
    ensures
        n <= f ==> prompt::read_lines(ls, n) == (Seq::<Seq<char>>::empty(), false),
        f < n <= f + 1 + tools.len() ==> prompt::read_lines(ls, n) == (tools.take(n - f - 1), true),
        n > f + 1 + tools.len() ==> prompt::read_lines(ls, n) == (tools, false),
    decreases n,
{
    reveal_strlit("allowedTools:");
    reveal_strlit("- ");
    if n > 0 {
        let m = n - 1;
        list_among_others(ls, f, tools, m as nat);
        if m < f {
            assert(!is_key_line(ls[m]));
        } else if m == f {
            let key = "allowedTools:"@;
            trim_keeps(key);
            assert(key.subrange(0, key.len() as int) =~= key);
            assert(key.skip(key.len() as int) =~= Seq::<char>::empty());
            let none = Seq::<char>::empty();
            assert(text::trim(none) =~= none);
            assert(tools.take(0) =~= Seq::<Seq<char>>::empty());
        } else if m < f + 1 + tools.len() {
            let i = m - f - 1;
            assert(is_tool_name(tools[i]));
            tool_line_is_read(tools[i]);
            assert(ls[f + 1 + i] == "  - "@ + tools[i]);
            assert(tools.take(i).push(tools[i]) =~= tools.take(i + 1));
        } else {
            assert(!is_key_line(ls[m]));
            assert(tools.take(tools.len() as int) =~= tools);
        }
    }
    assert(tools.take(tools.len() as int) =~= tools);
}

/// The tools under `allowedTools:` are read wherever in the metadata the list stands: lines in
/// front of it that are not `allowedTools:` do not count, whatever they hold, nor do such lines
/// behind it, the first of which is not indented.
pub proof fn law_tools_are_read_among_other_metadata(
    front: Seq<Seq<char>>,
    tools: Seq<Seq<char>>,
    behind: Seq<Seq<char>>,
    body: Seq<char>,
)
    requires
        forall|i: int| 0 <= i < tools.len() ==> is_tool_name(#[trigger] tools[i]),
        forall|k: int|
            0 <= k < front.len() ==> text_lemmas::lacks(#[trigger] front[k], '\n')
                && !is_key_line(front[k]) && (k > 0 ==> front[k] != "---"@),
        forall|k: int|
            0 <= k < behind.len() ==> text_lemmas::lacks(#[trigger] behind[k], '\n')
                && !is_key_line(behind[k]) && behind[k] != "---"@,
        behind.len() > 0 ==> ends_list(behind[0]),
    ensures
        ({
            let file = "---\n"@ + text::join(metadata_lines(front, tools, behind), "\n"@)
                + "\n---\n"@ + body;
            prompt::file_tools(file) == tools && prompt::file_body(file) == body
        }),
{
    reveal_strlit("allowedTools:");
    reveal_strlit("  - ");
    reveal_strlit("---");
    let ls = metadata_lines(front, tools, behind);
    let f = front.len() as int;
    let last = f + 1 + tools.len();
    assert(ls[f] == "allowedTools:"@);
    assert forall|k: int| 0 <= k < ls.len() implies text_lemmas::lacks(#[trigger] ls[k], '\n') && (
    k > 0 ==> ls[k] != "---"@) by {
        if k < f {
            assert(ls[k] == front[k]);
        } else if k == f {
        } else if k < last {
            assert(is_tool_name(tools[k - f - 1]));
            tool_line_is_read(tools[k - f - 1]);
            assert(ls[k] == "  - "@ + tools[k - f - 1]);
            assert(ls[k][0] == ' ');
        } else {
            assert(ls[k] == behind[k - last]);
        }
    }
    metadata_of_lines(ls, body);
    let metadata = text::join(ls, "\n"@);
    law_tools_are_those_the_lines_name(metadata, body);
    lines_of_joined(ls);
    let got = text::lines(metadata);
    assert forall|k: int| 0 <= k < got.len() implies text::trim(#[trigger] got[k]) == text::trim(
        ls[k],
    ) by {
        chomped_line_counts_the_same(ls[k]);
    }
    assert(got[f] == "allowedTools:"@);
    assert(got.len() >= last) by {
        if ls.last().len() == 0 && behind.len() == 0 {
            if tools.len() > 0 {
                assert(ls.last() == "  - "@ + tools.last());
            } else {
                assert(ls.last() == "allowedTools:"@);
            }
        }
    }
    assert forall|i: int| 0 <= i < tools.len() implies got[f + 1 + i] == "  - "@
        + #[trigger] tools[i] by {
        assert(is_tool_name(tools[i]));
        tool_line_is_read(tools[i]);
        assert(ls[f + 1 + i] == "  - "@ + tools[i]);
        assert(got[f + 1 + i] == ls[f + 1 + i]);
    }
    assert forall|k: int| 0 <= k < f implies !is_key_line(#[trigger] got[k]) by {
        assert(ls[k] == front[k]);
        assert(text::trim(got[k]) == text::trim(ls[k]));
    }
    assert forall|k: int| last <= k < got.len() implies !is_key_line(#[trigger] got[k]) by {
        assert(ls[k] == behind[k - last]);
        assert(text::trim(got[k]) == text::trim(ls[k]));
    }
    if last < got.len() {
        assert(ls[last] == behind[0]);
        assert(text::trim(got[last]) == text::trim(ls[last]));
        chomped_line_counts_the_same(ls[last]);
        assert(ends_list(got[last]));
    }
    list_among_others(got, f, tools, got.len());
    assert(tools.take(tools.len() as int) =~= tools);
    first_lines_name(got, got.len());
}

/// The block that stands for the sub-steps.
pub open spec fn block_of(steps: Seq<Seq<char>>) -> Seq<char> {
    prompt::filled("{{SUB_STEPS}}"@, seq![], steps)
}

/// The block that stands for the sub-steps is what the prompt has in its place.
proof fn block_is_filled_in(steps: Seq<Seq<char>>)
    ensures
        block_of(steps) == prompt::steps_block(steps),
{
    reveal_strlit("{{SUB_STEPS}}");
    reveal_strlit("{{TASK}}");
    let empty = Seq::<char>::empty();
    let template = "{{SUB_STEPS}}"@;
    let parts = seq![empty, empty];
    assert(text::join(parts, template) =~= template) by {
        assert(parts.drop_last() =~= seq![empty]);
        assert(text::join(seq![empty], template) == empty);
    }
    let pieces = seq![template];
    text_lemmas::find_from_bound(template, "{{TASK}}"@, 0);
    assert(text::find(template, "{{TASK}}"@) is None) by {
        if let Some(i) = text::find(template, "{{TASK}}"@) {
            assert(template.subrange(i, i + 8)[0] == template[i]);
            assert(template.subrange(i, i + 8)[2] == template[i + 2]);
            assert(template.subrange(i, i + 8)[1] == template[i + 1]);
        }
    }
    assert(text::find(empty, template) is None);
    law_every_placeholder_is_filled(pieces, parts, empty, steps);
    let block = prompt::steps_block(steps);
    assert(text::join(parts, block) =~= block) by {
        assert(parts.drop_last() =~= seq![empty]);
        assert(text::join(seq![empty], block) == empty);
    }
}

/// In the place of `{{SUB_STEPS}}` stands every sub-step in order, each behind a dash and a blank
/// and on a line of its own, however many there are; and a note where there are none.
pub proof fn law_every_step_is_listed(step: Seq<char>, rest: Seq<Seq<char>>)
    ensures
        block_of(seq![]) == "(no sub-steps provided)"@,
        block_of(seq![step]) == "- "@ + step,
        rest.len() > 0 ==> block_of(seq![step] + rest) == "- "@ + step + "\n"@ + block_of(rest),
{
    block_is_filled_in(seq![]);
    block_is_filled_in(seq![step]);
    let all = seq![step] + rest;
    block_is_filled_in(all);
    block_is_filled_in(rest);
    let first = Seq::new(1, |i: int| "- "@ + seq![step][i]);
    assert(first =~= seq!["- "@ + step]);
    if rest.len() > 0 {
        let parts = Seq::new(all.len(), |i: int| "- "@ + all[i]);
        let others = Seq::new(rest.len(), |i: int| "- "@ + rest[i]);
        text_lemmas::join_front(parts, "\n"@);
        assert(parts.skip(1) =~= others);
        assert(parts[0] == "- "@ + step);
    }
}

/// The lines of the block are as many as the sub-steps, and each is a dash, a blank and its
/// sub-step, where no sub-step holds a line feed or ends with a carriage return.
pub proof fn law_each_step_is_a_line(steps: Seq<Seq<char>>)
    requires
        steps.len() > 0,
        forall|i: int|
            0 <= i < steps.len() ==> text_lemmas::lacks(#[trigger] steps[i], '\n') && !(
            steps[i].len() > 0 && steps[i].last() == '\r'),
    ensures
        text::lines(block_of(steps)).len() == steps.len(),
        forall|i: int|
            0 <= i < steps.len() ==> #[trigger] text::lines(block_of(steps))[i] == "- "@ + steps[i],
    decreases steps.len(),
{
    reveal_strlit("- ");
    let step = steps[0];
    let rest = steps.skip(1);
    law_every_step_is_listed(step, rest);
    let line = "- "@ + step;
    assert(text_lemmas::lacks(steps[0], '\n'));
    assert forall|i: int| 0 <= i < line.len() implies #[trigger] line[i] != '\n' by {
        if i >= 2 {
            assert(line[i] == step[i - 2]);
        }
    }
    if step.len() > 0 {
        assert(line.last() == step.last());
    }
    if rest.len() == 0 {
        assert(steps =~= seq![step]);
        text_lemmas::law_lines(line, seq![]);
    } else {
        assert(steps =~= seq![step] + rest);
        assert forall|i: int| 0 <= i < rest.len() implies text_lemmas::lacks(
            #[trigger] rest[i],
            '\n',
        ) && !(rest[i].len() > 0 && rest[i].last() == '\r') by {
            assert(rest[i] == steps[i + 1]);
        }
        law_each_step_is_a_line(rest);
        text_lemmas::law_lines(line, block_of(rest));
        let got = text::lines(block_of(steps));
        assert(got == seq![line] + text::lines(block_of(rest)));
        assert forall|i: int| 0 <= i < steps.len() implies #[trigger] got[i] == "- "@
            + steps[i] by {
            if i > 0 {
                assert(got[i] == text::lines(block_of(rest))[i - 1]);
                assert(rest[i - 1] == steps[i]);
            }
        }
    }
}

/// Every `{{TASK}}` of a template gives way to the task, and then every `{{SUB_STEPS}}` to the
/// same block, whatever stands around them.
pub proof fn law_placeholders_give_way(
    pieces: Seq<Seq<char>>,
    parts: Seq<Seq<char>>,
    task: Seq<char>,
    steps: Seq<Seq<char>>,
)
    requires
        pieces.len() > 0,
        parts.len() > 0,
        forall|i: int|
            0 <= i < pieces.len() ==> text::find(#[trigger] pieces[i], "{{TASK}}"@) is None,
        forall|i: int|
            0 <= i < parts.len() ==> text::find(#[trigger] parts[i], "{{SUB_STEPS}}"@) is None,
        text::join(pieces, task) == text::join(parts, "{{SUB_STEPS}}"@),
    ensures
        prompt::filled(text::join(pieces, "{{TASK}}"@), task, steps) == text::join(
            parts,
            block_of(steps),
        ),
{
    law_every_placeholder_is_filled(pieces, parts, task, steps);
    block_is_filled_in(steps);
}

} // verus!
