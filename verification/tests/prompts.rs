use full_yolo::prompt::{fill_prompt, parse_frontmatter, PromptMeta};

fn tools(content: &str) -> Vec<String> {
    parse_frontmatter(content).0.allowed_tools
}

fn body(content: &str) -> &str {
    parse_frontmatter(content).1
}

fn none() -> Vec<String> {
    Vec::new()
}

#[test]
fn the_documented_format_is_parsed() {
    let content = "---\nallowedTools:\n  - WebSearch\n  - WebFetch\n  - Write\n---\nYou are a researcher...";
    assert_eq!(tools(content), vec!["WebSearch", "WebFetch", "Write"]);
    assert_eq!(body(content), "You are a researcher...");
}

#[test]
fn a_file_without_metadata_is_body() {
    for content in ["", "plain", "--- \na\n---\nb", "---", "---\r\na\n---\nb", "\n---\na\n---\nb"] {
        assert_eq!(tools(content), none());
        assert_eq!(body(content), content);
    }
}

#[test]
fn a_file_whose_metadata_does_not_end_is_body() {
    for content in ["---\nallowedTools: Read\n", "---\nallowedTools: Read\n---", "---\n---\nbody", "---\na\n --- \nb"] {
        assert_eq!(tools(content), none());
        assert_eq!(body(content), content);
    }
}

#[test]
fn the_first_ruler_ends_the_metadata() {
    let content = "---\nallowedTools: Read\n---\n\n---\nmore";
    assert_eq!(tools(content), vec!["Read"]);
    assert_eq!(body(content), "\n---\nmore");
    assert_eq!(body("---\n\n---\n"), "");
    assert_eq!(body("---\n\n---\n\u{e9}\u{1f600}"), "\u{e9}\u{1f600}");
}

#[test]
fn a_split_loses_nothing() {
    let content = "---\nname: \u{e9}\nallowedTools: Read\n---\nbody\n---\n";
    let (_, rest) = parse_frontmatter(content);
    assert_eq!(format!("---\nname: \u{e9}\nallowedTools: Read\n---\n{}", rest), content);
}

#[test]
fn a_single_tool_may_stand_on_the_line() {
    assert_eq!(tools("---\nallowedTools:  Read \n  - Write\n---\n"), vec!["Read"]);
    assert_eq!(tools("---\n  allowedTools: Read\nallowedTools:\n- Write\n---\n"), vec!["Read", "Write"]);
    assert_eq!(tools("---\nallowedTools:Read, Write\n---\n"), vec!["Read, Write"]);
}

#[test]
fn the_list_ends_where_the_indentation_is_dropped() {
    assert_eq!(tools("---\nallowedTools:\n  - A\nmodel: x\n  - B\n---\n"), vec!["A"]);
    assert_eq!(tools("---\nallowedTools:\n  - A\n  note\n\t- B\n---\n"), vec!["A", "B"]);
    assert_eq!(tools("---\nallowedTools:\n  - A\n\n  - B\n---\n"), vec!["A"]);
    assert_eq!(tools("---\nallowedTools:\n  -A\n  - \n  - B\n---\n"), vec!["B"]);
    assert_eq!(tools("---\n  - A\nallowedTools:\n---\n"), none());
}

#[test]
fn named_tools_are_read() {
    let names = ["Read", "Bash(git log:*)", "- x", "allowedTools:", "---", "a\rb"];
    let mut content = String::from("---\nallowedTools:");
    for name in names {
        content.push_str("\n  - ");
        content.push_str(name);
    }
    content.push_str("\n---\n---\nbody\n---\n");
    assert_eq!(tools(&content), names.to_vec());
    assert_eq!(body(&content), "---\nbody\n---\n");
    assert_eq!(tools("---\nallowedTools:\n---\nx"), none());
    assert_eq!(body("---\nallowedTools:\n---\nx"), "x");
}

#[test]
fn tools_are_names() {
    let content = "---\nallowedTools:   \n  -   A  \n  - \n -\u{a0}B\n  - \u{a0}C\u{a0}\n---\n";
    assert_eq!(tools(content), vec!["A", "C"]);
}

#[test]
fn no_metadata_by_default() {
    assert_eq!(PromptMeta::default().allowed_tools, none());
}

fn steps() -> Vec<String> {
    vec!["one".to_string(), "two".to_string()]
}

#[test]
fn a_task_is_filled_in() {
    assert_eq!(fill_prompt("Do {{TASK}}:\n{{SUB_STEPS}}!", "it", &steps()), "Do it:\n- one\n- two!");
    assert_eq!(fill_prompt("{{SUB_STEPS}}", "it", &[]), "(no sub-steps provided)");
}

#[test]
fn every_placeholder_is_filled() {
    assert_eq!(fill_prompt("{{TASK}}{{TASK}} {{{TASK}}}", "a", &[]), "aa {a}");
    assert_eq!(fill_prompt("{{SUB_STEPS}}/{{SUB_STEPS}}", "a", &steps()[..1]), "- one/- one");
}

#[test]
fn a_task_may_hold_a_placeholder() {
    assert_eq!(fill_prompt("{{TASK}}", "x {{SUB_STEPS}}", &steps()[..1]), "x - one");
    assert_eq!(fill_prompt("{{TASK}}", "{{TASK}}", &[]), "{{TASK}}");
    assert_eq!(fill_prompt("{{SUB_STEPS}}", "x", &["{{TASK}}".to_string()]), "- {{TASK}}");
}

#[test]
fn a_template_without_placeholder_is_kept() {
    for template in ["", "plain", "{{task}} {{ TASK }} {TASK}", "{{TASK} }"] {
        assert_eq!(fill_prompt(template, "x", &steps()), template);
    }
}
