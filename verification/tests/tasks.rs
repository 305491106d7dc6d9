use full_yolo::patterns::{PatternEntry, PatternSet};
use full_yolo::todo::{
    classified_task, find_tasks, label, line_is_open, mark_done, parse_todo, select_next_item, LineOutOfRange, Task,
    TodoItem,
};

const EXAMPLE: &str = "- [ ] RESEARCH: Compare Rust HTTP frameworks
  - actix-web vs axum vs rocket
- [ ] ARCHITECT: Design the API layer
  - REST endpoints, auth strategy
- [ ] Implement /users CRUD
  - GET, POST, PATCH, DELETE
- [ ] TEST: Integration tests for /users
  - Happy path + error cases
";

fn entry(regex: &str, prompt: &str) -> PatternEntry {
    PatternEntry {
        regex: regex.to_string(),
        prompt: prompt.to_string(),
        strip_prefix: true,
        description: String::new(),
    }
}

fn patterns() -> PatternSet {
    let entries = vec![
        entry(r"^ARCHITECT:\s*", "architect"),
        entry(r"^RESEARCH:\s*", "research"),
        entry(r"^TEST:\s*", "test"),
    ];
    match PatternSet::load(entries) {
        Ok(set) => set,
        Err(e) => panic!("{}", e.regex),
    }
}

fn show(item: &TodoItem) -> String {
    format!(
        "{}|{}|{}|{}|{}",
        item.line_index,
        item.prompt_name,
        item.label,
        item.description,
        item.sub_steps.join(";")
    )
}

fn items(content: &str) -> Vec<String> {
    parse_todo(content, &patterns()).iter().map(show).collect()
}

fn item(line_index: usize, prompt_name: &str) -> TodoItem {
    TodoItem {
        line_index,
        prompt_name: prompt_name.to_string(),
        label: String::new(),
        description: String::new(),
        sub_steps: vec![],
    }
}

fn steps(content: &str) -> Vec<String> {
    find_tasks(content).into_iter().next().unwrap().sub_steps
}

#[test]
fn the_documented_format_is_read() {
    assert_eq!(
        items(EXAMPLE),
        vec![
            "0|research|RESEARCH|Compare Rust HTTP frameworks|actix-web vs axum vs rocket",
            "2|architect|ARCHITECT|Design the API layer|REST endpoints, auth strategy",
            "4|todo|TODO|Implement /users CRUD|GET, POST, PATCH, DELETE",
            "6|test|TEST|Integration tests for /users|Happy path + error cases",
        ]
    );
}

#[test]
fn only_open_lines_are_tasks() {
    assert_eq!(items(""), Vec::<String>::new());
    assert_eq!(items("# Plan\n- [x] done\n- [X] done\n- plain\n- [ ]\n-[ ] no\n* [ ] no\n"), Vec::<String>::new());
    assert_eq!(items("text - [ ] not at the start\n- [ ] yes"), vec!["1|todo|TODO|yes|"]);
    assert_eq!(items("- [ ] \n"), vec!["0|todo|||"]);
}

#[test]
fn labels() {
    let of = |s: &str| label(&s.chars().collect::<Vec<char>>());
    assert_eq!(of("TEST: x"), "TEST");
    assert_eq!(of("Test: x"), "TODO");
    assert_eq!(of("TEST"), "TEST");
    assert_eq!(of("TEST IT: x"), "TODO");
    assert_eq!(of(": x"), "");
    assert_eq!(of(""), "");
    assert_eq!(of("A:B:c"), "A");
    for s in ["TEST: x", "Test: x", "", "\u{c4}: x"] {
        assert_eq!(of(s).to_uppercase(), of(s));
    }
}

#[test]
fn steps_are_indented_lines() {
    assert_eq!(steps("- [ ] t\n  - a\n\n    b\n\t- - c\n  -\n  - \nend\n  - d"), vec!["a", "b", "c", "-"]);
    assert_eq!(steps("- [ ] t\n- a\n  - b"), Vec::<String>::new());
    assert_eq!(steps("- [ ] t\n  - [x] a\n  - b"), Vec::<String>::new());
    assert_eq!(steps("- [ ] t\n  - [X] a\n  - b"), Vec::<String>::new());
    assert_eq!(steps("- [ ] t\n  - [ ] a\n  - b"), Vec::<String>::new());
    assert_eq!(steps("- [ ] t\n  - a\r\n  - b\r\n"), vec!["a", "b"]);
}

#[test]
fn no_step_is_empty() {
    assert_eq!(steps("- [ ] t\n  - - \n   \n  - a"), vec!["a"]);
    for s in steps("- [ ] t\n  - - - \u{a0}\n  x\n   - \u{3000}") {
        assert!(!s.is_empty());
    }
}

#[test]
fn nested_tasks_are_tasks() {
    assert_eq!(
        items("- [ ] outer\n  - [ ] inner\n    - step\n  - other\n"),
        vec!["0|todo|TODO|outer|", "1|todo|TODO|inner|step"]
    );
}

#[test]
fn indentation_counts_bytes() {
    // Two bytes of no-break space are deeper than one blank, and no deeper than two.
    assert_eq!(steps(" - [ ] t\n\u{a0}- a"), vec!["a"]);
    assert_eq!(steps("  - [ ] t\n\u{a0}- a"), Vec::<String>::new());
    assert_eq!(steps("  - [ ] t\n\u{3000}- a"), vec!["a"]);
    assert_eq!(steps("   - [ ] t\n\u{3000}- a"), Vec::<String>::new());
}

#[test]
fn open_lines() {
    let of = |s: &str| line_is_open(&s.chars().collect::<Vec<char>>());
    assert!(of("- [ ] a"));
    assert!(of(" \t- [ ] "));
    assert!(!of("- [ ]"));
    assert!(!of("- [x] a"));
    assert!(!of("x - [ ] a"));
}

#[test]
fn tasks_are_the_open_lines_in_order() {
    let content = "- [ ] a\n- [x] b\n  - [ ] c\n\n- [ ] d";
    let at: Vec<usize> = find_tasks(content).iter().map(|t| t.line_index).collect();
    assert_eq!(at, vec![0, 2, 4]);
}

#[test]
fn a_task_is_classified() {
    let task = Task { line_index: 3, text: "x".to_string(), label: "L".to_string(), sub_steps: vec!["s".to_string()] };
    assert_eq!(show(&classified_task(task, "p", "d".to_string())), "3|p|L|d|s");
}

#[test]
fn a_clone_is_equal() {
    let items = parse_todo(EXAMPLE, &patterns());
    assert_eq!(show(&items[0].clone()), show(&items[0]));
}

#[test]
fn the_first_item_is_next() {
    for content in [EXAMPLE, "- [x] a\n  - [ ] TEST: b\n- [ ] c", "- [ ] TEST: a\n- [ ] b\n"] {
        let items = parse_todo(content, &patterns());
        let next = select_next_item(&items, content).unwrap();
        assert_eq!(show(next), show(&items[0]));
    }
    assert!(select_next_item(&[], "- [ ] a").is_none());
}

#[test]
fn a_special_item_waits_for_open_lines_above() {
    let content = "- [ ] a\n- [x] b\n- [ ] TEST: c\n";
    assert!(select_next_item(&[item(2, "test")], content).is_none());
    assert!(select_next_item(&[item(3, "test")], content).is_none());
    assert_eq!(select_next_item(&[item(0, "test")], content).unwrap().line_index, 0);
    let done = "- [x] a\n- [x] b\n- [ ] TEST: c\n";
    assert_eq!(select_next_item(&[item(2, "test")], done).unwrap().line_index, 2);
}

#[test]
fn a_general_item_is_always_eligible() {
    let content = "- [ ] a\n- [ ] TEST: b\n- [ ] c\n";
    let items = [item(1, "test"), item(2, "todo"), item(0, "test")];
    assert_eq!(select_next_item(&items, content).unwrap().line_index, 2);
    assert_eq!(select_next_item(&[item(9, "todo")], content).unwrap().line_index, 9);
}

#[test]
fn a_task_is_checked_off() {
    assert_eq!(mark_done("- [ ] a\n- [ ] b\n", 1).unwrap(), "- [ ] a\n- [x] b\n");
    assert_eq!(mark_done("- [ ] a\n  - [ ] b", 1).unwrap(), "- [ ] a\n  - [x] b");
    assert_eq!(mark_done("- [ ] a - [ ] b", 0).unwrap(), "- [x] a - [ ] b");
}

#[test]
fn a_line_without_mark_is_kept() {
    assert_eq!(mark_done("# a\n- [x] b\n\n", 0).unwrap(), "# a\n- [x] b\n\n");
    assert_eq!(mark_done("# a\n- [x] b\n\n", 2).unwrap(), "# a\n- [x] b\n\n");
}

#[test]
fn a_line_that_is_not_there_is_an_error() {
    assert_eq!(mark_done("- [ ] a\n", 1), Err(LineOutOfRange));
    assert_eq!(mark_done("", 0), Err(LineOutOfRange));
}

#[test]
fn carriage_returns_are_dropped_when_a_task_is_checked_off() {
    assert_eq!(mark_done("- [ ] a\r\n- [ ] b\r\n", 0).unwrap(), "- [x] a\n- [ ] b\n");
    assert_eq!(mark_done("- [ ] a\r", 0).unwrap(), "- [x] a\r");
}

#[test]
fn checking_off_changes_one_character() {
    for i in [0, 2, 4, 6] {
        let out = mark_done(EXAMPLE, i).unwrap();
        let changed: Vec<(char, char)> = EXAMPLE.chars().zip(out.chars()).filter(|(a, b)| a != b).collect();
        assert_eq!(changed, vec![(' ', 'x')]);
        assert_eq!(out.len(), EXAMPLE.len());
    }
}

#[test]
fn checking_off_keeps_the_other_lines() {
    let out = mark_done("a\r\n- [ ] b\nc", 1).unwrap();
    assert_eq!(out.lines().collect::<Vec<&str>>(), vec!["a", "- [x] b", "c"]);
}

#[test]
fn checking_off_removes_the_item() {
    for content in [EXAMPLE, "- [ ] a\r\r\n  - s\r\r\n\t- [ ] TEST: b\r\n    - t\r\n- [ ] c\r"] {
        let before = items(content);
        for i in 0..before.len() {
            let line = parse_todo(content, &patterns())[i].line_index;
            let mut want = before.clone();
            want.remove(i);
            assert_eq!(items(&mark_done(content, line).unwrap()), want);
        }
    }
}

#[test]
fn working_off_empties_the_list() {
    let mut content = EXAMPLE.to_string();
    for left in (0..4).rev() {
        let items = parse_todo(&content, &patterns());
        let next = select_next_item(&items, &content).unwrap();
        content = mark_done(&content, next.line_index).unwrap();
        assert_eq!(find_tasks(&content).len(), left);
    }
    assert_eq!(content, EXAMPLE.replace("- [ ] ", "- [x] "));
}

#[test]
fn texts_are_trimmed() {
    for task in find_tasks("- [ ]   a \u{a0}\r\n  -   b \n\t c\t\n- [ ] \u{3000}d") {
        assert_eq!(task.text.trim(), task.text);
        for step in &task.sub_steps {
            assert_eq!(step.trim(), step);
        }
    }
    assert_eq!(items("- [ ]   a \n  -   b \n"), vec!["0|todo|TODO|a|b"]);
}
