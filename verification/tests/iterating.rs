use full_yolo::agent::{
    after_iteration, run_iteration, run_plan, FetchItemPrompt, LoopAction, OnComplete, ReadAgain, Settings, SettingsOf,
    Step,
};
use full_yolo::failure::{Failure, FailureOf};
use full_yolo::fetch::{fetch_file, BundleOf, FetchStepOf, Request};
use full_yolo::patterns::PatternEntry;

fn entry(regex: &str, prompt: &str) -> PatternEntry {
    PatternEntry {
        regex: regex.to_string(),
        prompt: prompt.to_string(),
        strip_prefix: true,
        description: String::new(),
    }
}

fn entries() -> Vec<PatternEntry> {
    vec![entry(r"^TEST:\s*", "test"), entry("^$", "todo")]
}

fn settings(task: Option<&str>, no_cache: bool, repo: Option<&str>) -> Settings {
    SettingsOf {
        task: task.map(String::from),
        no_cache,
        repo: repo.map(String::from),
        bundle: BundleOf {
            plan: "PLAN".to_string(),
            architect: "ARCHITECT".to_string(),
            research: "RESEARCH".to_string(),
            todo: "TODO".to_string(),
            test: "TEST".to_string(),
            patterns: "[]".to_string(),
        },
    }
}

fn show(request: &Request) -> (&str, Option<&str>, bool, Option<&str>) {
    (&request.name, request.fallback.as_deref(), request.no_cache, request.repo.as_deref())
}

fn failed<T>(step: Step, expect: T) -> String
where
    T: Into<String>,
{
    match step {
        Step::Done(Err(f)) => f.message("agent"),
        _ => expect.into(),
    }
}

fn finished(step: Step) -> bool {
    match step {
        Step::Done(Ok(b)) => b,
        Step::Done(Err(f)) => panic!("{}", f.message("agent")),
        _ => panic!("not finished"),
    }
}

/// The step once the patterns are loaded and `todo.md` was found or not.
fn begun(exists: bool) -> Step {
    match run_iteration(&settings(None, false, None)) {
        Step::LoadPatterns(s) => match s.answer(Ok(Ok(entries()))) {
            Step::LookForTodo(s) => s.answer(exists, &settings(Some("a game"), false, None)),
            _ => panic!("another step"),
        },
        _ => panic!("another step"),
    }
}

/// The step once `todo.md` was read.
fn read(content: &str) -> Step {
    match begun(true) {
        Step::ReadTodo(s) => s.answer(Ok(content.to_string()), "todo.md"),
        _ => panic!("another step"),
    }
}

fn item_prompt(content: &str) -> FetchItemPrompt {
    match read(content) {
        Step::FetchItemPrompt(s) => s,
        _ => panic!("another step"),
    }
}

fn read_again(content: &str) -> ReadAgain {
    match item_prompt(content).answer(Ok("{{TASK}}".to_string())) {
        Step::RunItem(s) => match s.answer(Ok(()), "agent") {
            Step::ReadAgain(s) => s,
            _ => panic!("another step"),
        },
        _ => panic!("another step"),
    }
}

#[test]
fn the_first_task_is_done() {
    let content = "- [ ] TEST: run it\n  - now\n- [ ] b\n";
    let s = item_prompt(content);
    assert_eq!(s.file_name(), "test.prompt");
    let file = "---\nallowedTools:\n  - Bash\n---\nDo {{TASK}}: {{SUB_STEPS}}";
    let s = match s.answer(Ok(file.to_string())) {
        Step::RunItem(s) => s,
        _ => panic!("another step"),
    };
    assert_eq!(s.prompt, "Do run it: - now");
    assert_eq!(s.allowed_tools, vec!["Bash"]);
    assert_eq!(s.item.label, "TEST");
    let s = match s.answer(Ok(()), "agent") {
        Step::ReadAgain(s) => s,
        _ => panic!("another step"),
    };
    let s = match s.answer(Ok(content.to_string())) {
        Step::WriteTodo(s) => s,
        _ => panic!("another step"),
    };
    assert_eq!(s.content, "- [x] TEST: run it\n  - now\n- [ ] b\n");
    assert!(!finished(s.answer(Ok(()))));
}

#[test]
fn files_are_asked_for_as_set() {
    let given = settings(Some("t"), true, Some("o/r"));
    match run_iteration(&given) {
        Step::LoadPatterns(s) => assert_eq!(show(&s.request), ("patterns.json", Some("[]"), true, Some("o/r"))),
        _ => panic!("another step"),
    }
    match run_plan(&given) {
        Step::FetchPlanPrompt(s) => {
            assert_eq!(show(&s.request), ("plan.prompt", Some("PLAN"), true, Some("o/r")));
            assert_eq!(s.task, "t");
        }
        _ => panic!("another step"),
    }
    let item = item_prompt("- [ ] TEST: a");
    assert_eq!(show(&item.request(&given)), ("test.prompt", None, true, Some("o/r")));
    assert_eq!(show(&item.request(&settings(None, false, None))), ("test.prompt", None, false, None));
}

#[test]
fn bundled_files_are_enough() {
    let bare = settings(None, false, None);
    let fetched = |request: &Request| match fetch_file(request, &bare.bundle, false) {
        FetchStepOf::Finish(Ok(text)) => text,
        _ => panic!("not fetched"),
    };
    match run_iteration(&bare) {
        Step::LoadPatterns(s) => assert_eq!(fetched(&s.request), "[]"),
        _ => panic!("another step"),
    }
    match run_plan(&bare) {
        Step::FetchPlanPrompt(s) => assert_eq!(fetched(&s.request), "PLAN"),
        _ => panic!("another step"),
    }
    assert_eq!(fetched(&item_prompt("- [ ] TEST: a").request(&bare)), "TEST");
}

#[test]
fn everything_is_done() {
    assert!(finished(read("- [x] a\n")));
    assert!(finished(read("")));
}

#[test]
fn bad_patterns_fail() {
    let load = |parsed| match run_iteration(&settings(None, false, None)) {
        Step::LoadPatterns(s) => failed(s.answer(parsed), "loaded"),
        _ => panic!("another step"),
    };
    assert_eq!(load(Ok(Err("eof".to_string()))), "Parsing patterns.json: eof");
    assert_eq!(load(Err(FailureOf::ReadBody { cause: "cut".to_string() })), "Reading HTTP response body: cut");
    let want = format!("Invalid regex '(' in patterns.json: {}", regex::Regex::new("(").unwrap_err());
    assert_eq!(load(Ok(Ok(vec![entry("(", "p")]))), want);
    assert_eq!(load(Ok(Ok(vec![]))), "loaded");
}

#[test]
fn without_todo_the_plan_phase_runs() {
    let s = match begun(false) {
        Step::FetchPlanPrompt(s) => s,
        _ => panic!("another step"),
    };
    let s = match s.answer(Ok("---\nallowedTools: Write\n---\nPlan {{TASK}} {{SUB_STEPS}}".to_string())) {
        Step::RunPlan(s) => s,
        _ => panic!("another step"),
    };
    assert_eq!(s.prompt, "Plan a game (no sub-steps provided)");
    assert_eq!(s.allowed_tools, vec!["Write"]);
    match s.answer(Ok(())) {
        Step::LookForPlan(s) => assert!(!finished(s.answer(true, "todo.md"))),
        _ => panic!("another step"),
    }
}

#[test]
fn the_plan_phase_has_a_default_task() {
    match run_plan(&settings(None, false, None)) {
        Step::FetchPlanPrompt(s) => match s.answer(Ok("{{TASK}}".to_string())) {
            Step::RunPlan(s) => {
                assert_eq!(s.prompt, "Analyse the current directory and plan the project");
                let ended = s.answer(Err(FailureOf::Signal));
                assert_eq!(failed(ended, "planned"), "agent exited due to signal");
            }
            _ => panic!("another step"),
        },
        _ => panic!("another step"),
    }
}

#[test]
fn the_plan_phase_can_fail() {
    let fetch = |file| match run_plan(&settings(None, false, None)) {
        Step::FetchPlanPrompt(s) => s.answer(file),
        _ => panic!("another step"),
    };
    let missing: Failure = FailureOf::ReadBody { cause: "cut".to_string() };
    assert_eq!(failed(fetch(Err(missing)), "fetched"), "Reading HTTP response body: cut");
    match fetch(Ok(String::new())) {
        Step::RunPlan(s) => match s.answer(Ok(())) {
            Step::LookForPlan(s) => assert_eq!(
                failed(s.answer(false, "/w/todo.md"), "created"),
                "Plan phase finished but /w/todo.md was not created.\nCheck the plan prompt and ensure agent has write permissions."
            ),
            _ => panic!("another step"),
        },
        _ => panic!("another step"),
    }
}

#[test]
fn a_failed_task_is_kept() {
    match item_prompt("- [ ] build\n").answer(Ok("x".to_string())) {
        Step::RunItem(s) => assert_eq!(
            failed(s.answer(Err(FailureOf::ExitCode { code: 2 }), "agent"), "done"),
            "agent failed on: build: agent exited with code 2"
        ),
        _ => panic!("another step"),
    }
}

#[test]
fn reading_and_writing_can_fail() {
    match begun(true) {
        Step::ReadTodo(s) => {
            assert_eq!(failed(s.answer(Err("gone".to_string()), "todo.md"), "read"), "Reading todo.md: gone")
        }
        _ => panic!("another step"),
    }
    let missing: Failure = FailureOf::NoSource { name: "todo.prompt".to_string() };
    let want = missing.message("agent");
    assert_eq!(failed(item_prompt("- [ ] a").answer(Err(missing)), "fetched"), want);
    assert_eq!(failed(read_again("- [ ] a").answer(Err("gone".to_string())), "read"), "gone");
    assert_eq!(
        failed(read_again("x\n- [ ] a").answer(Ok("- [ ] a".to_string())), "marked"),
        "line_index out of range when marking task done"
    );
    match read_again("- [ ] a").answer(Ok("- [ ] a".to_string())) {
        Step::WriteTodo(s) => assert_eq!(failed(s.answer(Err("full".to_string())), "written"), "full"),
        _ => panic!("another step"),
    }
}

#[test]
fn a_line_that_changed_meanwhile_is_checked_off() {
    match read_again("- [ ] a").answer(Ok("- [ ] other\n".to_string())) {
        Step::WriteTodo(s) => assert_eq!(s.content, "- [x] other\n"),
        _ => panic!("another step"),
    }
}

#[test]
fn what_follows_an_iteration() {
    let err = || -> Result<bool, Failure> { Err(FailureOf::Signal) };
    assert_eq!(after_iteration(&Ok(true), OnComplete::Exit, 2), LoopAction::Exit);
    assert_eq!(after_iteration(&Ok(true), OnComplete::Wait, 2), LoopAction::Sleep { seconds: 20 });
    assert_eq!(after_iteration(&Ok(true), OnComplete::Replan, 2), LoopAction::Replan);
    for on_complete in [OnComplete::Exit, OnComplete::Wait, OnComplete::Replan] {
        assert_eq!(after_iteration(&Ok(false), on_complete, 2), LoopAction::Sleep { seconds: 2 });
        assert_eq!(after_iteration(&err(), on_complete, 2), LoopAction::Sleep { seconds: 6 });
        assert_eq!(after_iteration(&err(), on_complete, u64::MAX), LoopAction::Sleep { seconds: u64::MAX });
    }
    assert_eq!(after_iteration(&Ok(true), OnComplete::Wait, u64::MAX / 9), LoopAction::Sleep { seconds: u64::MAX });
}
