use full_yolo::failure::{Failure, FailureOf};
use full_yolo::runner::{assistant_args, join_tools, run_outcome, AssistantOptions, PermissionMode, Run, RunOf};
use full_yolo::version::{short_sha, version};

fn options(bare: bool, permission_mode: PermissionMode, max_budget: Option<&str>) -> AssistantOptions {
    AssistantOptions { model: "sonnet".to_string(), bare, permission_mode, max_budget: max_budget.map(String::from) }
}

fn tools(names: &[&str]) -> Vec<String> {
    names.iter().map(|s| s.to_string()).collect()
}

#[test]
fn arguments_in_order() {
    assert_eq!(
        assistant_args(&options(true, PermissionMode::Bypass, Some("1.5")), &tools(&["Read", "Bash"])),
        vec![
            "--print",
            "--model",
            "sonnet",
            "--output-format",
            "text",
            "--bare",
            "--dangerously-skip-permissions",
            "--allowed-tools",
            "Read,Bash",
            "--max-budget-usd",
            "1.5",
        ]
    );
    assert_eq!(
        assistant_args(&options(false, PermissionMode::Default, None), &[]),
        vec!["--print", "--model", "sonnet", "--output-format", "text"]
    );
}

#[test]
fn permissions_are_only_skipped_on_demand() {
    let plan = assistant_args(&options(false, PermissionMode::Plan, None), &[]);
    assert_eq!(plan[5..], ["--permission-mode", "plan"]);
    assert!(!plan.iter().any(|a| a == "--dangerously-skip-permissions"));
    let default = assistant_args(&options(true, PermissionMode::Default, Some("2")), &tools(&["Read"]));
    assert!(!default.iter().any(|a| a == "--dangerously-skip-permissions"));
}

#[test]
fn tools_are_restricted_only_where_named() {
    let all = assistant_args(&options(true, PermissionMode::Plan, Some("2")), &[]);
    assert!(!all.iter().any(|a| a == "--allowed-tools"));
    let some = assistant_args(&options(true, PermissionMode::Plan, Some("2")), &tools(&["Read"]));
    let at = some.iter().position(|a| a == "--allowed-tools").unwrap();
    assert_eq!(some[at + 1], "Read");
}

#[test]
fn tools_are_joined() {
    assert_eq!(join_tools(&tools(&["a", "b", "c"]), ", "), "a, b, c");
    assert_eq!(join_tools(&[], ","), "");
}

fn message(f: Failure) -> String {
    f.message("agent")
}

#[test]
fn the_end_of_the_assistant() {
    let ended = |success, code| run_outcome(RunOf::Ended { success, code }, "agent");
    assert!(ended(true, Some(0)).is_ok());
    let of = |code| match ended(false, code) {
        Ok(()) => panic!("success"),
        Err(f) => message(f),
    };
    assert_eq!(of(Some(1)), "agent exited with code 1");
    assert_eq!(of(Some(0)), "agent exited with code 0");
    assert_eq!(of(Some(127)), "agent exited with code 127");
    assert_eq!(of(Some(-1)), "agent exited with code -1");
    assert_eq!(of(Some(i32::MAX)), format!("agent exited with code {}", i32::MAX));
    assert_eq!(of(Some(i32::MIN)), format!("agent exited with code {}", i32::MIN));
    assert_eq!(of(None), "agent exited due to signal");
}

#[test]
fn a_call_can_fail_on_the_way() {
    let of = |run: Run| match run_outcome(run, "/bin/agent") {
        Ok(()) => panic!("success"),
        Err(f) => message(f),
    };
    let cause = || "gone".to_string();
    assert_eq!(of(RunOf::NotSpawned { cause: cause() }), "Failed to spawn '/bin/agent': gone");
    assert_eq!(of(RunOf::NoStdin), "Failed to open agent stdin");
    assert_eq!(of(RunOf::NotWritten { cause: cause() }), "Writing prompt to agent stdin: gone");
    assert_eq!(of(RunOf::NotWaited { cause: cause() }), "Waiting for agent to finish: gone");
}

#[test]
fn failures_are_reported() {
    let s = |t: &str| t.to_string();
    assert_eq!(message(FailureOf::ParsePatterns { cause: s("eof") }), "Parsing patterns.json: eof");
    assert_eq!(
        message(FailureOf::InvalidRegex { regex: s("("), cause: s("unclosed") }),
        "Invalid regex '(' in patterns.json: unclosed"
    );
    assert_eq!(
        message(FailureOf::PlanNotCreated { path: s("/w/todo.md") }),
        "Plan phase finished but /w/todo.md was not created.\nCheck the plan prompt and ensure agent has write permissions."
    );
    assert_eq!(message(FailureOf::ReadTodo { path: s("todo.md"), cause: s("gone") }), "Reading todo.md: gone");
    assert_eq!(message(FailureOf::Spawn { program: s("x"), cause: s("gone") }), "Failed to spawn 'x': gone");
    assert_eq!(message(FailureOf::OpenStdin), "Failed to open agent stdin");
    assert_eq!(message(FailureOf::WritePrompt { cause: s("pipe") }), "Writing prompt to agent stdin: pipe");
    assert_eq!(message(FailureOf::Wait { cause: s("x") }), "Waiting for agent to finish: x");
    assert_eq!(message(FailureOf::Task { description: s("d"), cause: s("c") }), "agent failed on: d: c");
    assert_eq!(message(FailureOf::LineOutOfRange), "line_index out of range when marking task done");
    assert_eq!(message(FailureOf::CheckOff { cause: s("denied") }), "denied");
}

#[test]
fn versions() {
    assert_eq!(version("0", "3", "abc1234"), "0.3.abc1234");
    assert_eq!(short_sha(Some(" given "), Some((true, "x"))), " given ");
    assert_eq!(short_sha(None, Some((true, "abc1234\n"))), "abc1234");
    assert_eq!(short_sha(None, Some((false, "abc1234\n"))), "unknown");
    assert_eq!(short_sha(None, None), "unknown");
}
