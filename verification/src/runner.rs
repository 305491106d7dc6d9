//! How the assistant is called, and what its end means.

use vstd::prelude::*;
use crate::failure;
use crate::failure::{Failure, FailureModel, FailureOf};
use crate::scan;
use crate::text;

verus! {

/// How much the assistant may do without asking.
#[derive(Clone, Copy, PartialEq, Eq, Structural, Debug)]
pub enum PermissionMode {
    /// Everything.
    Bypass,
    /// What it is configured to.
    Default,
    /// Nothing: it only proposes.
    Plan,
}

/// How the assistant is called.
pub struct AssistantOptions {
    /// The model, by its alias or its full name.
    pub model: String,
    /// Whether local configuration is passed over.
    pub bare: bool,
    /// How much the assistant may do without asking.
    pub permission_mode: PermissionMode,
    /// How much one call may cost, in dollars.
    pub max_budget: Option<String>,
}

/// The arguments that say how much the assistant may do without asking.
pub open spec fn permission_args(mode: PermissionMode) -> Seq<Seq<char>> {
    match mode {
        PermissionMode::Bypass => seq!["--dangerously-skip-permissions"@],
        PermissionMode::Default => seq![],
        PermissionMode::Plan => seq!["--permission-mode"@, "plan"@],
    }
}

/// The arguments that name the tools that the assistant may use: none where it may use all.
pub open spec fn tool_args(tools: Seq<Seq<char>>) -> Seq<Seq<char>> {
    if tools.len() == 0 {
        seq![]
    } else {
        seq!["--allowed-tools"@, text::join(tools, ","@)]
    }
}

/// The arguments that the assistant is called with.
pub open spec fn args_of(options: AssistantOptions, tools: Seq<Seq<char>>) -> Seq<Seq<char>> {
    seq!["--print"@, "--model"@, options.model@, "--output-format"@, "text"@] + (if options.bare {
        seq!["--bare"@]
    } else {
        seq![]
    }) + permission_args(options.permission_mode) + tool_args(tools) + (match options.max_budget {
        Some(budget) => seq!["--max-budget-usd"@, budget@],
        None => seq![],
    })
}

/// Puts `arg` at the end of the arguments.
fn push_arg(args: &mut Vec<String>, arg: &str)
    ensures
        text::texts(final(args)@) == text::texts(old(args)@).push(arg@),
{
    let ghost before = args@;
    args.push(arg.to_owned());
    assert(text::texts(args@) == text::texts(before).push(arg@));
}

/// The tools, with `sep` between each two.
pub fn join_tools(tools: &[String], sep: &str) -> (s: String)
    ensures
        s@ == text::join(text::texts(tools@), sep@),
{
    let mut parts: Vec<Vec<char>> = Vec::new();
    let mut i: usize = 0;
    while i < tools.len()
        invariant
            i <= tools@.len(),
            parts@.len() == i,
            forall|j: int| 0 <= j < i ==> (#[trigger] parts@[j])@ == tools@[j]@,
        decreases tools@.len() - i,
    {
        parts.push(scan::to_chars(&tools[i]));
        i += 1;
    }
    assert(text::views(parts@) == text::texts(tools@));
    scan::from_chars(&scan::joined(&parts, &scan::to_chars(sep)))
}

/// The arguments that the assistant is called with, where `allowed_tools` are the tools that the
/// prompt names.
pub fn assistant_args(options: &AssistantOptions, allowed_tools: &[String]) -> (args: Vec<String>)
    ensures
        text::texts(args@) == args_of(*options, text::texts(allowed_tools@)),
{
    let mut args: Vec<String> = Vec::new();
    assert(text::texts(args@) == Seq::<Seq<char>>::empty());
    push_arg(&mut args, "--print");
    push_arg(&mut args, "--model");
    push_arg(&mut args, &options.model);
    push_arg(&mut args, "--output-format");
    push_arg(&mut args, "text");
    if options.bare {
        push_arg(&mut args, "--bare");
    }
    match options.permission_mode {
        PermissionMode::Bypass => {
            push_arg(&mut args, "--dangerously-skip-permissions");
        },
        PermissionMode::Default => {},
        PermissionMode::Plan => {
            push_arg(&mut args, "--permission-mode");
            push_arg(&mut args, "plan");
        },
    }
    if allowed_tools.len() > 0 {
        push_arg(&mut args, "--allowed-tools");
        push_arg(&mut args, &join_tools(allowed_tools, ","));
    }
    if let Some(budget) = &options.max_budget {
        push_arg(&mut args, "--max-budget-usd");
        push_arg(&mut args, budget);
    }
    assert(text::texts(args@) == args_of(*options, text::texts(allowed_tools@)));
    args
}

/// What a result without a value or a failure holds.
pub open spec fn ending_of(r: Result<(), Failure>) -> Result<(), FailureModel> {
    match r {
        Ok(()) => Ok(()),
        Err(f) => Err(f@),
    }
}

/// How far a call of the assistant came, over texts of type `T`. A `cause` is what the system says
/// about it.
pub enum RunOf<T> {
    /// It could not be started.
    NotSpawned { cause: T },
    /// It was started without an input.
    NoStdin,
    /// The prompt could not be handed to it.
    NotWritten { cause: T },
    /// Its end could not be waited for.
    NotWaited { cause: T },
    /// It ended: whether that was a success, and its code where it has one.
    Ended { success: bool, code: Option<i32> },
}

/// How far a call of the assistant came.
pub type Run = RunOf<String>;

/// What a call of the assistant holds.
pub type RunModel = RunOf<Seq<char>>;

impl View for RunOf<String> {
    type V = RunModel;

    open spec fn view(&self) -> RunModel {
        match *self {
            RunOf::NotSpawned { cause } => RunOf::NotSpawned { cause: cause@ },
            RunOf::NoStdin => RunOf::NoStdin,
            RunOf::NotWritten { cause } => RunOf::NotWritten { cause: cause@ },
            RunOf::NotWaited { cause } => RunOf::NotWaited { cause: cause@ },
            RunOf::Ended { success, code } => RunOf::Ended { success, code },
        }
    }
}

/// What a call of `program` comes to: a success, or why it is none.
pub open spec fn ending(run: RunModel, program: Seq<char>) -> Result<(), FailureModel> {
    match run {
        RunOf::NotSpawned { cause } => Err(FailureOf::Spawn { program, cause }),
        RunOf::NoStdin => Err(FailureOf::OpenStdin),
        RunOf::NotWritten { cause } => Err(FailureOf::WritePrompt { cause }),
        RunOf::NotWaited { cause } => Err(FailureOf::Wait { cause }),
        RunOf::Ended { success: true, code: _ } => Ok(()),
        RunOf::Ended { success: false, code: Some(code) } => Err(FailureOf::ExitCode { code }),
        RunOf::Ended { success: false, code: None } => Err(FailureOf::Signal),
    }
}

/// What a call of `program` comes to: a success, or why it is none.
pub fn run_outcome(run: Run, program: &str) -> (r: Result<(), Failure>)
    ensures
        ending_of(r) == ending(run@, program@),
{
    match run {
        RunOf::NotSpawned { cause } => Err(
            FailureOf::Spawn { program: program.to_owned(), cause },
        ),
        RunOf::NoStdin => Err(FailureOf::OpenStdin),
        RunOf::NotWritten { cause } => Err(FailureOf::WritePrompt { cause }),
        RunOf::NotWaited { cause } => Err(FailureOf::Wait { cause }),
        RunOf::Ended { success, code } => if success {
            Ok(())
        } else {
            match code {
                Some(code) => Err(FailureOf::ExitCode { code }),
                None => Err(FailureOf::Signal),
            }
        },
    }
}

/// The tools are only restricted where the prompt names some, and then to those, unless another
/// value that is handed on says so.
pub proof fn law_tools_are_restricted_only_where_named(
    options: AssistantOptions,
    tools: Seq<Seq<char>>,
)
    requires
        options.model@ != "--allowed-tools"@,
        options.max_budget matches Some(budget) ==> budget@ != "--allowed-tools"@,
    ensures
        tools.len() == 0 ==> !args_of(options, tools).contains("--allowed-tools"@),
        tools.len() > 0 ==> exists|i: int|
            0 <= i < args_of(options, tools).len() - 1 && #[trigger] args_of(options, tools)[i]
                == "--allowed-tools"@ && args_of(options, tools)[i + 1] == text::join(tools, ","@),
{
    reveal_strlit("--allowed-tools");
    reveal_strlit("--print");
    reveal_strlit("--model");
    reveal_strlit("--output-format");
    reveal_strlit("text");
    reveal_strlit("--bare");
    reveal_strlit("--dangerously-skip-permissions");
    reveal_strlit("--permission-mode");
    reveal_strlit("plan");
    reveal_strlit("--max-budget-usd");
    let args = args_of(options, tools);
    if tools.len() == 0 {
        assert forall|i: int| 0 <= i < args.len() implies args[i] != "--allowed-tools"@ by {
            if args[i] == "--allowed-tools"@ {
                assert(args[i][2] == 'a');
                assert(args[i].len() == 15);
            }
        }
    } else {
        let i = 5 + (if options.bare {
            1int
        } else {
            0int
        }) + permission_args(options.permission_mode).len();
        assert(args[i] == "--allowed-tools"@);
        assert(args[i + 1] == text::join(tools, ","@));
    }
}

/// The permission checks are only skipped where that mode is chosen, unless another value that
/// is handed on says so.
pub proof fn law_permissions_are_only_skipped_on_demand(
    options: AssistantOptions,
    tools: Seq<Seq<char>>,
)
    requires
        options.permission_mode != PermissionMode::Bypass,
        options.model@ != "--dangerously-skip-permissions"@,
        text::join(tools, ","@) != "--dangerously-skip-permissions"@,
        options.max_budget matches Some(budget) ==> budget@ != "--dangerously-skip-permissions"@,
    ensures
        !args_of(options, tools).contains("--dangerously-skip-permissions"@),
{
    reveal_strlit("--dangerously-skip-permissions");
    reveal_strlit("--print");
    reveal_strlit("--model");
    reveal_strlit("--output-format");
    reveal_strlit("text");
    reveal_strlit("--bare");
    reveal_strlit("--permission-mode");
    reveal_strlit("plan");
    reveal_strlit("--allowed-tools");
    reveal_strlit("--max-budget-usd");
    let args = args_of(options, tools);
    let skip = "--dangerously-skip-permissions"@;
    assert forall|i: int| 0 <= i < args.len() implies args[i] != skip by {
        if args[i] == skip {
            assert(args[i].len() == 30);
        }
    }
}

/// Whether two ways to call the assistant differ in the budget alone.
pub open spec fn same_but_budget(a: AssistantOptions, b: AssistantOptions) -> bool {
    a.model@ == b.model@ && a.bare == b.bare && a.permission_mode == b.permission_mode
}

/// With no option set and no tool named, the assistant is called with the model alone, to print
/// its answer as text.
pub proof fn law_plain_call(options: AssistantOptions)
    requires
        !options.bare,
        options.permission_mode == PermissionMode::Default,
        options.max_budget is None,
    ensures
        args_of(options, seq![]) == seq![
            "--print"@,
            "--model"@,
            options.model@,
            "--output-format"@,
            "text"@,
        ],
{
}

/// A budget is handed on as `--max-budget-usd` and its value, behind all that a call without a
/// budget hands on, whatever the other options and the tools are.
pub proof fn law_budget_is_handed_on(
    with: AssistantOptions,
    without: AssistantOptions,
    tools: Seq<Seq<char>>,
)
    requires
        same_but_budget(with, without),
        with.max_budget is Some,
        without.max_budget is None,
    ensures
        args_of(with, tools) == args_of(without, tools) + seq![
            "--max-budget-usd"@,
            with.max_budget->0@,
        ],
{
    assert(args_of(with, tools) =~= args_of(without, tools) + seq![
        "--max-budget-usd"@,
        with.max_budget->0@,
    ]);
}

/// Where no budget is given none is handed on, unless another value that is handed on says so.
pub proof fn law_no_budget_without_one(options: AssistantOptions, tools: Seq<Seq<char>>)
    requires
        options.max_budget is None,
        options.model@ != "--max-budget-usd"@,
        text::join(tools, ","@) != "--max-budget-usd"@,
    ensures
        !args_of(options, tools).contains("--max-budget-usd"@),
{
    reveal_strlit("--max-budget-usd");
    reveal_strlit("--print");
    reveal_strlit("--model");
    reveal_strlit("--output-format");
    reveal_strlit("text");
    reveal_strlit("--bare");
    reveal_strlit("--dangerously-skip-permissions");
    reveal_strlit("--permission-mode");
    reveal_strlit("plan");
    reveal_strlit("--allowed-tools");
    let args = args_of(options, tools);
    let flag = "--max-budget-usd"@;
    assert forall|i: int| 0 <= i < args.len() implies args[i] != flag by {
        if args[i] == flag {
            assert(args[i].len() == 16);
        }
    }
}

/// The tools that a prompt names are handed on as `--allowed-tools` and their names with a comma
/// between each two, behind all that a call without tools hands on, save the budget.
pub proof fn law_tools_are_handed_on(options: AssistantOptions, tools: Seq<Seq<char>>)
    requires
        options.max_budget is None,
        tools.len() > 0,
    ensures
        args_of(options, tools) == args_of(options, seq![]) + seq![
            "--allowed-tools"@,
            text::join(tools, ","@),
        ],
{
    assert(args_of(options, tools) =~= args_of(options, seq![]) + seq![
        "--allowed-tools"@,
        text::join(tools, ","@),
    ]);
}

/// The permission mode is handed on in full: the flag that skips the checks, the mode `plan`, or
/// nothing.
pub proof fn law_permission_mode_is_handed_on(options: AssistantOptions, default: AssistantOptions)
    requires
        options.model@ == default.model@,
        options.bare == default.bare,
        options.max_budget is None,
        default.max_budget is None,
        default.permission_mode == PermissionMode::Default,
    ensures
        options.permission_mode == PermissionMode::Bypass ==> args_of(options, seq![]) == args_of(
            default,
            seq![],
        ).push("--dangerously-skip-permissions"@),
        options.permission_mode == PermissionMode::Plan ==> args_of(options, seq![]) == args_of(
            default,
            seq![],
        ).push("--permission-mode"@).push("plan"@),
        options.permission_mode == PermissionMode::Default ==> args_of(options, seq![]) == args_of(
            default,
            seq![],
        ),
{
    assert(options.permission_mode == PermissionMode::Bypass ==> args_of(options, seq![])
        =~= args_of(default, seq![]).push("--dangerously-skip-permissions"@));
    assert(options.permission_mode == PermissionMode::Plan ==> args_of(options, seq![]) =~= args_of(
        default,
        seq![],
    ).push("--permission-mode"@).push("plan"@));
}

/// Passing over local configuration adds `--bare` and changes nothing else.
pub proof fn law_bare_is_handed_on(
    bare: AssistantOptions,
    full: AssistantOptions,
    tools: Seq<Seq<char>>,
)
    requires
        bare.bare,
        !full.bare,
        bare.model@ == full.model@,
        bare.permission_mode == full.permission_mode,
        match (bare.max_budget, full.max_budget) {
            (Some(a), Some(b)) => a@ == b@,
            (None, None) => true,
            _ => false,
        },
    ensures
        args_of(bare, tools) == args_of(full, tools).insert(5, "--bare"@),
{
    assert(args_of(bare, tools) =~= args_of(full, tools).insert(5, "--bare"@));
}

/// A call is a success exactly where the assistant ended and said so, whatever its code is.
pub proof fn law_success_is_what_the_assistant_says(run: RunModel, program: Seq<char>)
    ensures
        ending(run, program) is Ok <==> (run is Ended && run->success),
{
}

/// What is reported of a call that failed says how far it came, why, and with which code it
/// ended.
pub proof fn law_failed_call_is_reported(
    program: Seq<char>,
    assistant: Seq<char>,
    cause: Seq<char>,
    code: i32,
)
    ensures
        ({
            let said = |run: RunModel| failure::report(ending(run, program)->Err_0, assistant);
            &&& said(RunOf::NotSpawned { cause }) == "Failed to spawn '"@ + program + "': "@ + cause
            &&& said(RunOf::NoStdin) == "Failed to open "@ + assistant + " stdin"@
            &&& said(RunOf::NotWritten { cause }) == "Writing prompt to "@ + assistant
                + " stdin: "@ + cause
            &&& said(RunOf::NotWaited { cause }) == "Waiting for "@ + assistant + " to finish: "@
                + cause
            &&& said(RunOf::Ended { success: false, code: Some(code) }) == assistant
                + " exited with code "@ + failure::decimal(code as int)
            &&& said(RunOf::Ended { success: false, code: None }) == assistant
                + " exited due to signal"@
        }),
{
}

} // verus!
