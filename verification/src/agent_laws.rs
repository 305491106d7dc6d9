//! What holds of an iteration, whatever the world answers.

use vstd::prelude::*;
use crate::agent;
use crate::agent::{LoopAction, OnComplete, Settings, SettingsModel, StepModel};
use crate::failure;
use crate::failure::{Failure, FailureModel, FailureOf};
use crate::fetch;
use crate::fetch::{FetchStepOf, FetchWorld, RequestModel, RequestOf};
use crate::pattern_laws;
use crate::patterns;
use crate::patterns::{EntryModel, PatternEntry};
use crate::prompt;
use crate::runner;
use crate::text;
use crate::todo;
use crate::todo::ItemModel;
use crate::todo_laws;

verus! {

/// What the world answers to the steps of an iteration.
pub struct World {
    /// What the iteration is given.
    pub settings: SettingsModel,
    /// What fetching and then parsing the patterns gives, for a request.
    pub patterns: spec_fn(RequestModel) -> Result<Result<Seq<EntryModel>, Seq<char>>, FailureModel>,
    /// Whether there is a `todo.md`.
    pub todo_exists: bool,
    /// What fetching a prompt file gives, for a request.
    pub file: spec_fn(RequestModel) -> Result<Seq<char>, FailureModel>,
    /// How the assistant ends, given a prompt and tools.
    pub ending: spec_fn(Seq<char>, Seq<Seq<char>>) -> Result<(), FailureModel>,
    /// What the assistant is called.
    pub assistant: Seq<char>,
    /// Whether there is a `todo.md` after the plan phase.
    pub plan_exists: bool,
    /// Where `todo.md` is.
    pub path: Seq<char>,
    /// What reading `todo.md` gives.
    pub read: Result<Seq<char>, Seq<char>>,
    /// What reading `todo.md` once more gives.
    pub read_again: Result<Seq<char>, Seq<char>>,
    /// What writing `todo.md` gives.
    pub written: Result<(), Seq<char>>,
}

/// The patterns of an iteration.
pub open spec fn parsed(w: World) -> Result<Result<Seq<EntryModel>, Seq<char>>, FailureModel> {
    (w.patterns)(agent::patterns_request(w.settings))
}

/// The prompt file of the plan phase.
pub open spec fn plan_file(w: World) -> Result<Seq<char>, FailureModel> {
    (w.file)(agent::plan_request(w.settings))
}

/// The prompt file for an item.
pub open spec fn item_file(w: World, item: ItemModel) -> Result<Seq<char>, FailureModel> {
    (w.file)(agent::item_request(item, w.settings))
}

/// The step that follows a step.
pub open spec fn next(step: StepModel, w: World) -> StepModel {
    match step {
        StepModel::LoadPatterns { request } => agent::after_patterns((w.patterns)(request)),
        StepModel::LookForTodo { entries } => agent::after_look(
            entries,
            w.todo_exists,
            w.settings,
        ),
        StepModel::FetchPlanPrompt { request, task } => agent::after_plan_prompt(
            task,
            (w.file)(request),
        ),
        StepModel::RunPlan { prompt, tools } => agent::after_plan((w.ending)(prompt, tools)),
        StepModel::LookForPlan => agent::after_plan_look(w.plan_exists, w.path),
        StepModel::ReadTodo { entries } => agent::after_read(entries, w.read, w.path),
        StepModel::FetchItemPrompt { item } => agent::after_item_prompt(item, item_file(w, item)),
        StepModel::RunItem { item, prompt, tools } => agent::after_item(
            item,
            (w.ending)(prompt, tools),
            w.assistant,
        ),
        StepModel::ReadAgain { item } => agent::after_read_again(item, w.read_again),
        StepModel::WriteTodo { content: _ } => agent::after_write(w.written),
        StepModel::Done { result } => StepModel::Done { result },
    }
}

/// The step after `n` steps of an iteration.
pub open spec fn step_at(w: World, n: nat) -> StepModel
    decreases n,
{
    if n == 0 {
        agent::iteration_start(w.settings)
    } else {
        next(step_at(w, (n - 1) as nat), w)
    }
}

/// How an iteration ends.
pub open spec fn final_step(w: World) -> StepModel {
    step_at(w, 7)
}

/// The steps of an iteration, one by one.
proof fn steps_unfold(w: World)
    ensures
        step_at(w, 0) == agent::iteration_start(w.settings),
        step_at(w, 1) == next(step_at(w, 0), w),
        step_at(w, 2) == next(step_at(w, 1), w),
        step_at(w, 3) == next(step_at(w, 2), w),
        step_at(w, 4) == next(step_at(w, 3), w),
        step_at(w, 5) == next(step_at(w, 4), w),
        step_at(w, 6) == next(step_at(w, 5), w),
        step_at(w, 7) == next(step_at(w, 6), w),
{
    reveal_with_fuel(step_at, 8);
}

/// An iteration ends after seven steps at most.
pub proof fn law_iteration_ends(w: World)
    ensures
        final_step(w) is Done,
{
    steps_unfold(w);
}

/// Once an iteration is over, it stays so.
proof fn done_stays(w: World, m: nat, n: nat)
    requires
        m <= n,
        step_at(w, m) is Done,
    ensures
        step_at(w, n) == step_at(w, m),
    decreases n - m,
{
    if m < n {
        done_stays(w, m, (n - 1) as nat);
    }
}

/// The patterns and the prompt file of the plan phase are always to be had, unless a cached copy
/// or the body of a response cannot be read.
pub proof fn law_an_iteration_can_always_begin(settings: SettingsModel, world: FetchWorld)
    requires
        world.read is Ok,
        forall|url: Seq<char>| !(#[trigger] (world.download)(url) is Unreadable),
    ensures
        agent::iteration_start(settings) matches StepModel::LoadPatterns { request }
            && fetch::fetched(request, settings.bundle, world) matches FetchStepOf::Finish(Ok(_)),
        agent::plan_start(settings) matches StepModel::FetchPlanPrompt { request, task: _ }
            && fetch::fetched(request, settings.bundle, world) matches FetchStepOf::Finish(Ok(_)),
{
    fetch::law_fallback_is_always_there(
        agent::patterns_request(settings),
        settings.bundle,
        world,
    );
    fetch::law_fallback_is_always_there(agent::plan_request(settings), settings.bundle, world);
}

/// An iteration reports that everything is done exactly where the patterns are in order, there is
/// a `todo.md` that can be read, and no task in it is left to do.
pub proof fn law_done_means_no_task_left(w: World)
    ensures
        final_step(w) == (StepModel::Done { result: Ok::<bool, FailureModel>(true) }) <==> {
            &&& parsed(w) matches Ok(Ok(entries))
            &&& patterns::first_invalid(entries) is None
            &&& w.todo_exists
            &&& w.read matches Ok(content)
            &&& todo::tasks(text::lines(content)).len() == 0
        },
{
    steps_unfold(w);
    if let Ok(Ok(entries)) = parsed(w) {
        if let Ok(content) = w.read {
            todo_laws::law_first_item_is_next(content, entries);
        }
    }
}

/// Without a `todo.md` no task is worked on: the plan phase runs, and the iteration succeeds
/// exactly where the assistant succeeds and leaves a `todo.md` behind.
pub proof fn law_plan_phase_without_todo(w: World)
    requires
        parsed(w) matches Ok(Ok(entries)) && patterns::first_invalid(entries) is None,
        !w.todo_exists,
    ensures
        step_at(w, 2) == agent::plan_start(w.settings),
        final_step(w) == (StepModel::Done { result: Ok::<bool, FailureModel>(false) }) <==> {
            &&& agent::after_plan_prompt(
                agent::plan_task(w.settings.task),
                plan_file(w),
            ) matches StepModel::RunPlan { prompt, tools }
            &&& (w.ending)(prompt, tools) is Ok
            &&& w.plan_exists
        },
{
    steps_unfold(w);
}

/// `todo.md` is only written once the assistant has succeeded on the first task of the file, and
/// then with the line of that task checked off in what is read again.
pub proof fn law_written_only_after_success(w: World, n: nat)
    requires
        step_at(w, n) is WriteTodo,
    ensures
        ({
            let entries = parsed(w)->Ok_0->Ok_0;
            let content = w.read->Ok_0;
            let item = todo::items(content, entries)[0];
            let run = agent::after_item_prompt(item, item_file(w, item));
            let again = w.read_again->Ok_0;
            &&& parsed(w) is Ok && parsed(w)->Ok_0 is Ok
            &&& w.read is Ok
            &&& todo::items(content, entries).len() > 0
            &&& run is RunItem
            &&& (w.ending)(run->RunItem_prompt, run->RunItem_tools) is Ok
            &&& w.read_again is Ok
            &&& step_at(w, n) == (StepModel::WriteTodo {
                content: todo::checked_off(again, item.line_index as int),
            })
        }),
{
    steps_unfold(w);
    if let Ok(Ok(entries)) = parsed(w) {
        if let Ok(content) = w.read {
            todo_laws::law_first_item_is_next(content, entries);
        }
    }
    if n > 7 {
        law_iteration_ends(w);
        done_stays(w, 7, n);
    }
}

/// Where the assistant leaves `todo.md` as it is, an iteration that succeeds on a task writes a
/// `todo.md` in which the first task is done and the others are as they were.
pub proof fn law_iteration_does_the_first_task(w: World, n: nat)
    requires
        step_at(w, n) is WriteTodo,
        w.read_again == w.read,
    ensures
        todo::items(step_at(w, n)->WriteTodo_content, parsed(w)->Ok_0->Ok_0) == todo::items(
            w.read->Ok_0,
            parsed(w)->Ok_0->Ok_0,
        ).skip(1),
{
    law_written_only_after_success(w, n);
    let its = todo::items(w.read->Ok_0, parsed(w)->Ok_0->Ok_0);
    todo_laws::law_checking_off_removes_the_item(w.read->Ok_0, parsed(w)->Ok_0->Ok_0, 0);
    assert(its.remove(0) =~= its.skip(1));
}

/// Where there is a task and everything goes well, `todo.md` is written and the iteration
/// succeeds.
pub proof fn law_iteration_succeeds_when_all_goes_well(
    w: World,
    entries: Seq<EntryModel>,
    content: Seq<char>,
    again: Seq<char>,
)
    requires
        parsed(w) == Ok::<_, FailureModel>(Ok::<_, Seq<char>>(entries)),
        patterns::first_invalid(entries) is None,
        w.todo_exists,
        w.read == Ok::<_, Seq<char>>(content),
        todo::items(content, entries).len() > 0,
        forall|request: RequestModel| (#[trigger] (w.file)(request)) is Ok,
        forall|prompt: Seq<char>, tools: Seq<Seq<char>>|
            (#[trigger] (w.ending)(prompt, tools)) is Ok,
        w.read_again == Ok::<_, Seq<char>>(again),
        todo::items(content, entries)[0].line_index < text::lines(again).len(),
        w.written is Ok,
    ensures
        step_at(w, 6) == (StepModel::WriteTodo {
            content: todo::checked_off(
                again,
                todo::items(content, entries)[0].line_index as int,
            ),
        }),
        final_step(w) == (StepModel::Done { result: Ok::<bool, FailureModel>(false) }),
{
    steps_unfold(w);
    todo_laws::law_first_item_is_next(content, entries);
    let item = todo::items(content, entries)[0];
    assert(item_file(w, item) is Ok);
    let run = step_at(w, 4);
    assert((w.ending)(run->RunItem_prompt, run->RunItem_tools) is Ok);
}

/// A task that the assistant fails on is not checked off: nothing is written, and the iteration
/// fails with the description of the task.
pub proof fn law_failed_task_is_kept(w: World, item: ItemModel, n: nat)
    requires
        step_at(w, 3) == (StepModel::FetchItemPrompt { item }),
        next(StepModel::FetchItemPrompt { item }, w) matches StepModel::RunItem {
            item: _,
            prompt,
            tools,
        } && (w.ending)(prompt, tools) is Err,
    ensures
        !(step_at(w, n) is WriteTodo),
        final_step(w) matches StepModel::Done { result: Err(FailureOf::Task {
            description,
            cause: _,
        }) } && description == item.description,
{
    steps_unfold(w);
    if n > 7 {
        law_iteration_ends(w);
        done_stays(w, 7, n);
    }
}

/// The agent only ends by itself once everything is done and it is told to end then.
pub proof fn law_agent_ends_only_when_done(done: Option<bool>, on_complete: OnComplete, sleep: u64)
    ensures
        agent::action_after(done, on_complete, sleep) == LoopAction::Exit <==> done == Some(true)
            && on_complete == OnComplete::Exit,
        agent::action_after(done, on_complete, sleep) == LoopAction::Replan <==> done == Some(true)
            && on_complete == OnComplete::Replan,
{
}

/// Whatever fails ends the iteration at once with that failure: nothing is tried in its place.
pub proof fn law_failures_end_the_iteration(
    f: FailureModel,
    cause: Seq<char>,
    path: Seq<char>,
    task: Seq<char>,
    entries: Seq<EntryModel>,
    item: ItemModel,
    assistant: Seq<char>,
    k: int,
)
    ensures
        ({
            let ended = |f: FailureModel| StepModel::Done { result: Err(f) };
            &&& agent::after_patterns(Err(f)) == ended(f)
            &&& agent::after_patterns(Ok(Err(cause))) == ended(FailureOf::ParsePatterns { cause })
            &&& agent::after_plan_prompt(task, Err(f)) == ended(f)
            &&& agent::after_plan(Err(f)) == ended(f)
            &&& agent::after_plan_look(false, path) == ended(FailureOf::PlanNotCreated { path })
            &&& agent::after_read(entries, Err(cause), path) == ended(
                FailureOf::ReadTodo { path, cause },
            )
            &&& agent::after_item_prompt(item, Err(f)) == ended(f)
            &&& agent::after_item(item, Err(f), assistant) == ended(
                FailureOf::Task {
                    description: item.description,
                    cause: failure::report(f, assistant),
                },
            )
            &&& agent::after_read_again(item, Err(cause)) == ended(FailureOf::CheckOff { cause })
            &&& agent::after_write(Err(cause)) == ended(FailureOf::CheckOff { cause })
        }),
        0 <= k < entries.len() && patterns::regex_compile(entries[k].regex, usize::BITS as nat)
            is Err && (forall|j: int|
            0 <= j < k ==> patterns::regex_compile(
                (#[trigger] entries[j]).regex,
                usize::BITS as nat,
            ) is Ok) ==> agent::after_patterns(Ok(Ok(entries))) == (StepModel::Done {
            result: Err::<bool, FailureModel>(
                FailureOf::InvalidRegex {
                    regex: entries[k].regex,
                    cause: patterns::regex_error_text(
                        patterns::regex_compile(entries[k].regex, usize::BITS as nat)->Err_0,
                    ),
                },
            ),
        }),
{
    pattern_laws::law_the_first_bad_pattern_is_refused(entries);
}

/// Whatever succeeds leads on: with patterns that compile `todo.md` is looked for and read, with
/// no task in it everything is done, and with one its prompt file is fetched; once the assistant
/// has succeeded the task is checked off, and the iteration succeeds once that is written.
pub proof fn law_success_leads_on(
    entries: Seq<EntryModel>,
    settings: SettingsModel,
    item: ItemModel,
    content: Seq<char>,
    path: Seq<char>,
    assistant: Seq<char>,
)
    ensures
        (forall|j: int|
            0 <= j < entries.len() ==> patterns::regex_compile(
                (#[trigger] entries[j]).regex,
                usize::BITS as nat,
            ) is Ok) ==> agent::after_patterns(Ok(Ok(entries))) == (StepModel::LookForTodo {
            entries,
        }),
        agent::after_look(entries, true, settings) == (StepModel::ReadTodo { entries }),
        agent::after_look(entries, false, settings) is FetchPlanPrompt,
        agent::after_plan(Ok(())) == StepModel::LookForPlan,
        agent::after_plan_look(true, path) == (StepModel::Done {
            result: Ok::<bool, FailureModel>(false),
        }),
        todo::items(content, entries).len() == 0 ==> agent::after_read(entries, Ok(content), path)
            == (StepModel::Done { result: Ok::<bool, FailureModel>(true) }),
        todo::items(content, entries).len() > 0 ==> agent::after_read(entries, Ok(content), path)
            == (StepModel::FetchItemPrompt { item: todo::items(content, entries)[0] }),
        agent::after_item(item, Ok(()), assistant) == (StepModel::ReadAgain { item }),
        item.line_index < text::lines(content).len() ==> agent::after_read_again(item, Ok(content))
            == (StepModel::WriteTodo {
            content: todo::checked_off(content, item.line_index as int),
        }),
        item.line_index >= text::lines(content).len() ==> agent::after_read_again(
            item,
            Ok(content),
        ) == (StepModel::Done { result: Err::<bool, FailureModel>(FailureOf::LineOutOfRange) }),
        agent::after_write(Ok(())) == (StepModel::Done { result: Ok::<bool, FailureModel>(false) }),
{
    pattern_laws::law_the_first_bad_pattern_is_refused(entries);
    todo_laws::law_first_item_is_next(content, entries);
}

/// The assistant is given the prompt that the item names, with the description and every sub-step
/// of the item filled in, and the tools that the file of the prompt names, whatever they are.
pub proof fn law_the_item_is_handed_over(
    settings: SettingsModel,
    item: ItemModel,
    raw: Seq<char>,
)
    ensures
        agent::item_request(item, settings) == (RequestOf {
            name: item.prompt_name + ".prompt"@,
            fallback: None::<Seq<char>>,
            no_cache: settings.no_cache,
            repo: settings.repo,
        }),
        agent::after_item_prompt(item, Ok(raw)) == (StepModel::RunItem {
            item,
            prompt: prompt::filled(prompt::file_body(raw), item.description, item.sub_steps),
            tools: prompt::file_tools(raw),
        }),
{
}

/// The plan phase asks for `plan.prompt`, which is bundled with the program, and gives the
/// assistant the task to plan, or one that stands for it where none is given, without sub-steps.
pub proof fn law_the_task_is_planned(settings: SettingsModel, task: Seq<char>, raw: Seq<char>)
    ensures
        agent::plan_start(settings) == (StepModel::FetchPlanPrompt {
            request: RequestOf {
                name: "plan.prompt"@,
                fallback: Some(settings.bundle.plan),
                no_cache: settings.no_cache,
                repo: settings.repo,
            },
            task: match settings.task {
                Some(task) => task,
                None => "Analyse the current directory and plan the project"@,
            },
        }),
        agent::after_plan_prompt(task, Ok(raw)) == (StepModel::RunPlan {
            prompt: prompt::filled(prompt::file_body(raw), task, seq![]),
            tools: prompt::file_tools(raw),
        }),
{
}

/// An iteration begins with `patterns.json`, which is bundled with the program.
pub proof fn law_patterns_come_first(settings: SettingsModel)
    ensures
        agent::iteration_start(settings) == (StepModel::LoadPatterns {
            request: RequestOf {
                name: "patterns.json"@,
                fallback: Some(settings.bundle.patterns),
                no_cache: settings.no_cache,
                repo: settings.repo,
            },
        }),
{
}

/// Between two iterations the agent sleeps as long as it is told to, three times as long after a
/// failure, and ten times as long where it waits for tasks; and as long as it can where that is
/// more than a number of seconds holds.
pub proof fn law_how_long_the_agent_sleeps(on_complete: OnComplete, sleep: u64, seconds: u64)
    ensures
        agent::action_after(Some(false), on_complete, sleep) == (LoopAction::Sleep {
            seconds: sleep,
        }),
        seconds == (if 3 * sleep <= u64::MAX {
            3 * sleep
        } else {
            u64::MAX as int
        }) ==> agent::action_after(None, on_complete, sleep) == (LoopAction::Sleep { seconds }),
        seconds == (if 10 * sleep <= u64::MAX {
            10 * sleep
        } else {
            u64::MAX as int
        }) ==> agent::action_after(Some(true), OnComplete::Wait, sleep) == (LoopAction::Sleep {
            seconds,
        }),
{
}

/// The settings and the answers are taken as they are: nothing of them is lost or changed.
pub proof fn law_nothing_is_lost_of_an_answer(
    settings: Settings,
    entries: Vec<PatternEntry>,
    cause: String,
    f: Failure,
)
    ensures
        settings.task matches Some(s) ==> settings@.task == Some(s@),
        settings.task is None ==> settings@.task is None,
        settings@.no_cache == settings.no_cache,
        settings.repo matches Some(s) ==> settings@.repo == Some(s@),
        settings.repo is None ==> settings@.repo is None,
        settings@.bundle.plan == settings.bundle.plan@,
        settings@.bundle.architect == settings.bundle.architect@,
        settings@.bundle.research == settings.bundle.research@,
        settings@.bundle.todo == settings.bundle.todo@,
        settings@.bundle.test == settings.bundle.test@,
        settings@.bundle.patterns == settings.bundle.patterns@,
        agent::entries_of(Ok(Ok(entries))) == Ok::<_, FailureModel>(
            Ok::<_, Seq<char>>(patterns::entry_models(entries@)),
        ),
        agent::entries_of(Ok(Err(cause))) == Ok::<_, FailureModel>(
            Err::<Seq<EntryModel>, _>(cause@),
        ),
        agent::entries_of(Err(f)) == Err::<Result<Seq<EntryModel>, Seq<char>>, _>(f@),
        agent::cause_of(Err(cause)) == Err::<(), _>(cause@),
        agent::cause_of(Ok(())) is Ok,
        runner::ending_of(Err(f)) == Err::<(), _>(f@),
        runner::ending_of(Ok(())) is Ok,
{
}

} // verus!
