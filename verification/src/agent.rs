//! What the agent does next: the steps of one iteration, and what follows it.
//!
//! A step says what is to be done in the world. Whoever does it answers the step with what came
//! of it, and gets the next one.

use vstd::prelude::*;
use crate::failure;
use crate::failure::{Failure, FailureModel, FailureOf};
use crate::fetch;
use crate::fetch::{BundleOf, Request, RequestModel, RequestOf};
use crate::patterns;
use crate::patterns::{EntryModel, PatternEntry, PatternSet};
use crate::prompt;
use crate::runner;
use crate::text;
use crate::todo;
use crate::todo::{ItemModel, TodoItem};

verus! {

/// What an iteration is given, over texts of type `T`.
pub struct SettingsOf<T> {
    /// What is to be planned.
    pub task: Option<T>,
    /// Whether cached copies of files are passed over.
    pub no_cache: bool,
    /// The repository on GitHub that files are fetched from, as `owner/repo`.
    pub repo: Option<T>,
    /// The files that are bundled with the program.
    pub bundle: BundleOf<T>,
}

/// What an iteration is given.
pub type Settings = SettingsOf<String>;

/// What the settings hold.
pub type SettingsModel = SettingsOf<Seq<char>>;

impl View for SettingsOf<String> {
    type V = SettingsModel;

    open spec fn view(&self) -> SettingsModel {
        SettingsOf {
            task: fetch::text_of(self.task),
            no_cache: self.no_cache,
            repo: fetch::text_of(self.repo),
            bundle: self.bundle@,
        }
    }
}

/// `patterns.json` is to be fetched and parsed.
pub struct LoadPatterns {
    pub request: Request,
}

/// Whether there is a `todo.md` is to be found out.
pub struct LookForTodo {
    pub patterns: PatternSet,
}

/// The prompt file of the plan phase is to be fetched.
pub struct FetchPlanPrompt {
    pub request: Request,
    /// What is to be planned.
    pub task: String,
}

/// The assistant is to plan.
pub struct RunPlan {
    pub prompt: String,
    pub allowed_tools: Vec<String>,
}

/// Whether there is a `todo.md` now is to be found out.
pub struct LookForPlan;

/// `todo.md` is to be read.
pub struct ReadTodo {
    pub patterns: PatternSet,
}

/// The prompt file for the item is to be fetched.
pub struct FetchItemPrompt {
    pub item: TodoItem,
}

/// The assistant is to work on the item.
pub struct RunItem {
    pub item: TodoItem,
    pub prompt: String,
    pub allowed_tools: Vec<String>,
}

/// `todo.md` is to be read once more, to check the item off.
pub struct ReadAgain {
    pub item: TodoItem,
}

/// `todo.md` is to be written.
pub struct WriteTodo {
    pub content: String,
}

/// What is to be done next in an iteration.
pub enum Step {
    LoadPatterns(LoadPatterns),
    LookForTodo(LookForTodo),
    FetchPlanPrompt(FetchPlanPrompt),
    RunPlan(RunPlan),
    LookForPlan(LookForPlan),
    ReadTodo(ReadTodo),
    FetchItemPrompt(FetchItemPrompt),
    RunItem(RunItem),
    ReadAgain(ReadAgain),
    WriteTodo(WriteTodo),
    /// The iteration is over: whether everything is done, or why it failed.
    Done(Result<bool, Failure>),
}

/// What a step holds.
#[verifier::ext_equal]
pub enum StepModel {
    LoadPatterns { request: RequestModel },
    LookForTodo { entries: Seq<EntryModel> },
    FetchPlanPrompt { request: RequestModel, task: Seq<char> },
    RunPlan { prompt: Seq<char>, tools: Seq<Seq<char>> },
    LookForPlan,
    ReadTodo { entries: Seq<EntryModel> },
    FetchItemPrompt { item: ItemModel },
    RunItem { item: ItemModel, prompt: Seq<char>, tools: Seq<Seq<char>> },
    ReadAgain { item: ItemModel },
    WriteTodo { content: Seq<char> },
    Done { result: Result<bool, FailureModel> },
}

impl View for Step {
    type V = StepModel;

    open spec fn view(&self) -> StepModel {
        match *self {
            Step::LoadPatterns(s) => StepModel::LoadPatterns { request: s.request@ },
            Step::LookForTodo(s) => StepModel::LookForTodo { entries: s.patterns@ },
            Step::FetchPlanPrompt(s) => StepModel::FetchPlanPrompt {
                request: s.request@,
                task: s.task@,
            },
            Step::RunPlan(s) => StepModel::RunPlan {
                prompt: s.prompt@,
                tools: text::texts(s.allowed_tools@),
            },
            Step::LookForPlan(_) => StepModel::LookForPlan,
            Step::ReadTodo(s) => StepModel::ReadTodo { entries: s.patterns@ },
            Step::FetchItemPrompt(s) => StepModel::FetchItemPrompt { item: s.item@ },
            Step::RunItem(s) => StepModel::RunItem {
                item: s.item@,
                prompt: s.prompt@,
                tools: text::texts(s.allowed_tools@),
            },
            Step::ReadAgain(s) => StepModel::ReadAgain { item: s.item@ },
            Step::WriteTodo(s) => StepModel::WriteTodo { content: s.content@ },
            Step::Done(Ok(b)) => StepModel::Done { result: Ok(b) },
            Step::Done(Err(f)) => StepModel::Done { result: Err(f@) },
        }
    }
}

/// The iteration fails.
pub open spec fn failed(f: FailureModel) -> StepModel {
    StepModel::Done { result: Err(f) }
}

/// The request for a file.
pub open spec fn request_for(
    name: Seq<char>,
    fallback: Option<Seq<char>>,
    settings: SettingsModel,
) -> RequestModel {
    RequestOf { name, fallback, no_cache: settings.no_cache, repo: settings.repo }
}

/// The request for `patterns.json`: the bundled one is the fallback.
pub open spec fn patterns_request(settings: SettingsModel) -> RequestModel {
    request_for("patterns.json"@, Some(settings.bundle.patterns), settings)
}

/// The request for the prompt file of the plan phase: the bundled one is the fallback.
pub open spec fn plan_request(settings: SettingsModel) -> RequestModel {
    request_for("plan.prompt"@, Some(settings.bundle.plan), settings)
}

/// The request for the prompt file for an item, which has no fallback of its own.
pub open spec fn item_request(item: ItemModel, settings: SettingsModel) -> RequestModel {
    request_for(prompt_file(item), None, settings)
}

/// The first step of an iteration.
pub open spec fn iteration_start(settings: SettingsModel) -> StepModel {
    StepModel::LoadPatterns { request: patterns_request(settings) }
}

/// What is planned where nothing else is said.
pub open spec fn plan_task(task: Option<Seq<char>>) -> Seq<char> {
    match task {
        Some(task) => task,
        None => "Analyse the current directory and plan the project"@,
    }
}

/// The first step of the plan phase.
pub open spec fn plan_start(settings: SettingsModel) -> StepModel {
    StepModel::FetchPlanPrompt { request: plan_request(settings), task: plan_task(settings.task) }
}

/// The entries of `patterns.json`, or what is wrong with the file.
pub type Parsed = Result<Vec<PatternEntry>, String>;

/// What the parsed entries, or the failure to fetch them, hold.
pub open spec fn entries_of(r: Result<Parsed, Failure>) -> Result<
    Result<Seq<EntryModel>, Seq<char>>,
    FailureModel,
> {
    match r {
        Ok(Ok(entries)) => Ok(Ok(patterns::entry_models(entries@))),
        Ok(Err(cause)) => Ok(Err(cause@)),
        Err(f) => Err(f@),
    }
}

/// The step once `patterns.json` was fetched and parsed.
pub open spec fn after_patterns(
    parsed: Result<Result<Seq<EntryModel>, Seq<char>>, FailureModel>,
) -> StepModel {
    match parsed {
        Ok(Err(cause)) => failed(FailureOf::ParsePatterns { cause }),
        Ok(Ok(entries)) => match patterns::first_invalid(entries) {
            Some(i) => failed(
                FailureOf::InvalidRegex {
                    regex: entries[i].regex,
                    cause: patterns::regex_error_text(
                        patterns::compiled(entries[i].regex)->Err_0,
                    ),
                },
            ),
            None => StepModel::LookForTodo { entries },
        },
        Err(f) => failed(f),
    }
}

/// The step once it is known whether there is a `todo.md`.
pub open spec fn after_look(
    entries: Seq<EntryModel>,
    exists_now: bool,
    settings: SettingsModel,
) -> StepModel {
    if exists_now {
        StepModel::ReadTodo { entries }
    } else {
        plan_start(settings)
    }
}

/// The step once the prompt file of the plan phase is there, where `task` is what is to be
/// planned.
pub open spec fn after_plan_prompt(
    task: Seq<char>,
    file: Result<Seq<char>, FailureModel>,
) -> StepModel {
    match file {
        Ok(raw) => StepModel::RunPlan {
            prompt: prompt::filled(prompt::file_body(raw), task, seq![]),
            tools: prompt::file_tools(raw),
        },
        Err(f) => failed(f),
    }
}

/// The step once the assistant has planned.
pub open spec fn after_plan(ending: Result<(), FailureModel>) -> StepModel {
    match ending {
        Ok(()) => StepModel::LookForPlan,
        Err(f) => failed(f),
    }
}

/// The step once it is known whether the plan phase left a `todo.md` behind.
pub open spec fn after_plan_look(exists_now: bool, path: Seq<char>) -> StepModel {
    if exists_now {
        StepModel::Done { result: Ok(false) }
    } else {
        failed(FailureOf::PlanNotCreated { path })
    }
}

/// The step once `todo.md` was read.
pub open spec fn after_read(
    entries: Seq<EntryModel>,
    read: Result<Seq<char>, Seq<char>>,
    path: Seq<char>,
) -> StepModel {
    match read {
        Ok(content) => {
            let its = todo::items(content, entries);
            match todo::selection(its, text::lines(content)) {
                Some(i) => StepModel::FetchItemPrompt { item: its[i] },
                None => StepModel::Done { result: Ok(true) },
            }
        },
        Err(cause) => failed(FailureOf::ReadTodo { path, cause }),
    }
}

/// The name of the prompt file for an item.
pub open spec fn prompt_file(item: ItemModel) -> Seq<char> {
    item.prompt_name + ".prompt"@
}

/// The step once the prompt file for an item is there.
pub open spec fn after_item_prompt(
    item: ItemModel,
    file: Result<Seq<char>, FailureModel>,
) -> StepModel {
    match file {
        Ok(raw) => StepModel::RunItem {
            item,
            prompt: prompt::filled(prompt::file_body(raw), item.description, item.sub_steps),
            tools: prompt::file_tools(raw),
        },
        Err(f) => failed(f),
    }
}

/// The step once the assistant, called `assistant`, has worked on an item.
pub open spec fn after_item(
    item: ItemModel,
    ending: Result<(), FailureModel>,
    assistant: Seq<char>,
) -> StepModel {
    match ending {
        Ok(()) => StepModel::ReadAgain { item },
        Err(f) => failed(
            FailureOf::Task { description: item.description, cause: failure::report(f, assistant) },
        ),
    }
}

/// The step once `todo.md` was read once more.
pub open spec fn after_read_again(
    item: ItemModel,
    read: Result<Seq<char>, Seq<char>>,
) -> StepModel {
    match read {
        Ok(content) => if item.line_index < text::lines(content).len() {
            StepModel::WriteTodo {
                content: todo::checked_off(content, item.line_index as int),
            }
        } else {
            failed(FailureOf::LineOutOfRange)
        },
        Err(cause) => failed(FailureOf::CheckOff { cause }),
    }
}

/// The step once `todo.md` was written.
pub open spec fn after_write(written: Result<(), Seq<char>>) -> StepModel {
    match written {
        Ok(()) => StepModel::Done { result: Ok(false) },
        Err(cause) => failed(FailureOf::CheckOff { cause }),
    }
}

/// A copy of an optional text.
fn copied(s: &Option<String>) -> (r: Option<String>)
    ensures
        fetch::text_of(r) == fetch::text_of(*s),
{
    match s {
        Some(s) => Some(s.clone()),
        None => None,
    }
}

impl SettingsOf<String> {
    /// The request for a file.
    fn request(&self, name: String, fallback: Option<String>) -> (r: Request)
        ensures
            r@ == request_for(name@, fetch::text_of(fallback), self@),
    {
        RequestOf { name, fallback, no_cache: self.no_cache, repo: copied(&self.repo) }
    }
}

/// The first step of an iteration: to get `patterns.json`.
pub fn run_iteration(settings: &Settings) -> (step: Step)
    ensures
        step@ == iteration_start(settings@),
{
    let fallback = Some(settings.bundle.patterns.clone());
    let request = settings.request("patterns.json".to_owned(), fallback);
    Step::LoadPatterns(LoadPatterns { request })
}

impl LoadPatterns {
    /// The step once `patterns.json` was fetched and parsed.
    pub fn answer(self, parsed: Result<Parsed, Failure>) -> (step: Step)
        ensures
            step@ == after_patterns(entries_of(parsed)),
    {
        match parsed {
            Ok(Err(cause)) => Step::Done(Err(FailureOf::ParsePatterns { cause })),
            Ok(Ok(entries)) => match PatternSet::load(entries) {
                Ok(patterns) => Step::LookForTodo(LookForTodo { patterns }),
                Err(e) => {
                    let cause = patterns::error_text(&e.cause);
                    Step::Done(Err(FailureOf::InvalidRegex { regex: e.regex, cause }))
                },
            },
            Err(f) => Step::Done(Err(f)),
        }
    }
}

impl LookForTodo {
    /// The step once it is known whether there is a `todo.md`.
    pub fn answer(self, exists_now: bool, settings: &Settings) -> (step: Step)
        ensures
            step@ == after_look(self.patterns@, exists_now, settings@),
    {
        if exists_now {
            Step::ReadTodo(ReadTodo { patterns: self.patterns })
        } else {
            run_plan(settings)
        }
    }
}

/// The first step of the plan phase: to get its prompt file.
pub fn run_plan(settings: &Settings) -> (step: Step)
    ensures
        step@ == plan_start(settings@),
{
    let task = match &settings.task {
        Some(task) => task.clone(),
        None => "Analyse the current directory and plan the project".to_owned(),
    };
    let fallback = Some(settings.bundle.plan.clone());
    let request = settings.request("plan.prompt".to_owned(), fallback);
    Step::FetchPlanPrompt(FetchPlanPrompt { request, task })
}

impl FetchPlanPrompt {
    /// The step once the prompt file of the plan phase is there.
    pub fn answer(self, file: Result<String, Failure>) -> (step: Step)
        ensures
            step@ == after_plan_prompt(self.task@, fetch::outcome_of(file)),
    {
        match file {
            Ok(raw) => {
                let (meta, template) = prompt::parse_frontmatter(&raw);
                let none: Vec<String> = Vec::new();
                assert(text::texts(none@) == Seq::<Seq<char>>::empty());
                let prompt = prompt::fill_prompt(template, &self.task, &none);
                Step::RunPlan(RunPlan { prompt, allowed_tools: meta.allowed_tools })
            },
            Err(f) => Step::Done(Err(f)),
        }
    }
}

impl RunPlan {
    /// The step once the assistant has planned.
    pub fn answer(self, ending: Result<(), Failure>) -> (step: Step)
        ensures
            step@ == after_plan(runner::ending_of(ending)),
    {
        match ending {
            Ok(()) => Step::LookForPlan(LookForPlan),
            Err(f) => Step::Done(Err(f)),
        }
    }
}

impl LookForPlan {
    /// The step once it is known whether the plan phase left a `todo.md` behind at `path`.
    pub fn answer(self, exists_now: bool, path: &str) -> (step: Step)
        ensures
            step@ == after_plan_look(exists_now, path@),
    {
        if exists_now {
            Step::Done(Ok(false))
        } else {
            Step::Done(Err(FailureOf::PlanNotCreated { path: path.to_owned() }))
        }
    }
}

impl ReadTodo {
    /// The step once `todo.md`, at `path`, was read.
    pub fn answer(self, read: Result<String, String>, path: &str) -> (step: Step)
        ensures
            step@ == after_read(self.patterns@, fetch::texts_of(read), path@),
    {
        match read {
            Ok(content) => {
                let items = todo::parse_todo(&content, &self.patterns);
                proof {
                    crate::todo_laws::law_first_item_is_next(content@, self.patterns@);
                }
                match todo::select_next_item(&items, &content) {
                    Some(item) => Step::FetchItemPrompt(FetchItemPrompt { item: item.clone() }),
                    None => Step::Done(Ok(true)),
                }
            },
            Err(cause) => Step::Done(Err(FailureOf::ReadTodo { path: path.to_owned(), cause })),
        }
    }
}

impl FetchItemPrompt {
    /// The name of the prompt file.
    pub fn file_name(&self) -> (s: String)
        ensures
            s@ == prompt_file(self.item@),
    {
        let mut s = self.item.prompt_name.clone();
        s.append(".prompt");
        s
    }

    /// The request for the prompt file.
    pub fn request(&self, settings: &Settings) -> (r: Request)
        ensures
            r@ == item_request(self.item@, settings@),
    {
        settings.request(self.file_name(), None)
    }

    /// The step once the prompt file is there.
    pub fn answer(self, file: Result<String, Failure>) -> (step: Step)
        ensures
            step@ == after_item_prompt(self.item@, fetch::outcome_of(file)),
    {
        match file {
            Ok(raw) => {
                let (meta, template) = prompt::parse_frontmatter(&raw);
                let prompt = prompt::fill_prompt(
                    template,
                    &self.item.description,
                    &self.item.sub_steps,
                );
                Step::RunItem(
                    RunItem { item: self.item, prompt, allowed_tools: meta.allowed_tools },
                )
            },
            Err(f) => Step::Done(Err(f)),
        }
    }
}

impl RunItem {
    /// The step once the assistant, called `assistant`, has worked on the item.
    pub fn answer(self, ending: Result<(), Failure>, assistant: &str) -> (step: Step)
        ensures
            step@ == after_item(self.item@, runner::ending_of(ending), assistant@),
    {
        match ending {
            Ok(()) => Step::ReadAgain(ReadAgain { item: self.item }),
            Err(f) => Step::Done(
                Err(
                    FailureOf::Task {
                        description: self.item.description,
                        cause: f.message(assistant),
                    },
                ),
            ),
        }
    }
}

impl ReadAgain {
    /// The step once `todo.md` was read once more.
    pub fn answer(self, read: Result<String, String>) -> (step: Step)
        ensures
            step@ == after_read_again(self.item@, fetch::texts_of(read)),
    {
        match read {
            Ok(content) => match todo::mark_done(&content, self.item.line_index) {
                Ok(content) => Step::WriteTodo(WriteTodo { content }),
                Err(_) => Step::Done(Err(FailureOf::LineOutOfRange)),
            },
            Err(cause) => Step::Done(Err(FailureOf::CheckOff { cause })),
        }
    }
}

/// What the cause in a result holds.
pub open spec fn cause_of(r: Result<(), String>) -> Result<(), Seq<char>> {
    match r {
        Ok(()) => Ok(()),
        Err(s) => Err(s@),
    }
}

impl WriteTodo {
    /// The step once `todo.md` was written.
    pub fn answer(self, written: Result<(), String>) -> (step: Step)
        ensures
            step@ == after_write(cause_of(written)),
    {
        match written {
            Ok(()) => Step::Done(Ok(false)),
            Err(cause) => Step::Done(Err(FailureOf::CheckOff { cause })),
        }
    }
}

/// What the agent does once everything is done.
#[derive(Clone, Copy, PartialEq, Eq, Structural, Debug)]
pub enum OnComplete {
    /// It ends.
    Exit,
    /// It waits for new tasks.
    Wait,
    /// It plans anew.
    Replan,
}

/// What follows an iteration.
#[derive(Clone, Copy, PartialEq, Eq, Structural, Debug)]
pub enum LoopAction {
    /// The agent ends.
    Exit,
    /// The next iteration begins after that many seconds.
    Sleep { seconds: u64 },
    /// `todo.md` is removed, and the next iteration begins.
    Replan,
}

/// `n` times `by`, or the largest number where that is too much.
pub open spec fn times(n: u64, by: int) -> u64 {
    if n * by > u64::MAX {
        u64::MAX
    } else {
        (n * by) as u64
    }
}

/// What follows an iteration that gave `done`, or failed where that is `None`.
pub open spec fn action_after(
    done: Option<bool>,
    on_complete: OnComplete,
    sleep: u64,
) -> LoopAction {
    match (done, on_complete) {
        (Some(true), OnComplete::Exit) => LoopAction::Exit,
        (Some(true), OnComplete::Wait) => LoopAction::Sleep { seconds: times(sleep, 10) },
        (Some(true), OnComplete::Replan) => LoopAction::Replan,
        (Some(false), _) => LoopAction::Sleep { seconds: sleep },
        (None, _) => LoopAction::Sleep { seconds: times(sleep, 3) },
    }
}

/// `n` times `by`, or the largest number where that is too much.
fn saturating_times(n: u64, by: u64) -> (r: u64)
    ensures
        r == times(n, by as int),
{
    match n.checked_mul(by) {
        Some(r) => r,
        None => u64::MAX,
    }
}

/// What follows an iteration, where `sleep` is the number of seconds between two.
pub fn after_iteration(
    outcome: &Result<bool, Failure>,
    on_complete: OnComplete,
    sleep: u64,
) -> (action: LoopAction)
    ensures
        action == action_after(
            match *outcome {
                Ok(done) => Some(done),
                Err(_) => None,
            },
            on_complete,
            sleep,
        ),
{
    match outcome {
        Ok(true) => match on_complete {
            OnComplete::Exit => LoopAction::Exit,
            OnComplete::Wait => LoopAction::Sleep { seconds: saturating_times(sleep, 10) },
            OnComplete::Replan => LoopAction::Replan,
        },
        Ok(false) => LoopAction::Sleep { seconds: sleep },
        Err(_) => LoopAction::Sleep { seconds: saturating_times(sleep, 3) },
    }
}

} // verus!
