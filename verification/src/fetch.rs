//! Where prompt files and `patterns.json` come from: the cache, a repository on GitHub, or what
//! is bundled with the program, in this order.

use vstd::prelude::*;
use crate::failure::{Failure, FailureModel, FailureOf};
use crate::scan;

verus! {

/// The files that are bundled with the program, over texts of type `T`.
pub struct BundleOf<T> {
    pub plan: T,
    pub architect: T,
    pub research: T,
    pub todo: T,
    pub test: T,
    pub patterns: T,
}

/// The files that are bundled with the program.
pub type Bundle = BundleOf<String>;

/// What the bundled files hold.
pub type BundleModel = BundleOf<Seq<char>>;

impl View for BundleOf<String> {
    type V = BundleModel;

    open spec fn view(&self) -> BundleModel {
        BundleOf {
            plan: self.plan@,
            architect: self.architect@,
            research: self.research@,
            todo: self.todo@,
            test: self.test@,
            patterns: self.patterns@,
        }
    }
}

/// The bundled file of that name.
pub open spec fn bundled_file(bundle: BundleModel, name: Seq<char>) -> Option<Seq<char>> {
    if name == "plan.prompt"@ {
        Some(bundle.plan)
    } else if name == "architect.prompt"@ {
        Some(bundle.architect)
    } else if name == "research.prompt"@ {
        Some(bundle.research)
    } else if name == "todo.prompt"@ {
        Some(bundle.todo)
    } else if name == "test.prompt"@ {
        Some(bundle.test)
    } else if name == "patterns.json"@ {
        Some(bundle.patterns)
    } else {
        None
    }
}

impl BundleOf<String> {
    /// The bundled file of that name.
    pub fn file(&self, name: &str) -> (r: Option<&String>)
        ensures
            match r {
                Some(file) => bundled_file(self@, name@) == Some(file@),
                None => bundled_file(self@, name@) is None,
            },
    {
        if scan::same_text(name, "plan.prompt") {
            Some(&self.plan)
        } else if scan::same_text(name, "architect.prompt") {
            Some(&self.architect)
        } else if scan::same_text(name, "research.prompt") {
            Some(&self.research)
        } else if scan::same_text(name, "todo.prompt") {
            Some(&self.todo)
        } else if scan::same_text(name, "test.prompt") {
            Some(&self.test)
        } else if scan::same_text(name, "patterns.json") {
            Some(&self.patterns)
        } else {
            None
        }
    }
}

/// What is asked for, over texts of type `T`.
pub struct RequestOf<T> {
    /// The name of the file.
    pub name: T,
    /// The text to use where the file is neither cached nor to be had from the repository.
    pub fallback: Option<T>,
    /// Whether a cached copy is passed over.
    pub no_cache: bool,
    /// The repository on GitHub, as `owner/repo`.
    pub repo: Option<T>,
}

/// What is asked for.
pub type Request = RequestOf<String>;

/// What a request holds.
pub type RequestModel = RequestOf<Seq<char>>;

/// What an optional string holds.
pub open spec fn text_of(s: Option<String>) -> Option<Seq<char>> {
    match s {
        Some(s) => Some(s@),
        None => None,
    }
}

impl View for RequestOf<String> {
    type V = RequestModel;

    open spec fn view(&self) -> RequestModel {
        RequestOf {
            name: self.name@,
            fallback: text_of(self.fallback),
            no_cache: self.no_cache,
            repo: text_of(self.repo),
        }
    }
}

/// What is to be done next to get a file, over texts of type `T` and failures of type `F`.
pub enum FetchStepOf<T, F> {
    /// Read the cached copy.
    ReadCache,
    /// Get the file from the web.
    Download { url: T },
    /// Put the text into the cache if that can be done.
    Store { text: T },
    /// The file, or why there is none.
    Finish(Result<T, F>),
}

/// What is to be done next to get a file.
pub type FetchStep = FetchStepOf<String, Failure>;

/// What a step holds.
pub type FetchStepModel = FetchStepOf<Seq<char>, FailureModel>;

/// What a text or a failure holds.
pub open spec fn outcome_of(r: Result<String, Failure>) -> Result<Seq<char>, FailureModel> {
    match r {
        Ok(s) => Ok(s@),
        Err(f) => Err(f@),
    }
}

impl View for FetchStepOf<String, Failure> {
    type V = FetchStepModel;

    open spec fn view(&self) -> FetchStepModel {
        match *self {
            FetchStepOf::ReadCache => FetchStepOf::ReadCache,
            FetchStepOf::Download { url } => FetchStepOf::Download { url: url@ },
            FetchStepOf::Store { text } => FetchStepOf::Store { text: text@ },
            FetchStepOf::Finish(r) => FetchStepOf::Finish(outcome_of(r)),
        }
    }
}

/// What came of a download, over texts of type `T`.
pub enum DownloadOf<T> {
    /// The file.
    Received { text: T },
    /// A response whose body could not be read.
    Unreadable { cause: T },
    /// No response, or one that says that there is no such file.
    Failed,
}

/// What came of a download.
pub type Download = DownloadOf<String>;

/// What the outcome of a download holds.
pub type DownloadModel = DownloadOf<Seq<char>>;

impl View for DownloadOf<String> {
    type V = DownloadModel;

    open spec fn view(&self) -> DownloadModel {
        match *self {
            DownloadOf::Received { text } => DownloadOf::Received { text: text@ },
            DownloadOf::Unreadable { cause } => DownloadOf::Unreadable { cause: cause@ },
            DownloadOf::Failed => DownloadOf::Failed,
        }
    }
}

/// Where a file of a repository on GitHub is found.
pub open spec fn raw_url(repo: Seq<char>, name: Seq<char>) -> Seq<char> {
    "https://raw.githubusercontent.com/"@ + repo + "/main/prompts/"@ + name
}

/// What is used where the file is neither cached nor to be had from the repository.
pub open spec fn built_in(request: RequestModel, bundle: BundleModel) -> Result<
    Seq<char>,
    FailureModel,
> {
    match (request.fallback, bundled_file(bundle, request.name)) {
        (Some(text), _) => Ok(text),
        (None, Some(text)) => Ok(text),
        (None, None) => Err(FailureOf::NoSource { name: request.name }),
    }
}

/// The first step, where `cached` tells whether there is a cached copy.
pub open spec fn first_step(
    request: RequestModel,
    bundle: BundleModel,
    cached: bool,
) -> FetchStepModel {
    if !request.no_cache && cached {
        FetchStepOf::ReadCache
    } else {
        match request.repo {
            Some(repo) => FetchStepOf::Download { url: raw_url(repo, request.name) },
            None => FetchStepOf::Finish(built_in(request, bundle)),
        }
    }
}

/// The step once the cached copy was read.
pub open spec fn after_cache(
    read: Result<Seq<char>, Seq<char>>,
    path: Seq<char>,
) -> FetchStepModel {
    match read {
        Ok(text) => FetchStepOf::Finish(Ok(text)),
        Err(cause) => FetchStepOf::Finish(Err(FailureOf::ReadCache { path, cause })),
    }
}

/// The step after a download.
pub open spec fn after_download(
    request: RequestModel,
    bundle: BundleModel,
    download: DownloadModel,
) -> FetchStepModel {
    match download {
        DownloadOf::Received { text } => FetchStepOf::Store { text },
        DownloadOf::Unreadable { cause } => FetchStepOf::Finish(Err(FailureOf::ReadBody { cause })),
        DownloadOf::Failed => FetchStepOf::Finish(built_in(request, bundle)),
    }
}

/// The step once the text was put into the cache, or could not be.
pub open spec fn after_store(text: Seq<char>) -> FetchStepModel {
    FetchStepOf::Finish(Ok(text))
}

/// What the texts of a result hold.
pub open spec fn texts_of(r: Result<String, String>) -> Result<Seq<char>, Seq<char>> {
    match r {
        Ok(s) => Ok(s@),
        Err(s) => Err(s@),
    }
}

/// What is used where the file is neither cached nor to be had from the repository.
fn use_built_in(request: &Request, bundle: &Bundle) -> (r: Result<String, Failure>)
    ensures
        outcome_of(r) == built_in(request@, bundle@),
{
    match &request.fallback {
        Some(text) => Ok(text.clone()),
        None => match bundle.file(&request.name) {
            Some(text) => Ok(text.clone()),
            None => Err(FailureOf::NoSource { name: request.name.clone() }),
        },
    }
}

/// The first step to get a file, where `cached` tells whether there is a cached copy.
pub fn fetch_file(request: &Request, bundle: &Bundle, cached: bool) -> (step: FetchStep)
    ensures
        step@ == first_step(request@, bundle@, cached),
{
    if !request.no_cache && cached {
        return FetchStepOf::ReadCache;
    }
    match &request.repo {
        Some(repo) => {
            let mut url = "https://raw.githubusercontent.com/".to_owned();
            url.append(repo);
            url.append("/main/prompts/");
            url.append(&request.name);
            FetchStepOf::Download { url }
        },
        None => FetchStepOf::Finish(use_built_in(request, bundle)),
    }
}

/// The step once the cached copy at `path` was read.
pub fn fetched_from_cache(read: Result<String, String>, path: &str) -> (step: FetchStep)
    ensures
        step@ == after_cache(texts_of(read), path@),
{
    match read {
        Ok(text) => FetchStepOf::Finish(Ok(text)),
        Err(cause) => FetchStepOf::Finish(
            Err(FailureOf::ReadCache { path: path.to_owned(), cause }),
        ),
    }
}

/// The step after a download.
pub fn fetched_from_web(request: &Request, bundle: &Bundle, download: Download) -> (step: FetchStep)
    ensures
        step@ == after_download(request@, bundle@, download@),
{
    match download {
        DownloadOf::Received { text } => FetchStepOf::Store { text },
        DownloadOf::Unreadable { cause } => FetchStepOf::Finish(Err(FailureOf::ReadBody { cause })),
        DownloadOf::Failed => FetchStepOf::Finish(use_built_in(request, bundle)),
    }
}

/// The step once the text was put into the cache, or could not be: the text is the file.
pub fn stored(text: String) -> (step: FetchStep)
    ensures
        step@ == after_store(text@),
{
    FetchStepOf::Finish(Ok(text))
}

/// What the world answers to the steps: whether there is a cached copy, what reading it gives,
/// its path, and what comes of a download from a place.
pub struct FetchWorld {
    pub cached: bool,
    pub read: Result<Seq<char>, Seq<char>>,
    pub path: Seq<char>,
    pub download: spec_fn(Seq<char>) -> DownloadModel,
}

/// The step that follows a step.
pub open spec fn next_step(
    request: RequestModel,
    bundle: BundleModel,
    world: FetchWorld,
    step: FetchStepModel,
) -> FetchStepModel {
    match step {
        FetchStepOf::ReadCache => after_cache(world.read, world.path),
        FetchStepOf::Download { url } => after_download(request, bundle, (world.download)(url)),
        FetchStepOf::Store { text } => after_store(text),
        FetchStepOf::Finish(r) => FetchStepOf::Finish(r),
    }
}

/// What is left of the steps in the end.
pub open spec fn fetched(
    request: RequestModel,
    bundle: BundleModel,
    world: FetchWorld,
) -> FetchStepModel {
    let first = first_step(request, bundle, world.cached);
    let second = next_step(request, bundle, world, first);
    next_step(request, bundle, world, second)
}

/// A file is had after two steps at most, from the first of these places that has it: the cache,
/// unless it is to be passed over; the repository, where one is given; the fallback, where one is
/// given; the bundled files.
pub proof fn law_places_in_order(request: RequestModel, bundle: BundleModel, world: FetchWorld)
    ensures
        fetched(request, bundle, world) == FetchStepOf::<Seq<char>, FailureModel>::Finish(
            if !request.no_cache && world.cached {
                match world.read {
                    Ok(text) => Ok(text),
                    Err(cause) => Err(FailureOf::ReadCache { path: world.path, cause }),
                }
            } else {
                match request.repo {
                    Some(repo) => match (world.download)(raw_url(repo, request.name)) {
                        DownloadOf::Received { text } => Ok(text),
                        DownloadOf::Unreadable { cause } => Err(FailureOf::ReadBody { cause }),
                        DownloadOf::Failed => built_in(request, bundle),
                    },
                    None => built_in(request, bundle),
                }
            },
        ),
{
}

/// A file with a fallback is always to be had, unless the cached copy or the body of a response
/// cannot be read.
pub proof fn law_fallback_is_always_there(
    request: RequestModel,
    bundle: BundleModel,
    world: FetchWorld,
)
    requires
        request.fallback is Some,
        world.read is Ok,
        forall|url: Seq<char>| !(#[trigger] (world.download)(url) is Unreadable),
    ensures
        fetched(request, bundle, world) matches FetchStepOf::Finish(Ok(_)),
{
    law_places_in_order(request, bundle, world);
    if let Some(repo) = request.repo {
        assert(!((world.download)(raw_url(repo, request.name)) is Unreadable));
    }
}

/// A cached copy is read unless it is to be passed over; otherwise the file is downloaded from
/// the repository where one is given, and where none is, that counts as a download that failed.
pub proof fn law_where_a_file_is_looked_for(
    request: RequestModel,
    bundle: BundleModel,
    cached: bool,
)
    ensures
        first_step(request, bundle, cached) is ReadCache <==> cached && !request.no_cache,
        (request.no_cache || !cached) && request.repo is Some ==> first_step(
            request,
            bundle,
            cached,
        ) == (FetchStepOf::<Seq<char>, FailureModel>::Download {
            url: "https://raw.githubusercontent.com/"@ + request.repo->0 + "/main/prompts/"@
                + request.name,
        }),
        (request.no_cache || !cached) && request.repo is None ==> first_step(
            request,
            bundle,
            cached,
        ) == after_download(request, bundle, DownloadOf::Failed),
{
}

/// Whatever is downloaded is put into the cache, and is the file then. A cached copy is the file
/// as it was read. What cannot be read is a failure with its cause, and no other file is taken.
pub proof fn law_what_is_received_is_the_file(
    request: RequestModel,
    bundle: BundleModel,
    text: Seq<char>,
    path: Seq<char>,
    cause: Seq<char>,
)
    ensures
        after_download(request, bundle, DownloadOf::Received { text }) == (FetchStepOf::<
            Seq<char>,
            FailureModel,
        >::Store { text }),
        after_store(text) == FetchStepOf::<Seq<char>, FailureModel>::Finish(Ok(text)),
        after_cache(Ok(text), path) == FetchStepOf::<Seq<char>, FailureModel>::Finish(Ok(text)),
        after_cache(Err(cause), path) == FetchStepOf::<Seq<char>, FailureModel>::Finish(
            Err(FailureOf::ReadCache { path, cause }),
        ),
        after_download(request, bundle, DownloadOf::Unreadable { cause }) == FetchStepOf::<
            Seq<char>,
            FailureModel,
        >::Finish(Err(FailureOf::ReadBody { cause })),
{
}

/// Where neither the cache nor the repository has a file, its fallback is taken; without one, the
/// bundled file of its name; and where there is none either, the failure names the file.
pub proof fn law_fallback_then_bundle(request: RequestModel, bundle: BundleModel)
    ensures
        ({
            let failed = after_download(request, bundle, DownloadOf::Failed);
            let names: Seq<(Seq<char>, Seq<char>)> = seq![
                ("plan.prompt"@, bundle.plan),
                ("architect.prompt"@, bundle.architect),
                ("research.prompt"@, bundle.research),
                ("todo.prompt"@, bundle.todo),
                ("test.prompt"@, bundle.test),
                ("patterns.json"@, bundle.patterns),
            ];
            &&& request.fallback matches Some(text) ==> failed == FetchStepOf::<
                Seq<char>,
                FailureModel,
            >::Finish(Ok(text))
            &&& request.fallback is None ==> forall|i: int|
                0 <= i < names.len() && (#[trigger] names[i]).0 == request.name ==> failed
                    == FetchStepOf::<Seq<char>, FailureModel>::Finish(Ok(names[i].1))
            &&& request.fallback is None && (forall|i: int|
                0 <= i < names.len() ==> (#[trigger] names[i]).0 != request.name) ==> failed
                == FetchStepOf::<Seq<char>, FailureModel>::Finish(
                Err(FailureOf::NoSource { name: request.name }),
            )
        }),
{
    reveal_strlit("plan.prompt");
    reveal_strlit("architect.prompt");
    reveal_strlit("research.prompt");
    reveal_strlit("todo.prompt");
    reveal_strlit("test.prompt");
    reveal_strlit("patterns.json");
    let names: Seq<(Seq<char>, Seq<char>)> = seq![
        ("plan.prompt"@, bundle.plan),
        ("architect.prompt"@, bundle.architect),
        ("research.prompt"@, bundle.research),
        ("todo.prompt"@, bundle.todo),
        ("test.prompt"@, bundle.test),
        ("patterns.json"@, bundle.patterns),
    ];
    assert(names[0].0 == "plan.prompt"@);
    assert(names[1].0 == "architect.prompt"@);
    assert(names[2].0 == "research.prompt"@);
    assert(names[3].0 == "todo.prompt"@);
    assert(names[4].0 == "test.prompt"@);
    assert(names[5].0 == "patterns.json"@);
    // Names of the same length differ in one of their first two characters.
    assert("plan.prompt"@[0] != "todo.prompt"@[0]);
    assert("todo.prompt"@[1] != "test.prompt"@[1]);
    assert("plan.prompt"@[0] != "test.prompt"@[0]);
}

/// Texts, failures and requests are taken as they are: nothing of them is lost or changed.
pub proof fn law_nothing_is_lost_of_a_request(
    request: Request,
    text: String,
    cause: String,
    f: Failure,
)
    ensures
        request@.name == request.name@,
        request@.no_cache == request.no_cache,
        request.fallback matches Some(s) ==> request@.fallback == Some(s@),
        request.fallback is None ==> request@.fallback is None,
        request.repo matches Some(s) ==> request@.repo == Some(s@),
        request.repo is None ==> request@.repo is None,
        outcome_of(Ok(text)) == Ok::<Seq<char>, FailureModel>(text@),
        outcome_of(Err(f)) == Err::<Seq<char>, FailureModel>(f@),
        texts_of(Ok(text)) == Ok::<Seq<char>, Seq<char>>(text@),
        texts_of(Err(cause)) == Err::<Seq<char>, Seq<char>>(cause@),
{
}

} // verus!
