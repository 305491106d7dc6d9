use full_yolo::failure::FailureOf;
use full_yolo::fetch::{
    fetch_file, fetched_from_cache, fetched_from_web, stored, Bundle, BundleOf, DownloadOf, FetchStep, FetchStepOf,
    Request, RequestOf,
};

fn bundle() -> Bundle {
    BundleOf {
        plan: "PLAN".to_string(),
        architect: "ARCHITECT".to_string(),
        research: "RESEARCH".to_string(),
        todo: "TODO".to_string(),
        test: "TEST".to_string(),
        patterns: "[]".to_string(),
    }
}

fn request(name: &str, fallback: Option<&str>, no_cache: bool, repo: Option<&str>) -> Request {
    RequestOf {
        name: name.to_string(),
        fallback: fallback.map(String::from),
        no_cache,
        repo: repo.map(String::from),
    }
}

fn show(step: FetchStep) -> String {
    match step {
        FetchStepOf::ReadCache => "cache".to_string(),
        FetchStepOf::Download { url } => format!("get {}", url),
        FetchStepOf::Store { text } => format!("store {}", text),
        FetchStepOf::Finish(Ok(text)) => format!("ok {}", text),
        FetchStepOf::Finish(Err(f)) => format!("err {}", f.message("agent")),
    }
}

#[test]
fn a_cached_copy_comes_first() {
    let r = request("plan.prompt", Some("F"), false, Some("o/r"));
    assert_eq!(show(fetch_file(&r, &bundle(), true)), "cache");
    assert_eq!(show(fetched_from_cache(Ok("text".to_string()), "p")), "ok text");
    assert_eq!(
        show(fetched_from_cache(Err("denied".to_string()), ".prompts/plan.prompt")),
        "err Reading cached file .prompts/plan.prompt: denied"
    );
}

#[test]
fn the_repository_comes_next() {
    let url = "get https://raw.githubusercontent.com/o/r/main/prompts/plan.prompt";
    let r = request("plan.prompt", Some("F"), false, Some("o/r"));
    assert_eq!(show(fetch_file(&r, &bundle(), false)), url);
    let passing = request("plan.prompt", Some("F"), true, Some("o/r"));
    assert_eq!(show(fetch_file(&passing, &bundle(), true)), url);
    let received = DownloadOf::Received { text: "new".to_string() };
    assert_eq!(show(fetched_from_web(&r, &bundle(), received)), "store new");
    assert_eq!(show(stored("new".to_string())), "ok new");
    let unreadable = DownloadOf::Unreadable { cause: "cut".to_string() };
    assert_eq!(show(fetched_from_web(&r, &bundle(), unreadable)), "err Reading HTTP response body: cut");
}

#[test]
fn the_fallback_comes_before_the_bundle() {
    let r = request("plan.prompt", Some("F"), false, Some("o/r"));
    assert_eq!(show(fetched_from_web(&r, &bundle(), DownloadOf::Failed)), "ok F");
    let bare = request("plan.prompt", Some("F"), true, None);
    assert_eq!(show(fetch_file(&bare, &bundle(), true)), "ok F");
    let without = request("plan.prompt", None, false, None);
    assert_eq!(show(fetch_file(&without, &bundle(), false)), "ok PLAN");
}

#[test]
fn bundled_files_have_names() {
    for (name, text) in [
        ("plan.prompt", "PLAN"),
        ("architect.prompt", "ARCHITECT"),
        ("research.prompt", "RESEARCH"),
        ("todo.prompt", "TODO"),
        ("test.prompt", "TEST"),
        ("patterns.json", "[]"),
    ] {
        assert_eq!(bundle().file(name).unwrap(), text);
    }
    assert!(bundle().file("graphic.prompt").is_none());
    assert!(bundle().file("plan").is_none());
}

#[test]
fn a_file_without_source_is_an_error() {
    let r = request("deploy.prompt", None, false, None);
    match fetch_file(&r, &bundle(), false) {
        FetchStepOf::Finish(Err(FailureOf::NoSource { name })) => assert_eq!(name, "deploy.prompt"),
        _ => panic!("found"),
    }
    assert_eq!(
        show(fetched_from_web(&r, &bundle(), DownloadOf::Failed)),
        "err No source for 'deploy.prompt': not cached, --prompts not set or fetch failed, and no compiled-in fallback exists"
    );
}
