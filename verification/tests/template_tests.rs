use readme_gen::github::GithubClientError;
use readme_gen::template::{
    resolve_count, resolve_feed, ArgValue, CallArgs, RenderEvent, RenderState, Renderer,
    RendererError,
};

fn args(entries: Vec<(&str, ArgValue)>) -> CallArgs {
    CallArgs { entries: entries.into_iter().map(|(k, v)| (k.to_string(), v)).collect() }
}

#[test]
fn count_absent_resolves_to_none() {
    let a = args(vec![]);
    assert_eq!(resolve_count(&a).count, None);
}

#[test]
fn count_reads_integers() {
    let a = args(vec![("count", ArgValue::Int(3))]);
    assert_eq!(resolve_count(&a).count, Some(3));
    let a = args(vec![("count", ArgValue::Int(-2))]);
    assert_eq!(resolve_count(&a).count, Some(-2));
    let a = args(vec![("count", ArgValue::UInt(4))]);
    assert_eq!(resolve_count(&a).count, Some(4));
}

#[test]
fn count_type_mismatch_resolves_to_absent() {
    // a mismatched optional argument falls back to "not provided", it is
    // never a hard error
    let a = args(vec![("count", ArgValue::Str("three".to_string()))]);
    assert_eq!(resolve_count(&a).count, None);
    let a = args(vec![("count", ArgValue::Bool(true))]);
    assert_eq!(resolve_count(&a).count, None);
    let a = args(vec![("count", ArgValue::UInt(u64::MAX))]);
    assert_eq!(resolve_count(&a).count, None);
}

#[test]
fn feed_missing_url_is_a_hard_call_error() {
    // the feed call's url is required: without it the call fails with a
    // message naming the missing url, never an empty list
    let a = args(vec![("count", ArgValue::Int(2))]);
    let err = resolve_feed(&a).unwrap_err();
    assert_eq!(err, "Failed to read rss feed, no url provided");
    assert!(err.contains("url"));
}

#[test]
fn feed_resolves_url_and_count() {
    let a = args(vec![
        ("url", ArgValue::Str("https://example.org/feed".to_string())),
        ("count", ArgValue::UInt(2)),
    ]);
    let opts = resolve_feed(&a).unwrap();
    assert_eq!(opts.url, "https://example.org/feed");
    assert_eq!(opts.count, Some(2));

    let a = args(vec![("url", ArgValue::Str("u".to_string()))]);
    let opts = resolve_feed(&a).unwrap();
    assert_eq!(opts.count, None);

    let a = args(vec![
        ("url", ArgValue::Str("u".to_string())),
        ("count", ArgValue::Int(-1)),
    ]);
    let opts = resolve_feed(&a).unwrap();
    assert_eq!(opts.count, None);
}

#[test]
fn feed_url_of_wrong_type_reads_as_empty() {
    let a = args(vec![("url", ArgValue::Int(7))]);
    let opts = resolve_feed(&a).unwrap();
    assert_eq!(opts.url, "");
}

#[test]
fn render_pass_happy_path() {
    let mut r = Renderer::new("octocat".to_string());
    assert_eq!(r.github_username, "octocat");
    assert_eq!(r.state, RenderState::Uninitialized);
    r.step(RenderEvent::CompileOk);
    assert_eq!(r.state, RenderState::TemplateCompiled);
    r.step(RenderEvent::EvalStart);
    r.step(RenderEvent::CallOk);
    r.step(RenderEvent::CallOk);
    r.step(RenderEvent::EvalDone);
    assert_eq!(r.state, RenderState::Completed);
    assert!(r.succeeded());
    assert_eq!(r.calls, 2);
}

#[test]
fn compile_failure_invokes_no_functions() {
    // a provider stub that counts its invocations: after a failed compile
    // no call event is accepted, so the stub is never reached
    let mut stub_invocations = 0u64;
    let mut r = Renderer::new("octocat".to_string());
    r.step(RenderEvent::CompileFail);
    assert_eq!(r.state, RenderState::Failed);
    for event in [RenderEvent::CallOk, RenderEvent::CallFail, RenderEvent::EvalStart] {
        if r.can_step(event) {
            stub_invocations += 1;
        }
    }
    assert_eq!(stub_invocations, 0);
    assert_eq!(r.calls, 0);
    assert!(!r.succeeded());
}

#[test]
fn second_call_failure_aborts_render() {
    // a provider that fails on its second invocation, referenced twice: the
    // first call's effect is observable, the render still ends in failure
    let mut r = Renderer::new("octocat".to_string());
    r.step(RenderEvent::CompileOk);
    r.step(RenderEvent::EvalStart);
    r.step(RenderEvent::CallOk);
    assert_eq!(r.calls, 1);
    r.step(RenderEvent::CallFail);
    assert_eq!(r.calls, 2);
    assert_eq!(r.state, RenderState::Failed);
    assert!(!r.succeeded());
    assert!(!r.can_step(RenderEvent::CallOk));
    assert!(!r.can_step(RenderEvent::EvalDone));
}

#[test]
fn renderer_error_carries_the_failing_operation_message() {
    // the render result describes which operation failed and why: the
    // message is the failing call's own, never a summary of it
    let e = RendererError::GithubClientError(GithubClientError::NoData);
    assert_eq!(e.message(), "graphql query didn't return any data");
    let e = RendererError::TemplateError(
        "Failed to read rss feed, no url provided".to_string(),
    );
    assert_eq!(e.message(), "Failed to read rss feed, no url provided");
    assert!(e.message().contains("url"));
}

#[test]
fn cli_holds_the_run_arguments() {
    let cli = readme_gen::cli::Cli {
        template_file: "README.tpl".to_string(),
        token: "t".to_string(),
        username: "octocat".to_string(),
        output_file: Some("README.md".to_string()),
    };
    assert_eq!(cli.username, "octocat");
    assert_eq!(cli.output_file.as_deref(), Some("README.md"));
}
