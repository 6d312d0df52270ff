//! The program inside the sandbox.

use corevisor::guest::{
    await_failure, call_failure, guest_exit, guest_program, plan_fetch, AwaitFailure, FetchParts,
    GuestOutcome, HostCall, HttpMethod, HttpScheme, WasiHttpFetcher,
};

#[test]
fn script_is_wrapped_in_an_async_function() {
    assert_eq!(
        guest_program("await f()"),
        Ok("(async () => {\nawait f()\n})()".to_string())
    );
}

#[test]
fn empty_script_is_an_error() {
    assert_eq!(
        guest_program(""),
        Err("error: no JavaScript code provided on stdin".to_string())
    );
}

#[test]
fn outcomes_of_a_script() {
    let ok = guest_exit(GuestOutcome::Text("42".to_string()));
    assert_eq!((ok.stdout.as_str(), ok.stderr, ok.code), ("42", None, 0));
    for (outcome, line) in [
        (GuestOutcome::EvalError("E".to_string()), "JavaScript error: E"),
        (GuestOutcome::Rejected("R".to_string()), "Promise rejected: R"),
        (GuestOutcome::Pending, "Promise still pending after run_jobs()"),
        (
            GuestOutcome::NoText("N".to_string()),
            "error converting result to string: N",
        ),
    ] {
        let exit = guest_exit(outcome);
        assert_eq!(exit.stderr.as_deref(), Some(line));
        assert_eq!(exit.stdout, "");
        assert_eq!(exit.code, 1);
    }
}

fn parts(method: &str) -> FetchParts {
    FetchParts {
        method: method.to_string(),
        scheme: Some("https".to_string()),
        authority: Some("a.com:8443".to_string()),
        path_and_query: Some("/x?y=1".to_string()),
        body: vec![],
    }
}

#[test]
fn plan_of_a_request_without_body() {
    let pairs = vec![("User-Agent".to_string(), b"mine".to_vec())];
    assert_eq!(
        plan_fetch(pairs, &parts("GET")),
        vec![
            HostCall::AppendHeader("User-Agent".to_string(), b"mine".to_vec()),
            HostCall::NewRequest,
            HostCall::SetMethod(HttpMethod::Get),
            HostCall::SetScheme(HttpScheme::Https),
            HostCall::SetAuthority("a.com:8443".to_string()),
            HostCall::SetPath("/x?y=1".to_string()),
            HostCall::OpenBody,
            HostCall::FinishBody,
            HostCall::Send,
            HostCall::AwaitResponse,
            HostCall::ConsumeBody,
            HostCall::OpenInput,
            HostCall::ReadBody,
        ]
    );
}

#[test]
fn plan_with_defaults_and_body() {
    let bare = FetchParts {
        method: "PROPFIND".to_string(),
        scheme: None,
        authority: None,
        path_and_query: None,
        body: b"payload".to_vec(),
    };
    assert_eq!(
        plan_fetch(vec![], &bare),
        vec![
            HostCall::AppendHeader("user-agent".to_string(), b"corevisor-cli".to_vec()),
            HostCall::NewRequest,
            HostCall::SetMethod(HttpMethod::Other("PROPFIND".to_string())),
            HostCall::SetScheme(HttpScheme::Https),
            HostCall::SetPath("/".to_string()),
            HostCall::OpenBody,
            HostCall::OpenOutput,
            HostCall::WriteBody(b"payload".to_vec()),
            HostCall::FinishBody,
            HostCall::Send,
            HostCall::AwaitResponse,
            HostCall::ConsumeBody,
            HostCall::OpenInput,
            HostCall::ReadBody,
        ]
    );
}

#[test]
fn fetch_appends_every_header() {
    let mut headers = http::HeaderMap::new();
    headers.append("Accept", "a".parse().unwrap());
    headers.append("accept", "b".parse().unwrap());
    let calls = WasiHttpFetcher.fetch(&headers, &parts("POST"));
    assert_eq!(
        calls[..3],
        [
            HostCall::AppendHeader("accept".to_string(), b"a".to_vec()),
            HostCall::AppendHeader("accept".to_string(), b"b".to_vec()),
            HostCall::AppendHeader("user-agent".to_string(), b"corevisor-cli".to_vec()),
        ]
    );
}

#[test]
fn fetch_keeps_the_user_agent_of_the_script() {
    let mut headers = http::HeaderMap::new();
    headers.insert("User-Agent", "script".parse().unwrap());
    let calls = WasiHttpFetcher.fetch(&headers, &parts("GET"));
    let agents: Vec<&HostCall> = calls
        .iter()
        .filter(|call| matches!(call, HostCall::AppendHeader(_, _)))
        .collect();
    assert_eq!(
        agents,
        vec![&HostCall::AppendHeader("user-agent".to_string(), b"script".to_vec())]
    );
}

#[test]
fn methods_and_schemes_by_name() {
    assert_eq!(HttpMethod::parse("POST"), HttpMethod::Post);
    assert_eq!(HttpMethod::parse("PUT"), HttpMethod::Put);
    assert_eq!(HttpMethod::parse("DELETE"), HttpMethod::Delete);
    assert_eq!(HttpMethod::parse("HEAD"), HttpMethod::Head);
    assert_eq!(HttpMethod::parse("OPTIONS"), HttpMethod::Options);
    assert_eq!(HttpMethod::parse("PATCH"), HttpMethod::Patch);
    assert_eq!(HttpMethod::parse("get"), HttpMethod::Other("get".to_string()));
    assert_eq!(HttpScheme::parse(Some("http")), HttpScheme::Http);
    assert_eq!(HttpScheme::parse(Some("ws")), HttpScheme::Other("ws".to_string()));
    assert_eq!(HttpScheme::parse(None), HttpScheme::Https);
}

#[test]
fn failures_of_host_calls() {
    let append = HostCall::AppendHeader("a".to_string(), vec![]);
    assert_eq!(call_failure(&append, "Forbidden"), "header error: Forbidden");
    assert_eq!(
        call_failure(&HostCall::SetMethod(HttpMethod::Get), ""),
        "failed to set method"
    );
    assert_eq!(
        call_failure(&HostCall::SetScheme(HttpScheme::Http), ""),
        "failed to set scheme"
    );
    assert_eq!(
        call_failure(&HostCall::SetAuthority(String::new()), ""),
        "failed to set authority"
    );
    assert_eq!(
        call_failure(&HostCall::SetPath(String::new()), ""),
        "failed to set path"
    );
    assert_eq!(
        call_failure(&HostCall::OpenBody, ""),
        "failed to get outgoing body"
    );
    assert_eq!(
        call_failure(&HostCall::OpenOutput, ""),
        "failed to get body write stream"
    );
    assert_eq!(call_failure(&HostCall::WriteBody(vec![1]), "closed"), "closed");
    assert_eq!(
        call_failure(&HostCall::FinishBody, "E"),
        "finish body error: E"
    );
    assert_eq!(
        call_failure(&HostCall::Send, "E"),
        "outgoing handler error: E"
    );
    assert_eq!(
        call_failure(&HostCall::ConsumeBody, ""),
        "failed to consume response body"
    );
    assert_eq!(
        call_failure(&HostCall::OpenInput, ""),
        "failed to get body stream"
    );
    assert_eq!(call_failure(&HostCall::ReadBody, "cut off"), "cut off");
}

#[test]
fn failures_to_get_a_response() {
    assert_eq!(
        await_failure(AwaitFailure::NotReady),
        "response not ready after blocking"
    );
    assert_eq!(
        await_failure(AwaitFailure::AlreadyTaken),
        "response already consumed"
    );
    assert_eq!(
        await_failure(AwaitFailure::Http("DnsError".to_string())),
        "HTTP error: DnsError"
    );
}
