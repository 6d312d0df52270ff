//! The program inside the sandbox: how it runs a script, and how it makes a script's HTTP
//! requests through its host.

use vstd::prelude::*;
use vstd::string::*;
use vstd::utf8::*;
use crate::headers;
use crate::headers::header_pairs;
use crate::text;

verus! {

broadcast use vstd::string::group_string_axioms;

/// A script wrapped in an async function that is called at once, so that `await` works at
/// its top level.
pub open spec fn wrapped(code: Seq<char>) -> Seq<char> {
    "(async () => {\n"@ + code + "\n})()"@
}

/// The program to evaluate for a script; an error where there is no script.
pub fn guest_program(code: &str) -> (r: Result<String, String>)
    ensures
        r is Ok <==> code@.len() > 0,
        r matches Ok(program) ==> program@ == wrapped(code@),
        r matches Err(message) ==> message@ == "error: no JavaScript code provided on stdin"@,
{
    if code.is_empty() {
        Err("error: no JavaScript code provided on stdin".to_string())
    } else {
        let mut program = "(async () => {\n".to_string();
        program.append(code);
        program.append("\n})()");
        Ok(program)
    }
}

/// Different scripts make different programs.
pub proof fn law_wrapping_keeps_the_script(a: Seq<char>, b: Seq<char>)
    ensures
        wrapped(a) == wrapped(b) ==> a == b,
{
    let head = "(async () => {\n"@;
    let tail = "\n})()"@;
    if wrapped(a) == wrapped(b) {
        assert(wrapped(a).len() == head.len() + a.len() + tail.len());
        assert(wrapped(b).len() == head.len() + b.len() + tail.len());
        assert(a =~= wrapped(a).subrange(head.len() as int, (head.len() + a.len()) as int));
        assert(b =~= wrapped(b).subrange(head.len() as int, (head.len() + b.len()) as int));
    }
}

/// A program is the script as it was given, between the head and the tail of an async
/// function that is called at once.
pub proof fn law_program_holds_the_script(code: Seq<char>)
    ensures
        ({
            let head = "(async () => {\n"@;
            let tail = "\n})()"@;
            let program = wrapped(code);
            &&& program.len() == head.len() + code.len() + tail.len()
            &&& program.take(head.len() as int) == head
            &&& program.subrange(head.len() as int, (head.len() + code.len()) as int) == code
            &&& program.skip((head.len() + code.len()) as int) == tail
        }),
{
}

/// What the evaluation of a program came to.
#[derive(Debug)]
pub enum GuestOutcome {
    /// The program did not evaluate, with this error.
    EvalError(String),
    /// The promise was rejected, with this value.
    Rejected(String),
    /// The promise was not settled by the jobs that were run.
    Pending,
    /// There is a value, but it has no text, for this reason.
    NoText(String),
    /// There is a value, with this text.
    Text(String),
}

/// What the program leaves behind: its output, or an error line and a failing exit.
#[derive(Debug)]
pub struct GuestExit {
    pub stdout: String,
    pub stderr: Option<String>,
    pub code: i32,
}

/// The error line of an outcome, if it is a failure.
pub open spec fn guest_error(outcome: GuestOutcome) -> Option<Seq<char>> {
    match outcome {
        GuestOutcome::EvalError(error) => Some("JavaScript error: "@ + error@),
        GuestOutcome::Rejected(value) => Some("Promise rejected: "@ + value@),
        GuestOutcome::Pending => Some("Promise still pending after run_jobs()"@),
        GuestOutcome::NoText(error) => Some("error converting result to string: "@ + error@),
        GuestOutcome::Text(_) => None,
    }
}

/// Decides how the program ends.
pub fn guest_exit(outcome: GuestOutcome) -> (r: GuestExit)
    ensures
        r.stderr.deep_view() == guest_error(outcome),
        r.code == (if outcome is Text {
            0i32
        } else {
            1i32
        }),
        r.stdout@ == (match outcome {
            GuestOutcome::Text(text) => text@,
            _ => Seq::empty(),
        }),
{
    let (lead, detail) = match outcome {
        GuestOutcome::Text(text) => {
            return GuestExit { stdout: text, stderr: None, code: 0 };
        },
        GuestOutcome::EvalError(error) => ("JavaScript error: ", error),
        GuestOutcome::Rejected(value) => ("Promise rejected: ", value),
        GuestOutcome::Pending => ("Promise still pending after run_jobs()", String::new()),
        GuestOutcome::NoText(error) => ("error converting result to string: ", error),
    };
    let mut line = lead.to_string();
    line.append(detail.as_str());
    assert(Some(line@) =~= guest_error(outcome)) by {
        assert("Promise still pending after run_jobs()"@ + Seq::<char>::empty()
            == "Promise still pending after run_jobs()"@);
    }
    GuestExit { stdout: String::new(), stderr: Some(line), code: 1 }
}

/// A program fails exactly where its evaluation came to no text, and its error line then
/// says why, with the reason in full.
pub proof fn law_failure_says_why(outcome: GuestOutcome)
    ensures
        guest_error(outcome) is None <==> outcome is Text,
        outcome matches GuestOutcome::EvalError(error) ==> guest_error(outcome) == Some(
            "JavaScript error: "@ + error@,
        ),
        outcome matches GuestOutcome::Rejected(value) ==> guest_error(outcome) == Some(
            "Promise rejected: "@ + value@,
        ),
        outcome is Pending ==> guest_error(outcome) == Some(
            "Promise still pending after run_jobs()"@,
        ),
        outcome matches GuestOutcome::NoText(error) ==> guest_error(outcome) == Some(
            "error converting result to string: "@ + error@,
        ),
{
}

/// The HTTP methods that the host knows by name, and any other.
#[derive(Debug, PartialEq)]
pub enum HttpMethod {
    Get,
    Post,
    Put,
    Delete,
    Head,
    Options,
    Patch,
    Other(String),
}

/// The model of an [`HttpMethod`].
pub enum HttpMethodModel {
    Get,
    Post,
    Put,
    Delete,
    Head,
    Options,
    Patch,
    Other(Seq<char>),
}

impl View for HttpMethod {
    type V = HttpMethodModel;

    open spec fn view(&self) -> HttpMethodModel {
        match self {
            HttpMethod::Get => HttpMethodModel::Get,
            HttpMethod::Post => HttpMethodModel::Post,
            HttpMethod::Put => HttpMethodModel::Put,
            HttpMethod::Delete => HttpMethodModel::Delete,
            HttpMethod::Head => HttpMethodModel::Head,
            HttpMethod::Options => HttpMethodModel::Options,
            HttpMethod::Patch => HttpMethodModel::Patch,
            HttpMethod::Other(name) => HttpMethodModel::Other(name@),
        }
    }
}

/// The method with the name `name`. Names are case-sensitive.
pub open spec fn method_named(name: Seq<char>) -> HttpMethodModel {
    if name == "GET"@ {
        HttpMethodModel::Get
    } else if name == "POST"@ {
        HttpMethodModel::Post
    } else if name == "PUT"@ {
        HttpMethodModel::Put
    } else if name == "DELETE"@ {
        HttpMethodModel::Delete
    } else if name == "HEAD"@ {
        HttpMethodModel::Head
    } else if name == "OPTIONS"@ {
        HttpMethodModel::Options
    } else if name == "PATCH"@ {
        HttpMethodModel::Patch
    } else {
        HttpMethodModel::Other(name)
    }
}

impl HttpMethod {
    /// The method with the name `name`. Names are case-sensitive.
    pub fn parse(name: &str) -> (r: Self)
        ensures
            r@ == method_named(name@),
    {
        if text::str_eq(name, "GET") {
            HttpMethod::Get
        } else if text::str_eq(name, "POST") {
            HttpMethod::Post
        } else if text::str_eq(name, "PUT") {
            HttpMethod::Put
        } else if text::str_eq(name, "DELETE") {
            HttpMethod::Delete
        } else if text::str_eq(name, "HEAD") {
            HttpMethod::Head
        } else if text::str_eq(name, "OPTIONS") {
            HttpMethod::Options
        } else if text::str_eq(name, "PATCH") {
            HttpMethod::Patch
        } else {
            HttpMethod::Other(name.to_string())
        }
    }
}

/// The URI schemes that the host knows by name, and any other.
#[derive(Debug, PartialEq)]
pub enum HttpScheme {
    Http,
    Https,
    Other(String),
}

/// The model of an [`HttpScheme`].
pub enum HttpSchemeModel {
    Http,
    Https,
    Other(Seq<char>),
}

impl View for HttpScheme {
    type V = HttpSchemeModel;

    open spec fn view(&self) -> HttpSchemeModel {
        match self {
            HttpScheme::Http => HttpSchemeModel::Http,
            HttpScheme::Https => HttpSchemeModel::Https,
            HttpScheme::Other(name) => HttpSchemeModel::Other(name@),
        }
    }
}

/// The scheme of a URI: the one with the name `name`, and `https` where there is none.
pub open spec fn scheme_named(name: Option<Seq<char>>) -> HttpSchemeModel {
    match name {
        Some(n) => if n == "https"@ {
            HttpSchemeModel::Https
        } else if n == "http"@ {
            HttpSchemeModel::Http
        } else {
            HttpSchemeModel::Other(n)
        },
        None => HttpSchemeModel::Https,
    }
}

impl HttpScheme {
    /// The scheme of a URI: the one with the name `name`, and `https` where there is none.
    pub fn parse(name: Option<&str>) -> (r: Self)
        ensures
            r@ == scheme_named(name.deep_view()),
    {
        match name {
            Some(n) => {
                if text::str_eq(n, "https") {
                    HttpScheme::Https
                } else if text::str_eq(n, "http") {
                    HttpScheme::Http
                } else {
                    HttpScheme::Other(n.to_string())
                }
            },
            None => HttpScheme::Https,
        }
    }
}

/// A request that a script makes, but for its headers.
#[derive(Debug)]
pub struct FetchParts {
    pub method: String,
    pub scheme: Option<String>,
    /// Host and optional port.
    pub authority: Option<String>,
    pub path_and_query: Option<String>,
    /// The body; a request without one has an empty body.
    pub body: Vec<u8>,
}

/// One call to the host in the course of a request.
#[derive(Debug, PartialEq)]
pub enum HostCall {
    /// Append a header: its name, its value.
    AppendHeader(String, Vec<u8>),
    /// Make a request out of the headers.
    NewRequest,
    SetMethod(HttpMethod),
    SetScheme(HttpScheme),
    SetAuthority(String),
    SetPath(String),
    /// Take the request's body.
    OpenBody,
    /// Open the stream that the body is written to.
    OpenOutput,
    /// Write these bytes, the whole body, to the stream, and close it.
    WriteBody(Vec<u8>),
    FinishBody,
    /// Hand the request over for sending.
    Send,
    /// Block until the response is there, and take it.
    AwaitResponse,
    /// Take the response's body.
    ConsumeBody,
    /// Open the stream that the body is read from.
    OpenInput,
    /// Read the body to its end.
    ReadBody,
}

/// The model of a [`HostCall`].
pub enum HostCallModel {
    AppendHeader(Seq<char>, Seq<u8>),
    NewRequest,
    SetMethod(HttpMethodModel),
    SetScheme(HttpSchemeModel),
    SetAuthority(Seq<char>),
    SetPath(Seq<char>),
    OpenBody,
    OpenOutput,
    WriteBody(Seq<u8>),
    FinishBody,
    Send,
    AwaitResponse,
    ConsumeBody,
    OpenInput,
    ReadBody,
}

impl DeepView for HostCall {
    type V = HostCallModel;

    open spec fn deep_view(&self) -> HostCallModel {
        match self {
            HostCall::AppendHeader(name, value) => HostCallModel::AppendHeader(name@, value@),
            HostCall::NewRequest => HostCallModel::NewRequest,
            HostCall::SetMethod(method) => HostCallModel::SetMethod(method@),
            HostCall::SetScheme(scheme) => HostCallModel::SetScheme(scheme@),
            HostCall::SetAuthority(authority) => HostCallModel::SetAuthority(authority@),
            HostCall::SetPath(path) => HostCallModel::SetPath(path@),
            HostCall::OpenBody => HostCallModel::OpenBody,
            HostCall::OpenOutput => HostCallModel::OpenOutput,
            HostCall::WriteBody(body) => HostCallModel::WriteBody(body@),
            HostCall::FinishBody => HostCallModel::FinishBody,
            HostCall::Send => HostCallModel::Send,
            HostCall::AwaitResponse => HostCallModel::AwaitResponse,
            HostCall::ConsumeBody => HostCallModel::ConsumeBody,
            HostCall::OpenInput => HostCallModel::OpenInput,
            HostCall::ReadBody => HostCallModel::ReadBody,
        }
    }
}

/// Whether a list of headers has a user agent, in whatever case its name is written.
pub open spec fn has_user_agent(pairs: Seq<(Seq<char>, Seq<u8>)>) -> bool {
    exists|i: int|
        0 <= i < pairs.len() && text::ascii_lower((#[trigger] pairs[i]).0) == text::ascii_lower(
            "user-agent"@,
        )
}

/// The calls that append the headers `pairs`, and a user agent where there is none among
/// them.
pub open spec fn header_calls(pairs: Seq<(Seq<char>, Seq<u8>)>) -> Seq<HostCallModel> {
    Seq::new(pairs.len(), |i: int| HostCallModel::AppendHeader(pairs[i].0, pairs[i].1)) + (
    if has_user_agent(pairs) {
        Seq::empty()
    } else {
        seq![HostCallModel::AppendHeader("user-agent"@, encode_utf8("corevisor-cli"@))]
    })
}

/// The calls that set where a request goes.
pub open spec fn target_calls(parts: FetchParts) -> Seq<HostCallModel> {
    seq![
        HostCallModel::NewRequest,
        HostCallModel::SetMethod(method_named(parts.method@)),
        HostCallModel::SetScheme(scheme_named(parts.scheme.deep_view())),
    ] + (match parts.authority {
        Some(authority) => seq![HostCallModel::SetAuthority(authority@)],
        None => Seq::empty(),
    }) + seq![
        HostCallModel::SetPath(
            match parts.path_and_query {
                Some(path) => path@,
                None => "/"@,
            },
        ),
    ]
}

/// The calls that write the body, send the request and read the response. An empty body is
/// not written.
pub open spec fn exchange_calls(body: Seq<u8>) -> Seq<HostCallModel> {
    seq![HostCallModel::OpenBody] + (if body.len() > 0 {
        seq![HostCallModel::OpenOutput, HostCallModel::WriteBody(body)]
    } else {
        Seq::empty()
    }) + seq![
        HostCallModel::FinishBody,
        HostCallModel::Send,
        HostCallModel::AwaitResponse,
        HostCallModel::ConsumeBody,
        HostCallModel::OpenInput,
        HostCallModel::ReadBody,
    ]
}

/// All calls for a request with the headers `pairs`, in order.
pub open spec fn planned(pairs: Seq<(Seq<char>, Seq<u8>)>, parts: FetchParts) -> Seq<
    HostCallModel,
> {
    header_calls(pairs) + target_calls(parts) + exchange_calls(parts.body@)
}

/// Appends a call to a plan.
fn plan(calls: &mut Vec<HostCall>, call: HostCall)
    ensures
        final(calls).deep_view() == old(calls).deep_view().push(call.deep_view()),
{
    calls.push(call);
    assert(calls.deep_view() == old(calls).deep_view().push(call.deep_view()));
}

/// Plans the calls that append the headers `pairs`.
fn plan_headers(pairs: Vec<(String, Vec<u8>)>) -> (r: Vec<HostCall>)
    ensures
        r.deep_view() == header_calls(pairs.deep_view()),
{
    let ghost all = pairs.deep_view();
    let ghost appends = Seq::new(
        all.len(),
        |i: int| HostCallModel::AppendHeader(all[i].0, all[i].1),
    );
    let mut calls: Vec<HostCall> = Vec::new();
    let mut user_agent = false;
    assert(calls.deep_view() == appends.take(0));
    for pair in it: pairs
        invariant
            all.len() == it.seq().len(),
            appends.len() == all.len(),
            forall|i: int|
                0 <= i < all.len() ==> #[trigger] all[i] == (it.seq()[i].0@, it.seq()[i].1@),
            forall|i: int|
                0 <= i < all.len() ==> #[trigger] appends[i] == HostCallModel::AppendHeader(
                    all[i].0,
                    all[i].1,
                ),
            calls.deep_view() == appends.take(it.index()),
            user_agent == has_user_agent(all.take(it.index())),
    {
        let ghost k = it.index();
        proof {
            assert(all[k] == (pair.0@, pair.1@));
            assert(appends.take(k + 1) == appends.take(k).push(appends[k]));
            assert(all.take(k + 1)[k] == all[k]);
        }
        if text::eq_ignore_ascii_case(pair.0.as_str(), "user-agent") {
            user_agent = true;
            assert(has_user_agent(all.take(k + 1)));
        } else {
            assert(has_user_agent(all.take(k + 1)) == has_user_agent(all.take(k))) by {
                if has_user_agent(all.take(k)) {
                    let i = choose|i: int|
                        0 <= i < k && text::ascii_lower((#[trigger] all.take(k)[i]).0)
                            == text::ascii_lower("user-agent"@);
                    assert(all.take(k + 1)[i] == all.take(k)[i]);
                }
                if has_user_agent(all.take(k + 1)) {
                    let i = choose|i: int|
                        0 <= i < k + 1 && text::ascii_lower((#[trigger] all.take(k + 1)[i]).0)
                            == text::ascii_lower("user-agent"@);
                    assert(i < k);
                    assert(all.take(k)[i] == all.take(k + 1)[i]);
                }
            }
        }
        plan(&mut calls, HostCall::AppendHeader(pair.0, pair.1));
    }
    proof {
        assert(all.take(all.len() as int) == all);
        assert(appends.take(all.len() as int) == appends);
    }
    if !user_agent {
        plan(
            &mut calls,
            HostCall::AppendHeader("user-agent".to_string(), "corevisor-cli".as_bytes_vec()),
        );
    }
    assert(calls.deep_view() == header_calls(all));
    calls
}

/// Plans the calls that set where a request goes.
fn plan_target(calls: &mut Vec<HostCall>, parts: &FetchParts)
    ensures
        final(calls).deep_view() == old(calls).deep_view() + target_calls(*parts),
{
    plan(calls, HostCall::NewRequest);
    plan(calls, HostCall::SetMethod(HttpMethod::parse(parts.method.as_str())));
    let scheme = match &parts.scheme {
        Some(scheme) => HttpScheme::parse(Some(scheme.as_str())),
        None => HttpScheme::parse(None),
    };
    plan(calls, HostCall::SetScheme(scheme));
    if let Some(authority) = &parts.authority {
        plan(calls, HostCall::SetAuthority(authority.clone()));
    }
    let path = match &parts.path_and_query {
        Some(path) => path.clone(),
        None => "/".to_string(),
    };
    plan(calls, HostCall::SetPath(path));
    assert(calls.deep_view() == old(calls).deep_view() + target_calls(*parts));
}

/// Plans the calls that write the body, send the request and read the response.
fn plan_exchange(calls: &mut Vec<HostCall>, body: &Vec<u8>)
    ensures
        final(calls).deep_view() == old(calls).deep_view() + exchange_calls(body@),
{
    plan(calls, HostCall::OpenBody);
    if body.len() > 0 {
        let bytes = body.clone();
        assert(bytes@ == body@);
        plan(calls, HostCall::OpenOutput);
        plan(calls, HostCall::WriteBody(bytes));
    }
    plan(calls, HostCall::FinishBody);
    plan(calls, HostCall::Send);
    plan(calls, HostCall::AwaitResponse);
    plan(calls, HostCall::ConsumeBody);
    plan(calls, HostCall::OpenInput);
    plan(calls, HostCall::ReadBody);
    assert(calls.deep_view() == old(calls).deep_view() + exchange_calls(body@));
}

/// Plans the calls for a request with the headers `pairs`. The first call that fails ends
/// the request.
pub fn plan_fetch(pairs: Vec<(String, Vec<u8>)>, parts: &FetchParts) -> (r: Vec<HostCall>)
    ensures
        r.deep_view() == planned(pairs.deep_view(), *parts),
{
    let mut calls = plan_headers(pairs);
    plan_target(&mut calls, parts);
    plan_exchange(&mut calls, &parts.body);
    calls
}

/// Makes the HTTP requests of a script through the host of the sandbox.
#[derive(Debug, Clone, Copy)]
pub struct WasiHttpFetcher;

impl WasiHttpFetcher {
    /// Plans the calls for a request. Its headers are appended in the order in which the
    /// header map is walked.
    pub fn fetch(&self, headers: &http::HeaderMap, parts: &FetchParts) -> (r: Vec<HostCall>)
        ensures
            exists|pairs: Seq<(Seq<char>, Seq<u8>)>|
                {
                    &&& headers::lists(pairs, headers::header_values(*headers))
                    &&& forall|i: int|
                        0 <= i < pairs.len() ==> text::ascii_lower((#[trigger] pairs[i]).0)
                            == pairs[i].0
                    &&& r.deep_view() == #[trigger] planned(pairs, *parts)
                },
    {
        let pairs = header_pairs(headers);
        let ghost listed = pairs.deep_view();
        assert forall|i: int| 0 <= i < listed.len() implies text::ascii_lower(
            (#[trigger] listed[i]).0,
        ) == listed[i].0 by {
            assert(listed[i].0 == pairs@[i].0@);
        }
        plan_fetch(pairs, parts)
    }
}

/// Why the response to a request cannot be had.
#[derive(Debug)]
pub enum AwaitFailure {
    /// It is not there after the wait.
    NotReady,
    /// It was taken before.
    AlreadyTaken,
    /// The exchange failed, with this error.
    Http(String),
}

/// What a script is told of a call that failed; `detail` is the host's error.
pub open spec fn failure_of(call: HostCallModel, detail: Seq<char>) -> Seq<char> {
    match call {
        HostCallModel::AppendHeader(_, _) => "header error: "@ + detail,
        HostCallModel::SetMethod(_) => "failed to set method"@,
        HostCallModel::SetScheme(_) => "failed to set scheme"@,
        HostCallModel::SetAuthority(_) => "failed to set authority"@,
        HostCallModel::SetPath(_) => "failed to set path"@,
        HostCallModel::OpenBody => "failed to get outgoing body"@,
        HostCallModel::OpenOutput => "failed to get body write stream"@,
        HostCallModel::FinishBody => "finish body error: "@ + detail,
        HostCallModel::Send => "outgoing handler error: "@ + detail,
        HostCallModel::ConsumeBody => "failed to consume response body"@,
        HostCallModel::OpenInput => "failed to get body stream"@,
        _ => detail,
    }
}

/// Tells of a call that failed.
pub fn call_failure(call: &HostCall, detail: &str) -> (r: String)
    ensures
        r@ == failure_of(call.deep_view(), detail@),
{
    match call {
        HostCall::AppendHeader(_, _) => {
            let mut message = "header error: ".to_string();
            message.append(detail);
            message
        },
        HostCall::SetMethod(_) => "failed to set method".to_string(),
        HostCall::SetScheme(_) => "failed to set scheme".to_string(),
        HostCall::SetAuthority(_) => "failed to set authority".to_string(),
        HostCall::SetPath(_) => "failed to set path".to_string(),
        HostCall::OpenBody => "failed to get outgoing body".to_string(),
        HostCall::OpenOutput => "failed to get body write stream".to_string(),
        HostCall::FinishBody => {
            let mut message = "finish body error: ".to_string();
            message.append(detail);
            message
        },
        HostCall::Send => {
            let mut message = "outgoing handler error: ".to_string();
            message.append(detail);
            message
        },
        HostCall::ConsumeBody => "failed to consume response body".to_string(),
        HostCall::OpenInput => "failed to get body stream".to_string(),
        HostCall::NewRequest => detail.to_string(),
        HostCall::WriteBody(_) => detail.to_string(),
        HostCall::AwaitResponse => detail.to_string(),
        HostCall::ReadBody => detail.to_string(),
    }
}

/// Tells why the response to a request cannot be had.
pub fn await_failure(failure: AwaitFailure) -> (r: String)
    ensures
        r@ == (match failure {
            AwaitFailure::NotReady => "response not ready after blocking"@,
            AwaitFailure::AlreadyTaken => "response already consumed"@,
            AwaitFailure::Http(error) => "HTTP error: "@ + error@,
        }),
{
    match failure {
        AwaitFailure::NotReady => "response not ready after blocking".to_string(),
        AwaitFailure::AlreadyTaken => "response already consumed".to_string(),
        AwaitFailure::Http(error) => {
            let mut message = "HTTP error: ".to_string();
            message.append(error.as_str());
            message
        },
    }
}

/// The bytes that a list of calls writes as the body, in order.
pub open spec fn written_body(calls: Seq<HostCallModel>) -> Seq<u8>
    decreases calls.len(),
{
    if calls.len() == 0 {
        Seq::empty()
    } else {
        match calls.last() {
            HostCallModel::WriteBody(bytes) => written_body(calls.drop_last()) + bytes,
            _ => written_body(calls.drop_last()),
        }
    }
}

/// Calls that come after one another write their bytes after one another.
proof fn lemma_written_body_add(calls: Seq<HostCallModel>, more: Seq<HostCallModel>)
    ensures
        written_body(calls + more) == written_body(calls) + written_body(more),
    decreases more.len(),
{
    if more.len() == 0 {
        assert(calls + more == calls);
        assert(written_body(calls) + written_body(more) == written_body(calls));
    } else {
        lemma_written_body_add(calls, more.drop_last());
        assert((calls + more).drop_last() == calls + more.drop_last());
        assert((calls + more).last() == more.last());
        assert(written_body(calls + more) == written_body(calls) + written_body(more));
    }
}

/// A list of calls without one that writes has written nothing.
proof fn lemma_nothing_written(calls: Seq<HostCallModel>)
    requires
        forall|i: int| 0 <= i < calls.len() ==> !((#[trigger] calls[i]) is WriteBody),
    ensures
        written_body(calls) == Seq::<u8>::empty(),
    decreases calls.len(),
{
    if calls.len() > 0 {
        assert(!(calls[calls.len() - 1] is WriteBody));
        lemma_nothing_written(calls.drop_last());
    }
}

/// A request is sent with its whole body, and with nothing else.
pub proof fn law_request_has_its_body(pairs: Seq<(Seq<char>, Seq<u8>)>, parts: FetchParts)
    ensures
        written_body(planned(pairs, parts)) == parts.body@,
{
    let body = parts.body@;
    let head = header_calls(pairs) + target_calls(parts);
    let tail = seq![
        HostCallModel::FinishBody,
        HostCallModel::Send,
        HostCallModel::AwaitResponse,
        HostCallModel::ConsumeBody,
        HostCallModel::OpenInput,
        HostCallModel::ReadBody,
    ];
    lemma_nothing_written(head);
    lemma_nothing_written(tail);
    lemma_written_body_add(head, exchange_calls(body));
    if body.len() > 0 {
        let opened = seq![HostCallModel::OpenBody, HostCallModel::OpenOutput];
        let start = opened.push(HostCallModel::WriteBody(body));
        lemma_nothing_written(opened);
        assert(start.drop_last() == opened);
        assert(written_body(start) == body);
        assert(exchange_calls(body) == start + tail);
        lemma_written_body_add(start, tail);
    } else {
        lemma_nothing_written(exchange_calls(body));
    }
    assert(written_body(planned(pairs, parts)) == body);
}

/// The headers that a list of calls appends, in order.
pub open spec fn sent_headers(calls: Seq<HostCallModel>) -> Seq<(Seq<char>, Seq<u8>)>
    decreases calls.len(),
{
    if calls.len() == 0 {
        Seq::empty()
    } else {
        match calls.last() {
            HostCallModel::AppendHeader(name, value) => sent_headers(calls.drop_last()).push(
                (name, value),
            ),
            _ => sent_headers(calls.drop_last()),
        }
    }
}

/// Calls that come after one another send their headers after one another.
proof fn lemma_sent_headers_add(calls: Seq<HostCallModel>, more: Seq<HostCallModel>)
    ensures
        sent_headers(calls + more) == sent_headers(calls) + sent_headers(more),
    decreases more.len(),
{
    if more.len() == 0 {
        assert(calls + more == calls);
        assert(sent_headers(calls) + sent_headers(more) == sent_headers(calls));
    } else {
        lemma_sent_headers_add(calls, more.drop_last());
        assert((calls + more).drop_last() == calls + more.drop_last());
        assert((calls + more).last() == more.last());
        assert(sent_headers(calls + more) == sent_headers(calls) + sent_headers(more));
    }
}

/// A list of calls without a header to append sends none.
proof fn lemma_no_headers_sent(calls: Seq<HostCallModel>)
    requires
        forall|i: int| 0 <= i < calls.len() ==> !((#[trigger] calls[i]) is AppendHeader),
    ensures
        sent_headers(calls) == Seq::<(Seq<char>, Seq<u8>)>::empty(),
    decreases calls.len(),
{
    if calls.len() > 0 {
        assert(!(calls[calls.len() - 1] is AppendHeader));
        lemma_no_headers_sent(calls.drop_last());
    }
}

/// A list of calls that appends headers sends them.
proof fn lemma_appended_headers_sent(pairs: Seq<(Seq<char>, Seq<u8>)>)
    ensures
        sent_headers(
            Seq::new(pairs.len(), |i: int| HostCallModel::AppendHeader(pairs[i].0, pairs[i].1)),
        ) == pairs,
    decreases pairs.len(),
{
    let calls = Seq::new(
        pairs.len(),
        |i: int| HostCallModel::AppendHeader(pairs[i].0, pairs[i].1),
    );
    if pairs.len() > 0 {
        let front = pairs.drop_last();
        lemma_appended_headers_sent(front);
        assert(calls.drop_last() == Seq::new(
            front.len(),
            |i: int| HostCallModel::AppendHeader(front[i].0, front[i].1),
        ));
        assert(front.push(pairs.last()) == pairs);
    } else {
        assert(calls.len() == 0);
        assert(sent_headers(calls) == pairs);
    }
}

/// A request is sent with all of its own headers, in order, and always with a user agent:
/// its own, or that of this program.
pub proof fn law_request_has_a_user_agent(
    pairs: Seq<(Seq<char>, Seq<u8>)>,
    parts: FetchParts,
)
    ensures
        sent_headers(planned(pairs, parts)) == (if has_user_agent(pairs) {
            pairs
        } else {
            pairs.push(("user-agent"@, encode_utf8("corevisor-cli"@)))
        }),
        has_user_agent(sent_headers(planned(pairs, parts))),
{
    let own = Seq::new(
        pairs.len(),
        |i: int| HostCallModel::AppendHeader(pairs[i].0, pairs[i].1),
    );
    let extra: (Seq<char>, Seq<u8>) = ("user-agent"@, encode_utf8("corevisor-cli"@));
    lemma_appended_headers_sent(pairs);
    lemma_no_headers_sent(target_calls(parts));
    lemma_no_headers_sent(exchange_calls(parts.body@));
    lemma_sent_headers_add(header_calls(pairs), target_calls(parts));
    lemma_sent_headers_add(
        header_calls(pairs) + target_calls(parts),
        exchange_calls(parts.body@),
    );
    let sent = sent_headers(planned(pairs, parts));
    if has_user_agent(pairs) {
        assert(header_calls(pairs) == own);
        assert(sent == pairs);
    } else {
        let added = seq![HostCallModel::AppendHeader(extra.0, extra.1)];
        assert(header_calls(pairs) == own.push(added[0]));
        assert(own.push(added[0]).drop_last() == own);
        assert(sent == pairs.push(extra));
        assert(sent[pairs.len() as int] == extra);
        assert(has_user_agent(sent));
    }
}

/// The name of a method, as it stands in a request.
pub open spec fn method_text(method: HttpMethodModel) -> Seq<char> {
    match method {
        HttpMethodModel::Get => "GET"@,
        HttpMethodModel::Post => "POST"@,
        HttpMethodModel::Put => "PUT"@,
        HttpMethodModel::Delete => "DELETE"@,
        HttpMethodModel::Head => "HEAD"@,
        HttpMethodModel::Options => "OPTIONS"@,
        HttpMethodModel::Patch => "PATCH"@,
        HttpMethodModel::Other(name) => name,
    }
}

/// The name of a scheme, as it stands in a URI.
pub open spec fn scheme_text(scheme: HttpSchemeModel) -> Seq<char> {
    match scheme {
        HttpSchemeModel::Http => "http"@,
        HttpSchemeModel::Https => "https"@,
        HttpSchemeModel::Other(name) => name,
    }
}

/// A method is read as the one that has its name, and as another one only where the host
/// knows none by that name.
pub proof fn law_method_keeps_its_name(name: Seq<char>, known: HttpMethodModel)
    ensures
        method_text(method_named(name)) == name,
        method_named(name) is Other && !(known is Other) ==> method_text(known) != name,
{
}

/// A scheme is read as the one that has its name, and as another one only where the host
/// knows none by that name; a URI without a scheme is taken for `https`.
pub proof fn law_scheme_keeps_its_name(name: Seq<char>, known: HttpSchemeModel)
    ensures
        scheme_text(scheme_named(Some(name))) == name,
        scheme_named(Some(name)) is Other && !(known is Other) ==> scheme_text(known) != name,
        scheme_named(None) == HttpSchemeModel::Https,
{
}

/// Where in the course of a request a call has its place.
pub open spec fn stage(call: HostCallModel) -> int {
    match call {
        HostCallModel::AppendHeader(_, _) => 0,
        HostCallModel::NewRequest => 1,
        HostCallModel::SetMethod(_) => 2,
        HostCallModel::SetScheme(_) => 3,
        HostCallModel::SetAuthority(_) => 4,
        HostCallModel::SetPath(_) => 5,
        HostCallModel::OpenBody => 6,
        HostCallModel::OpenOutput => 7,
        HostCallModel::WriteBody(_) => 8,
        HostCallModel::FinishBody => 9,
        HostCallModel::Send => 10,
        HostCallModel::AwaitResponse => 11,
        HostCallModel::ConsumeBody => 12,
        HostCallModel::OpenInput => 13,
        HostCallModel::ReadBody => 14,
    }
}

/// The calls of a plan that come after its headers, written out.
spec fn after_headers(parts: FetchParts) -> Seq<HostCallModel> {
    let method = HostCallModel::SetMethod(method_named(parts.method@));
    let scheme = HostCallModel::SetScheme(scheme_named(parts.scheme.deep_view()));
    let path = HostCallModel::SetPath(
        match parts.path_and_query {
            Some(path) => path@,
            None => "/"@,
        },
    );
    let start = match parts.authority {
        Some(authority) => seq![
            HostCallModel::NewRequest,
            method,
            scheme,
            HostCallModel::SetAuthority(authority@),
            path,
        ],
        None => seq![HostCallModel::NewRequest, method, scheme, path],
    };
    if parts.body@.len() > 0 {
        start + seq![
            HostCallModel::OpenBody,
            HostCallModel::OpenOutput,
            HostCallModel::WriteBody(parts.body@),
            HostCallModel::FinishBody,
            HostCallModel::Send,
            HostCallModel::AwaitResponse,
            HostCallModel::ConsumeBody,
            HostCallModel::OpenInput,
            HostCallModel::ReadBody,
        ]
    } else {
        start + seq![
            HostCallModel::OpenBody,
            HostCallModel::FinishBody,
            HostCallModel::Send,
            HostCallModel::AwaitResponse,
            HostCallModel::ConsumeBody,
            HostCallModel::OpenInput,
            HostCallModel::ReadBody,
        ]
    }
}

/// A plan is its headers and what comes after them.
proof fn lemma_plan_written_out(pairs: Seq<(Seq<char>, Seq<u8>)>, parts: FetchParts)
    ensures
        planned(pairs, parts) == header_calls(pairs) + after_headers(parts),
        forall|i: int|
            0 <= i < header_calls(pairs).len() ==> (#[trigger] header_calls(
                pairs,
            )[i]) is AppendHeader,
{
    assert(target_calls(parts) + exchange_calls(parts.body@) =~= after_headers(parts));
    assert(planned(pairs, parts) =~= header_calls(pairs) + (target_calls(parts)
        + exchange_calls(parts.body@)));
}

/// The calls of a request come in the order in which the host can take them; but for the
/// headers, none of them comes twice.
pub proof fn law_plan_is_in_order(
    pairs: Seq<(Seq<char>, Seq<u8>)>,
    parts: FetchParts,
    i: int,
    j: int,
)
    requires
        0 <= i < j < planned(pairs, parts).len(),
    ensures
        stage(planned(pairs, parts)[i]) < stage(planned(pairs, parts)[j]) || (planned(
            pairs,
            parts,
        )[i] is AppendHeader && planned(pairs, parts)[j] is AppendHeader),
{
    lemma_plan_written_out(pairs, parts);
    let headers = header_calls(pairs);
    let rest = after_headers(parts);
    if i < headers.len() {
        assert(headers[i] is AppendHeader);
    }
    if j < headers.len() {
        assert(headers[j] is AppendHeader);
    } else {
        assert(planned(pairs, parts)[j] == rest[j - headers.len()]);
        if i >= headers.len() {
            assert(planned(pairs, parts)[i] == rest[i - headers.len()]);
        }
    }
}

/// Which calls a plan holds after its headers, call by call.
spec fn is_after_headers(parts: FetchParts, call: HostCallModel) -> bool {
    match call {
        HostCallModel::AppendHeader(_, _) => false,
        HostCallModel::SetMethod(method) => method == method_named(parts.method@),
        HostCallModel::SetScheme(scheme) => scheme == scheme_named(parts.scheme.deep_view()),
        HostCallModel::SetAuthority(authority) => parts.authority.deep_view() == Some(authority),
        HostCallModel::SetPath(path) => path == (match parts.path_and_query {
            Some(given) => given@,
            None => "/"@,
        }),
        HostCallModel::OpenOutput => parts.body@.len() > 0,
        HostCallModel::WriteBody(body) => parts.body@.len() > 0 && body == parts.body@,
        _ => true,
    }
}

/// Every call at its place after the headers is one of them.
proof fn lemma_after_headers_at(parts: FetchParts, i: int)
    requires
        0 <= i < after_headers(parts).len(),
    ensures
        is_after_headers(parts, after_headers(parts)[i]),
{
}

/// Every call that comes after the headers has its place.
proof fn lemma_place_after_headers(parts: FetchParts, call: HostCallModel) -> (i: int)
    requires
        is_after_headers(parts, call),
    ensures
        0 <= i < after_headers(parts).len(),
        after_headers(parts)[i] == call,
{
    let host: int = if parts.authority is Some {
        1
    } else {
        0
    };
    let body: int = if parts.body@.len() > 0 {
        2
    } else {
        0
    };
    match call {
        HostCallModel::AppendHeader(_, _) => 0,
        HostCallModel::NewRequest => 0,
        HostCallModel::SetMethod(_) => 1,
        HostCallModel::SetScheme(_) => 2,
        HostCallModel::SetAuthority(_) => 3,
        HostCallModel::SetPath(_) => 3 + host,
        HostCallModel::OpenBody => 4 + host,
        HostCallModel::OpenOutput => 5 + host,
        HostCallModel::WriteBody(_) => 6 + host,
        HostCallModel::FinishBody => 5 + host + body,
        HostCallModel::Send => 6 + host + body,
        HostCallModel::AwaitResponse => 7 + host + body,
        HostCallModel::ConsumeBody => 8 + host + body,
        HostCallModel::OpenInput => 9 + host + body,
        HostCallModel::ReadBody => 10 + host + body,
    }
}

/// A plan holds exactly the calls that come after its headers, and those that append them.
proof fn lemma_plan_holds(
    pairs: Seq<(Seq<char>, Seq<u8>)>,
    parts: FetchParts,
    call: HostCallModel,
)
    requires
        !(call is AppendHeader),
    ensures
        planned(pairs, parts).contains(call) <==> is_after_headers(parts, call),
{
    lemma_plan_written_out(pairs, parts);
    let headers = header_calls(pairs);
    let calls = planned(pairs, parts);
    if calls.contains(call) {
        let i = choose|i: int| 0 <= i < calls.len() && calls[i] == call;
        if i < headers.len() {
            assert(headers[i] is AppendHeader);
        }
        lemma_after_headers_at(parts, i - headers.len());
    }
    if is_after_headers(parts, call) {
        let i = lemma_place_after_headers(parts, call);
        assert(calls[headers.len() + i] == call);
    }
}

/// A request goes out as the script made it, whatever else it holds: the method is set to
/// the one with the request's name for it, the scheme and the authority to those of its URI,
/// the path to its path with the query, and the body, unless it is empty, is written.
pub proof fn law_plan_sends_the_request_as_made(
    pairs: Seq<(Seq<char>, Seq<u8>)>,
    parts: FetchParts,
    method: HttpMethodModel,
    scheme: HttpSchemeModel,
    text: Seq<char>,
    bytes: Seq<u8>,
)
    ensures
        ({
            let calls = planned(pairs, parts);
            &&& calls.contains(HostCallModel::SetMethod(method_named(parts.method@)))
            &&& calls.contains(HostCallModel::SetMethod(method)) ==> method_text(method)
                == parts.method@
            &&& calls.contains(HostCallModel::SetScheme(scheme_named(parts.scheme.deep_view())))
            &&& calls.contains(HostCallModel::SetScheme(scheme)) ==> scheme_text(scheme) == (
            match parts.scheme {
                Some(name) => name@,
                None => "https"@,
            })
            &&& calls.contains(HostCallModel::SetAuthority(text)) <==> (
            parts.authority matches Some(authority) && authority@ == text)
            &&& calls.contains(HostCallModel::SetPath(text)) <==> text == (
            match parts.path_and_query {
                Some(path) => path@,
                None => seq!['/'],
            })
            &&& calls.contains(HostCallModel::WriteBody(bytes)) <==> bytes.len() > 0 && bytes
                == parts.body@
            &&& calls.contains(HostCallModel::OpenOutput) <==> parts.body@.len() > 0
        }),
{
    law_method_keeps_its_name(parts.method@, method);
    reveal_strlit("/");
    assert("/"@ == seq!['/']);
    lemma_plan_holds(pairs, parts, HostCallModel::SetMethod(method_named(parts.method@)));
    lemma_plan_holds(pairs, parts, HostCallModel::SetMethod(method));
    lemma_plan_holds(
        pairs,
        parts,
        HostCallModel::SetScheme(scheme_named(parts.scheme.deep_view())),
    );
    lemma_plan_holds(pairs, parts, HostCallModel::SetScheme(scheme));
    lemma_plan_holds(pairs, parts, HostCallModel::SetAuthority(text));
    lemma_plan_holds(pairs, parts, HostCallModel::SetPath(text));
    lemma_plan_holds(pairs, parts, HostCallModel::WriteBody(bytes));
    lemma_plan_holds(pairs, parts, HostCallModel::OpenOutput);
}

/// Every request is sent, once it is made and its body is finished, and its response is read
/// to the end.
pub proof fn law_plan_sends_and_reads(pairs: Seq<(Seq<char>, Seq<u8>)>, parts: FetchParts)
    ensures
        planned(pairs, parts).contains(HostCallModel::NewRequest),
        planned(pairs, parts).contains(HostCallModel::OpenBody),
        planned(pairs, parts).len() >= 6,
        planned(pairs, parts).skip(planned(pairs, parts).len() - 6) == seq![
            HostCallModel::FinishBody,
            HostCallModel::Send,
            HostCallModel::AwaitResponse,
            HostCallModel::ConsumeBody,
            HostCallModel::OpenInput,
            HostCallModel::ReadBody,
        ],
{
    lemma_plan_written_out(pairs, parts);
    let headers = header_calls(pairs);
    let rest = after_headers(parts);
    let calls = planned(pairs, parts);
    let body = if parts.authority is Some {
        5int
    } else {
        4int
    };
    assert(calls[headers.len() as int] == rest[0]);
    assert(calls[headers.len() + body] == rest[body]);
    assert(calls.skip(calls.len() - 6) =~= rest.skip(rest.len() - 6));
}

/// A request is sent with exactly the headers that it has, in order, where one of them is a
/// user agent in whatever case; and else with the user agent of this program after them.
pub proof fn law_own_user_agent_is_kept(pairs: Seq<(Seq<char>, Seq<u8>)>, parts: FetchParts)
    ensures
        (exists|i: int|
            0 <= i < pairs.len() && text::ascii_lower((#[trigger] pairs[i]).0)
                == "user-agent"@) ==> sent_headers(planned(pairs, parts)) == pairs,
        (forall|i: int|
            0 <= i < pairs.len() ==> text::ascii_lower((#[trigger] pairs[i]).0)
                != "user-agent"@) ==> sent_headers(planned(pairs, parts)) == pairs.push(
            ("user-agent"@, encode_utf8("corevisor-cli"@)),
        ),
{
    law_request_has_a_user_agent(pairs, parts);
    reveal_strlit("user-agent");
    assert(text::ascii_lower("user-agent"@) == "user-agent"@);
}

/// A call that failed is told with the host's error in full, for the calls whose error says
/// more than that they failed; each of the others has its own words.
pub proof fn law_call_failure_tells_the_error(call: HostCallModel, detail: Seq<char>)
    ensures
        call is AppendHeader ==> failure_of(call, detail) == "header error: "@ + detail,
        call is FinishBody ==> failure_of(call, detail) == "finish body error: "@ + detail,
        call is Send ==> failure_of(call, detail) == "outgoing handler error: "@ + detail,
        call is WriteBody || call is ReadBody ==> failure_of(call, detail) == detail,
        call is SetMethod ==> failure_of(call, detail) == "failed to set method"@,
        call is SetScheme ==> failure_of(call, detail) == "failed to set scheme"@,
        call is SetAuthority ==> failure_of(call, detail) == "failed to set authority"@,
        call is SetPath ==> failure_of(call, detail) == "failed to set path"@,
        call is OpenBody ==> failure_of(call, detail) == "failed to get outgoing body"@,
        call is OpenOutput ==> failure_of(call, detail) == "failed to get body write stream"@,
        call is ConsumeBody ==> failure_of(call, detail) == "failed to consume response body"@,
        call is OpenInput ==> failure_of(call, detail) == "failed to get body stream"@,
{
}

/// Calls are modelled with all that they hand to the host.
pub proof fn law_call_model_leaves_nothing_out(
    call: HostCall,
    method: HttpMethod,
    scheme: HttpScheme,
)
    ensures
        call matches HostCall::AppendHeader(name, value) ==> call.deep_view()
            == HostCallModel::AppendHeader(name@, value@),
        call matches HostCall::SetMethod(m) ==> call.deep_view() == HostCallModel::SetMethod(m@),
        call matches HostCall::SetScheme(s) ==> call.deep_view() == HostCallModel::SetScheme(s@),
        call matches HostCall::SetAuthority(a) ==> call.deep_view() == HostCallModel::SetAuthority(
            a@,
        ),
        call matches HostCall::SetPath(p) ==> call.deep_view() == HostCallModel::SetPath(p@),
        call matches HostCall::WriteBody(b) ==> call.deep_view() == HostCallModel::WriteBody(b@),
        method is Get <==> method@ is Get,
        method is Post <==> method@ is Post,
        method is Put <==> method@ is Put,
        method is Delete <==> method@ is Delete,
        method is Head <==> method@ is Head,
        method is Options <==> method@ is Options,
        method is Patch <==> method@ is Patch,
        method matches HttpMethod::Other(name) ==> method@ == HttpMethodModel::Other(name@),
        scheme is Http <==> scheme@ is Http,
        scheme is Https <==> scheme@ is Https,
        scheme matches HttpScheme::Other(name) ==> scheme@ == HttpSchemeModel::Other(name@),
{
}

} // verus!
