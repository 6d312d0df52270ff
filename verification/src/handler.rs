//! The tools that the MCP server offers: their arguments, and what they reply.

use vstd::prelude::*;
use vstd::string::*;
use crate::credential_store;
use crate::credential_store::CredentialStore;
use crate::engine;
use crate::engine::CredentialLookup;
use crate::execution::{JsResult, JsResultModel};
use crate::json;
use crate::text;
use crate::types;
use crate::types::{CredentialEntry, ServiceConfig, ServiceModel};

verus! {

broadcast use vstd::string::group_string_axioms;

/// How long a script may run where its caller sets no limit, in seconds.
pub const DEFAULT_TIMEOUT_SECS: u64 = 30;

/// The arguments of the tool that executes JavaScript.
#[derive(Debug)]
pub struct ExecuteJsArgs {
    /// The JavaScript code to execute
    pub code: String,
    /// Execution timeout in seconds (default: 30)
    pub timeout_secs: Option<u64>,
    /// Optional context describing why this code is being executed
    pub context: Option<String>,
}

impl ExecuteJsArgs {
    /// How long the script may run, in seconds.
    pub fn timeout(&self) -> (r: u64)
        ensures
            r == self.timeout_secs.unwrap_or(DEFAULT_TIMEOUT_SECS),
    {
        match self.timeout_secs {
            Some(secs) => secs,
            None => DEFAULT_TIMEOUT_SECS,
        }
    }
}

/// The arguments of the tool that searches API documentation.
#[derive(Debug)]
pub struct SearchApiDocsArgs {
    /// Regex pattern to search for in API documentation
    pub pattern: String,
    /// Domain to search within. Resolves to catalog via the profile's services.
    pub domain: Option<String>,
    /// API slug to search within. Direct catalog lookup.
    pub slug: Option<String>,
}

/// What a tool replies: texts, and whether they tell of an error.
#[derive(Debug, PartialEq)]
pub struct ToolReply {
    pub is_error: bool,
    pub content: Vec<String>,
}

/// The model of a [`ToolReply`].
#[verifier::ext_equal]
pub struct ToolReplyModel {
    pub is_error: bool,
    pub content: Seq<Seq<char>>,
}

impl View for ToolReply {
    type V = ToolReplyModel;

    open spec fn view(&self) -> ToolReplyModel {
        ToolReplyModel { is_error: self.is_error, content: self.content.deep_view() }
    }
}

impl DeepView for ToolReply {
    type V = ToolReplyModel;

    open spec fn deep_view(&self) -> ToolReplyModel {
        self.view()
    }
}

/// Why a tool has no reply.
#[derive(Debug, PartialEq)]
pub enum ToolError {
    /// Something went wrong on this side.
    Internal(String),
    /// The caller's arguments make no sense.
    InvalidParams(String),
}

/// The model of a [`ToolError`].
pub enum ToolErrorModel {
    Internal(Seq<char>),
    InvalidParams(Seq<char>),
}

impl View for ToolError {
    type V = ToolErrorModel;

    open spec fn view(&self) -> ToolErrorModel {
        match self {
            ToolError::Internal(message) => ToolErrorModel::Internal(message@),
            ToolError::InvalidParams(message) => ToolErrorModel::InvalidParams(message@),
        }
    }
}

impl DeepView for ToolError {
    type V = ToolErrorModel;

    open spec fn deep_view(&self) -> ToolErrorModel {
        self.view()
    }
}

/// A reply of one text.
fn one_text(is_error: bool, text: String) -> (r: ToolReply)
    ensures
        r@ == (ToolReplyModel { is_error, content: seq![text@] }),
{
    let mut content: Vec<String> = Vec::new();
    content.push(text);
    assert(content.deep_view() == seq![text@]);
    ToolReply { is_error, content }
}

/// What is shown of a run that failed.
pub open spec fn failure_text(result: JsResultModel) -> Seq<char> {
    let shown = (if result.stdout.len() > 0 {
        result.stdout + "\n"@
    } else {
        Seq::empty()
    }) + result.stderr;
    if shown.len() == 0 {
        "Execution failed with no output"@
    } else {
        shown
    }
}

/// What the tool that executes JavaScript replies on a run that came to an end.
pub open spec fn run_reply(result: JsResultModel) -> ToolReplyModel {
    if !result.success {
        ToolReplyModel { is_error: true, content: seq![failure_text(result)] }
    } else if result.stderr.len() > 0 {
        ToolReplyModel {
            is_error: false,
            content: seq![result.stdout, "[stderr]: "@ + result.stderr],
        }
    } else {
        ToolReplyModel { is_error: false, content: seq![result.stdout] }
    }
}

/// Replies to a call that executes JavaScript, given what the engine made of it.
pub fn execute_javascript(result: Result<JsResult, String>) -> (r: Result<ToolReply, ToolError>)
    ensures
        types::result_model(r) == (match result {
            Ok(run) => Ok(run_reply(run@)),
            Err(error) => Err(ToolErrorModel::Internal("engine error: "@ + error@)),
        }),
{
    let run = match result {
        Ok(run) => run,
        Err(error) => {
            let mut message = "engine error: ".to_string();
            message.append(error.as_str());
            return Err(ToolError::Internal(message));
        },
    };
    let ghost ran = run@;
    if run.success {
        let mut content: Vec<String> = Vec::new();
        content.push(run.stdout);
        assert(content.deep_view() == seq![ran.stdout]);
        if !run.stderr.as_str().is_empty() {
            let mut note = "[stderr]: ".to_string();
            note.append(run.stderr.as_str());
            content.push(note);
            assert(content.deep_view() == seq![ran.stdout, "[stderr]: "@ + ran.stderr]);
        }
        Ok(ToolReply { is_error: false, content })
    } else {
        let mut output = String::new();
        if !run.stdout.as_str().is_empty() {
            output.append(run.stdout.as_str());
            output.append("\n");
            assert(output@ == ran.stdout + "\n"@);
        }
        if !run.stderr.as_str().is_empty() {
            output.append(run.stderr.as_str());
        } else {
            assert(output@ == output@ + ran.stderr);
        }
        if output.as_str().is_empty() {
            Ok(one_text(true, "Execution failed with no output".to_string()))
        } else {
            Ok(one_text(true, output))
        }
    }
}

/// The line about a service.
pub open spec fn service_line(service: ServiceModel, credential_set: bool) -> Seq<char> {
    "- "@ + service.domain + " (header: "@ + service.header_name + (if credential_set {
        ", credential: set)"@
    } else {
        ", credential: not set)"@
    })
}

/// The lines about services, below a heading.
pub open spec fn service_lines(services: Seq<ServiceModel>, set: Seq<bool>) -> Seq<Seq<char>> {
    seq!["Configured services:"@] + Seq::new(
        services.len(),
        |i: int| service_line(services[i], set[i]),
    )
}

/// What is shown of `services`; `set` tells of each whether its credential is set.
pub open spec fn services_text(services: Seq<ServiceModel>, set: Seq<bool>) -> Seq<char> {
    if services.len() == 0 {
        "No services configured. Add domains via `cv credential set <domain>` or sync from the hub."@
    } else {
        text::joined_lines(service_lines(services, set))
    }
}

/// Shows `services`; `set` tells of each whether its credential is set.
pub fn show_services(services: &Vec<ServiceConfig>, set: &Vec<bool>) -> (r: String)
    requires
        set@.len() == services@.len(),
    ensures
        r@ == services_text(services.deep_view(), set@),
{
    if services.len() == 0 {
        return
            "No services configured. Add domains via `cv credential set <domain>` or sync from the hub.".to_string();
    }
    let ghost wanted = service_lines(services.deep_view(), set@);
    let mut lines: Vec<String> = Vec::new();
    lines.push("Configured services:".to_string());
    assert(lines.deep_view() == wanted.take(1));
    for i in 0..services.len()
        invariant
            set@.len() == services@.len(),
            wanted == service_lines(services.deep_view(), set@),
            lines.deep_view() == wanted.take(i + 1),
    {
        let ghost before = lines.deep_view();
        let mut line = "- ".to_string();
        line.append(services[i].domain.as_str());
        line.append(" (header: ");
        line.append(services[i].header_name.as_str());
        if set[i] {
            line.append(", credential: set)");
        } else {
            line.append(", credential: not set)");
        }
        proof {
            assert(services.deep_view()[i as int] == services@[i as int]@);
            assert(line@ == service_line(services@[i as int]@, set@[i as int]));
            assert(wanted[i + 1] == line@);
        }
        lines.push(line);
        assert(lines.deep_view() == before.push(line@));
        assert(wanted.take(i + 2) == before.push(line@));
    }
    assert(wanted.take(services@.len() + 1int) == wanted);
    text::join_lines(&lines)
}

/// Whether `set` is what `creds` says of whether there is a credential for `domain` in the
/// profile. A lookup that failed counts as one that found nothing.
pub open spec fn credential_seen<C: CredentialLookup>(
    creds: &C,
    profile_id: &str,
    domain: Seq<char>,
    set: bool,
) -> bool {
    exists|asked: &str, found: Result<Option<CredentialEntry>, String>|
        asked@ == domain && #[trigger] engine::lookup_made(creds, profile_id, asked, found) && set
            == (found matches Ok(Some(_)))
}

/// Replies to a call that lists the services of a profile, given what the Hub said of them.
/// Only the credentials of those services are looked up.
pub fn list_services<C: CredentialLookup>(
    services: Result<Vec<ServiceConfig>, String>,
    profile_id: &str,
    creds: &C,
) -> (r: Result<ToolReply, ToolError>)
    requires
        services matches Ok(fetched) ==> forall|i: int|
            0 <= i < fetched@.len() ==> creds.may_look_up(
                profile_id@,
                (#[trigger] fetched@[i]).domain@,
            ),
    ensures
        match services {
            Err(error) => r matches Err(failure) && failure@ == ToolErrorModel::Internal(
                "failed to fetch services: "@ + error@,
            ),
            Ok(fetched) => r matches Ok(reply) && exists|set: Seq<bool>|
                {
                    &&& set.len() == fetched@.len()
                    &&& forall|i: int|
                        0 <= i < set.len() ==> credential_seen(
                            creds,
                            profile_id,
                            fetched@[i].domain@,
                            #[trigger] set[i],
                        )
                    &&& reply@ == (ToolReplyModel {
                        is_error: false,
                        content: seq![#[trigger] services_text(fetched.deep_view(), set)],
                    })
                },
        },
{
    let fetched = match services {
        Ok(fetched) => fetched,
        Err(error) => {
            let mut message = "failed to fetch services: ".to_string();
            message.append(error.as_str());
            return Err(ToolError::Internal(message));
        },
    };
    let mut set: Vec<bool> = Vec::new();
    for i in 0..fetched.len()
        invariant
            set@.len() == i,
            forall|j: int|
                0 <= j < fetched@.len() ==> creds.may_look_up(
                    profile_id@,
                    (#[trigger] fetched@[j]).domain@,
                ),
            forall|j: int|
                0 <= j < i ==> credential_seen(
                    creds,
                    profile_id,
                    fetched@[j].domain@,
                    #[trigger] set@[j],
                ),
    {
        let asked = fetched[i].domain.as_str();
        let found = creds.get_credential(profile_id, asked);
        assert(engine::lookup_made(creds, profile_id, asked, found));
        let seen = match found {
            Ok(Some(_)) => true,
            _ => false,
        };
        assert(credential_seen(creds, profile_id, fetched@[i as int].domain@, seen));
        set.push(seen);
    }
    let shown = show_services(&fetched, &set);
    Ok(one_text(false, shown))
}

/// Checks the arguments of a search: it needs a domain or a slug.
pub fn check_search_args(args: &SearchApiDocsArgs) -> (r: Result<(), ToolError>)
    ensures
        r is Ok <==> args.domain is Some || args.slug is Some,
        r matches Err(error) ==> error@ == ToolErrorModel::InvalidParams(
            "must provide domain or slug"@,
        ),
{
    if args.domain.is_none() && args.slug.is_none() {
        Err(ToolError::InvalidParams("must provide domain or slug".to_string()))
    } else {
        Ok(())
    }
}

/// What is shown of the results of a search, written out as JSON.
pub open spec fn results_text(results: Seq<char>) -> Seq<char> {
    if results == "[]"@ {
        "No matches found."@
    } else {
        results
    }
}

/// Replies to a search with its results, written out as JSON.
pub fn show_results(results: String) -> (r: ToolReply)
    ensures
        r@ == (ToolReplyModel { is_error: false, content: seq![results_text(results@)] }),
{
    if text::str_eq(results.as_str(), "[]") {
        one_text(false, "No matches found.".to_string())
    } else {
        one_text(false, results)
    }
}

/// Replies to a search, given the body of the Hub's answer.
pub fn search_api_docs(found: Result<Vec<u8>, String>) -> (r: Result<ToolReply, ToolError>)
    ensures
        types::result_model(r) == (match found {
            Err(error) => Err(
                ToolErrorModel::Internal("failed to search API docs: "@ + error@),
            ),
            Ok(body) => match json::json_document(body@) {
                Some(results) => Ok(
                    ToolReplyModel { is_error: false, content: seq![results_text(results)] },
                ),
                None => Err(
                    ToolErrorModel::Internal(
                        "failed to search API docs: error decoding response body"@,
                    ),
                ),
            },
        }),
{
    let body = match found {
        Ok(body) => body,
        Err(error) => {
            let mut message = "failed to search API docs: ".to_string();
            message.append(error.as_str());
            return Err(ToolError::Internal(message));
        },
    };
    match json::parse_json(body.as_slice()) {
        Ok(value) => {
            let results = match json::pretty_json(&value) {
                Ok(results) => results,
                Err(_) => "[]".to_string(),
            };
            Ok(show_results(results))
        },
        Err(_) => Err(
            ToolError::Internal(
                "failed to search API docs: error decoding response body".to_string(),
            ),
        ),
    }
}

/// Whether a credential is listed as set depends on the store only through whether it
/// holds a credential for the domain in the profile: a listing gives no value away.
pub proof fn law_listed_as_set_where_stored(
    store: &CredentialStore,
    profile_id: &str,
    domain: Seq<char>,
    set: bool,
)
    requires
        credential_seen(store, profile_id, domain, set),
    ensures
        set <==> credential_store::lookup(store@, profile_id@, domain) is Some,
{
    let (asked, found) = choose|asked: &str, found: Result<Option<CredentialEntry>, String>|
        asked@ == domain && #[trigger] engine::lookup_made(store, profile_id, asked, found) && set
            == (found matches Ok(Some(_)));
    assert(call_ensures(CredentialStore::get_credential, (store, profile_id, asked), found));
}

/// A run is reported as an error exactly when it did not succeed, and a reply is never
/// without content.
pub proof fn law_run_reply_tells_of_failure(result: JsResultModel)
    ensures
        run_reply(result).is_error <==> !result.success,
        run_reply(result).content.len() > 0,
        !result.success ==> run_reply(result).content[0].len() > 0,
{
    reveal_strlit("Execution failed with no output");
}

/// A run that succeeded is replied with its whole output, and with what it left on standard
/// error where there is any; one that failed is replied with both of its outputs in one
/// text, or with a note where there are none.
pub proof fn law_run_reply_shows_the_output(result: JsResultModel)
    ensures
        result.success && result.stderr.len() == 0 ==> run_reply(result).content
            == seq![result.stdout],
        result.success && result.stderr.len() > 0 ==> run_reply(result).content
            == seq![result.stdout, "[stderr]: "@ + result.stderr],
        !result.success ==> run_reply(result).content.len() == 1,
        !result.success && result.stdout.len() > 0 ==> run_reply(result).content[0]
            == result.stdout + "\n"@ + result.stderr,
        !result.success && result.stdout.len() == 0 && result.stderr.len() > 0 ==> run_reply(
            result,
        ).content[0] == result.stderr,
        !result.success && result.stdout.len() == 0 && result.stderr.len() == 0 ==> run_reply(
            result,
        ).content[0] == "Execution failed with no output"@,
{
    reveal_strlit("\n");
    assert(Seq::<char>::empty() + result.stderr == result.stderr);
}

/// A listing has a heading and one line for each service, in order: line after line the
/// domain, the header, and whether the credential is set.
pub proof fn law_every_service_is_listed(services: Seq<ServiceModel>, set: Seq<bool>)
    requires
        set.len() == services.len(),
    ensures
        services.len() == 0 ==> services_text(services, set)
            == "No services configured. Add domains via `cv credential set <domain>` or sync from the hub."@,
        services.len() > 0 ==> exists|lines: Seq<Seq<char>>|
            {
                &&& services_text(services, set) == #[trigger] text::joined_lines(lines)
                &&& lines.len() == services.len() + 1
                &&& lines[0] == "Configured services:"@
                &&& forall|i: int|
                    0 <= i < services.len() && set[i] ==> #[trigger] lines[i + 1] == "- "@
                        + services[i].domain + " (header: "@ + services[i].header_name
                        + ", credential: set)"@
                &&& forall|i: int|
                    0 <= i < services.len() && !set[i] ==> #[trigger] lines[i + 1] == "- "@
                        + services[i].domain + " (header: "@ + services[i].header_name
                        + ", credential: not set)"@
            },
{
    if services.len() > 0 {
        let lines = service_lines(services, set);
        assert(services_text(services, set) == text::joined_lines(lines));
        assert forall|i: int| 0 <= i < services.len() implies #[trigger] lines[i + 1]
            == service_line(services[i], set[i]) by {}
    }
}

/// A credential is seen as set exactly where the lookup of that domain in that profile found
/// one.
pub proof fn law_seen_is_what_was_found<C: CredentialLookup>(
    creds: &C,
    profile_id: &str,
    domain: Seq<char>,
    set: bool,
)
    requires
        credential_seen(creds, profile_id, domain, set),
    ensures
        exists|asked: &str, found: Result<Option<CredentialEntry>, String>|
            {
                &&& asked@ == domain
                &&& #[trigger] call_ensures(C::get_credential, (creds, profile_id, asked), found)
                &&& set <==> (found matches Ok(Some(_)))
            },
{
    let (asked, found) = choose|asked: &str, found: Result<Option<CredentialEntry>, String>|
        asked@ == domain && #[trigger] engine::lookup_made(creds, profile_id, asked, found) && set
            == (found matches Ok(Some(_)));
    assert(call_ensures(C::get_credential, (creds, profile_id, asked), found));
}

/// Only the empty list itself is told as no match; every other result of a search is shown
/// in full, as it was written out.
pub proof fn law_only_the_empty_list_is_no_match(results: Seq<char>)
    ensures
        results == seq!['[', ']'] ==> results_text(results) == "No matches found."@,
        results != seq!['[', ']'] ==> results_text(results) == results,
{
    reveal_strlit("[]");
    assert("[]"@ == seq!['[', ']']);
}

/// Two replies have the same model only where they say the same.
pub proof fn law_reply_model_leaves_nothing_out(a: ToolReply, b: ToolReply)
    ensures
        a.deep_view() == b.deep_view() <==> a.is_error == b.is_error && a.content.deep_view()
            == b.content.deep_view(),
{
}

/// Errors are modelled by their sort, and with their messages in full.
pub proof fn law_error_model_leaves_nothing_out(error: ToolError)
    ensures
        error matches ToolError::Internal(message) ==> error.deep_view()
            == ToolErrorModel::Internal(message@),
        error matches ToolError::InvalidParams(message) ==> error.deep_view()
            == ToolErrorModel::InvalidParams(message@),
{
}

/// A script whose caller sets no limit may run for half a minute.
pub proof fn law_default_limit()
    ensures
        DEFAULT_TIMEOUT_SECS * 2 == 60,
{
}

} // verus!
