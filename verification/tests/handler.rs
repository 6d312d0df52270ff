//! The tools of the server.

use corevisor::credential_store::CredentialStore;
use corevisor::execution::JsResult;
use corevisor::handler::{
    check_search_args, execute_javascript, list_services, search_api_docs, show_results,
    show_services, ExecuteJsArgs, SearchApiDocsArgs, ToolError, ToolReply,
};
use corevisor::types::{CredentialEntry, ServiceConfig};

fn run(stdout: &str, stderr: &str, success: bool) -> Result<JsResult, String> {
    Ok(JsResult {
        stdout: stdout.to_string(),
        stderr: stderr.to_string(),
        success,
    })
}

fn success(texts: &[&str]) -> Result<ToolReply, ToolError> {
    Ok(ToolReply {
        is_error: false,
        content: texts.iter().map(|t| t.to_string()).collect(),
    })
}

fn failure(text: &str) -> Result<ToolReply, ToolError> {
    Ok(ToolReply {
        is_error: true,
        content: vec![text.to_string()],
    })
}

#[test]
fn timeout_defaults_to_thirty_seconds() {
    let mut args = ExecuteJsArgs {
        code: String::new(),
        timeout_secs: None,
        context: None,
    };
    assert_eq!(args.timeout(), 30);
    args.timeout_secs = Some(5);
    assert_eq!(args.timeout(), 5);
}

#[test]
fn successful_run() {
    assert_eq!(execute_javascript(run("out", "", true)), success(&["out"]));
    assert_eq!(execute_javascript(run("", "", true)), success(&[""]));
    assert_eq!(
        execute_javascript(run("out", "warn", true)),
        success(&["out", "[stderr]: warn"])
    );
}

#[test]
fn failed_run() {
    assert_eq!(
        execute_javascript(run("out", "err", false)),
        failure("out\nerr")
    );
    assert_eq!(execute_javascript(run("out", "", false)), failure("out\n"));
    assert_eq!(execute_javascript(run("", "err", false)), failure("err"));
    assert_eq!(
        execute_javascript(run("", "", false)),
        failure("Execution failed with no output")
    );
}

#[test]
fn engine_error() {
    assert_eq!(
        execute_javascript(Err("boom".to_string())),
        Err(ToolError::Internal("engine error: boom".to_string()))
    );
}

fn service(domain: &str, header_name: &str) -> ServiceConfig {
    ServiceConfig {
        domain: domain.to_string(),
        catalog_id: None,
        header_name: header_name.to_string(),
    }
}

#[test]
fn services_with_and_without_credential() {
    let store = CredentialStore::from_entries(vec![CredentialEntry {
        profile_id: "p".to_string(),
        domain: "a.com".to_string(),
        header_name: "Authorization".to_string(),
        header_value: "secret".to_string(),
    }]);
    let services = vec![service("a.com", "Authorization"), service("b.com", "X-Key")];
    assert_eq!(
        list_services(Ok(services), "p", &store),
        success(&["Configured services:\n\
            - a.com (header: Authorization, credential: set)\n\
            - b.com (header: X-Key, credential: not set)"])
    );
}

#[test]
fn no_services() {
    let store = CredentialStore::from_entries(vec![]);
    assert_eq!(
        list_services(Ok(vec![]), "p", &store),
        success(&["No services configured. Add domains via `cv credential set <domain>` or sync from the hub."])
    );
}

#[test]
fn services_cannot_be_fetched() {
    let store = CredentialStore::from_entries(vec![]);
    assert_eq!(
        list_services(Err("down".to_string()), "p", &store),
        Err(ToolError::Internal(
            "failed to fetch services: down".to_string()
        ))
    );
}

#[test]
fn one_service_is_two_lines() {
    assert_eq!(
        show_services(&vec![service("a.com", "H")], &vec![false]),
        "Configured services:\n- a.com (header: H, credential: not set)"
    );
}

#[test]
fn search_needs_domain_or_slug() {
    let mut args = SearchApiDocsArgs {
        pattern: "x".to_string(),
        domain: None,
        slug: None,
    };
    assert_eq!(
        check_search_args(&args),
        Err(ToolError::InvalidParams(
            "must provide domain or slug".to_string()
        ))
    );
    args.slug = Some("notion".to_string());
    assert_eq!(check_search_args(&args), Ok(()));
    args.slug = None;
    args.domain = Some("api.notion.com".to_string());
    assert_eq!(check_search_args(&args), Ok(()));
}

#[test]
fn search_results_are_written_out() {
    assert_eq!(
        search_api_docs(Ok(b"[{\"a\":1}]".to_vec())),
        success(&["[\n  {\n    \"a\": 1\n  }\n]"])
    );
}

#[test]
fn search_without_results() {
    assert_eq!(search_api_docs(Ok(b" [ ] ".to_vec())), success(&["No matches found."]));
    assert_eq!(show_results("[]".to_string()), success(&["No matches found."]).unwrap());
    assert_eq!(show_results("[1]".to_string()), success(&["[1]"]).unwrap());
}

#[test]
fn search_failures() {
    assert_eq!(
        search_api_docs(Err("search failed: 500".to_string())),
        Err(ToolError::Internal(
            "failed to search API docs: search failed: 500".to_string()
        ))
    );
    assert_eq!(
        search_api_docs(Ok(b"<html>".to_vec())),
        Err(ToolError::Internal(
            "failed to search API docs: error decoding response body".to_string()
        ))
    );
}
