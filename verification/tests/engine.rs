//! The rules for outbound requests.

use corevisor::credential_store::CredentialStore;
use corevisor::engine::{
    authorize_request, check_poll_result, credential_header, enforce_decision, fetch_hub_approval,
    poll_hub_approval, process_outbound_request, send_request, CredentialLookup, HubCall,
    RequestDecision, RequestTarget, SendError,
};
use corevisor::headers::CredentialHeader;
use corevisor::types::{
    ApprovalStatus, ApproveResponse, CredentialEntry, RuleAction, ServiceConfig,
};

fn test_services() -> Vec<ServiceConfig> {
    vec![ServiceConfig {
        domain: "api.example.com".to_string(),
        catalog_id: None,
        header_name: "Authorization".to_string(),
    }]
}

fn approve_response(action: RuleAction, approval_id: Option<&str>) -> ApproveResponse {
    ApproveResponse {
        action,
        approval_id: approval_id.map(String::from),
        expires_at: None,
    }
}

struct MockCredentials {
    entries: Vec<CredentialEntry>,
}

impl MockCredentials {
    fn empty() -> Self {
        Self { entries: vec![] }
    }

    fn with(entry: CredentialEntry) -> Self {
        Self {
            entries: vec![entry],
        }
    }
}

impl CredentialLookup for MockCredentials {
    fn get_credential(
        &self,
        profile_id: &str,
        domain: &str,
    ) -> Result<Option<CredentialEntry>, String> {
        Ok(self
            .entries
            .iter()
            .find(|e| e.profile_id == profile_id && e.domain == domain)
            .cloned())
    }
}

fn test_credential() -> CredentialEntry {
    CredentialEntry {
        profile_id: "prof1".to_string(),
        domain: "api.example.com".to_string(),
        header_name: "Authorization".to_string(),
        header_value: "Bearer tok123".to_string(),
    }
}

fn no_poll(_: &str) -> Result<ApprovalStatus, String> {
    panic!("poll_fn should not be called")
}

// -- authorize_request tests --

#[test]
fn authorize_domain_not_in_services() {
    let result = authorize_request(
        &test_services(),
        "unknown.com",
        "GET",
        "/foo",
        Ok(&approve_response(RuleAction::Allow, None)),
    );
    assert_eq!(
        result,
        RequestDecision::Deny("domain not allowed: unknown.com".to_string())
    );
}

#[test]
fn authorize_hub_unreachable() {
    let result = authorize_request(
        &test_services(),
        "api.example.com",
        "GET",
        "/foo",
        Err("connection refused"),
    );
    assert_eq!(
        result,
        RequestDecision::Deny(
            "hub unreachable, request denied: connection refused".to_string()
        )
    );
}

#[test]
fn authorize_hub_allows() {
    let resp = approve_response(RuleAction::Allow, None);
    let result = authorize_request(
        &test_services(),
        "api.example.com",
        "GET",
        "/foo",
        Ok(&resp),
    );
    assert_eq!(result, RequestDecision::Allow);
}

#[test]
fn authorize_hub_denies() {
    let resp = approve_response(RuleAction::Deny, None);
    let result = authorize_request(
        &test_services(),
        "api.example.com",
        "POST",
        "/bar",
        Ok(&resp),
    );
    assert_eq!(
        result,
        RequestDecision::Deny("request denied by approval rule: POST /bar".to_string())
    );
}

#[test]
fn authorize_hub_requires_approval() {
    let resp = approve_response(RuleAction::RequireApproval, Some("abc-123"));
    let result = authorize_request(
        &test_services(),
        "api.example.com",
        "DELETE",
        "/resource",
        Ok(&resp),
    );
    assert_eq!(
        result,
        RequestDecision::NeedsApproval("abc-123".to_string())
    );
}

// -- check_poll_result tests --

#[test]
fn poll_approved() {
    let result = check_poll_result(&Ok(ApprovalStatus::Approved), "GET", "/foo");
    assert!(result.is_ok());
}

#[test]
fn poll_denied() {
    let result = check_poll_result(&Ok(ApprovalStatus::Denied), "GET", "/foo");
    assert_eq!(result, Err("request denied: GET /foo".to_string()));
}

#[test]
fn poll_expired() {
    let result = check_poll_result(&Ok(ApprovalStatus::Expired), "POST", "/bar");
    assert_eq!(result, Err("request expired: POST /bar".to_string()));
}

#[test]
fn poll_error() {
    let result = check_poll_result(&Err("connection reset".to_string()), "GET", "/foo");
    assert_eq!(
        result,
        Err("approval poll error: connection reset".to_string())
    );
}

// -- enforce_decision tests --

#[test]
fn enforce_allow() {
    let result = enforce_decision(RequestDecision::Allow, None, "GET", "/foo");
    assert!(result.is_ok());
}

#[test]
fn enforce_deny() {
    let decision = RequestDecision::Deny("not allowed".to_string());
    let result = enforce_decision(decision, None, "GET", "/foo");
    assert_eq!(result, Err("not allowed".to_string()));
}

#[test]
fn enforce_needs_approval_approved() {
    let decision = RequestDecision::NeedsApproval("abc".to_string());
    let poll = Ok(ApprovalStatus::Approved);
    let result = enforce_decision(decision, Some(&poll), "GET", "/foo");
    assert!(result.is_ok());
}

#[test]
fn enforce_needs_approval_denied() {
    let decision = RequestDecision::NeedsApproval("abc".to_string());
    let poll = Ok(ApprovalStatus::Denied);
    let result = enforce_decision(decision, Some(&poll), "POST", "/bar");
    assert_eq!(result, Err("request denied: POST /bar".to_string()));
}

#[test]
fn enforce_needs_approval_expired() {
    let decision = RequestDecision::NeedsApproval("abc".to_string());
    let poll = Ok(ApprovalStatus::Expired);
    let result = enforce_decision(decision, Some(&poll), "DELETE", "/x");
    assert_eq!(result, Err("request expired: DELETE /x".to_string()));
}

#[test]
fn enforce_needs_approval_poll_error() {
    let decision = RequestDecision::NeedsApproval("abc".to_string());
    let poll = Err("timeout".to_string());
    let result = enforce_decision(decision, Some(&poll), "GET", "/foo");
    assert_eq!(result, Err("approval poll error: timeout".to_string()));
}

#[test]
fn enforce_needs_approval_no_poll_result() {
    let decision = RequestDecision::NeedsApproval("abc".to_string());
    let result = enforce_decision(decision, None, "GET", "/foo");
    assert!(result.is_err());
    assert!(result.unwrap_err().contains("approval required"));
}

// -- process_outbound_request tests --

#[test]
fn process_denies_unknown_domain() {
    let creds = MockCredentials::empty();
    let result = process_outbound_request(
        &test_services(),
        "prof1",
        "unknown.com",
        "GET",
        "/",
        Ok(approve_response(RuleAction::Allow, None)),
        no_poll,
        &creds,
    );
    assert!(result.is_err());
    assert!(result.unwrap_err().contains("domain not allowed"));
}

#[test]
fn process_denies_hub_unreachable() {
    let creds = MockCredentials::empty();
    let result = process_outbound_request(
        &test_services(),
        "prof1",
        "api.example.com",
        "GET",
        "/",
        Err("connection refused".to_string()),
        no_poll,
        &creds,
    );
    assert!(result.is_err());
    assert!(result.unwrap_err().contains("hub unreachable"));
}

#[test]
fn process_denies_by_rule() {
    let creds = MockCredentials::empty();
    let result = process_outbound_request(
        &test_services(),
        "prof1",
        "api.example.com",
        "POST",
        "/bar",
        Ok(approve_response(RuleAction::Deny, None)),
        no_poll,
        &creds,
    );
    assert!(result.is_err());
    assert!(result.unwrap_err().contains("denied by approval rule"));
}

#[test]
fn process_allows_and_injects_credential() {
    let creds = MockCredentials::with(test_credential());
    let result = process_outbound_request(
        &test_services(),
        "prof1",
        "api.example.com",
        "GET",
        "/foo",
        Ok(approve_response(RuleAction::Allow, None)),
        no_poll,
        &creds,
    );
    assert_eq!(
        result,
        Ok(Some(CredentialHeader {
            name: "Authorization".to_string(),
            value: "Bearer tok123".to_string(),
        }))
    );
}

#[test]
fn process_allows_no_credential() {
    let creds = MockCredentials::empty();
    let result = process_outbound_request(
        &test_services(),
        "prof1",
        "api.example.com",
        "GET",
        "/foo",
        Ok(approve_response(RuleAction::Allow, None)),
        no_poll,
        &creds,
    );
    assert_eq!(result, Ok(None));
}

#[test]
fn process_approval_flow_approved() {
    let creds = MockCredentials::empty();
    let result = process_outbound_request(
        &test_services(),
        "prof1",
        "api.example.com",
        "DELETE",
        "/resource",
        Ok(approve_response(RuleAction::RequireApproval, Some("req-1"))),
        |_| Ok(ApprovalStatus::Approved),
        &creds,
    );
    assert_eq!(result, Ok(None));
}

#[test]
fn process_approval_flow_denied() {
    let creds = MockCredentials::empty();
    let result = process_outbound_request(
        &test_services(),
        "prof1",
        "api.example.com",
        "DELETE",
        "/resource",
        Ok(approve_response(RuleAction::RequireApproval, Some("req-1"))),
        |_| Ok(ApprovalStatus::Denied),
        &creds,
    );
    assert!(result.is_err());
    assert!(result.unwrap_err().contains("denied"));
}

#[test]
fn process_approval_flow_poll_error() {
    let creds = MockCredentials::empty();
    let result = process_outbound_request(
        &test_services(),
        "prof1",
        "api.example.com",
        "DELETE",
        "/resource",
        Ok(approve_response(RuleAction::RequireApproval, Some("req-1"))),
        |_| Err("network error".to_string()),
        &creds,
    );
    assert!(result.is_err());
    assert!(result.unwrap_err().contains("network error"));
}

#[test]
fn process_approval_passes_correct_id_to_poll() {
    let creds = MockCredentials::empty();
    let result = process_outbound_request(
        &test_services(),
        "prof1",
        "api.example.com",
        "POST",
        "/data",
        Ok(approve_response(
            RuleAction::RequireApproval,
            Some("my-approval-id"),
        )),
        |id| {
            assert_eq!(id, "my-approval-id");
            Ok(ApprovalStatus::Approved)
        },
        &creds,
    );
    assert!(result.is_ok());
}

/// A store in which nothing may be looked up.
struct SealedCredentials;

impl CredentialLookup for SealedCredentials {
    fn get_credential(&self, _: &str, _: &str) -> Result<Option<CredentialEntry>, String> {
        panic!("no credential should be looked up")
    }
}

#[test]
fn denied_request_leads_to_no_lookup() {
    let deny = Ok(approve_response(RuleAction::Deny, None));
    let ask = Ok(approve_response(RuleAction::RequireApproval, Some("req-1")));
    for (domain, answer, status) in [
        ("other.com", Ok(approve_response(RuleAction::Allow, None)), None),
        ("api.example.com", Err("down".to_string()), None),
        ("api.example.com", deny, None),
        ("api.example.com", ask, Some(ApprovalStatus::Denied)),
    ] {
        let result = process_outbound_request(
            &test_services(),
            "prof1",
            domain,
            "GET",
            "/",
            answer,
            |_| Ok(status.expect("the hub should not be polled")),
            &SealedCredentials,
        );
        assert!(result.is_err());
    }
}

#[test]
fn failed_lookup_is_no_denial() {
    struct Unreadable;
    impl CredentialLookup for Unreadable {
        fn get_credential(&self, _: &str, _: &str) -> Result<Option<CredentialEntry>, String> {
            Err("cannot read".to_string())
        }
    }
    let result = process_outbound_request(
        &test_services(),
        "prof1",
        "api.example.com",
        "GET",
        "/",
        Ok(approve_response(RuleAction::Allow, None)),
        |_| panic!("the hub should not be polled"),
        &Unreadable,
    );
    assert_eq!(result, Ok(None));
}

// -- send_request tests --

#[test]
fn send_of_a_denied_request_leads_to_no_lookup() {
    let mut headers = http::HeaderMap::new();
    let result = send_request(
        Some("prof1"),
        Some(&SealedCredentials),
        &test_services(),
        &target(Some("api.example.com")),
        None,
        |_, _, _, _, _| HubCall::Replied(approve_response(RuleAction::Deny, None)),
        no_approval_poll,
        &mut headers,
    );
    assert!(matches!(result, Err(SendError::Denied(_))));
}

fn target(host: Option<&str>) -> RequestTarget {
    RequestTarget {
        host: host.map(String::from),
        method: "POST".to_string(),
        path: "/v1/pages".to_string(),
    }
}

fn no_approval_poll(_: &str, _: &str) -> HubCall<ApprovalStatus> {
    panic!("the hub should not be polled")
}

#[test]
fn send_without_profile_is_denied() {
    let store = CredentialStore::from_entries(vec![test_credential()]);
    let mut headers = http::HeaderMap::new();
    let result = send_request(
        None,
        Some(&store),
        &test_services(),
        &target(Some("api.example.com")),
        None,
        |_, _, _, _, _| panic!("the hub should not be asked"),
        no_approval_poll,
        &mut headers,
    );
    assert_eq!(
        result,
        Err(SendError::Denied(
            "request denied: no profile or credential store configured".to_string()
        ))
    );
    assert!(headers.is_empty());
}

#[test]
fn send_without_store_is_denied() {
    let store: Option<&CredentialStore> = None;
    let mut headers = http::HeaderMap::new();
    let result = send_request(
        Some("prof1"),
        store,
        &test_services(),
        &target(Some("api.example.com")),
        None,
        |_, _, _, _, _| panic!("the hub should not be asked"),
        no_approval_poll,
        &mut headers,
    );
    assert!(matches!(result, Err(SendError::Denied(_))));
}

#[test]
fn send_asks_the_hub_about_this_request_and_injects() {
    let store = CredentialStore::from_entries(vec![test_credential()]);
    let mut headers = http::HeaderMap::new();
    headers.insert("authorization", "from the script".parse().unwrap());
    headers.append("authorization", "and again".parse().unwrap());
    headers.insert("accept", "text/plain".parse().unwrap());
    let result = send_request(
        Some("prof1"),
        Some(&store),
        &test_services(),
        &target(Some("api.example.com")),
        Some("why"),
        |profile, domain, method, path, context| {
            assert_eq!(profile, "prof1");
            assert_eq!(domain, "api.example.com");
            assert_eq!(method, "POST");
            assert_eq!(path, "/v1/pages");
            assert_eq!(context, Some("why"));
            HubCall::Replied(approve_response(RuleAction::Allow, None))
        },
        no_approval_poll,
        &mut headers,
    );
    assert_eq!(result, Ok(()));
    let values: Vec<&str> = headers
        .get_all("authorization")
        .iter()
        .map(|v| v.to_str().unwrap())
        .collect();
    assert_eq!(values, vec!["Bearer tok123"]);
    assert_eq!(headers["accept"], "text/plain");
    assert_eq!(headers.len(), 2);
}

#[test]
fn send_without_host_checks_the_empty_domain() {
    let store = CredentialStore::from_entries(vec![]);
    let mut headers = http::HeaderMap::new();
    let result = send_request(
        Some("prof1"),
        Some(&store),
        &test_services(),
        &target(None),
        None,
        |_, domain, _, _, _| {
            assert_eq!(domain, "");
            HubCall::Replied(approve_response(RuleAction::Allow, None))
        },
        no_approval_poll,
        &mut headers,
    );
    assert_eq!(
        result,
        Err(SendError::Denied("domain not allowed: ".to_string()))
    );
}

#[test]
fn send_polls_for_the_approval_in_the_profile() {
    let store = CredentialStore::from_entries(vec![test_credential()]);
    let mut headers = http::HeaderMap::new();
    let result = send_request(
        Some("prof1"),
        Some(&store),
        &test_services(),
        &target(Some("api.example.com")),
        None,
        |_, _, _, _, _| {
            HubCall::Replied(approve_response(RuleAction::RequireApproval, Some("req-7")))
        },
        |profile, id| {
            assert_eq!(profile, "prof1");
            assert_eq!(id, "req-7");
            HubCall::Replied(ApprovalStatus::Expired)
        },
        &mut headers,
    );
    assert_eq!(
        result,
        Err(SendError::Denied(
            "request expired: POST /v1/pages".to_string()
        ))
    );
    assert!(headers.is_empty());
}

#[test]
fn send_is_denied_where_the_hub_call_panics() {
    let store = CredentialStore::from_entries(vec![test_credential()]);
    let mut headers = http::HeaderMap::new();
    let result = send_request(
        Some("prof1"),
        Some(&store),
        &test_services(),
        &target(Some("api.example.com")),
        None,
        |_, _, _, _, _| HubCall::Panicked,
        no_approval_poll,
        &mut headers,
    );
    assert_eq!(
        result,
        Err(SendError::Denied(
            "hub unreachable, request denied: approval check thread panicked".to_string()
        ))
    );
}

#[test]
fn send_fails_where_the_header_does_not_fit() {
    let store = CredentialStore::from_entries(vec![test_credential()]);
    let mut headers = http::HeaderMap::new();
    for i in 0.. {
        let name = http::HeaderName::from_bytes(format!("h{i}").as_bytes()).unwrap();
        if headers.try_insert(name, http::HeaderValue::from_static("v")).is_err() {
            break;
        }
    }
    let held = headers.len();
    let result = send_request(
        Some("prof1"),
        Some(&store),
        &test_services(),
        &target(Some("api.example.com")),
        None,
        |_, _, _, _, _| HubCall::Replied(approve_response(RuleAction::Allow, None)),
        no_approval_poll,
        &mut headers,
    );
    assert_eq!(result, Err(SendError::HeaderLimitReached));
    assert_eq!(headers.len(), held);
}

// -- hub calls --

#[test]
fn hub_call_failures_have_messages() {
    assert_eq!(
        fetch_hub_approval(HubCall::NoRuntime).unwrap_err(),
        "no async runtime available for approval check"
    );
    assert_eq!(
        fetch_hub_approval(HubCall::Failed("refused".to_string())).unwrap_err(),
        "refused"
    );
    assert_eq!(
        poll_hub_approval(HubCall::NoRuntime),
        Err("no async runtime available for approval poll".to_string())
    );
    assert_eq!(
        poll_hub_approval(HubCall::Panicked),
        Err("approval poll thread panicked".to_string())
    );
    assert_eq!(
        poll_hub_approval(HubCall::Failed("reset".to_string())),
        Err("reset".to_string())
    );
    assert_eq!(
        poll_hub_approval(HubCall::Replied(ApprovalStatus::Approved)),
        Ok(ApprovalStatus::Approved)
    );
}

// -- edge cases --

#[test]
fn approval_without_id_polls_for_the_empty_id() {
    let resp = approve_response(RuleAction::RequireApproval, None);
    let result = authorize_request(&test_services(), "api.example.com", "GET", "/", Ok(&resp));
    assert_eq!(result, RequestDecision::NeedsApproval(String::new()));
}

#[test]
fn unknown_domain_is_denied_though_the_hub_is_unreachable() {
    let result = authorize_request(&test_services(), "other.com", "GET", "/", Err("down"));
    assert_eq!(
        result,
        RequestDecision::Deny("domain not allowed: other.com".to_string())
    );
}

#[test]
fn poll_pending_is_not_an_approval() {
    let result = check_poll_result(&Ok(ApprovalStatus::Pending), "GET", "/foo");
    assert_eq!(result, Err("request pending: GET /foo".to_string()));
}

#[test]
fn failed_lookup_counts_as_no_credential() {
    let header = credential_header(
        &test_services(),
        "api.example.com",
        Err("cannot read".to_string()),
    );
    assert_eq!(header, None);
}

#[test]
fn header_name_is_that_of_the_service() {
    let services = vec![
        ServiceConfig {
            domain: "api.example.com".to_string(),
            catalog_id: Some(3),
            header_name: "X-First".to_string(),
        },
        ServiceConfig {
            domain: "api.example.com".to_string(),
            catalog_id: None,
            header_name: "X-Second".to_string(),
        },
    ];
    let header = credential_header(&services, "api.example.com", Ok(Some(test_credential())));
    assert_eq!(
        header,
        Some(CredentialHeader {
            name: "X-First".to_string(),
            value: "Bearer tok123".to_string(),
        })
    );
}

#[test]
fn store_is_a_credential_lookup() {
    let store = CredentialStore::from_entries(vec![test_credential()]);
    let found = store.get_credential("prof1", "api.example.com").unwrap();
    assert_eq!(found.unwrap().header_value, "Bearer tok123");
    assert!(store.get_credential("prof2", "api.example.com").unwrap().is_none());
}
