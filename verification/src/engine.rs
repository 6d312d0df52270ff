//! The rules for a script's outbound requests, and what becomes of a script's run.
//!
//! Every outbound request is checked against the Hub's approval rules. It passes where the
//! Hub allows it, is blocked where the Hub denies it or cannot be asked, and waits for a
//! human decision where the Hub requires one. A request that passes gets the credential of
//! its domain injected.

use vstd::prelude::*;
use vstd::string::*;
use crate::credential_store;
use crate::credential_store::CredentialStore;
use crate::headers;
use crate::headers::{inject_credential, CredentialHeader, CredentialHeaderModel};
use crate::text;
use crate::types;
use crate::types::{
    ApprovalStatus, ApproveModel, ApproveResponse, CredentialEntry, CredentialModel, RuleAction,
    ServiceConfig, ServiceModel,
};

verus! {

broadcast use vstd::string::group_string_axioms;

/// Abstraction over credential lookup.
pub trait CredentialLookup {
    /// Whether the credential of `domain` in the profile `profile_id` may be looked up:
    /// always, unless an implementation says otherwise. Code that works with any
    /// implementation knows nothing of this but what its caller grants.
    open spec fn may_look_up(&self, profile_id: Seq<char>, domain: Seq<char>) -> bool {
        true
    }

    /// The credential of `domain` in the profile `profile_id`, or why it cannot be had.
    fn get_credential(&self, profile_id: &str, domain: &str) -> (r: Result<
        Option<CredentialEntry>,
        String,
    >)
        requires
            self.may_look_up(profile_id@, domain@),
    ;
}

impl CredentialLookup for CredentialStore {
    /// Looks the credential up in the store; this never fails.
    fn get_credential(&self, profile_id: &str, domain: &str) -> (r: Result<
        Option<CredentialEntry>,
        String,
    >)
        ensures
            r matches Ok(found) && found.deep_view() == credential_store::lookup(
                self@,
                profile_id@,
                domain@,
            ),
    {
        Ok(self.get(profile_id, domain))
    }
}

/// Whether one of `services` is for `domain`.
pub open spec fn configured(services: Seq<ServiceModel>, domain: Seq<char>) -> bool {
    exists|i: int| 0 <= i < services.len() && (#[trigger] services[i]).domain == domain
}

/// The first of `services` that is for `domain`.
pub open spec fn service_for(services: Seq<ServiceModel>, domain: Seq<char>) -> Option<
    ServiceModel,
>
    decreases services.len(),
{
    if services.len() == 0 {
        None
    } else if services[0].domain == domain {
        Some(services[0])
    } else {
        service_for(services.drop_first(), domain)
    }
}

/// There is a first service for a domain exactly where the domain is configured.
proof fn lemma_service_for(services: Seq<ServiceModel>, domain: Seq<char>)
    ensures
        service_for(services, domain) is Some <==> configured(services, domain),
        service_for(services, domain) matches Some(service) ==> service.domain == domain
            && services.contains(service),
    decreases services.len(),
{
    if services.len() > 0 {
        let rest = services.drop_first();
        lemma_service_for(rest, domain);
        if configured(rest, domain) {
            let i = choose|i: int| 0 <= i < rest.len() && (#[trigger] rest[i]).domain == domain;
            assert(services[i + 1].domain == domain);
        }
        if services[0].domain == domain {
            assert(services.contains(services[0]));
        } else {
            if configured(services, domain) {
                let i = choose|i: int|
                    0 <= i < services.len() && (#[trigger] services[i]).domain == domain;
                assert(rest[i - 1].domain == domain);
            }
            if let Some(service) = service_for(rest, domain) {
                let i = choose|i: int| 0 <= i < rest.len() && rest[i] == service;
                assert(services[i + 1] == service);
            }
        }
    }
}

/// The index of the first of `services` that is for `domain`.
fn find_service(services: &[ServiceConfig], domain: &str) -> (r: Option<usize>)
    ensures
        match r {
            Some(i) => i < services@.len() && service_for(services.deep_view(), domain@) == Some(
                services@[i as int]@,
            ),
            None => service_for(services.deep_view(), domain@) is None,
        },
{
    let ghost all = services.deep_view();
    assert(all.skip(0) == all);
    for i in 0..services.len()
        invariant
            all == services.deep_view(),
            service_for(all, domain@) == service_for(all.skip(i as int), domain@),
    {
        assert(all.skip(i as int)[0] == services@[i as int]@);
        if text::str_eq(services[i].domain.as_str(), domain) {
            return Some(i);
        }
        assert(all.skip(i as int).drop_first() == all.skip(i + 1));
    }
    None
}

/// Decision returned by `authorize_request`.
#[derive(Debug, PartialEq)]
pub enum RequestDecision {
    Allow,
    Deny(String),
    NeedsApproval(String),
}

/// The model of a [`RequestDecision`].
pub enum DecisionModel {
    Allow,
    Deny(Seq<char>),
    NeedsApproval(Seq<char>),
}

impl View for RequestDecision {
    type V = DecisionModel;

    open spec fn view(&self) -> DecisionModel {
        match self {
            RequestDecision::Allow => DecisionModel::Allow,
            RequestDecision::Deny(message) => DecisionModel::Deny(message@),
            RequestDecision::NeedsApproval(id) => DecisionModel::NeedsApproval(id@),
        }
    }
}

/// What is decided of a request for `domain`, given the Hub's answer.
pub open spec fn authorized(
    services: Seq<ServiceModel>,
    domain: Seq<char>,
    method: Seq<char>,
    path: Seq<char>,
    hub: Result<ApproveModel, Seq<char>>,
) -> DecisionModel {
    if !configured(services, domain) {
        DecisionModel::Deny("domain not allowed: "@ + domain)
    } else {
        match hub {
            Err(error) => DecisionModel::Deny("hub unreachable, request denied: "@ + error),
            Ok(answer) => match answer.action {
                RuleAction::Allow => DecisionModel::Allow,
                RuleAction::Deny => DecisionModel::Deny(
                    "request denied by approval rule: "@ + method + " "@ + path,
                ),
                RuleAction::RequireApproval => DecisionModel::NeedsApproval(
                    answer.approval_id.unwrap_or(Seq::empty()),
                ),
            },
        }
    }
}

/// Decides whether an outbound request should proceed.
///
/// `hub_result`: `Err` = Hub unreachable or not available, `Ok` = Hub responded.
pub fn authorize_request(
    services: &[ServiceConfig],
    domain: &str,
    method: &str,
    path: &str,
    hub_result: Result<&ApproveResponse, &str>,
) -> (r: RequestDecision)
    ensures
        r@ == authorized(
            services.deep_view(),
            domain@,
            method@,
            path@,
            types::result_model(hub_result),
        ),
{
    proof {
        lemma_service_for(services.deep_view(), domain@);
    }
    if find_service(services, domain).is_none() {
        let mut message = "domain not allowed: ".to_string();
        message.append(domain);
        return RequestDecision::Deny(message);
    }
    match hub_result {
        Err(error) => {
            let mut message = "hub unreachable, request denied: ".to_string();
            message.append(error);
            RequestDecision::Deny(message)
        },
        Ok(answer) => match answer.action {
            RuleAction::Allow => RequestDecision::Allow,
            RuleAction::Deny => {
                let mut message = "request denied by approval rule: ".to_string();
                message.append(method);
                message.append(" ");
                message.append(path);
                RequestDecision::Deny(message)
            },
            RuleAction::RequireApproval => {
                let id = match &answer.approval_id {
                    Some(id) => id.clone(),
                    None => String::new(),
                };
                RequestDecision::NeedsApproval(id)
            },
        },
    }
}

/// The model of whether a request passes: passed, or blocked with a message.
pub open spec fn passage_model(r: Result<(), String>) -> Result<(), Seq<char>> {
    match r {
        Ok(_) => Ok(()),
        Err(message) => Err(message@),
    }
}

/// What a poll for an approval means for a request.
pub open spec fn polled(
    result: Result<ApprovalStatus, Seq<char>>,
    method: Seq<char>,
    path: Seq<char>,
) -> Result<(), Seq<char>> {
    match result {
        Ok(ApprovalStatus::Approved) => Ok(()),
        Ok(status) => Err("request "@ + status.name() + ": "@ + method + " "@ + path),
        Err(error) => Err("approval poll error: "@ + error),
    }
}

/// Evaluates the result of polling for an approval decision.
pub fn check_poll_result(
    result: &Result<ApprovalStatus, String>,
    method: &str,
    path: &str,
) -> (r: Result<(), String>)
    ensures
        passage_model(r) == polled(types::result_model(*result), method@, path@),
{
    match result {
        Ok(ApprovalStatus::Approved) => Ok(()),
        Ok(status) => {
            let mut message = "request ".to_string();
            message.append(status.as_str());
            message.append(": ");
            message.append(method);
            message.append(" ");
            message.append(path);
            Err(message)
        },
        Err(error) => {
            let mut message = "approval poll error: ".to_string();
            message.append(error.as_str());
            Err(message)
        },
    }
}

/// The model of an optional poll result.
pub open spec fn poll_model(poll: Option<Result<ApprovalStatus, String>>) -> Option<
    Result<ApprovalStatus, Seq<char>>,
> {
    match poll {
        Some(result) => Some(types::result_model(result)),
        None => None,
    }
}

/// What a decision, with the poll that it may call for, means for a request.
pub open spec fn enforced(
    decision: DecisionModel,
    poll: Option<Result<ApprovalStatus, Seq<char>>>,
    method: Seq<char>,
    path: Seq<char>,
) -> Result<(), Seq<char>> {
    match decision {
        DecisionModel::Allow => Ok(()),
        DecisionModel::Deny(message) => Err(message),
        DecisionModel::NeedsApproval(_) => match poll {
            Some(result) => polled(result, method, path),
            None => Err("approval required but no poll result: "@ + method + " "@ + path),
        },
    }
}

/// Enforces a request decision. Returns `Err(message)` if the request should be blocked.
///
/// For `NeedsApproval`, the caller must provide the poll result.
pub fn enforce_decision(
    decision: RequestDecision,
    poll_result: Option<&Result<ApprovalStatus, String>>,
    method: &str,
    path: &str,
) -> (r: Result<(), String>)
    ensures
        passage_model(r) == enforced(
            decision@,
            match poll_result {
                Some(result) => Some(types::result_model(*result)),
                None => None,
            },
            method@,
            path@,
        ),
{
    match decision {
        RequestDecision::Allow => Ok(()),
        RequestDecision::Deny(message) => Err(message),
        RequestDecision::NeedsApproval(_) => match poll_result {
            Some(result) => check_poll_result(result, method, path),
            None => {
                let mut message = "approval required but no poll result: ".to_string();
                message.append(method);
                message.append(" ");
                message.append(path);
                Err(message)
            },
        },
    }
}

/// The header to inject into a request for `domain` that passed, given what the credential
/// lookup found. A lookup that failed counts as one that found nothing.
pub open spec fn header_for(
    services: Seq<ServiceModel>,
    domain: Seq<char>,
    found: Result<Option<CredentialModel>, Seq<char>>,
) -> Option<CredentialHeaderModel> {
    match (service_for(services, domain), found) {
        (Some(service), Ok(Some(credential))) => Some(
            CredentialHeaderModel { name: service.header_name, value: credential.header_value },
        ),
        _ => None,
    }
}

/// Makes the header for a request to `domain` out of a credential lookup.
pub fn credential_header(
    services: &[ServiceConfig],
    domain: &str,
    found: Result<Option<CredentialEntry>, String>,
) -> (r: Option<CredentialHeader>)
    ensures
        r.deep_view() == header_for(
            services.deep_view(),
            domain@,
            types::result_model(found),
        ),
{
    match find_service(services, domain) {
        Some(i) => match found {
            Ok(Some(credential)) => Some(
                CredentialHeader {
                    name: services[i].header_name.clone(),
                    value: credential.header_value,
                },
            ),
            Ok(None) => None,
            Err(_) => None,
        },
        None => None,
    }
}

/// Whether `poll` is what polling made of `decision`: nothing unless an approval is
/// needed, and then a result that `polls` has for the id of that approval.
pub open spec fn poll_made(
    polls: spec_fn(Seq<char>, Result<ApprovalStatus, String>) -> bool,
    decision: DecisionModel,
    poll: Option<Result<ApprovalStatus, String>>,
) -> bool {
    match (decision, poll) {
        (DecisionModel::NeedsApproval(id), Some(result)) => polls(id, result),
        (DecisionModel::NeedsApproval(_), None) => false,
        (_, made) => made is None,
    }
}

/// The results that `poll_fn` has for an approval id.
pub open spec fn polls_of<P: FnOnce(&str) -> Result<ApprovalStatus, String>>(
    poll_fn: P,
) -> spec_fn(Seq<char>, Result<ApprovalStatus, String>) -> bool {
    |id: Seq<char>, result: Result<ApprovalStatus, String>|
        exists|sent: &str| sent@ == id && #[trigger] call_ensures(poll_fn, (sent,), result)
}

/// Whether `found` is what `creds` returned for `domain` in the profile `profile_id`.
pub open spec fn lookup_made<C: CredentialLookup>(
    creds: &C,
    profile_id: &str,
    domain: &str,
    found: Result<Option<CredentialEntry>, String>,
) -> bool {
    call_ensures(C::get_credential, (creds, profile_id, domain), found)
}

/// Whether `outcome` is what becomes of a request on which `decision` was taken and `poll`
/// was made: blocked as these say, and else passed with the header that the credential
/// lookup calls for.
pub open spec fn processed_after<C: CredentialLookup>(
    services: Seq<ServiceModel>,
    profile_id: &str,
    domain: &str,
    method: Seq<char>,
    path: Seq<char>,
    decision: DecisionModel,
    poll: Option<Result<ApprovalStatus, String>>,
    creds: &C,
    outcome: Result<Option<CredentialHeaderModel>, Seq<char>>,
) -> bool {
    match enforced(decision, poll_model(poll), method, path) {
        Err(message) => outcome == Err::<Option<CredentialHeaderModel>, Seq<char>>(message),
        Ok(_) => exists|found: Result<Option<CredentialEntry>, String>| #[trigger]
            lookup_made(creds, profile_id, domain, found) && outcome == Ok::<
                Option<CredentialHeaderModel>,
                Seq<char>,
            >(header_for(services, domain@, types::result_model(found))),
    }
}

/// Whether `outcome` is what becomes of a request on which `decision` was taken, with a
/// poll that `polls` allows.
pub open spec fn processed<C: CredentialLookup>(
    services: Seq<ServiceModel>,
    profile_id: &str,
    domain: &str,
    method: Seq<char>,
    path: Seq<char>,
    decision: DecisionModel,
    polls: spec_fn(Seq<char>, Result<ApprovalStatus, String>) -> bool,
    creds: &C,
    outcome: Result<Option<CredentialHeaderModel>, Seq<char>>,
) -> bool {
    exists|poll: Option<Result<ApprovalStatus, String>>| #[trigger]
        poll_made(polls, decision, poll) && processed_after(
            services,
            profile_id,
            domain,
            method,
            path,
            decision,
            poll,
            creds,
            outcome,
        )
}

/// What is processed with the results of one way to poll is processed with those of any
/// other that has them too.
proof fn lemma_processed_by<C: CredentialLookup>(
    services: Seq<ServiceModel>,
    profile_id: &str,
    domain: &str,
    method: Seq<char>,
    path: Seq<char>,
    decision: DecisionModel,
    polls: spec_fn(Seq<char>, Result<ApprovalStatus, String>) -> bool,
    more: spec_fn(Seq<char>, Result<ApprovalStatus, String>) -> bool,
    creds: &C,
    outcome: Result<Option<CredentialHeaderModel>, Seq<char>>,
)
    requires
        processed(services, profile_id, domain, method, path, decision, polls, creds, outcome),
        forall|id: Seq<char>, result: Result<ApprovalStatus, String>| #[trigger]
            polls(id, result) ==> more(id, result),
    ensures
        processed(services, profile_id, domain, method, path, decision, more, creds, outcome),
{
    let poll = choose|poll: Option<Result<ApprovalStatus, String>>| #[trigger]
        poll_made(polls, decision, poll) && processed_after(
            services,
            profile_id,
            domain,
            method,
            path,
            decision,
            poll,
            creds,
            outcome,
        );
    assert(poll_made(more, decision, poll));
}

/// Authorizes an outbound request and resolves the credential header to inject.
///
/// All I/O is provided via parameters: `hub_response` from the Hub check, `poll_fn` for
/// approval polling, and `creds` for credential lookup. Returns `Ok(Some(header))` if a
/// credential should be injected, `Ok(None)` if allowed but no credential found, or
/// `Err(msg)` to deny.
///
/// `poll_fn` is called only for an approval that the decision calls for, and a credential
/// is looked up only once the request has passed: neither may be called otherwise.
pub fn process_outbound_request<
    C: CredentialLookup,
    P: FnOnce(&str) -> Result<ApprovalStatus, String>,
>(
    services: &[ServiceConfig],
    profile_id: &str,
    domain: &str,
    method: &str,
    path: &str,
    hub_response: Result<ApproveResponse, String>,
    poll_fn: P,
    creds: &C,
) -> (r: Result<Option<CredentialHeader>, String>)
    requires
        forall|id: &str|
            authorized(
                services.deep_view(),
                domain@,
                method@,
                path@,
                types::result_model(hub_response),
            ) == DecisionModel::NeedsApproval(id@) ==> #[trigger] call_requires(poll_fn, (id,)),
        forall|poll: Option<Result<ApprovalStatus, String>>| #[trigger]
            poll_made(
                polls_of(poll_fn),
                authorized(
                    services.deep_view(),
                    domain@,
                    method@,
                    path@,
                    types::result_model(hub_response),
                ),
                poll,
            ) && enforced(
                authorized(
                    services.deep_view(),
                    domain@,
                    method@,
                    path@,
                    types::result_model(hub_response),
                ),
                poll_model(poll),
                method@,
                path@,
            ) is Ok ==> creds.may_look_up(profile_id@, domain@),
    ensures
        processed(
            services.deep_view(),
            profile_id,
            domain,
            method@,
            path@,
            authorized(
                services.deep_view(),
                domain@,
                method@,
                path@,
                types::result_model(hub_response),
            ),
            polls_of(poll_fn),
            creds,
            types::result_model(r),
        ),
{
    let hub_result = match &hub_response {
        Ok(answer) => Ok(answer),
        Err(error) => Err(error.as_str()),
    };
    let decision = authorize_request(services, domain, method, path, hub_result);
    let ghost decided = decision@;

    let poll_result = match &decision {
        RequestDecision::NeedsApproval(id) => {
            let sent = id.as_str();
            let result = poll_fn(sent);
            assert(call_ensures(poll_fn, (sent,), result));
            Some(result)
        },
        _ => None,
    };
    assert(poll_made(polls_of(poll_fn), decided, poll_result));

    let passed = match &poll_result {
        Some(result) => enforce_decision(decision, Some(result), method, path),
        None => enforce_decision(decision, None, method, path),
    };
    match passed {
        Err(message) => Err(message),
        Ok(_) => {
            let found = creds.get_credential(profile_id, domain);
            assert(lookup_made(creds, profile_id, domain, found));
            Ok(credential_header(services, domain, found))
        },
    }
}

/// How a call to the Hub from outside the async runtime ended.
#[derive(Debug)]
pub enum HubCall<T> {
    /// There is no async runtime to make the call on.
    NoRuntime,
    /// The thread that made the call panicked.
    Panicked,
    /// The call failed, with this error.
    Failed(String),
    /// The Hub replied.
    Replied(T),
}

/// What the approval check gives, with its failures as messages.
pub open spec fn check_reply(call: HubCall<ApproveResponse>) -> Result<ApproveModel, Seq<char>> {
    match call {
        HubCall::NoRuntime => Err("no async runtime available for approval check"@),
        HubCall::Panicked => Err("approval check thread panicked"@),
        HubCall::Failed(error) => Err(error@),
        HubCall::Replied(answer) => Ok(answer@),
    }
}

/// What polling for an approval gives, with its failures as messages.
pub open spec fn poll_reply(call: HubCall<ApprovalStatus>) -> Result<ApprovalStatus, Seq<char>> {
    match call {
        HubCall::NoRuntime => Err("no async runtime available for approval poll"@),
        HubCall::Panicked => Err("approval poll thread panicked"@),
        HubCall::Failed(error) => Err(error@),
        HubCall::Replied(status) => Ok(status),
    }
}

/// Takes the outcome of the call that asks the Hub whether a request is approved.
pub fn fetch_hub_approval(call: HubCall<ApproveResponse>) -> (r: Result<ApproveResponse, String>)
    ensures
        types::result_model(r) == check_reply(call),
{
    match call {
        HubCall::NoRuntime => Err("no async runtime available for approval check".to_string()),
        HubCall::Panicked => Err("approval check thread panicked".to_string()),
        HubCall::Failed(error) => Err(error),
        HubCall::Replied(answer) => Ok(answer),
    }
}

/// Takes the outcome of the call that polls the Hub for an approval decision.
pub fn poll_hub_approval(call: HubCall<ApprovalStatus>) -> (r: Result<ApprovalStatus, String>)
    ensures
        types::result_model(r) == poll_reply(call),
{
    match call {
        HubCall::NoRuntime => Err("no async runtime available for approval poll".to_string()),
        HubCall::Panicked => Err("approval poll thread panicked".to_string()),
        HubCall::Failed(error) => Err(error),
        HubCall::Replied(status) => Ok(status),
    }
}

/// Where an outbound request goes.
#[derive(Debug)]
pub struct RequestTarget {
    /// The host part of the URI, if it has one.
    pub host: Option<String>,
    pub method: String,
    pub path: String,
}

impl RequestTarget {
    /// The domain that the request is checked under: its host, or nothing.
    pub open spec fn domain(self) -> Seq<char> {
        match self.host {
            Some(host) => host@,
            None => Seq::empty(),
        }
    }
}

/// Whether `domain`, `method` and `path` are those of the request `target`.
pub open spec fn asks_about(target: RequestTarget, domain: &str, method: &str, path: &str) -> bool {
    domain@ == target.domain() && method@ == target.method@ && path@ == target.path@
}

/// What is decided of the request `target`, given how the call to the Hub ended.
pub open spec fn decided(
    services: Seq<ServiceModel>,
    target: RequestTarget,
    call: HubCall<ApproveResponse>,
) -> DecisionModel {
    authorized(services, target.domain(), target.method@, target.path@, check_reply(call))
}

/// Why an outbound request is not sent.
#[derive(Debug, PartialEq)]
pub enum SendError {
    /// The request is denied, with this message.
    Denied(String),
    /// The credential header does not fit into the request's headers.
    HeaderLimitReached,
}

/// The results that `poll_fn` has for an approval id in the profile `profile_id`.
pub open spec fn polls_in_profile<P: FnOnce(&str, &str) -> HubCall<ApprovalStatus>>(
    poll_fn: P,
    profile_id: &str,
) -> spec_fn(Seq<char>, Result<ApprovalStatus, String>) -> bool {
    |id: Seq<char>, result: Result<ApprovalStatus, String>|
        exists|sent: &str, call: HubCall<ApprovalStatus>|
            sent@ == id && #[trigger] call_ensures(poll_fn, (profile_id, sent), call)
                && types::result_model(result) == poll_reply(call)
}

/// Whether `r` and the headers `after` are what becomes of a request with the headers
/// `before` that was processed with `outcome`: it is denied, or its headers carry the
/// header of the outcome. That may fail for want of room alone.
pub open spec fn delivered(
    outcome: Result<Option<CredentialHeaderModel>, Seq<char>>,
    before: Map<Seq<char>, Seq<Seq<u8>>>,
    after: Map<Seq<char>, Seq<Seq<u8>>>,
    r: Result<(), SendError>,
) -> bool {
    match outcome {
        Err(message) => r matches Err(SendError::Denied(m)) && m@ == message,
        Ok(header) => match r {
            Ok(_) => after == headers::injected(before, header),
            Err(error) => {
                &&& error is HeaderLimitReached
                &&& header matches Some(h) && headers::injectable(h)
                &&& !headers::has_room(before)
            },
        },
    }
}

/// Whether `call` is what `check_fn` returned when it was asked about exactly the request
/// `target`, and `outcome` is what became of the request on that.
pub open spec fn checked<
    C: CredentialLookup,
    H: FnOnce(&str, &str, &str, &str, Option<&str>) -> HubCall<ApproveResponse>,
    P: FnOnce(&str, &str) -> HubCall<ApprovalStatus>,
>(
    profile_id: &str,
    creds: &C,
    services: Seq<ServiceModel>,
    target: RequestTarget,
    context: Option<&str>,
    check_fn: H,
    poll_fn: P,
    asked: (&str, &str, &str),
    call: HubCall<ApproveResponse>,
    outcome: Result<Option<CredentialHeaderModel>, Seq<char>>,
) -> bool {
    &&& asks_about(target, asked.0, asked.1, asked.2)
    &&& call_ensures(check_fn, (profile_id, asked.0, asked.1, asked.2, context), call)
    &&& processed(
        services,
        profile_id,
        asked.0,
        target.method@,
        target.path@,
        decided(services, target, call),
        polls_in_profile(poll_fn, profile_id),
        creds,
        outcome,
    )
}

/// Whether `r` and the headers `after` are what became of a request with the headers
/// `before`: the Hub was asked about exactly this request, what it answered was enforced,
/// and the headers carry the credential of a request that passed.
pub open spec fn sent<
    C: CredentialLookup,
    H: FnOnce(&str, &str, &str, &str, Option<&str>) -> HubCall<ApproveResponse>,
    P: FnOnce(&str, &str) -> HubCall<ApprovalStatus>,
>(
    profile_id: &str,
    creds: &C,
    services: Seq<ServiceModel>,
    target: RequestTarget,
    context: Option<&str>,
    check_fn: H,
    poll_fn: P,
    before: Map<Seq<char>, Seq<Seq<u8>>>,
    after: Map<Seq<char>, Seq<Seq<u8>>>,
    r: Result<(), SendError>,
) -> bool {
    exists|
        asked: (&str, &str, &str),
        call: HubCall<ApproveResponse>,
        outcome: Result<Option<CredentialHeaderModel>, Seq<char>>,
    | #[trigger]
        checked(
            profile_id,
            creds,
            services,
            target,
            context,
            check_fn,
            poll_fn,
            asked,
            call,
            outcome,
        ) && delivered(outcome, before, after, r)
}

/// Checks an outbound request with the Hub, and prepares its headers for sending.
///
/// `check_fn` asks the Hub (profile, domain, method, path, context), `poll_fn` polls it for
/// an approval (profile, approval id), and `creds` looks credentials up.
///
/// Without a profile or a store, none of them is called. With both, the Hub is asked about
/// this request alone, polled only for an approval that its answer requires, and a
/// credential is looked up only once the request has passed: none of them may be called
/// otherwise.
pub fn send_request<
    C: CredentialLookup,
    H: FnOnce(&str, &str, &str, &str, Option<&str>) -> HubCall<ApproveResponse>,
    P: FnOnce(&str, &str) -> HubCall<ApprovalStatus>,
>(
    profile_id: Option<&str>,
    creds: Option<&C>,
    services: &[ServiceConfig],
    target: &RequestTarget,
    context: Option<&str>,
    check_fn: H,
    poll_fn: P,
    headers: &mut http::HeaderMap,
) -> (r: Result<(), SendError>)
    requires
        profile_id matches Some(profile) ==> creds is Some ==> forall|d: &str, m: &str, path: &str|
            asks_about(*target, d, m, path) ==> #[trigger] call_requires(
                check_fn,
                (profile, d, m, path, context),
            ),
        profile_id matches Some(profile) ==> creds is Some ==> forall|
            d: &str,
            m: &str,
            path: &str,
            call: HubCall<ApproveResponse>,
            id: &str,
        |
            asks_about(*target, d, m, path) && #[trigger] call_ensures(
                check_fn,
                (profile, d, m, path, context),
                call,
            ) && decided(services.deep_view(), *target, call) == DecisionModel::NeedsApproval(id@)
                ==> #[trigger] call_requires(poll_fn, (profile, id)),
        profile_id matches Some(profile) ==> creds matches Some(lookup) ==> forall|
            d: &str,
            m: &str,
            path: &str,
            call: HubCall<ApproveResponse>,
            poll: Option<Result<ApprovalStatus, String>>,
        |
            asks_about(*target, d, m, path) && #[trigger] call_ensures(
                check_fn,
                (profile, d, m, path, context),
                call,
            ) && #[trigger] poll_made(
                polls_in_profile(poll_fn, profile),
                decided(services.deep_view(), *target, call),
                poll,
            ) && enforced(
                decided(services.deep_view(), *target, call),
                poll_model(poll),
                target.method@,
                target.path@,
            ) is Ok ==> lookup.may_look_up(profile@, target.domain()),
    ensures
        r is Err ==> headers::header_values(*final(headers)) == headers::header_values(
            *old(headers),
        ),
        profile_id is None || creds is None ==> (r matches Err(SendError::Denied(message))
            && message@ == "request denied: no profile or credential store configured"@),
        profile_id matches Some(profile) ==> creds matches Some(lookup) ==> sent(
            profile,
            lookup,
            services.deep_view(),
            *target,
            context,
            check_fn,
            poll_fn,
            headers::header_values(*old(headers)),
            headers::header_values(*final(headers)),
            r,
        ),
{
    let (profile, lookup) = match (profile_id, creds) {
        (Some(profile), Some(lookup)) => (profile, lookup),
        _ => {
            return Err(
                SendError::Denied(
                    "request denied: no profile or credential store configured".to_string(),
                ),
            );
        },
    };
    let domain = match &target.host {
        Some(host) => host.as_str(),
        None => "",
    };
    proof {
        reveal_strlit("");
        assert(domain@ =~= target.domain());
    }
    let method = target.method.as_str();
    let path = target.path.as_str();
    let call = check_fn(profile, domain, method, path, context);
    assert(call_ensures(check_fn, (profile, domain, method, path, context), call));
    let answer = fetch_hub_approval(call);
    let poll = |id: &str| -> (result: Result<ApprovalStatus, String>)
        requires
            call_requires(poll_fn, (profile, id)),
        ensures
            polls_in_profile(poll_fn, profile)(id@, result),
        {
            let call = poll_fn(profile, id);
            assert(call_ensures(poll_fn, (profile, id), call));
            poll_hub_approval(call)
        };
    let ghost polls = polls_of(poll);
    let ghost in_profile = polls_in_profile(poll_fn, profile);
    let ghost decision = decided(services.deep_view(), *target, call);
    proof {
        assert forall|id: Seq<char>, result: Result<ApprovalStatus, String>| #[trigger]
            polls(id, result) implies in_profile(id, result) by {
            let sent = choose|sent: &str|
                sent@ == id && #[trigger] call_ensures(poll, (sent,), result);
            assert(in_profile(sent@, result));
        }
        assert forall|made: Option<Result<ApprovalStatus, String>>| #[trigger]
            poll_made(polls, decision, made) implies poll_made(in_profile, decision, made) by {}
    }
    let result = process_outbound_request(
        services,
        profile,
        domain,
        method,
        path,
        answer,
        poll,
        lookup,
    );
    proof {
        lemma_processed_by(
            services.deep_view(),
            profile,
            domain,
            method@,
            path@,
            decision,
            polls,
            in_profile,
            lookup,
            types::result_model(result),
        );
        assert(checked(
            profile,
            lookup,
            services.deep_view(),
            *target,
            context,
            check_fn,
            poll_fn,
            (domain, method, path),
            call,
            types::result_model(result),
        ));
    }
    match result {
        Err(message) => Err(SendError::Denied(message)),
        Ok(header) => match inject_credential(headers, &header) {
            Ok(_) => Ok(()),
            Err(_) => Err(SendError::HeaderLimitReached),
        },
    }
}

/// When a request passes: its domain is configured, the Hub answered, and the answer
/// either allows it or requires an approval that was then given.
pub open spec fn passes(
    services: Seq<ServiceModel>,
    domain: Seq<char>,
    hub: Result<ApproveModel, Seq<char>>,
    poll: Option<Result<ApprovalStatus, Seq<char>>>,
) -> bool {
    &&& configured(services, domain)
    &&& hub matches Ok(answer) && {
        ||| answer.action == RuleAction::Allow
        ||| answer.action == RuleAction::RequireApproval && poll == Some(
            Ok::<ApprovalStatus, Seq<char>>(ApprovalStatus::Approved),
        )
    }
}

/// A request is let through exactly when it passes; every other one is blocked.
pub proof fn law_only_passing_requests_proceed(
    services: Seq<ServiceModel>,
    domain: Seq<char>,
    method: Seq<char>,
    path: Seq<char>,
    hub: Result<ApproveModel, Seq<char>>,
    poll: Option<Result<ApprovalStatus, Seq<char>>>,
)
    ensures
        enforced(authorized(services, domain, method, path, hub), poll, method, path) is Ok
            <==> passes(services, domain, hub, poll),
{
}

/// A domain that is not configured is denied, whatever the Hub says.
pub proof fn law_unknown_domain_is_denied(
    services: Seq<ServiceModel>,
    domain: Seq<char>,
    method: Seq<char>,
    path: Seq<char>,
    hub: Result<ApproveModel, Seq<char>>,
    poll: Option<Result<ApprovalStatus, Seq<char>>>,
)
    requires
        !configured(services, domain),
    ensures
        enforced(authorized(services, domain, method, path, hub), poll, method, path) == Err::<
            (),
            Seq<char>,
        >("domain not allowed: "@ + domain),
{
}

/// Where the Hub cannot be asked, a request for a configured domain is denied.
pub proof fn law_unreachable_hub_denies(
    services: Seq<ServiceModel>,
    domain: Seq<char>,
    method: Seq<char>,
    path: Seq<char>,
    error: Seq<char>,
    poll: Option<Result<ApprovalStatus, Seq<char>>>,
)
    requires
        configured(services, domain),
    ensures
        enforced(
            authorized(services, domain, method, path, Err::<ApproveModel, Seq<char>>(error)),
            poll,
            method,
            path,
        ) == Err::<(), Seq<char>>("hub unreachable, request denied: "@ + error),
{
}

/// The Hub is polled only about a request for which it requires an approval, and under
/// the id that it gave.
pub proof fn law_poll_only_where_approval_is_required(
    services: Seq<ServiceModel>,
    domain: Seq<char>,
    method: Seq<char>,
    path: Seq<char>,
    hub: Result<ApproveModel, Seq<char>>,
    polls: spec_fn(Seq<char>, Result<ApprovalStatus, String>) -> bool,
    poll: Option<Result<ApprovalStatus, String>>,
)
    requires
        poll_made(polls, authorized(services, domain, method, path, hub), poll),
    ensures
        poll matches Some(result) ==> {
            &&& configured(services, domain)
            &&& hub matches Ok(answer)
            &&& answer.action == RuleAction::RequireApproval
            &&& polls(answer.approval_id.unwrap_or(Seq::empty()), result)
        },
{
}

/// A header is injected only for a configured domain, under the header name of a service
/// for that domain, and with the value of the credential that was found.
pub proof fn law_header_is_of_the_domain(
    services: Seq<ServiceModel>,
    domain: Seq<char>,
    found: Result<Option<CredentialModel>, Seq<char>>,
)
    ensures
        header_for(services, domain, found) is Some <==> configured(services, domain)
            && (found matches Ok(Some(_))),
        header_for(services, domain, found) matches Some(header) ==> {
            &&& found matches Ok(Some(credential)) && header.value == credential.header_value
            &&& exists|service: ServiceModel|
                services.contains(service) && service.domain == domain && #[trigger]
                service.header_name == header.name
        },
{
    lemma_service_for(services, domain);
    if let Some(service) = service_for(services, domain) {
        assert(services.contains(service) && service.domain == domain);
    }
}

/// Whatever is handed out for a request comes after the request passed.
pub proof fn law_processed_request_passed<C: CredentialLookup>(
    services: Seq<ServiceModel>,
    profile_id: &str,
    domain: &str,
    method: Seq<char>,
    path: Seq<char>,
    hub: Result<ApproveModel, Seq<char>>,
    polls: spec_fn(Seq<char>, Result<ApprovalStatus, String>) -> bool,
    creds: &C,
    outcome: Result<Option<CredentialHeaderModel>, Seq<char>>,
)
    requires
        processed(
            services,
            profile_id,
            domain,
            method,
            path,
            authorized(services, domain@, method, path, hub),
            polls,
            creds,
            outcome,
        ),
    ensures
        outcome is Ok ==> exists|poll: Option<Result<ApprovalStatus, String>>|
            #[trigger] poll_made(
                polls,
                authorized(services, domain@, method, path, hub),
                poll,
            ) && passes(services, domain@, hub, poll_model(poll)),
{
}

/// The credential that is injected is the one that the store holds for the request's
/// domain in the profile; without one, nothing is injected.
pub proof fn law_injected_credential_is_the_stored_one(
    services: Seq<ServiceModel>,
    profile_id: &str,
    domain: &str,
    method: Seq<char>,
    path: Seq<char>,
    hub: Result<ApproveModel, Seq<char>>,
    polls: spec_fn(Seq<char>, Result<ApprovalStatus, String>) -> bool,
    store: &CredentialStore,
    header: Option<CredentialHeaderModel>,
)
    requires
        processed(
            services,
            profile_id,
            domain,
            method,
            path,
            authorized(services, domain@, method, path, hub),
            polls,
            store,
            Ok::<Option<CredentialHeaderModel>, Seq<char>>(header),
        ),
    ensures
        header == header_for(
            services,
            domain@,
            Ok::<Option<CredentialModel>, Seq<char>>(
                credential_store::lookup(store@, profile_id@, domain@),
            ),
        ),
        header is Some <==> credential_store::lookup(store@, profile_id@, domain@) is Some,
{
    lemma_service_for(services, domain@);
    assert(configured(services, domain@));
    let found = choose|found: Result<Option<CredentialEntry>, String>|
        #[trigger] lookup_made(store, profile_id, domain, found) && Ok::<
            Option<CredentialHeaderModel>,
            Seq<char>,
        >(header) == Ok::<Option<CredentialHeaderModel>, Seq<char>>(
            header_for(services, domain@, types::result_model(found)),
        );
    assert(call_ensures(CredentialStore::get_credential, (store, profile_id, domain), found));
}

/// Every request that is sent was put to the Hub, and passed on what the Hub said of
/// exactly this request.
pub proof fn law_sent_request_passed<
    C: CredentialLookup,
    H: FnOnce(&str, &str, &str, &str, Option<&str>) -> HubCall<ApproveResponse>,
    P: FnOnce(&str, &str) -> HubCall<ApprovalStatus>,
>(
    profile_id: &str,
    creds: &C,
    services: Seq<ServiceModel>,
    target: RequestTarget,
    context: Option<&str>,
    check_fn: H,
    poll_fn: P,
    before: Map<Seq<char>, Seq<Seq<u8>>>,
    after: Map<Seq<char>, Seq<Seq<u8>>>,
    r: Result<(), SendError>,
)
    requires
        sent(
            profile_id,
            creds,
            services,
            target,
            context,
            check_fn,
            poll_fn,
            before,
            after,
            r,
        ),
        r is Ok,
    ensures
        exists|
            domain: &str,
            method: &str,
            path: &str,
            call: HubCall<ApproveResponse>,
            poll: Option<Result<ApprovalStatus, String>>,
        |
            {
                &&& asks_about(target, domain, method, path)
                &&& #[trigger] call_ensures(
                    check_fn,
                    (profile_id, domain, method, path, context),
                    call,
                )
                &&& #[trigger] poll_made(
                    polls_in_profile(poll_fn, profile_id),
                    decided(services, target, call),
                    poll,
                )
                &&& passes(services, target.domain(), check_reply(call), poll_model(poll))
            },
{
    let (asked, call, outcome) = choose|
        asked: (&str, &str, &str),
        call: HubCall<ApproveResponse>,
        outcome: Result<Option<CredentialHeaderModel>, Seq<char>>,
    | #[trigger]
        checked(
            profile_id,
            creds,
            services,
            target,
            context,
            check_fn,
            poll_fn,
            asked,
            call,
            outcome,
        ) && delivered(outcome, before, after, r);
    law_processed_request_passed(
        services,
        profile_id,
        asked.0,
        target.method@,
        target.path@,
        check_reply(call),
        polls_in_profile(poll_fn, profile_id),
        creds,
        outcome,
    );
}

/// A request for a domain that is not configured is never sent, whatever the Hub says.
pub proof fn law_unknown_domain_is_never_sent<
    C: CredentialLookup,
    H: FnOnce(&str, &str, &str, &str, Option<&str>) -> HubCall<ApproveResponse>,
    P: FnOnce(&str, &str) -> HubCall<ApprovalStatus>,
>(
    profile_id: &str,
    creds: &C,
    services: Seq<ServiceModel>,
    target: RequestTarget,
    context: Option<&str>,
    check_fn: H,
    poll_fn: P,
    before: Map<Seq<char>, Seq<Seq<u8>>>,
    after: Map<Seq<char>, Seq<Seq<u8>>>,
    r: Result<(), SendError>,
)
    requires
        sent(
            profile_id,
            creds,
            services,
            target,
            context,
            check_fn,
            poll_fn,
            before,
            after,
            r,
        ),
        !configured(services, target.domain()),
    ensures
        r matches Err(SendError::Denied(message)) && message@ == "domain not allowed: "@
            + target.domain(),
{
}

/// Where asking the Hub can only fail, nothing is sent.
pub proof fn law_unreachable_hub_sends_nothing<
    C: CredentialLookup,
    H: FnOnce(&str, &str, &str, &str, Option<&str>) -> HubCall<ApproveResponse>,
    P: FnOnce(&str, &str) -> HubCall<ApprovalStatus>,
>(
    profile_id: &str,
    creds: &C,
    services: Seq<ServiceModel>,
    target: RequestTarget,
    context: Option<&str>,
    check_fn: H,
    poll_fn: P,
    before: Map<Seq<char>, Seq<Seq<u8>>>,
    after: Map<Seq<char>, Seq<Seq<u8>>>,
    r: Result<(), SendError>,
)
    requires
        sent(
            profile_id,
            creds,
            services,
            target,
            context,
            check_fn,
            poll_fn,
            before,
            after,
            r,
        ),
        forall|d: &str, m: &str, path: &str, call: HubCall<ApproveResponse>| #[trigger]
            call_ensures(check_fn, (profile_id, d, m, path, context), call) ==> !(
            call is Replied),
    ensures
        r matches Err(SendError::Denied(_)),
{
}

/// A request that is sent carries the credential that the store holds for its domain in
/// the profile, under the header name of the domain's service; its other headers are as
/// they were.
pub proof fn law_sent_request_carries_the_stored_credential<
    H: FnOnce(&str, &str, &str, &str, Option<&str>) -> HubCall<ApproveResponse>,
    P: FnOnce(&str, &str) -> HubCall<ApprovalStatus>,
>(
    profile_id: &str,
    store: &CredentialStore,
    services: Seq<ServiceModel>,
    target: RequestTarget,
    context: Option<&str>,
    check_fn: H,
    poll_fn: P,
    before: Map<Seq<char>, Seq<Seq<u8>>>,
    after: Map<Seq<char>, Seq<Seq<u8>>>,
    r: Result<(), SendError>,
)
    requires
        sent(
            profile_id,
            store,
            services,
            target,
            context,
            check_fn,
            poll_fn,
            before,
            after,
            r,
        ),
        r is Ok,
    ensures
        after == headers::injected(
            before,
            header_for(
                services,
                target.domain(),
                Ok::<Option<CredentialModel>, Seq<char>>(
                    credential_store::lookup(store@, profile_id@, target.domain()),
                ),
            ),
        ),
{
    let (asked, call, outcome) = choose|
        asked: (&str, &str, &str),
        call: HubCall<ApproveResponse>,
        outcome: Result<Option<CredentialHeaderModel>, Seq<char>>,
    | #[trigger]
        checked(
            profile_id,
            store,
            services,
            target,
            context,
            check_fn,
            poll_fn,
            asked,
            call,
            outcome,
        ) && delivered(outcome, before, after, r);
    law_injected_credential_is_the_stored_one(
        services,
        profile_id,
        asked.0,
        target.method@,
        target.path@,
        check_reply(call),
        polls_in_profile(poll_fn, profile_id),
        store,
        outcome->Ok_0,
    );
}

/// The header of a request that passed is named by the first service for its domain, and
/// holds the whole value of the credential that was found.
pub proof fn law_first_service_names_the_header(
    services: Seq<ServiceModel>,
    domain: Seq<char>,
    found: Result<Option<CredentialModel>, Seq<char>>,
    i: int,
)
    requires
        0 <= i < services.len(),
        services[i].domain == domain,
        forall|j: int| 0 <= j < i ==> (#[trigger] services[j]).domain != domain,
    ensures
        header_for(services, domain, found) == (match found {
            Ok(Some(credential)) => Some(
                CredentialHeaderModel {
                    name: services[i].header_name,
                    value: credential.header_value,
                },
            ),
            _ => None,
        }),
    decreases i,
{
    if i > 0 {
        let rest = services.drop_first();
        assert(services[0].domain != domain);
        assert(rest[i - 1] == services[i]);
        assert forall|j: int| 0 <= j < i - 1 implies (#[trigger] rest[j]).domain != domain by {
            assert(services[j + 1].domain != domain);
        }
        law_first_service_names_the_header(rest, domain, found, i - 1);
    }
}

/// Some service is the first for a domain that one of the services is for.
proof fn lemma_some_service_is_first(services: Seq<ServiceModel>, domain: Seq<char>, k: int) -> (i:
    int)
    requires
        0 <= k < services.len(),
        services[k].domain == domain,
    ensures
        0 <= i <= k,
        services[i].domain == domain,
        forall|j: int| 0 <= j < i ==> (#[trigger] services[j]).domain != domain,
    decreases k,
{
    if exists|j: int| 0 <= j < k && (#[trigger] services[j]).domain == domain {
        let j = choose|j: int| 0 <= j < k && (#[trigger] services[j]).domain == domain;
        lemma_some_service_is_first(services, domain, j)
    } else {
        k
    }
}

/// What is decided of a request, from whether any service is for exactly its domain and from
/// what the Hub answered; a required approval is the one that the Hub named.
pub proof fn law_hub_decides_for_the_configured_domains(
    services: Seq<ServiceModel>,
    domain: Seq<char>,
    method: Seq<char>,
    path: Seq<char>,
    hub: Result<ApproveModel, Seq<char>>,
)
    ensures
        (forall|i: int| 0 <= i < services.len() ==> (#[trigger] services[i]).domain != domain)
            ==> authorized(services, domain, method, path, hub) == DecisionModel::Deny(
            "domain not allowed: "@ + domain,
        ),
        (exists|i: int| 0 <= i < services.len() && (#[trigger] services[i]).domain == domain)
            ==> authorized(services, domain, method, path, hub) == (match hub {
            Err(error) => DecisionModel::Deny("hub unreachable, request denied: "@ + error),
            Ok(answer) => match answer.action {
                RuleAction::Allow => DecisionModel::Allow,
                RuleAction::Deny => DecisionModel::Deny(
                    "request denied by approval rule: "@ + method + " "@ + path,
                ),
                RuleAction::RequireApproval => DecisionModel::NeedsApproval(
                    match answer.approval_id {
                        Some(id) => id,
                        None => Seq::empty(),
                    },
                ),
            },
        }),
{
}

/// An approval lets a request pass exactly where the poll ended with the status approved;
/// any other status, and a poll that failed, blocks it with a message that tells which.
pub proof fn law_only_an_approval_lets_pass(
    poll: Option<Result<ApprovalStatus, Seq<char>>>,
    id: Seq<char>,
    method: Seq<char>,
    path: Seq<char>,
)
    ensures
        ({
            let passage = enforced(DecisionModel::NeedsApproval(id), poll, method, path);
            &&& passage is Ok <==> poll == Some(
                Ok::<ApprovalStatus, Seq<char>>(ApprovalStatus::Approved),
            )
            &&& poll matches Some(Ok(status)) ==> status != ApprovalStatus::Approved ==> passage
                == Err::<(), Seq<char>>(
                "request "@ + status.name() + ": "@ + method + " "@ + path,
            )
            &&& poll matches Some(Err(error)) ==> passage == Err::<(), Seq<char>>(
                "approval poll error: "@ + error,
            )
            &&& poll is None ==> passage == Err::<(), Seq<char>>(
                "approval required but no poll result: "@ + method + " "@ + path,
            )
        }),
        enforced(DecisionModel::Allow, poll, method, path) == Ok::<(), Seq<char>>(()),
        enforced(DecisionModel::Deny(id), poll, method, path) == Err::<(), Seq<char>>(id),
{
}

/// What is polled is what the poll said of exactly that approval.
pub proof fn law_poll_is_of_the_approval<P: FnOnce(&str) -> Result<ApprovalStatus, String>>(
    poll_fn: P,
    id: Seq<char>,
    result: Result<ApprovalStatus, String>,
)
    requires
        polls_of(poll_fn)(id, result),
    ensures
        exists|asked: &str| asked@ == id && #[trigger] call_ensures(poll_fn, (asked,), result),
{
}

/// What becomes of a request, from the services, from what the Hub said of it, from the poll
/// that it called for and from the lookup of its credential.
///
/// A request for a domain without a service is denied, and so is one that the Hub denies or
/// cannot be asked about. One that the Hub allows passes. One that needs an approval is
/// polled for under the id that the Hub gave, passes where it is approved, and is else denied
/// with what the poll said. A request that passes gets the header of the first service for
/// its domain with the value that was looked up, and none where the lookup found nothing or
/// failed.
pub proof fn law_outcome_of_a_request<C: CredentialLookup>(
    services: Seq<ServiceModel>,
    profile_id: &str,
    domain: &str,
    method: Seq<char>,
    path: Seq<char>,
    hub: Result<ApproveModel, Seq<char>>,
    polls: spec_fn(Seq<char>, Result<ApprovalStatus, String>) -> bool,
    creds: &C,
    outcome: Result<Option<CredentialHeaderModel>, Seq<char>>,
)
    requires
        processed(
            services,
            profile_id,
            domain,
            method,
            path,
            authorized(services, domain@, method, path, hub),
            polls,
            creds,
            outcome,
        ),
    ensures
        (forall|i: int| 0 <= i < services.len() ==> (#[trigger] services[i]).domain != domain@)
            ==> outcome == Err::<Option<CredentialHeaderModel>, Seq<char>>(
            "domain not allowed: "@ + domain@,
        ),
        (exists|i: int| 0 <= i < services.len() && (#[trigger] services[i]).domain == domain@)
            ==> match hub {
            Err(error) => outcome == Err::<Option<CredentialHeaderModel>, Seq<char>>(
                "hub unreachable, request denied: "@ + error,
            ),
            Ok(answer) => match answer.action {
                RuleAction::Allow => outcome is Ok,
                RuleAction::Deny => outcome == Err::<Option<CredentialHeaderModel>, Seq<char>>(
                    "request denied by approval rule: "@ + method + " "@ + path,
                ),
                RuleAction::RequireApproval => exists|
                    id: Seq<char>,
                    result: Result<ApprovalStatus, String>,
                |
                    #[trigger] polls(id, result) && id == (match answer.approval_id {
                        Some(named) => named,
                        None => Seq::empty(),
                    }) && match result {
                        Ok(ApprovalStatus::Approved) => outcome is Ok,
                        Ok(status) => outcome == Err::<Option<CredentialHeaderModel>, Seq<char>>(
                            "request "@ + status.name() + ": "@ + method + " "@ + path,
                        ),
                        Err(error) => outcome == Err::<Option<CredentialHeaderModel>, Seq<char>>(
                            "approval poll error: "@ + error@,
                        ),
                    },
            },
        },
        outcome matches Ok(header) ==> exists|
            found: Result<Option<CredentialEntry>, String>,
            i: int,
        |
            {
                &&& #[trigger] call_ensures(C::get_credential, (creds, profile_id, domain), found)
                &&& 0 <= i < services.len()
                &&& (#[trigger] services[i]).domain == domain@
                &&& forall|j: int| 0 <= j < i ==> (#[trigger] services[j]).domain != domain@
                &&& header == (match found {
                    Ok(Some(credential)) => Some(
                        CredentialHeaderModel {
                            name: services[i].header_name,
                            value: credential.header_value@,
                        },
                    ),
                    _ => None,
                })
            },
{
    let decision = authorized(services, domain@, method, path, hub);
    law_hub_decides_for_the_configured_domains(services, domain@, method, path, hub);
    let poll = choose|poll: Option<Result<ApprovalStatus, String>>| #[trigger]
        poll_made(polls, decision, poll) && processed_after(
            services,
            profile_id,
            domain,
            method,
            path,
            decision,
            poll,
            creds,
            outcome,
        );
    if let Some(result) = poll {
        assert(decision matches DecisionModel::NeedsApproval(id) && polls(id, result));
    }
    if let Ok(header) = outcome {
        let found = choose|found: Result<Option<CredentialEntry>, String>|
            #[trigger] lookup_made(creds, profile_id, domain, found) && outcome == Ok::<
                Option<CredentialHeaderModel>,
                Seq<char>,
            >(header_for(services, domain@, types::result_model(found)));
        assert(call_ensures(C::get_credential, (creds, profile_id, domain), found));
        let k = choose|k: int|
            0 <= k < services.len() && (#[trigger] services[k]).domain == domain@;
        let i = lemma_some_service_is_first(services, domain@, k);
        law_first_service_names_the_header(services, domain@, types::result_model(found), i);
        assert(services[i].domain == domain@);
    }
}

/// A reply of the Hub is taken as it is, and so is the error of a call that failed; a call
/// that could not be made says so, in words of its own for the check and for the poll.
pub proof fn law_hub_call_is_told_as_it_ended(
    check: HubCall<ApproveResponse>,
    poll: HubCall<ApprovalStatus>,
)
    ensures
        check matches HubCall::Replied(answer) ==> check_reply(check) == Ok::<
            ApproveModel,
            Seq<char>,
        >(
            ApproveModel {
                action: answer.action,
                approval_id: answer.approval_id.deep_view(),
                expires_at: answer.expires_at.deep_view(),
            },
        ),
        check matches HubCall::Failed(error) ==> check_reply(check) == Err::<
            ApproveModel,
            Seq<char>,
        >(error@),
        check is NoRuntime ==> check_reply(check) == Err::<ApproveModel, Seq<char>>(
            "no async runtime available for approval check"@,
        ),
        check is Panicked ==> check_reply(check) == Err::<ApproveModel, Seq<char>>(
            "approval check thread panicked"@,
        ),
        poll matches HubCall::Replied(status) ==> poll_reply(poll) == Ok::<
            ApprovalStatus,
            Seq<char>,
        >(status),
        poll matches HubCall::Failed(error) ==> poll_reply(poll) == Err::<
            ApprovalStatus,
            Seq<char>,
        >(error@),
        poll is NoRuntime ==> poll_reply(poll) == Err::<ApprovalStatus, Seq<char>>(
            "no async runtime available for approval poll"@,
        ),
        poll is Panicked ==> poll_reply(poll) == Err::<ApprovalStatus, Seq<char>>(
            "approval poll thread panicked"@,
        ),
{
}

/// While a request is sent, the Hub is polled in the profile, under exactly the id of the
/// approval, and what came of it is taken as it is.
pub proof fn law_poll_is_made_in_the_profile<P: FnOnce(&str, &str) -> HubCall<ApprovalStatus>>(
    poll_fn: P,
    profile_id: &str,
    id: Seq<char>,
    result: Result<ApprovalStatus, String>,
)
    requires
        polls_in_profile(poll_fn, profile_id)(id, result),
    ensures
        exists|asked: &str, call: HubCall<ApprovalStatus>|
            {
                &&& asked@ == id
                &&& #[trigger] call_ensures(poll_fn, (profile_id, asked), call)
                &&& match call {
                    HubCall::Replied(status) => result == Ok::<ApprovalStatus, String>(status),
                    HubCall::Failed(error) => result matches Err(message) && message@ == error@,
                    HubCall::NoRuntime => result matches Err(message) && message@
                        == "no async runtime available for approval poll"@,
                    HubCall::Panicked => result matches Err(message) && message@
                        == "approval poll thread panicked"@,
                }
            },
{
    let (asked, call) = choose|asked: &str, call: HubCall<ApprovalStatus>|
        asked@ == id && #[trigger] call_ensures(poll_fn, (profile_id, asked), call)
            && types::result_model(result) == poll_reply(call);
    law_hub_call_is_told_as_it_ended(HubCall::NoRuntime, call);
    assert(call_ensures(poll_fn, (profile_id, asked), call));
}

/// What sending a request comes to: the Hub is asked about the host, the method and the path
/// of exactly this request, in its context; a request that is denied on its answer fails
/// with that message; one that passes goes out with the header that it is due, in place of
/// any it had by that name, and with its other headers as they were. A header with an invalid
/// name or value is passed over, and only a map without room refuses a valid one.
pub proof fn law_outcome_of_sending<
    C: CredentialLookup,
    H: FnOnce(&str, &str, &str, &str, Option<&str>) -> HubCall<ApproveResponse>,
    P: FnOnce(&str, &str) -> HubCall<ApprovalStatus>,
>(
    profile_id: &str,
    creds: &C,
    services: Seq<ServiceModel>,
    target: RequestTarget,
    context: Option<&str>,
    check_fn: H,
    poll_fn: P,
    before: Map<Seq<char>, Seq<Seq<u8>>>,
    after: Map<Seq<char>, Seq<Seq<u8>>>,
    r: Result<(), SendError>,
)
    requires
        sent(
            profile_id,
            creds,
            services,
            target,
            context,
            check_fn,
            poll_fn,
            before,
            after,
            r,
        ),
    ensures
        exists|
            domain: &str,
            method: &str,
            path: &str,
            call: HubCall<ApproveResponse>,
            outcome: Result<Option<CredentialHeaderModel>, Seq<char>>,
        |
            {
                &&& domain@ == (match target.host {
                    Some(host) => host@,
                    None => Seq::empty(),
                })
                &&& method@ == target.method@
                &&& path@ == target.path@
                &&& #[trigger] call_ensures(
                    check_fn,
                    (profile_id, domain, method, path, context),
                    call,
                )
                &&& #[trigger] processed(
                    services,
                    profile_id,
                    domain,
                    method@,
                    path@,
                    authorized(services, domain@, method@, path@, check_reply(call)),
                    polls_in_profile(poll_fn, profile_id),
                    creds,
                    outcome,
                )
                &&& match outcome {
                    Err(message) => r matches Err(SendError::Denied(m)) && m@ == message,
                    Ok(None) => r is Ok && after == before,
                    Ok(Some(h)) => if headers::is_header_name(h.name) && headers::is_header_value(
                        vstd::utf8::encode_utf8(h.value),
                    ) {
                        match r {
                            Ok(_) => after == before.insert(
                                text::ascii_lower(h.name),
                                seq![vstd::utf8::encode_utf8(h.value)],
                            ),
                            Err(error) => error is HeaderLimitReached && !headers::has_room(before),
                        }
                    } else {
                        r is Ok && after == before
                    },
                }
            },
{
    let (asked, call, outcome) = choose|
        asked: (&str, &str, &str),
        call: HubCall<ApproveResponse>,
        outcome: Result<Option<CredentialHeaderModel>, Seq<char>>,
    | #[trigger]
        checked(
            profile_id,
            creds,
            services,
            target,
            context,
            check_fn,
            poll_fn,
            asked,
            call,
            outcome,
        ) && delivered(outcome, before, after, r);
    let (domain, method, path) = asked;
    assert(call_ensures(check_fn, (profile_id, domain, method, path, context), call));
    assert(processed(
        services,
        profile_id,
        domain,
        method@,
        path@,
        authorized(services, domain@, method@, path@, check_reply(call)),
        polls_in_profile(poll_fn, profile_id),
        creds,
        outcome,
    ));
}

/// Decisions and passages are modelled with their messages and ids in full.
pub proof fn law_decision_model_leaves_nothing_out(
    decision: RequestDecision,
    passage: Result<(), String>,
)
    ensures
        decision is Allow <==> decision@ is Allow,
        decision matches RequestDecision::Deny(message) ==> decision@ == DecisionModel::Deny(
            message@,
        ),
        decision matches RequestDecision::NeedsApproval(id) ==> decision@
            == DecisionModel::NeedsApproval(id@),
        passage is Ok <==> passage_model(passage) is Ok,
        passage matches Err(message) ==> passage_model(passage) == Err::<(), Seq<char>>(message@),
{
}

} // verus!
