//! Requests to the Hub, and their replies.

use corevisor::hub_client::{
    approval_reply, is_success, login_poll, poll_approval_start, poll_approval_step,
    profiles_reply, search_reply, DevicePoll, DeviceSession, HubClient, HubMethod, HubReply, LoginStep, PollEvent, PollStep,
    ProfileResponse,
};
use corevisor::types::{ApprovalStatus, ApproveResponse, RuleAction};

fn client() -> HubClient {
    HubClient::new("https://hub".to_string(), "tok".to_string())
}

fn reply<T>(status: u16, text: Option<&str>, value: Result<T, String>) -> HubReply<T> {
    HubReply {
        status,
        text: text.map(String::from),
        value,
    }
}

#[test]
fn requests_carry_the_token() {
    let request = client().get_profiles();
    assert_eq!(request.method, HubMethod::Get);
    assert_eq!(request.url, "https://hub/profiles");
    assert_eq!(request.authorization.as_deref(), Some("Bearer tok"));
    assert_eq!(client().auth_header(), "Bearer tok");
}

#[test]
fn approval_check_request() {
    let (request, body) = client().check_approval("p1", "a.com", "GET", "/x", Some("why"));
    assert_eq!(request.method, HubMethod::Post);
    assert_eq!(request.url, "https://hub/profiles/p1/approve");
    assert_eq!(request.authorization.as_deref(), Some("Bearer tok"));
    assert_eq!(body.domain, "a.com");
    assert_eq!(body.method, "GET");
    assert_eq!(body.path, "/x");
    assert_eq!(body.context.as_deref(), Some("why"));
}

#[test]
fn approval_poll_request() {
    let request = client().poll_approval("p1", "id9");
    assert_eq!(request.method, HubMethod::Get);
    assert_eq!(request.url, "https://hub/profiles/p1/approvals/id9");
    assert_eq!(request.authorization.as_deref(), Some("Bearer tok"));
}

#[test]
fn search_request() {
    let (request, body) = client().search_api_docs("POST.*page", None, Some("notion"));
    assert_eq!(request.method, HubMethod::Post);
    assert_eq!(request.url, "https://hub/registry/search/endpoints");
    assert_eq!(body.pattern, "POST.*page");
    assert_eq!(body.domain, None);
    assert_eq!(body.slug.as_deref(), Some("notion"));
    assert_eq!(body.mode, None);
}

#[test]
fn login_opens_without_a_token() {
    let request = client().oauth_login();
    assert_eq!(request.method, HubMethod::Post);
    assert_eq!(request.url, "https://hub/oauth/device");
    assert_eq!(request.authorization, None);
}

fn device_session() -> DeviceSession {
    DeviceSession {
        session_id: "s1".to_string(),
        user_code: "ABCD".to_string(),
        login_url: "/login?s=1".to_string(),
        poll_interval: 5,
    }
}

#[test]
fn login_session_addresses() {
    let login = client()
        .login_session(reply(201, None, Ok(device_session())))
        .unwrap();
    assert_eq!(login.login_url, "https://hub/login?s=1");
    assert_eq!(login.user_code, "ABCD");
    assert_eq!(login.poll.url, "https://hub/oauth/device/poll?session_id=s1");
    assert_eq!(login.poll.authorization, None);
    assert_eq!(login.poll_interval, 5);
}

#[test]
fn login_session_failures() {
    assert_eq!(
        client()
            .login_session(reply(500, Some("down"), Ok(device_session())))
            .unwrap_err(),
        "failed to create device session: down"
    );
    assert_eq!(
        client()
            .login_session(reply(200, None, Err("bad body".to_string())))
            .unwrap_err(),
        "bad body"
    );
}

fn device_poll(status: &str, token: Option<&str>) -> DevicePoll {
    DevicePoll {
        status: status.to_string(),
        access_token: token.map(String::from),
    }
}

#[test]
fn login_waits_until_authorized() {
    assert!(matches!(
        login_poll(reply(200, None, Ok(device_poll("pending", None)))),
        LoginStep::Wait
    ));
    assert!(matches!(
        login_poll(reply(200, None, Ok(device_poll("authorized", Some("t"))))),
        LoginStep::Done(Ok(token)) if token == "t"
    ));
}

#[test]
fn login_failures() {
    let message = |step| match step {
        LoginStep::Done(Err(message)) => message,
        other => panic!("unexpected step {other:?}"),
    };
    assert_eq!(
        message(login_poll(reply(410, Some("gone"), Ok(device_poll("authorized", Some("t")))))),
        "device session expired — please try again"
    );
    assert_eq!(
        message(login_poll(reply(503, None, Ok(device_poll("authorized", Some("t")))))),
        "poll failed: "
    );
    assert_eq!(
        message(login_poll(reply(200, None, Err("bad body".to_string())))),
        "bad body"
    );
    assert_eq!(
        message(login_poll(reply(200, None, Ok(device_poll("authorized", None))))),
        "authorized but no token returned"
    );
}

/// Runs a login on these replies, and tells how many of them were asked for.
fn run_login(replies: Vec<HubReply<DevicePoll>>) -> (usize, Option<Result<String, String>>) {
    let mut asked = 0;
    for reply in replies {
        asked += 1;
        if let LoginStep::Done(outcome) = login_poll(reply) {
            return (asked, Some(outcome));
        }
    }
    (asked, None)
}

#[test]
fn login_ends_with_the_first_reply_that_does_not_ask_to_wait() {
    let waiting = || reply(200, None, Ok(device_poll("pending", None)));
    let authorized = |token| reply(200, None, Ok(device_poll("authorized", Some(token))));
    assert_eq!(
        run_login(vec![waiting(), waiting(), authorized("t1"), authorized("t2")]),
        (3, Some(Ok("t1".to_string())))
    );
    assert_eq!(
        run_login(vec![waiting(), reply(500, Some("down"), Err(String::new())), authorized("t")]),
        (2, Some(Err("poll failed: down".to_string())))
    );
    assert_eq!(run_login(vec![waiting(), waiting()]), (2, None));
}

/// Polls with these looks at the clock and these statuses, and tells how often the Hub was
/// asked.
fn run_polling(
    timeout: u128,
    clock: &[u128],
    statuses: &[ApprovalStatus],
) -> (usize, Result<ApprovalStatus, String>) {
    let mut looks = clock.iter();
    let mut asked = 0;
    let mut step = poll_approval_start();
    loop {
        let event = match step {
            PollStep::Done(outcome) => return (asked, outcome),
            PollStep::CheckClock => PollEvent::Clock(*looks.next().unwrap()),
            PollStep::SleepAndAsk => {
                asked += 1;
                PollEvent::Replied(reply(200, None, Ok(statuses[asked - 1])))
            }
        };
        step = poll_approval_step(timeout, event);
    }
}

#[test]
fn polling_ends_with_the_first_decision() {
    let pending = ApprovalStatus::Pending;
    assert_eq!(
        run_polling(10, &[0, 4, 9], &[pending, pending, ApprovalStatus::Denied]),
        (3, Ok(ApprovalStatus::Denied))
    );
    assert_eq!(
        run_polling(10, &[0, 4, 10], &[pending, pending, ApprovalStatus::Approved]),
        (2, Ok(ApprovalStatus::Expired))
    );
}

#[test]
fn polling_without_time_asks_nothing() {
    assert_eq!(run_polling(0, &[0], &[]), (0, Ok(ApprovalStatus::Expired)));
}

#[test]
fn polling_looks_at_the_clock_first() {
    assert!(matches!(poll_approval_start(), PollStep::CheckClock));
    assert!(matches!(
        poll_approval_step(120, PollEvent::Clock(119)),
        PollStep::SleepAndAsk
    ));
    assert!(matches!(
        poll_approval_step(120, PollEvent::Clock(120)),
        PollStep::Done(Ok(ApprovalStatus::Expired))
    ));
}

#[test]
fn polling_goes_on_while_pending() {
    assert!(matches!(
        poll_approval_step(
            120,
            PollEvent::Replied(reply(200, None, Ok(ApprovalStatus::Pending)))
        ),
        PollStep::CheckClock
    ));
    for status in [
        ApprovalStatus::Approved,
        ApprovalStatus::Denied,
        ApprovalStatus::Expired,
    ] {
        assert!(matches!(
            poll_approval_step(120, PollEvent::Replied(reply(200, None, Ok(status)))),
            PollStep::Done(Ok(s)) if s == status
        ));
    }
}

#[test]
fn polling_failures() {
    let message = |event| match poll_approval_step(120, event) {
        PollStep::Done(Err(message)) => message,
        other => panic!("unexpected step {other:?}"),
    };
    assert_eq!(message(PollEvent::Failed("refused".to_string())), "refused");
    assert_eq!(
        message(PollEvent::Replied(reply(
            404,
            Some("no such"),
            Ok(ApprovalStatus::Approved)
        ))),
        "poll approval failed: no such"
    );
    assert_eq!(
        message(PollEvent::Replied(reply(200, None, Err("bad".to_string())))),
        "bad"
    );
}

#[test]
fn success_is_two_hundred_to_two_ninety_nine() {
    assert!(!is_success(199));
    assert!(is_success(200));
    assert!(is_success(299));
    assert!(!is_success(300));
}

#[test]
fn replies_tell_what_failed() {
    let profile = ProfileResponse {
        id: "p".to_string(),
        name: "n".to_string(),
    };
    assert_eq!(
        profiles_reply(reply(200, None, Ok(vec![profile]))).unwrap()[0].id,
        "p"
    );
    assert_eq!(
        profiles_reply(reply(401, Some("who?"), Ok(vec![]))).unwrap_err(),
        "get profiles failed: who?"
    );
    assert_eq!(
        search_reply(reply(500, None, Ok(vec![1]))).unwrap_err(),
        "search failed: "
    );
    assert_eq!(search_reply(reply(200, None, Ok(vec![1]))).unwrap(), vec![1]);
    let answer = ApproveResponse {
        action: RuleAction::Deny,
        approval_id: None,
        expires_at: None,
    };
    assert_eq!(
        approval_reply(reply(403, Some("no"), Ok(answer))).unwrap_err(),
        "approval check failed: no"
    );
    assert_eq!(
        approval_reply(reply(200, Some("no"), Err("bad".to_string()))).unwrap_err(),
        "bad"
    );
}
