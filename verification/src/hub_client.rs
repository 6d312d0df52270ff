//! The client side of the Hub's HTTP interface: which requests are made, and what their
//! replies mean. Sending a request and reading its reply is up to the caller.

use vstd::prelude::*;
use vstd::string::*;
use crate::text;
use crate::types;
use crate::types::{
    ApprovalStatus, ApproveCheckModel, ApproveCheckRequest, ApproveResponse, SearchEndpointsModel,
    SearchEndpointsRequest,
};

verus! {

broadcast use vstd::string::group_string_axioms;

/// How often the Hub is polled for an approval, in seconds.
pub const POLL_INTERVAL_SECS: u64 = 2;

/// The HTTP methods that the Hub is asked with.
#[derive(Debug, Clone, Copy, PartialEq, Eq, Structural)]
pub enum HubMethod {
    Get,
    Post,
}

/// A request to the Hub.
#[derive(Debug)]
pub struct HubRequest {
    pub method: HubMethod,
    pub url: String,
    /// The value of the `Authorization` header, if there is to be one.
    pub authorization: Option<String>,
}

/// The model of a [`HubRequest`].
#[verifier::ext_equal]
pub struct HubRequestModel {
    pub method: HubMethod,
    pub url: Seq<char>,
    pub authorization: Option<Seq<char>>,
}

impl View for HubRequest {
    type V = HubRequestModel;

    open spec fn view(&self) -> HubRequestModel {
        HubRequestModel {
            method: self.method,
            url: self.url@,
            authorization: self.authorization.deep_view(),
        }
    }
}

/// The reply to a request: its status; the text of its body, as far as it could be read,
/// which matters only where the status is no success; and what the body was decoded to,
/// which matters only where it is.
#[derive(Debug)]
pub struct HubReply<T> {
    pub status: u16,
    pub text: Option<String>,
    pub value: Result<T, String>,
}

/// Whether a status tells of success.
pub open spec fn success_status(status: u16) -> bool {
    200 <= status <= 299
}

/// Whether a status tells of success.
pub fn is_success(status: u16) -> (r: bool)
    ensures
        r == success_status(status),
{
    200 <= status && status <= 299
}

/// The text of a body, or nothing where it could not be read.
pub open spec fn body_text(text: Option<String>) -> Seq<char> {
    match text {
        Some(t) => t@,
        None => Seq::empty(),
    }
}

/// Takes the value out of a reply; where the status is no success, fails with `failure`
/// and the body.
pub fn accept_reply<T>(failure: &str, reply: HubReply<T>) -> (r: Result<T, String>)
    ensures
        accepted(failure@, reply, r),
{
    if is_success(reply.status) {
        reply.value
    } else {
        let mut message = failure.to_string();
        message.append(": ");
        if let Some(body) = &reply.text {
            message.append(body.as_str());
        }
        assert(message@ =~= failure@ + ": "@ + body_text(reply.text));
        Err(message)
    }
}

/// Profile summary returned by the Hub.
#[derive(Debug)]
pub struct ProfileResponse {
    pub id: String,
    pub name: String,
}

/// The model of a [`ProfileResponse`].
#[verifier::ext_equal]
pub struct ProfileModel {
    pub id: Seq<char>,
    pub name: Seq<char>,
}

impl View for ProfileResponse {
    type V = ProfileModel;

    open spec fn view(&self) -> ProfileModel {
        ProfileModel { id: self.id@, name: self.name@ }
    }
}

impl DeepView for ProfileResponse {
    type V = ProfileModel;

    open spec fn deep_view(&self) -> ProfileModel {
        self.view()
    }
}

/// A login that the Hub has opened.
#[derive(Debug)]
pub struct DeviceSession {
    pub session_id: String,
    pub user_code: String,
    pub login_url: String,
    pub poll_interval: u64,
}

/// What a login needs from the moment it is opened.
#[derive(Debug)]
pub struct LoginSession {
    /// The page that the user is to open.
    pub login_url: String,
    /// The code that the user is to compare.
    pub user_code: String,
    /// Where the outcome is asked for.
    pub poll: HubRequest,
    /// How long to wait before each question, in seconds.
    pub poll_interval: u64,
}

/// The Hub's word on a login.
#[derive(Debug)]
pub struct DevicePoll {
    pub status: String,
    pub access_token: Option<String>,
}

/// What is to be done next in a login.
#[derive(Debug)]
pub enum LoginStep {
    /// Wait, and ask again.
    Wait,
    /// The login is over: the access token, or why there is none.
    Done(Result<String, String>),
}

/// The model of a [`LoginStep`].
pub enum LoginStepModel {
    Wait,
    Done(Result<Seq<char>, Seq<char>>),
}

impl View for LoginStep {
    type V = LoginStepModel;

    open spec fn view(&self) -> LoginStepModel {
        match self {
            LoginStep::Wait => LoginStepModel::Wait,
            LoginStep::Done(outcome) => LoginStepModel::Done(types::result_model(*outcome)),
        }
    }
}

/// What a reply to the question for a login's outcome means.
pub open spec fn login_step(reply: HubReply<DevicePoll>) -> LoginStepModel {
    if reply.status == 410 {
        LoginStepModel::Done(Err("device session expired — please try again"@))
    } else if !success_status(reply.status) {
        LoginStepModel::Done(Err("poll failed: "@ + body_text(reply.text)))
    } else {
        match reply.value {
            Err(error) => LoginStepModel::Done(Err(error@)),
            Ok(poll) => if poll.status@ != "authorized"@ {
                LoginStepModel::Wait
            } else {
                match poll.access_token {
                    Some(token) => LoginStepModel::Done(Ok(token@)),
                    None => LoginStepModel::Done(Err("authorized but no token returned"@)),
                }
            },
        }
    }
}

/// Takes the reply to the question for a login's outcome.
pub fn login_poll(reply: HubReply<DevicePoll>) -> (r: LoginStep)
    ensures
        r@ == login_step(reply),
{
    if reply.status == 410 {
        return LoginStep::Done(Err("device session expired — please try again".to_string()));
    }
    match accept_reply("poll failed", reply) {
        Err(message) => {
            proof {
                reveal_strlit("poll failed");
                reveal_strlit(": ");
                reveal_strlit("poll failed: ");
                assert("poll failed"@ + ": "@ =~= "poll failed: "@);
            }
            LoginStep::Done(Err(message))
        },
        Ok(poll) => {
            if !text::str_eq(poll.status.as_str(), "authorized") {
                LoginStep::Wait
            } else {
                match poll.access_token {
                    Some(token) => LoginStep::Done(Ok(token)),
                    None => LoginStep::Done(Err("authorized but no token returned".to_string())),
                }
            }
        },
    }
}

/// What a login comes to over a run of replies: the first that does not ask to wait decides,
/// and until then it goes on.
pub open spec fn login_outcome(replies: Seq<HubReply<DevicePoll>>) -> LoginStepModel
    decreases replies.len(),
{
    if replies.len() == 0 {
        LoginStepModel::Wait
    } else {
        match login_step(replies[0]) {
            LoginStepModel::Wait => login_outcome(replies.drop_first()),
            LoginStepModel::Done(outcome) => LoginStepModel::Done(outcome),
        }
    }
}

/// Whether a reply authorizes a login with `token`.
pub open spec fn authorizes(reply: HubReply<DevicePoll>, token: Seq<char>) -> bool {
    &&& success_status(reply.status)
    &&& reply.value matches Ok(poll)
    &&& poll.status@ == "authorized"@
    &&& poll.access_token.deep_view() == Some(token)
}

/// Whether a reply asks to wait: the Hub replied, with success, that the login is not
/// authorized yet.
pub open spec fn asks_to_wait(reply: HubReply<DevicePoll>) -> bool {
    success_status(reply.status) && (reply.value matches Ok(poll) && poll.status@
        != "authorized"@)
}

/// What is to be done next while polling for an approval.
#[derive(Debug)]
pub enum PollStep {
    /// Sleep for the poll interval, then ask the Hub.
    SleepAndAsk,
    /// Look at the clock again.
    CheckClock,
    /// Polling is over.
    Done(Result<ApprovalStatus, String>),
}

/// What just happened while polling for an approval.
#[derive(Debug)]
pub enum PollEvent {
    /// So many nanoseconds have passed since polling began.
    Clock(u128),
    /// The question could not be sent.
    Failed(String),
    /// The Hub replied.
    Replied(HubReply<ApprovalStatus>),
}

/// The model of a [`PollStep`].
pub enum PollStepModel {
    SleepAndAsk,
    CheckClock,
    Done(Result<ApprovalStatus, Seq<char>>),
}

impl View for PollStep {
    type V = PollStepModel;

    open spec fn view(&self) -> PollStepModel {
        match self {
            PollStep::SleepAndAsk => PollStepModel::SleepAndAsk,
            PollStep::CheckClock => PollStepModel::CheckClock,
            PollStep::Done(outcome) => PollStepModel::Done(types::result_model(*outcome)),
        }
    }
}

/// What an event calls for while polling for an approval with a limit of `timeout`
/// nanoseconds.
pub open spec fn poll_step(timeout: u128, event: PollEvent) -> PollStepModel {
    match event {
        PollEvent::Clock(elapsed) => if elapsed >= timeout {
            PollStepModel::Done(Ok(ApprovalStatus::Expired))
        } else {
            PollStepModel::SleepAndAsk
        },
        PollEvent::Failed(error) => PollStepModel::Done(Err(error@)),
        PollEvent::Replied(reply) => if !success_status(reply.status) {
            PollStepModel::Done(Err("poll approval failed: "@ + body_text(reply.text)))
        } else {
            match reply.value {
                Err(error) => PollStepModel::Done(Err(error@)),
                Ok(ApprovalStatus::Pending) => PollStepModel::CheckClock,
                Ok(status) => PollStepModel::Done(Ok(status)),
            }
        },
    }
}

/// How polling for an approval begins: with a look at the clock, so that nothing is asked
/// where there is no time at all.
pub fn poll_approval_start() -> (r: PollStep)
    ensures
        r@ == PollStepModel::CheckClock,
{
    PollStep::CheckClock
}

/// Whether `event` is one that `step` brings about.
pub open spec fn answers(step: PollStepModel, event: PollEvent) -> bool {
    match step {
        PollStepModel::CheckClock => event is Clock,
        PollStepModel::SleepAndAsk => event is Failed || event is Replied,
        PollStepModel::Done(_) => false,
    }
}

/// The step that follows `events`.
pub open spec fn step_after(timeout: u128, events: Seq<PollEvent>) -> PollStepModel {
    if events.len() == 0 {
        PollStepModel::CheckClock
    } else {
        poll_step(timeout, events.last())
    }
}

/// Whether `events` can happen while polling: each is brought about by the step that
/// follows those before it.
pub open spec fn poll_run(timeout: u128, events: Seq<PollEvent>) -> bool {
    forall|i: int|
        0 <= i < events.len() ==> answers(
            step_after(timeout, events.take(i)),
            #[trigger] events[i],
        )
}

/// Whether polling goes on after `event`: there is time left, or the approval is pending.
pub open spec fn goes_on(timeout: u128, event: PollEvent) -> bool {
    match event {
        PollEvent::Clock(elapsed) => elapsed < timeout,
        PollEvent::Failed(_) => false,
        PollEvent::Replied(reply) => success_status(reply.status) && reply.value == Ok::<
            ApprovalStatus,
            String,
        >(ApprovalStatus::Pending),
    }
}

/// Takes one step in polling for an approval.
pub fn poll_approval_step(timeout: u128, event: PollEvent) -> (r: PollStep)
    ensures
        r@ == poll_step(timeout, event),
{
    match event {
        PollEvent::Clock(elapsed) => {
            if elapsed >= timeout {
                PollStep::Done(Ok(ApprovalStatus::Expired))
            } else {
                PollStep::SleepAndAsk
            }
        },
        PollEvent::Failed(error) => PollStep::Done(Err(error)),
        PollEvent::Replied(reply) => match accept_reply("poll approval failed", reply) {
            Err(message) => {
                proof {
                    reveal_strlit("poll approval failed");
                    reveal_strlit(": ");
                    reveal_strlit("poll approval failed: ");
                    assert("poll approval failed"@ + ": "@ =~= "poll approval failed: "@);
                }
                PollStep::Done(Err(message))
            },
            Ok(ApprovalStatus::Pending) => PollStep::CheckClock,
            Ok(status) => PollStep::Done(Ok(status)),
        },
    }
}

/// What a reply comes to: its value, or `failure` with the body where the status is no
/// success.
pub open spec fn accepted<T>(failure: Seq<char>, reply: HubReply<T>, r: Result<T, String>) -> bool {
    if success_status(reply.status) {
        r == reply.value
    } else {
        r matches Err(message) && message@ == failure + ": "@ + body_text(reply.text)
    }
}

/// Takes the reply to the request for all profiles.
pub fn profiles_reply(reply: HubReply<Vec<ProfileResponse>>) -> (r: Result<
    Vec<ProfileResponse>,
    String,
>)
    ensures
        accepted("get profiles failed"@, reply, r),
{
    accept_reply("get profiles failed", reply)
}

/// Takes the reply to a search: the bytes of its body.
pub fn search_reply(reply: HubReply<Vec<u8>>) -> (r: Result<Vec<u8>, String>)
    ensures
        accepted("search failed"@, reply, r),
{
    accept_reply("search failed", reply)
}

/// Takes the reply to an approval check.
pub fn approval_reply(reply: HubReply<ApproveResponse>) -> (r: Result<ApproveResponse, String>)
    ensures
        accepted("approval check failed"@, reply, r),
{
    accept_reply("approval check failed", reply)
}

/// Polling ends with a decision, never with an approval that is still pending.
pub proof fn law_polling_ends_with_a_decision(timeout: u128, event: PollEvent)
    ensures
        poll_step(timeout, event) matches PollStepModel::Done(Ok(status)) ==> status
            != ApprovalStatus::Pending,
{
}

/// Polling ends with an approval only where the Hub replied, with success, that the
/// request is approved.
pub proof fn law_approval_comes_from_the_hub(timeout: u128, event: PollEvent)
    requires
        poll_step(timeout, event) == PollStepModel::Done(
            Ok::<ApprovalStatus, Seq<char>>(ApprovalStatus::Approved),
        ),
    ensures
        event matches PollEvent::Replied(reply) && success_status(reply.status) && reply.value
            == Ok::<ApprovalStatus, String>(ApprovalStatus::Approved),
{
}

/// Once the time is up, polling ends, and the approval counts as expired.
pub proof fn law_polling_expires(timeout: u128, elapsed: u128)
    requires
        elapsed >= timeout,
    ensures
        poll_step(timeout, PollEvent::Clock(elapsed)) == PollStepModel::Done(
            Ok::<ApprovalStatus, Seq<char>>(ApprovalStatus::Expired),
        ),
{
}

/// A login yields a token only where the Hub replied, with success, that it is authorized,
/// and then the token of that reply.
pub proof fn law_token_needs_authorization(reply: HubReply<DevicePoll>, token: Seq<char>)
    requires
        login_step(reply) == LoginStepModel::Done(Ok::<Seq<char>, Seq<char>>(token)),
    ensures
        success_status(reply.status),
        reply.value matches Ok(poll) && poll.status@ == "authorized"@
            && poll.access_token.deep_view() == Some(token),
{
}

/// The first reply that does not ask to wait decides a login.
proof fn lemma_login_decided_at(replies: Seq<HubReply<DevicePoll>>, i: int)
    requires
        0 <= i < replies.len(),
        forall|j: int| 0 <= j < i ==> login_step(#[trigger] replies[j]) is Wait,
        !(login_step(replies[i]) is Wait),
    ensures
        login_outcome(replies) == login_step(replies[i]),
    decreases i,
{
    if i > 0 {
        let rest = replies.drop_first();
        assert(login_step(replies[0]) is Wait);
        assert(rest[i - 1] == replies[i]);
        assert forall|j: int| 0 <= j < i - 1 implies login_step(#[trigger] rest[j]) is Wait by {
            assert(rest[j] == replies[j + 1]);
        }
        lemma_login_decided_at(rest, i - 1);
    }
}

/// A login that is over was decided by one of the replies, and went on until then.
proof fn lemma_login_was_decided(replies: Seq<HubReply<DevicePoll>>) -> (i: int)
    requires
        !(login_outcome(replies) is Wait),
    ensures
        0 <= i < replies.len(),
        login_step(replies[i]) == login_outcome(replies),
        forall|j: int| 0 <= j < i ==> login_step(#[trigger] replies[j]) is Wait,
    decreases replies.len(),
{
    if login_step(replies[0]) is Wait {
        let rest = replies.drop_first();
        let k = lemma_login_was_decided(rest);
        assert(rest[k] == replies[k + 1]);
        assert forall|j: int| 0 <= j < k + 1 implies login_step(#[trigger] replies[j]) is Wait by {
            if j > 0 {
                assert(rest[j - 1] == replies[j]);
            }
        }
        k + 1
    } else {
        0
    }
}

/// A login yields a token exactly where some reply authorizes it with that token, and all
/// earlier ones ask to wait.
pub proof fn law_login_yields_the_authorized_token(
    replies: Seq<HubReply<DevicePoll>>,
    token: Seq<char>,
)
    ensures
        login_outcome(replies) == LoginStepModel::Done(Ok::<Seq<char>, Seq<char>>(token))
            <==> exists|i: int|
            0 <= i < replies.len() && authorizes(#[trigger] replies[i], token) && forall|j: int|
                0 <= j < i ==> asks_to_wait(#[trigger] replies[j]),
{
    if login_outcome(replies) == LoginStepModel::Done(Ok::<Seq<char>, Seq<char>>(token)) {
        let i = lemma_login_was_decided(replies);
        assert(authorizes(replies[i], token));
        assert forall|j: int| 0 <= j < i implies asks_to_wait(#[trigger] replies[j]) by {
            assert(login_step(replies[j]) is Wait);
        }
    }
    if exists|i: int|
        0 <= i < replies.len() && authorizes(#[trigger] replies[i], token) && forall|j: int|
            0 <= j < i ==> asks_to_wait(#[trigger] replies[j]) {
        let i = choose|i: int|
            0 <= i < replies.len() && authorizes(#[trigger] replies[i], token) && forall|j: int|
                0 <= j < i ==> asks_to_wait(#[trigger] replies[j]);
        assert forall|j: int| 0 <= j < i implies login_step(#[trigger] replies[j]) is Wait by {
            assert(asks_to_wait(replies[j]));
        }
        lemma_login_decided_at(replies, i);
    }
}

/// A login goes on exactly as long as every reply asks to wait.
pub proof fn law_login_goes_on_while_asked_to_wait(replies: Seq<HubReply<DevicePoll>>)
    ensures
        login_outcome(replies) is Wait <==> forall|i: int|
            0 <= i < replies.len() ==> asks_to_wait(#[trigger] replies[i]),
    decreases replies.len(),
{
    if replies.len() > 0 {
        let rest = replies.drop_first();
        law_login_goes_on_while_asked_to_wait(rest);
        assert forall|i: int| 0 <= i < rest.len() implies #[trigger] rest[i] == replies[i + 1] by {}
        if login_outcome(replies) is Wait {
            assert forall|i: int| 0 <= i < replies.len() implies asks_to_wait(
                #[trigger] replies[i],
            ) by {
                if i > 0 {
                    assert(asks_to_wait(rest[i - 1]));
                }
            }
        } else if asks_to_wait(replies[0]) {
            let k = choose|k: int| 0 <= k < rest.len() && !asks_to_wait(#[trigger] rest[k]);
            assert(!asks_to_wait(replies[k + 1]));
        }
    }
}

/// Polling goes on after every event but the last.
proof fn lemma_poll_run_goes_on(timeout: u128, events: Seq<PollEvent>, i: int)
    requires
        poll_run(timeout, events),
        0 <= i < events.len() - 1,
    ensures
        goes_on(timeout, events[i]),
        step_after(timeout, events.take(i + 1)) == poll_step(timeout, events[i]),
{
    assert(events.take(i + 1).last() == events[i]);
    assert(answers(step_after(timeout, events.take(i + 1)), events[i + 1]));
}

/// Polling ends with a status exactly where that is the first status other than pending
/// that the Hub gave, or where the time is up and the status is expired; until then, every
/// look at the clock found time left and every reply was that the approval is pending.
pub proof fn law_polling_ends_with_the_first_decision(
    timeout: u128,
    events: Seq<PollEvent>,
    status: ApprovalStatus,
)
    requires
        poll_run(timeout, events),
    ensures
        step_after(timeout, events) == PollStepModel::Done(Ok::<ApprovalStatus, Seq<char>>(status))
            <==> {
            &&& events.len() > 0
            &&& match events.last() {
                PollEvent::Clock(elapsed) => elapsed >= timeout && status
                    == ApprovalStatus::Expired,
                PollEvent::Failed(_) => false,
                PollEvent::Replied(reply) => success_status(reply.status) && reply.value == Ok::<
                    ApprovalStatus,
                    String,
                >(status) && status != ApprovalStatus::Pending,
            }
        },
        forall|i: int| 0 <= i < events.len() - 1 ==> goes_on(timeout, #[trigger] events[i]),
{
    assert forall|i: int| 0 <= i < events.len() - 1 implies goes_on(
        timeout,
        #[trigger] events[i],
    ) by {
        lemma_poll_run_goes_on(timeout, events, i);
    }
}

/// The Hub is asked only right after a look at the clock that found time left. With no time
/// at all, it is never asked.
pub proof fn law_hub_is_asked_only_in_time(timeout: u128, events: Seq<PollEvent>, i: int)
    requires
        poll_run(timeout, events),
        0 <= i < events.len(),
    ensures
        !(events[i] is Clock) ==> i > 0 && (events[i - 1] matches PollEvent::Clock(elapsed)
            && elapsed < timeout),
        timeout == 0 ==> events[i] is Clock && events.len() == 1 && step_after(timeout, events)
            == PollStepModel::Done(Ok::<ApprovalStatus, Seq<char>>(ApprovalStatus::Expired)),
{
    assert(answers(step_after(timeout, events.take(i)), events[i]));
    if i > 0 {
        lemma_poll_run_goes_on(timeout, events, i - 1);
    }
    assert(answers(step_after(timeout, events.take(0)), events[0]));
    if events.len() > 1 {
        lemma_poll_run_goes_on(timeout, events, 0);
    }
}

/// A status tells of success exactly where it is one of the two hundreds.
pub proof fn law_success_is_a_status_in_the_two_hundreds(status: u16)
    ensures
        success_status(status) <==> status / 100 == 2,
{
}

/// What a successful reply was decoded to is taken as it is, the error of a failed decoding
/// included. Any other reply is an error that tells what failed, and quotes the body in full.
pub proof fn law_reply_is_taken_or_quoted<T>(
    failure: Seq<char>,
    reply: HubReply<T>,
    r: Result<T, String>,
)
    requires
        accepted(failure, reply, r),
    ensures
        reply.status / 100 == 2 ==> r == reply.value,
        reply.status / 100 != 2 ==> (r matches Err(message) && message@ == failure + ": "@ + (
        match reply.text {
            Some(body) => body@,
            None => Seq::empty(),
        })),
{
}

/// What each reply to the question for a login's outcome leads to.
pub proof fn law_login_reply_decides(reply: HubReply<DevicePoll>)
    ensures
        reply.status == 410 ==> login_step(reply) == LoginStepModel::Done(
            Err::<Seq<char>, Seq<char>>("device session expired — please try again"@),
        ),
        reply.status != 410 && reply.status / 100 != 2 ==> login_step(reply)
            == LoginStepModel::Done(
            Err::<Seq<char>, Seq<char>>(
                "poll failed: "@ + (match reply.text {
                    Some(body) => body@,
                    None => Seq::empty(),
                }),
            ),
        ),
        reply.status / 100 == 2 ==> match reply.value {
            Err(error) => login_step(reply) == LoginStepModel::Done(
                Err::<Seq<char>, Seq<char>>(error@),
            ),
            Ok(poll) => {
                &&& login_step(reply) is Wait <==> poll.status@ != "authorized"@
                &&& poll.status@ == "authorized"@ ==> login_step(reply) == LoginStepModel::Done(
                    match poll.access_token {
                        Some(token) => Ok(token@),
                        None => Err("authorized but no token returned"@),
                    },
                )
            },
        },
{
}

/// While there is time left, a look at the clock is followed by a question to the Hub, and
/// once the time is up, never.
pub proof fn law_time_left_means_asking(timeout: u128, elapsed: u128)
    ensures
        elapsed < timeout <==> poll_step(timeout, PollEvent::Clock(elapsed))
            == PollStepModel::SleepAndAsk,
        elapsed >= timeout <==> poll_step(timeout, PollEvent::Clock(elapsed)) is Done,
{
}

/// In every run of polling, a look at the clock that finds time left leads to a question to
/// the Hub, and a reply that the approval is pending leads to another look at the clock:
/// as long as there is time, the Hub is asked again.
pub proof fn law_polling_asks_again_while_there_is_time(
    timeout: u128,
    events: Seq<PollEvent>,
    i: int,
)
    requires
        poll_run(timeout, events),
        0 <= i < events.len(),
    ensures
        events[i] matches PollEvent::Clock(elapsed) && elapsed < timeout ==> {
            &&& i == events.len() - 1 ==> step_after(timeout, events) == PollStepModel::SleepAndAsk
            &&& i < events.len() - 1 ==> events[i + 1] is Replied || events[i + 1] is Failed
        },
        events[i] matches PollEvent::Replied(reply) && reply.status / 100 == 2 && reply.value
            == Ok::<ApprovalStatus, String>(ApprovalStatus::Pending) ==> {
            &&& i == events.len() - 1 ==> step_after(timeout, events) == PollStepModel::CheckClock
            &&& i < events.len() - 1 ==> events[i + 1] is Clock
        },
{
    if i < events.len() - 1 {
        assert(events.take(i + 1).last() == events[i]);
        assert(answers(step_after(timeout, events.take(i + 1)), events[i + 1]));
    }
}

/// What the end of a question to the Hub leads to: polling goes on only where the approval
/// is pending; any other status ends it as it is, and so does any failure.
pub proof fn law_poll_reply_decides(timeout: u128, reply: HubReply<ApprovalStatus>, error: String)
    ensures
        poll_step(timeout, PollEvent::Failed(error)) == PollStepModel::Done(
            Err::<ApprovalStatus, Seq<char>>(error@),
        ),
        reply.status / 100 != 2 ==> poll_step(timeout, PollEvent::Replied(reply))
            == PollStepModel::Done(
            Err::<ApprovalStatus, Seq<char>>(
                "poll approval failed: "@ + (match reply.text {
                    Some(body) => body@,
                    None => Seq::empty(),
                }),
            ),
        ),
        reply.status / 100 == 2 ==> match reply.value {
            Err(e) => poll_step(timeout, PollEvent::Replied(reply)) == PollStepModel::Done(
                Err::<ApprovalStatus, Seq<char>>(e@),
            ),
            Ok(status) => {
                &&& status == ApprovalStatus::Pending <==> poll_step(
                    timeout,
                    PollEvent::Replied(reply),
                ) == PollStepModel::CheckClock
                &&& status != ApprovalStatus::Pending <==> poll_step(
                    timeout,
                    PollEvent::Replied(reply),
                ) == PollStepModel::Done(Ok::<ApprovalStatus, Seq<char>>(status))
            },
        },
{
}

/// HTTP client for the Corevisor Hub.
#[derive(Debug)]
pub struct HubClient {
    pub hub_url: String,
    pub oauth_token: String,
}

impl Clone for HubClient {
    fn clone(&self) -> (r: Self)
        ensures
            r.hub_url@ == self.hub_url@,
            r.oauth_token@ == self.oauth_token@,
    {
        HubClient { hub_url: self.hub_url.clone(), oauth_token: self.oauth_token.clone() }
    }
}

impl HubClient {
    /// A client of the Hub at `hub_url`.
    pub fn new(hub_url: String, oauth_token: String) -> (r: Self)
        ensures
            r.hub_url == hub_url,
            r.oauth_token == oauth_token,
    {
        HubClient { hub_url, oauth_token }
    }

    /// The value of the `Authorization` header.
    pub open spec fn bearer(self) -> Seq<char> {
        "Bearer "@ + self.oauth_token@
    }

    /// The value of the `Authorization` header.
    pub fn auth_header(&self) -> (r: String)
        ensures
            r@ == self.bearer(),
    {
        let mut header = "Bearer ".to_string();
        header.append(self.oauth_token.as_str());
        header
    }

    /// An address below the Hub's.
    fn url(&self, path: &str) -> (r: String)
        ensures
            r@ == self.hub_url@ + path@,
    {
        let mut url = self.hub_url.clone();
        url.append(path);
        url
    }

    /// The request that opens a login. It carries no token: there is none yet.
    pub fn oauth_login(&self) -> (r: HubRequest)
        ensures
            r@ == (HubRequestModel {
                method: HubMethod::Post,
                url: self.hub_url@ + "/oauth/device"@,
                authorization: None,
            }),
    {
        HubRequest {
            method: HubMethod::Post,
            url: self.url("/oauth/device"),
            authorization: None,
        }
    }

    /// Goes from the reply to the request that opens a login to what the login needs.
    pub fn login_session(&self, reply: HubReply<DeviceSession>) -> (r: Result<
        LoginSession,
        String,
    >)
        ensures
            r is Ok <==> success_status(reply.status) && reply.value is Ok,
            r matches Err(message) ==> message@ == (if success_status(reply.status) {
                reply.value->Err_0@
            } else {
                "failed to create device session: "@ + body_text(reply.text)
            }),
            r matches Ok(login) ==> reply.value matches Ok(session) && {
                &&& login.login_url@ == self.hub_url@ + session.login_url@
                &&& login.user_code@ == session.user_code@
                &&& login.poll_interval == session.poll_interval
                &&& login.poll@ == (HubRequestModel {
                    method: HubMethod::Get,
                    url: self.hub_url@ + "/oauth/device/poll?session_id="@ + session.session_id@,
                    authorization: None,
                })
            },
    {
        match accept_reply("failed to create device session", reply) {
            Err(message) => {
                proof {
                    reveal_strlit("failed to create device session");
                    reveal_strlit(": ");
                    reveal_strlit("failed to create device session: ");
                    assert("failed to create device session"@ + ": "@
                        =~= "failed to create device session: "@);
                }
                Err(message)
            },
            Ok(session) => {
                let mut poll_url = self.url("/oauth/device/poll?session_id=");
                poll_url.append(session.session_id.as_str());
                Ok(
                    LoginSession {
                        login_url: self.url(session.login_url.as_str()),
                        user_code: session.user_code,
                        poll: HubRequest {
                            method: HubMethod::Get,
                            url: poll_url,
                            authorization: None,
                        },
                        poll_interval: session.poll_interval,
                    },
                )
            },
        }
    }

    /// The request for all profiles of the authenticated user.
    pub fn get_profiles(&self) -> (r: HubRequest)
        ensures
            r@ == (HubRequestModel {
                method: HubMethod::Get,
                url: self.hub_url@ + "/profiles"@,
                authorization: Some(self.bearer()),
            }),
    {
        HubRequest {
            method: HubMethod::Get,
            url: self.url("/profiles"),
            authorization: Some(self.auth_header()),
        }
    }

    /// The request that searches API endpoints in the Hub's registry, and its body.
    pub fn search_api_docs(&self, pattern: &str, domain: Option<&str>, slug: Option<&str>) -> (r: (
        HubRequest,
        SearchEndpointsRequest,
    ))
        ensures
            r.0@ == (HubRequestModel {
                method: HubMethod::Post,
                url: self.hub_url@ + "/registry/search/endpoints"@,
                authorization: Some(self.bearer()),
            }),
            r.1@ == (SearchEndpointsModel {
                pattern: pattern@,
                domain: domain.deep_view(),
                slug: slug.deep_view(),
                mode: None,
            }),
    {
        (
            HubRequest {
                method: HubMethod::Post,
                url: self.url("/registry/search/endpoints"),
                authorization: Some(self.auth_header()),
            },
            SearchEndpointsRequest {
                pattern: pattern.to_string(),
                domain: types::to_owned_option(domain),
                slug: types::to_owned_option(slug),
                mode: None,
            },
        )
    }

    /// The request that asks whether an outbound request is approved, and its body.
    pub fn check_approval(
        &self,
        profile_id: &str,
        domain: &str,
        method: &str,
        path: &str,
        context: Option<&str>,
    ) -> (r: (HubRequest, ApproveCheckRequest))
        ensures
            r.0@ == (HubRequestModel {
                method: HubMethod::Post,
                url: self.hub_url@ + "/profiles/"@ + profile_id@ + "/approve"@,
                authorization: Some(self.bearer()),
            }),
            r.1@ == (ApproveCheckModel {
                domain: domain@,
                method: method@,
                path: path@,
                context: context.deep_view(),
            }),
    {
        let mut url = self.url("/profiles/");
        url.append(profile_id);
        url.append("/approve");
        (
            HubRequest {
                method: HubMethod::Post,
                url,
                authorization: Some(self.auth_header()),
            },
            ApproveCheckRequest {
                domain: domain.to_string(),
                method: method.to_string(),
                path: path.to_string(),
                context: types::to_owned_option(context),
            },
        )
    }

    /// The request that polls for an approval decision.
    pub fn poll_approval(&self, profile_id: &str, approval_id: &str) -> (r: HubRequest)
        ensures
            r@ == (HubRequestModel {
                method: HubMethod::Get,
                url: self.hub_url@ + "/profiles/"@ + profile_id@ + "/approvals/"@ + approval_id@,
                authorization: Some(self.bearer()),
            }),
    {
        let mut url = self.url("/profiles/");
        url.append(profile_id);
        url.append("/approvals/");
        url.append(approval_id);
        HubRequest {
            method: HubMethod::Get,
            url,
            authorization: Some(self.auth_header()),
        }
    }
}

/// The Hub is shown the whole token, and nothing but the token, after the word that says
/// what it is.
pub proof fn law_authorization_is_the_token(client: HubClient)
    ensures
        client.bearer() == seq!['B', 'e', 'a', 'r', 'e', 'r', ' '] + client.oauth_token@,
{
    reveal_strlit("Bearer ");
    assert("Bearer "@ == seq!['B', 'e', 'a', 'r', 'e', 'r', ' ']);
}

/// Two profiles have the same model only where they have the same id and name.
pub proof fn law_profile_model_leaves_nothing_out(a: ProfileResponse, b: ProfileResponse)
    ensures
        a.deep_view() == b.deep_view() <==> a.id@ == b.id@ && a.name@ == b.name@,
{
}

/// Steps are modelled with their outcomes in full.
pub proof fn law_step_models_leave_nothing_out(login: LoginStep, poll: PollStep)
    ensures
        login is Wait <==> login@ is Wait,
        login matches LoginStep::Done(Ok(token)) ==> login@ == LoginStepModel::Done(
            Ok::<Seq<char>, Seq<char>>(token@),
        ),
        login matches LoginStep::Done(Err(error)) ==> login@ == LoginStepModel::Done(
            Err::<Seq<char>, Seq<char>>(error@),
        ),
        poll is SleepAndAsk <==> poll@ is SleepAndAsk,
        poll is CheckClock <==> poll@ is CheckClock,
        poll matches PollStep::Done(Ok(status)) ==> poll@ == PollStepModel::Done(
            Ok::<ApprovalStatus, Seq<char>>(status),
        ),
        poll matches PollStep::Done(Err(error)) ==> poll@ == PollStepModel::Done(
            Err::<ApprovalStatus, Seq<char>>(error@),
        ),
{
}

/// The Hub is polled thirty times a minute.
pub proof fn law_poll_interval()
    ensures
        POLL_INTERVAL_SECS * 30 == 60,
{
}

} // verus!
