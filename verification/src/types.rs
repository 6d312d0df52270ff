//! Types that the command line tool shares with the Hub.
//!
//! Each type with text in it has a model of the same shape over character sequences;
//! the contracts of this crate speak of the models.

use vstd::prelude::*;
use vstd::string::*;
use crate::text::str_eq;

verus! {

/// The model of a result: of its value, or of its error.
pub open spec fn result_model<T: DeepView, E: DeepView>(r: Result<T, E>) -> Result<T::V, E::V> {
    match r {
        Ok(value) => Ok(value.deep_view()),
        Err(error) => Err(error.deep_view()),
    }
}

/// Copies an optional text.
pub fn clone_option(text: &Option<String>) -> (r: Option<String>)
    ensures
        r == *text,
{
    match text {
        Some(t) => Some(t.clone()),
        None => None,
    }
}

/// Makes an owned copy of an optional text.
pub fn to_owned_option(text: Option<&str>) -> (r: Option<String>)
    ensures
        r.deep_view() == text.deep_view(),
{
    broadcast use vstd::string::group_string_axioms;

    match text {
        Some(t) => Some(t.to_string()),
        None => None,
    }
}

/// An API domain that a profile may reach, and the header that carries its credential.
#[derive(Debug)]
pub struct ServiceConfig {
    pub domain: String,
    pub catalog_id: Option<i64>,
    pub header_name: String,
}

/// The model of a [`ServiceConfig`].
#[verifier::ext_equal]
pub struct ServiceModel {
    pub domain: Seq<char>,
    pub catalog_id: Option<i64>,
    pub header_name: Seq<char>,
}

impl View for ServiceConfig {
    type V = ServiceModel;

    open spec fn view(&self) -> ServiceModel {
        ServiceModel {
            domain: self.domain@,
            catalog_id: self.catalog_id,
            header_name: self.header_name@,
        }
    }
}

impl DeepView for ServiceConfig {
    type V = ServiceModel;

    open spec fn deep_view(&self) -> ServiceModel {
        self.view()
    }
}

impl Clone for ServiceConfig {
    fn clone(&self) -> (r: Self)
        ensures
            r@ == self@,
    {
        ServiceConfig {
            domain: self.domain.clone(),
            catalog_id: self.catalog_id,
            header_name: self.header_name.clone(),
        }
    }
}

/// A credential of the local store: the header value for one domain of one profile.
#[derive(Debug)]
pub struct CredentialEntry {
    pub profile_id: String,
    pub domain: String,
    pub header_name: String,
    pub header_value: String,
}

/// The model of a [`CredentialEntry`].
#[verifier::ext_equal]
pub struct CredentialModel {
    pub profile_id: Seq<char>,
    pub domain: Seq<char>,
    pub header_name: Seq<char>,
    pub header_value: Seq<char>,
}

impl View for CredentialEntry {
    type V = CredentialModel;

    open spec fn view(&self) -> CredentialModel {
        CredentialModel {
            profile_id: self.profile_id@,
            domain: self.domain@,
            header_name: self.header_name@,
            header_value: self.header_value@,
        }
    }
}

impl DeepView for CredentialEntry {
    type V = CredentialModel;

    open spec fn deep_view(&self) -> CredentialModel {
        self.view()
    }
}

impl Clone for CredentialEntry {
    fn clone(&self) -> (r: Self)
        ensures
            r@ == self@,
    {
        CredentialEntry {
            profile_id: self.profile_id.clone(),
            domain: self.domain.clone(),
            header_name: self.header_name.clone(),
            header_value: self.header_value.clone(),
        }
    }
}

/// Action a rule can specify. Defaults to `Allow`.
#[derive(Debug, Clone, Copy, PartialEq, Eq, Structural)]
pub enum RuleAction {
    Allow,
    Deny,
    RequireApproval,
}

impl DeepView for RuleAction {
    type V = RuleAction;

    open spec fn deep_view(&self) -> RuleAction {
        *self
    }
}

impl Default for RuleAction {
    fn default() -> (r: Self)
        ensures
            r == RuleAction::Allow,
    {
        RuleAction::Allow
    }
}

impl RuleAction {
    /// The name of the action on the wire.
    pub open spec fn name(self) -> Seq<char> {
        match self {
            RuleAction::Allow => "allow"@,
            RuleAction::Deny => "deny"@,
            RuleAction::RequireApproval => "require_approval"@,
        }
    }

    /// The name of the action on the wire.
    pub fn as_str(&self) -> (r: &'static str)
        ensures
            r@ == self.name(),
    {
        match self {
            RuleAction::Allow => "allow",
            RuleAction::Deny => "deny",
            RuleAction::RequireApproval => "require_approval",
        }
    }

    /// The action as shown to people: its name.
    pub fn to_string(&self) -> (r: String)
        ensures
            r@ == self.name(),
    {
        broadcast use vstd::string::group_string_axioms;

        self.as_str().to_string()
    }

    /// The action with the name `s`; an error that quotes `s` where there is none.
    pub fn from_str(s: &str) -> (r: Result<Self, String>)
        ensures
            forall|action: RuleAction| #[trigger] action.name() == s@ ==> r == Ok::<RuleAction, String>(action),
            r matches Ok(action) ==> action.name() == s@,
            r matches Err(message) ==> message@ == "invalid rule action: "@ + s@,
    {
        broadcast use vstd::string::group_string_axioms;

        assert forall|x: RuleAction, y: RuleAction| #[trigger] x.name() == #[trigger] y.name() implies x == y by {
            law_rule_action_name_identifies(x, y);
        }
        let r = if str_eq(s, "allow") {
            Ok(RuleAction::Allow)
        } else if str_eq(s, "deny") {
            Ok(RuleAction::Deny)
        } else if str_eq(s, "require_approval") {
            Ok(RuleAction::RequireApproval)
        } else {
            let mut message = "invalid rule action: ".to_string();
            message.append(s);
            Err(message)
        };
        assert(r matches Ok(found) ==> found.name() == s@);
        r
    }
}

impl std::str::FromStr for RuleAction {
    type Err = String;

    fn from_str(s: &str) -> (r: Result<Self, String>)
        ensures
            forall|action: RuleAction| #[trigger] action.name() == s@ ==> r == Ok::<RuleAction, String>(action),
            r matches Ok(action) ==> action.name() == s@,
            r matches Err(message) ==> message@ == "invalid rule action: "@ + s@,
    {
        RuleAction::from_str(s)
    }
}

/// Different actions have different names.
pub proof fn law_rule_action_name_identifies(a: RuleAction, b: RuleAction)
    ensures
        a.name() == b.name() ==> a == b,
{
    reveal_strlit("allow");
    reveal_strlit("deny");
    reveal_strlit("require_approval");
    assert(a.name().len() != b.name().len() || a == b);
}

/// What the Hub calls each action.
pub proof fn law_rule_action_names()
    ensures
        forall|action: RuleAction| #[trigger] action.name() == "allow"@ <==> action
            == RuleAction::Allow,
        forall|action: RuleAction| #[trigger] action.name() == "deny"@ <==> action
            == RuleAction::Deny,
        forall|action: RuleAction| #[trigger] action.name() == "require_approval"@ <==> action
            == RuleAction::RequireApproval,
{
    reveal_strlit("allow");
    reveal_strlit("deny");
    reveal_strlit("require_approval");
    assert(RuleAction::Allow.name().len() == 5);
    assert(RuleAction::Deny.name().len() == 4);
    assert(RuleAction::RequireApproval.name().len() == 16);
}

/// Status of a pending approval request.
#[derive(Debug, Clone, Copy, PartialEq, Eq, Structural)]
pub enum ApprovalStatus {
    Pending,
    Approved,
    Denied,
    Expired,
}

impl DeepView for ApprovalStatus {
    type V = ApprovalStatus;

    open spec fn deep_view(&self) -> ApprovalStatus {
        *self
    }
}

impl ApprovalStatus {
    /// The name of the status on the wire.
    pub open spec fn name(self) -> Seq<char> {
        match self {
            ApprovalStatus::Pending => "pending"@,
            ApprovalStatus::Approved => "approved"@,
            ApprovalStatus::Denied => "denied"@,
            ApprovalStatus::Expired => "expired"@,
        }
    }

    /// The name of the status on the wire.
    pub fn as_str(&self) -> (r: &'static str)
        ensures
            r@ == self.name(),
    {
        match self {
            ApprovalStatus::Pending => "pending",
            ApprovalStatus::Approved => "approved",
            ApprovalStatus::Denied => "denied",
            ApprovalStatus::Expired => "expired",
        }
    }

    /// The status as shown to people: its name.
    pub fn to_string(&self) -> (r: String)
        ensures
            r@ == self.name(),
    {
        broadcast use vstd::string::group_string_axioms;

        self.as_str().to_string()
    }

    /// The status with the name `s`; an error that quotes `s` where there is none.
    pub fn from_str(s: &str) -> (r: Result<Self, String>)
        ensures
            forall|status: ApprovalStatus| #[trigger] status.name() == s@ ==> r == Ok::<ApprovalStatus, String>(status),
            r matches Ok(status) ==> status.name() == s@,
            r matches Err(message) ==> message@ == "invalid approval status: "@ + s@,
    {
        broadcast use vstd::string::group_string_axioms;

        assert forall|x: ApprovalStatus, y: ApprovalStatus| #[trigger] x.name() == #[trigger] y.name() implies x == y by {
            law_approval_status_name_identifies(x, y);
        }
        let r = if str_eq(s, "pending") {
            Ok(ApprovalStatus::Pending)
        } else if str_eq(s, "approved") {
            Ok(ApprovalStatus::Approved)
        } else if str_eq(s, "denied") {
            Ok(ApprovalStatus::Denied)
        } else if str_eq(s, "expired") {
            Ok(ApprovalStatus::Expired)
        } else {
            let mut message = "invalid approval status: ".to_string();
            message.append(s);
            Err(message)
        };
        assert(r matches Ok(found) ==> found.name() == s@);
        r
    }
}

impl std::str::FromStr for ApprovalStatus {
    type Err = String;

    fn from_str(s: &str) -> (r: Result<Self, String>)
        ensures
            forall|status: ApprovalStatus| #[trigger] status.name() == s@ ==> r == Ok::<ApprovalStatus, String>(status),
            r matches Ok(status) ==> status.name() == s@,
            r matches Err(message) ==> message@ == "invalid approval status: "@ + s@,
    {
        ApprovalStatus::from_str(s)
    }
}

/// Different statuses have different names.
pub proof fn law_approval_status_name_identifies(a: ApprovalStatus, b: ApprovalStatus)
    ensures
        a.name() == b.name() ==> a == b,
{
    reveal_strlit("pending");
    reveal_strlit("approved");
    reveal_strlit("denied");
    reveal_strlit("expired");
    assert(a.name()[0] != b.name()[0] || a.name().len() != b.name().len() || a == b);
}

/// What the Hub calls each status.
pub proof fn law_approval_status_names()
    ensures
        forall|status: ApprovalStatus| #[trigger] status.name() == "pending"@ <==> status
            == ApprovalStatus::Pending,
        forall|status: ApprovalStatus| #[trigger] status.name() == "approved"@ <==> status
            == ApprovalStatus::Approved,
        forall|status: ApprovalStatus| #[trigger] status.name() == "denied"@ <==> status
            == ApprovalStatus::Denied,
        forall|status: ApprovalStatus| #[trigger] status.name() == "expired"@ <==> status
            == ApprovalStatus::Expired,
{
    let (pending, approved, denied, expired) = (
        ApprovalStatus::Pending,
        ApprovalStatus::Approved,
        ApprovalStatus::Denied,
        ApprovalStatus::Expired,
    );
    assert(pending.name() == "pending"@ && approved.name() == "approved"@ && denied.name()
        == "denied"@ && expired.name() == "expired"@);
    assert forall|x: ApprovalStatus, y: ApprovalStatus| #[trigger] x.name()
        == #[trigger] y.name() implies x == y by {
        law_approval_status_name_identifies(x, y);
    }
}

/// Request body sent to the Hub to check whether a request is approved.
#[derive(Debug)]
pub struct ApproveCheckRequest {
    pub domain: String,
    pub method: String,
    pub path: String,
    pub context: Option<String>,
}

/// The model of an [`ApproveCheckRequest`].
#[verifier::ext_equal]
pub struct ApproveCheckModel {
    pub domain: Seq<char>,
    pub method: Seq<char>,
    pub path: Seq<char>,
    pub context: Option<Seq<char>>,
}

impl View for ApproveCheckRequest {
    type V = ApproveCheckModel;

    open spec fn view(&self) -> ApproveCheckModel {
        ApproveCheckModel {
            domain: self.domain@,
            method: self.method@,
            path: self.path@,
            context: self.context.deep_view(),
        }
    }
}

impl Clone for ApproveCheckRequest {
    fn clone(&self) -> (r: Self)
        ensures
            r@ == self@,
    {
        ApproveCheckRequest {
            domain: self.domain.clone(),
            method: self.method.clone(),
            path: self.path.clone(),
            context: clone_option(&self.context),
        }
    }
}

/// Response from the Hub's approval check endpoint.
#[derive(Debug)]
pub struct ApproveResponse {
    pub action: RuleAction,
    pub approval_id: Option<String>,
    pub expires_at: Option<String>,
}

/// The model of an [`ApproveResponse`].
#[verifier::ext_equal]
pub struct ApproveModel {
    pub action: RuleAction,
    pub approval_id: Option<Seq<char>>,
    pub expires_at: Option<Seq<char>>,
}

impl View for ApproveResponse {
    type V = ApproveModel;

    open spec fn view(&self) -> ApproveModel {
        ApproveModel {
            action: self.action,
            approval_id: self.approval_id.deep_view(),
            expires_at: self.expires_at.deep_view(),
        }
    }
}

impl DeepView for ApproveResponse {
    type V = ApproveModel;

    open spec fn deep_view(&self) -> ApproveModel {
        self.view()
    }
}

impl Clone for ApproveResponse {
    fn clone(&self) -> (r: Self)
        ensures
            r@ == self@,
    {
        ApproveResponse {
            action: self.action,
            approval_id: clone_option(&self.approval_id),
            expires_at: clone_option(&self.expires_at),
        }
    }
}

/// Request body for searching API endpoint documentation.
#[derive(Debug)]
pub struct SearchEndpointsRequest {
    pub pattern: String,
    pub domain: Option<String>,
    pub slug: Option<String>,
    pub mode: Option<String>,
}

/// The model of a [`SearchEndpointsRequest`].
#[verifier::ext_equal]
pub struct SearchEndpointsModel {
    pub pattern: Seq<char>,
    pub domain: Option<Seq<char>>,
    pub slug: Option<Seq<char>>,
    pub mode: Option<Seq<char>>,
}

impl View for SearchEndpointsRequest {
    type V = SearchEndpointsModel;

    open spec fn view(&self) -> SearchEndpointsModel {
        SearchEndpointsModel {
            pattern: self.pattern@,
            domain: self.domain.deep_view(),
            slug: self.slug.deep_view(),
            mode: self.mode.deep_view(),
        }
    }
}

impl Clone for SearchEndpointsRequest {
    fn clone(&self) -> (r: Self)
        ensures
            r@ == self@,
    {
        SearchEndpointsRequest {
            pattern: self.pattern.clone(),
            domain: clone_option(&self.domain),
            slug: clone_option(&self.slug),
            mode: clone_option(&self.mode),
        }
    }
}

/// The models of what the rules work on leave nothing out: two values have the same model
/// exactly where they have the same texts and numbers.
pub proof fn law_models_leave_nothing_out(
    services: (ServiceConfig, ServiceConfig),
    credentials: (CredentialEntry, CredentialEntry),
    answers: (ApproveResponse, ApproveResponse),
)
    ensures
        services.0.deep_view() == services.1.deep_view() <==> {
            &&& services.0.domain@ == services.1.domain@
            &&& services.0.catalog_id == services.1.catalog_id
            &&& services.0.header_name@ == services.1.header_name@
        },
        credentials.0.deep_view() == credentials.1.deep_view() <==> {
            &&& credentials.0.profile_id@ == credentials.1.profile_id@
            &&& credentials.0.domain@ == credentials.1.domain@
            &&& credentials.0.header_name@ == credentials.1.header_name@
            &&& credentials.0.header_value@ == credentials.1.header_value@
        },
        answers.0.deep_view() == answers.1.deep_view() <==> {
            &&& answers.0.action == answers.1.action
            &&& answers.0.approval_id.deep_view() == answers.1.approval_id.deep_view()
            &&& answers.0.expires_at.deep_view() == answers.1.expires_at.deep_view()
        },
{
}

/// A result is modelled by its value or by its error, whichever it holds.
pub proof fn law_result_model_is_of_what_it_holds<T: DeepView, E: DeepView>(r: Result<T, E>)
    ensures
        r matches Ok(value) ==> result_model(r) == Ok::<T::V, E::V>(value.deep_view()),
        r matches Err(error) ==> result_model(r) == Err::<T::V, E::V>(error.deep_view()),
{
}

} // verus!
