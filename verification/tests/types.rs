//! Names of actions and statuses.

use corevisor::types::{ApprovalStatus, RuleAction};

#[test]
fn rule_action_names_round_trip() {
    for action in [RuleAction::Allow, RuleAction::Deny, RuleAction::RequireApproval] {
        assert_eq!(RuleAction::from_str(action.as_str()), Ok(action));
        assert_eq!(action.as_str().parse::<RuleAction>(), Ok(action));
        assert_eq!(action.to_string(), action.as_str());
    }
    assert_eq!(RuleAction::RequireApproval.as_str(), "require_approval");
}

#[test]
fn rule_action_rejects_other_names() {
    assert_eq!(
        RuleAction::from_str("Allow"),
        Err("invalid rule action: Allow".to_string())
    );
    assert_eq!(
        "".parse::<RuleAction>(),
        Err("invalid rule action: ".to_string())
    );
}

#[test]
fn rule_action_defaults_to_allow() {
    assert_eq!(RuleAction::default(), RuleAction::Allow);
}

#[test]
fn approval_status_names_round_trip() {
    for status in [
        ApprovalStatus::Pending,
        ApprovalStatus::Approved,
        ApprovalStatus::Denied,
        ApprovalStatus::Expired,
    ] {
        assert_eq!(ApprovalStatus::from_str(status.as_str()), Ok(status));
        assert_eq!(status.as_str().parse::<ApprovalStatus>(), Ok(status));
        assert_eq!(status.to_string(), status.as_str());
    }
    assert_eq!(ApprovalStatus::Pending.as_str(), "pending");
}

#[test]
fn approval_status_rejects_other_names() {
    assert_eq!(
        ApprovalStatus::from_str("approve"),
        Err("invalid approval status: approve".to_string())
    );
}
