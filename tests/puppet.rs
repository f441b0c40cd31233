use chat_relay::chat_service::discord_author;
use chat_relay::puppet::{
    is_bridge_account, persona_display, puppet_localpart, ProvisionAction, ProvisionStatus, PuppetRegistry, StepOutcome,
};

fn user_names() -> (String, String, String) {
    ("_discord_42".to_owned(), "ann (ann#0001)".to_owned(), "!room:example.org".to_owned())
}

#[test]
fn persona_display_joins_name_and_tag() {
    let u = discord_author("42".to_owned(), "ann#0001".to_owned(), "ann".to_owned(), None, None);
    assert_eq!(persona_display(&u), "ann (ann#0001)");
}

#[test]
fn puppet_localpart_is_prefix_and_id() {
    assert_eq!(puppet_localpart("_discord_", "42"), "_discord_42");
}

#[test]
fn provisioning_walks_register_join_sync() {
    let mut reg = PuppetRegistry::new();
    let (lp, display, room) = user_names();
    assert!(matches!(reg.next_action(&lp, &display, &room), ProvisionAction::Register));
    let st = reg.record_outcome(&lp, &display, &room, ProvisionAction::Register, StepOutcome::AlreadyDone);
    assert!(matches!(st, ProvisionStatus::Continue));
    assert!(matches!(reg.next_action(&lp, &display, &room), ProvisionAction::JoinRoom));
    let st = reg.record_outcome(&lp, &display, &room, ProvisionAction::JoinRoom, StepOutcome::Done);
    assert!(matches!(st, ProvisionStatus::Continue));
    assert!(matches!(reg.next_action(&lp, &display, &room), ProvisionAction::SyncDisplay));
    let st = reg.record_outcome(&lp, &display, &room, ProvisionAction::SyncDisplay, StepOutcome::Done);
    assert!(matches!(st, ProvisionStatus::Continue));
    assert!(matches!(reg.next_action(&lp, &display, &room), ProvisionAction::Ready));
    let renamed = "annie (ann#0001)".to_owned();
    assert!(matches!(reg.next_action(&lp, &renamed, &room), ProvisionAction::SyncDisplay));
    let other_room = "!other:example.org".to_owned();
    assert!(matches!(reg.next_action(&lp, &display, &other_room), ProvisionAction::JoinRoom));
}

#[test]
fn provisioning_failures() {
    let mut reg = PuppetRegistry::new();
    let (lp, display, room) = user_names();
    let st = reg.record_outcome(&lp, &display, &room, ProvisionAction::Register, StepOutcome::Failed);
    assert!(matches!(st, ProvisionStatus::Abort));
    assert!(matches!(reg.next_action(&lp, &display, &room), ProvisionAction::Register));
    reg.record_outcome(&lp, &display, &room, ProvisionAction::Register, StepOutcome::Done);
    reg.record_outcome(&lp, &display, &room, ProvisionAction::JoinRoom, StepOutcome::Done);
    let st = reg.record_outcome(&lp, &display, &room, ProvisionAction::SyncDisplay, StepOutcome::Failed);
    assert!(matches!(st, ProvisionStatus::SendUnrefined));
    assert!(matches!(reg.next_action(&lp, &display, &room), ProvisionAction::SyncDisplay));
    let other_room = "!other:example.org".to_owned();
    let st = reg.record_outcome(&lp, &display, &other_room, ProvisionAction::JoinRoom, StepOutcome::Failed);
    assert!(matches!(st, ProvisionStatus::SendUnrefined));
    assert!(matches!(reg.next_action(&lp, &display, &other_room), ProvisionAction::JoinRoom));
}

#[test]
fn bridge_accounts_are_recognized() {
    assert!(is_bridge_account("_discord_42", "_discord_"));
    assert!(is_bridge_account("_discord_", "_discord_"));
    assert!(!is_bridge_account("alice", "_discord_"));
    assert!(!is_bridge_account("_disc", "_discord_"));
}
