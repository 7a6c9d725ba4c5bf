//! Deterministic disconnect tests. Every command the disconnection asks for is answered
//! from a list of replies; these tests never invoke nmcli.

use openvpn_profiles::disconnect::{DisconnectAction, DisconnectError, Disconnection};
use std::collections::VecDeque;
use uuid::Uuid;

const VPN: &str = "11111111-1111-4111-8111-111111111111";
const WIFI: &str = "22222222-2222-4222-8222-222222222222";
const OTHER_VPN: &str = "33333333-3333-4333-8333-333333333333";

fn query() -> Vec<String> {
    ["-g", "UUID", "connection", "show", "--active"]
        .map(str::to_owned)
        .to_vec()
}

fn down() -> Vec<String> {
    ["--wait", "15", "connection", "down", "uuid", VPN]
        .map(str::to_owned)
        .to_vec()
}

fn disconnect_with_replies(
    replies: impl IntoIterator<Item = Result<String, String>>,
) -> (Result<(), DisconnectError>, Vec<Vec<String>>) {
    let mut replies: VecDeque<_> = replies.into_iter().collect();
    let mut commands = Vec::new();
    let (mut machine, mut action) = Disconnection::start(Uuid::parse_str(VPN).unwrap().as_u128());
    let result = loop {
        let command = match action {
            DisconnectAction::Run(command) | DisconnectAction::PauseThenRun(command) => command,
            DisconnectAction::Finish(result) => break result,
        };
        assert!(command.limit > 0 && command.limit <= 20, "each command must be bounded");
        commands.push(command.args.clone());
        let reply = replies.pop_front().expect("unexpected extra nmcli command");
        action = machine.advance(reply, false);
    };
    assert!(
        replies.is_empty(),
        "disconnect returned before verification"
    );
    (result, commands)
}

#[test]
fn already_inactive_disconnect_only_queries_active_connections() {
    for active in [String::new(), format!("{WIFI}\n{OTHER_VPN}\n")] {
        let (result, commands) = disconnect_with_replies([Ok(active)]);
        result.unwrap();
        assert_eq!(commands, [query()]);
    }
}

#[test]
fn disconnect_targets_exact_vpn_and_is_idempotent() {
    let remaining = format!("{WIFI}\n{OTHER_VPN}\n");
    let (result, commands) = disconnect_with_replies([
        Ok(format!("{WIFI}\n{VPN}\n{OTHER_VPN}\n")),
        Ok("Connection successfully deactivated".into()),
        Ok(remaining.clone()),
    ]);
    result.unwrap();
    // The only mutation targets this VPN's exact UUID. Wi-Fi and another VPN
    // remain in the active listing and must never receive a down/delete call.
    assert_eq!(commands, [query(), down(), query()]);

    let (result, commands) = disconnect_with_replies([Ok(remaining)]);
    result.unwrap();
    assert_eq!(commands, [query()]);
}

#[test]
fn active_listing_requires_a_complete_uuid_line() {
    let (result, commands) =
        disconnect_with_replies([Ok(format!("{WIFI}\n{VPN}0\nprefix-{VPN}\n"))]);
    result.unwrap();
    assert_eq!(commands, [query()]);
}

#[test]
fn successful_down_waits_until_the_vpn_disappears() {
    let still_active = format!("{VPN}\n{WIFI}");
    let (result, commands) = disconnect_with_replies([
        Ok(still_active.clone()),
        Ok(String::new()),
        Ok(still_active),
        Ok(WIFI.into()),
    ]);
    result.unwrap();
    // A successful command alone is insufficient; deactivation can lag behind.
    assert_eq!(commands, [query(), down(), query(), query()]);
}

#[test]
fn failed_down_with_vpn_still_active_returns_the_failure() {
    let active = format!("{VPN}\n{WIFI}");
    let (result, commands) = disconnect_with_replies([
        Ok(active.clone()),
        Err("permission denied for test VPN".into()),
        Ok(active),
    ]);
    let error = result.unwrap_err().message();
    assert!(error.contains("permission denied for test VPN"), "{error}");
    assert_eq!(commands, [query(), down(), query()]);
}

#[test]
fn concurrent_deactivation_is_success_even_if_down_reports_an_error() {
    let (result, commands) = disconnect_with_replies([
        Ok(format!("{VPN}\n{WIFI}")),
        Err("connection is not active".into()),
        Ok(WIFI.into()),
    ]);
    result.unwrap();
    assert_eq!(commands, [query(), down(), query()]);
}

#[test]
fn failed_initial_active_query_never_attempts_a_mutation() {
    let (result, commands) =
        disconnect_with_replies([Err("NetworkManager is unavailable".into())]);
    assert!(
        result
            .unwrap_err()
            .message()
            .contains("NetworkManager is unavailable")
    );
    assert_eq!(commands, [query()]);
}

#[test]
fn failed_verification_is_not_reported_as_success() {
    let (result, commands) = disconnect_with_replies([
        Ok(format!("{VPN}\n{WIFI}")),
        Ok(String::new()),
        Err("active connection query timed out".into()),
    ]);
    assert!(
        result
            .unwrap_err()
            .message()
            .contains("active connection query timed out")
    );
    assert_eq!(commands, [query(), down(), query()]);
}

#[test]
fn still_active_after_the_deadline_is_reported() {
    let vpn = Uuid::parse_str(VPN).unwrap().as_u128();
    let (mut machine, _) = Disconnection::start(vpn);
    let active = format!("{VPN}\n{WIFI}");
    assert!(matches!(machine.advance(Ok(active.clone()), false), DisconnectAction::Run(_)));
    assert!(matches!(machine.advance(Ok(String::new()), false), DisconnectAction::Run(_)));
    assert!(matches!(machine.advance(Ok(active.clone()), false), DisconnectAction::PauseThenRun(_)));
    match machine.advance(Ok(active), true) {
        DisconnectAction::Finish(Err(error)) => {
            assert_eq!(error, DisconnectError::StillActive);
            assert_eq!(error.message(), "The VPN is still active. Try Disconnect again.");
        }
        _ => panic!("expected the still-active failure"),
    }
}

#[test]
fn down_failure_message_keeps_its_context() {
    let error = DisconnectError::Down("permission denied".into());
    assert_eq!(
        error.message(),
        "NetworkManager could not disconnect the VPN: permission denied"
    );
}
