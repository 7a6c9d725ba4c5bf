use openvpn_profiles::cleanup::{active_connections, cleanup_outcome, connection_name, failure_line, nothing_to_release};
use openvpn_profiles::commands::{activate, import_config, list_active, name_connection, set_username};
use openvpn_profiles::monitor::{Monitor, running_status, shutdown_failure};
use openvpn_profiles::nmcli::{ConnectionState, command_outcome, parse_active_uuids, parse_import_uuid, parse_status};
use openvpn_profiles::profile::{Profile, Profiles};
use openvpn_profiles::screen::{VpnEvent, VpnRequest};
use openvpn_profiles::session::{connect_outcome, connect_start, is_inactive, lists_connection, removal_check, ConnectError};
use openvpn_profiles::worker::{
    Ending, after_look, after_request, connecting_event, disconnected_events, disconnecting_event, ending_of,
    look_command, look_outcome, request_taken,
};
use openvpn_profiles::disconnect::{DisconnectError, Disconnection};
use uuid::Uuid;

fn check_import_uuid_is_exact() {
    let id = Uuid::new_v4();
    assert_eq!(
        parse_import_uuid(&format!("Connection 'DFKI' ({id}) successfully added.")).unwrap(),
        id.as_u128()
    );
    assert!(parse_import_uuid("Connection failed").is_none());
    assert_eq!(
        parse_import_uuid(&format!(
            "Connection '{}' ({id}) successfully added.",
            Uuid::new_v4()
        ))
        .unwrap(),
        id.as_u128()
    );
}

fn check_only_activated_state_is_connected() {
    assert_eq!(
        parse_status("activated\n10.8.0.6/24"),
        (ConnectionState::Connected, "10.8.0.6".into())
    );
    assert_eq!(
        parse_status("activating\n10.8.0.6/24"),
        (ConnectionState::Connecting, String::new())
    );
    assert_eq!(parse_status(""), (ConnectionState::Idle, String::new()));
}

#[test]
fn backend_import_uuid_is_exact() {
    check_import_uuid_is_exact();
}

#[test]
fn mod_import_uuid_is_exact() {
    check_import_uuid_is_exact();
}

#[test]
fn backend_only_activated_state_is_connected() {
    check_only_activated_state_is_connected();
}

#[test]
fn mod_only_activated_state_is_connected() {
    check_only_activated_state_is_connected();
}

#[test]
fn status_address_skips_blank_lines_and_other_states() {
    assert_eq!(
        parse_status("activated\n\n  \n10.8.0.6/24\nfd00::2/64"),
        (ConnectionState::Connected, "10.8.0.6".into())
    );
    assert_eq!(parse_status("activated"), (ConnectionState::Connected, String::new()));
    assert_eq!(
        parse_status("deactivating\n10.8.0.6/24"),
        (ConnectionState::Disconnecting, String::new())
    );
    assert_eq!(parse_status("deactivated\n"), (ConnectionState::Idle, String::new()));
    assert_eq!(parse_status("activated\r\n10.1.2.3"), (ConnectionState::Connected, "10.1.2.3".into()));
}

#[test]
fn import_uuid_needs_closing_parenthesis_and_valid_id() {
    assert!(parse_import_uuid("Connection 'x' (not-a-uuid) added").is_none());
    let id = Uuid::new_v4();
    assert!(parse_import_uuid(&format!("Connection 'x' ({id} added")).is_none());
}

#[test]
fn active_listing_keeps_only_uuid_lines() {
    let a = Uuid::new_v4();
    let b = Uuid::new_v4();
    assert_eq!(
        parse_active_uuids(&format!("{a}\nlo\n{b}\n")),
        vec![a.as_u128(), b.as_u128()]
    );
    assert!(parse_active_uuids("").is_empty());
}

#[test]
fn command_outcome_prefers_error_output() {
    assert_eq!(command_outcome(true, "  done \n", "warning"), Ok("done".into()));
    assert_eq!(command_outcome(false, "out", " err \n"), Err("err".into()));
    assert_eq!(command_outcome(false, " out ", "  "), Err("out".into()));
    assert_eq!(
        command_outcome(false, "", ""),
        Err("NetworkManager could not complete the operation.".into())
    );
}

#[test]
fn commands_name_the_exact_connection() {
    let id = Uuid::new_v4();
    let text = id.to_string();
    assert_eq!(list_active().args, ["-g", "UUID", "connection", "show", "--active"]);
    assert_eq!(list_active().limit, 8);
    let up = activate(id.as_u128(), Some("/data/p/credentials"));
    assert_eq!(
        up.args,
        ["--wait", "90", "connection", "up", "uuid", text.as_str(), "passwd-file", "/data/p/credentials"]
    );
    assert_eq!(up.limit, 95);
    assert_eq!(
        name_connection(id.as_u128(), "Office").args,
        ["connection", "modify", "uuid", text.as_str(), "connection.id", "OpenVPN · Office", "connection.autoconnect", "no"]
    );
    assert_eq!(
        set_username(id.as_u128(), "sam").args,
        ["connection", "modify", "uuid", text.as_str(), "+vpn.data", "username=sam"]
    );
    assert_eq!(
        import_config("/data/x/x.ovpn").args,
        ["--wait", "20", "connection", "import", "type", "openvpn", "file", "/data/x/x.ovpn"]
    );
}

fn profile(name: &str, nm: u128) -> Profile {
    Profile {
        id: Uuid::new_v4().as_u128(),
        nm_uuid: nm,
        name: name.into(),
        remote: "vpn.example.test".into(),
        protocol: "UDP · 1194".into(),
        username: String::new(),
        has_password: false,
    }
}

#[test]
fn cleanup_reports_failures_and_remaining_connections() {
    let store = Profiles {
        profiles: vec![profile("One", 1), profile("Two", 2), profile("Three", 3)],
        selected: None,
    };
    assert_eq!(active_connections(&store, &[9, 3, 1]), vec![1, 3]);
    assert_eq!(cleanup_outcome(&store, &vec![], &[9]), Ok(()));
    let failures = vec![failure_line("One", "permission denied")];
    assert_eq!(
        cleanup_outcome(&store, &failures, &[3]),
        Err("One: permission denied\nThree is still active. Try disconnecting again.".into())
    );
    assert_eq!(
        cleanup_outcome(&store, &vec![], &[2]),
        Err("Two is still active. Try disconnecting again.".into())
    );
}

#[test]
fn connect_outcome_treats_cancellation_as_success() {
    assert_eq!(connect_outcome(Ok("ok".into()), None, false), Ok(()));
    assert_eq!(connect_outcome(Err("timeout".into()), Some(Ok(())), true), Ok(()));
    let failed = connect_outcome(Err("timeout".into()), Some(Ok(())), false).unwrap_err();
    assert_eq!(failed, ConnectError::Failed("timeout".into()));
    assert_eq!(
        failed.message(),
        "Connection failed. If credentials are required, check your desktop's VPN authentication prompt.: timeout"
    );
    let cleanup = connect_outcome(Err("timeout".into()), Some(Err(DisconnectError::StillActive)), true)
        .unwrap_err();
    assert_eq!(
        cleanup.message(),
        "The connection failed and VPN cleanup needs another attempt: The VPN is still active. Try Disconnect again."
    );
}

#[test]
fn removal_requires_an_inactive_connection() {
    assert!(is_inactive(""));
    assert!(is_inactive("deactivated"));
    assert!(!is_inactive("activated"));
    assert!(removal_check("deactivated").is_ok());
    assert_eq!(
        removal_check("activating").unwrap_err().message(),
        "Disconnect this profile before removing it."
    );
    let id = Uuid::new_v4();
    assert!(lists_connection(&format!("a\n{id}\n"), id.as_u128()));
    assert!(!lists_connection(&format!("{id}x\n"), id.as_u128()));
}

#[test]
fn monitor_announces_a_dropped_connection_once() {
    let mut monitor = Monitor::new();
    let report = monitor.observe(Ok((ConnectionState::Connected, "10.8.0.6".into())));
    assert!(!report.ended);
    let report = monitor.observe(Ok((ConnectionState::Idle, String::new())));
    assert!(report.ended);
    let report = monitor.observe(Ok((ConnectionState::Idle, String::new())));
    assert!(!report.ended);
    monitor.observe(Ok((ConnectionState::Connected, String::new())));
    monitor.request_handled();
    assert!(!monitor.observe(Ok((ConnectionState::Idle, String::new()))).ended);
}

#[test]
fn monitor_reports_a_failure_once_until_it_changes() {
    let mut monitor = Monitor::new();
    let first = monitor.observe(Err("down".into()));
    assert_eq!(first.error, Some("down".into()));
    assert_eq!(first.state, ConnectionState::Unavailable);
    assert_eq!(monitor.observe(Err("down".into())).error, None);
    assert_eq!(monitor.observe(Err("other".into())).error, Some("other".into()));
    monitor.observe(Ok((ConnectionState::Idle, String::new())));
    assert_eq!(monitor.observe(Err("other".into())).error, Some("other".into()));
}

#[test]
fn running_check_and_shutdown_message() {
    assert_eq!(running_status("running"), Ok((ConnectionState::Idle, String::new())));
    assert_eq!(running_status("asleep"), Err("NetworkManager is not running.".into()));
    assert_eq!(
        shutdown_failure("x"),
        "Could not finish disconnecting. The app is still open; try closing again. x"
    );
}

#[test]
fn import_id_comes_from_the_last_parentheses() {
    let id = Uuid::new_v4();
    let other = Uuid::new_v4();
    let output = format!("Connection 'Lab ({other}) (old)' ({id}) successfully added.");
    assert_eq!(parse_import_uuid(&output), Some(id.as_u128()));
    assert_eq!(parse_import_uuid(&format!("Connection 'x' ({id} successfully added.")), None);
    assert_eq!(parse_import_uuid("Connection 'x' (not-a-uuid) successfully added."), None);
}

#[test]
fn worker_reports_request_outcomes_in_order() {
    assert_eq!(ending_of(&VpnRequest::Shutdown), Ending::Shutdown);
    assert_eq!(ending_of(&VpnRequest::Stop), Ending::Stop);
    assert_eq!(ending_of(&VpnRequest::Connect), Ending::No);
    assert!(matches!(request_taken(), VpnEvent::Busy(true)));
    let store = Profiles::new();
    let mut monitor = Monitor::new();
    let (events, stop) = after_request(Ending::No, Err("boom".into()), &store, &mut monitor);
    assert!(!stop);
    assert!(matches!(&events[..], [VpnEvent::Error(m), VpnEvent::Profiles(_), VpnEvent::Busy(false)] if m == "boom"));
    let (events, stop) = after_request(Ending::Shutdown, Ok(()), &store, &mut monitor);
    assert!(stop);
    assert!(matches!(&events[..], [VpnEvent::ShutdownComplete]));
    let (events, stop) = after_request(Ending::Shutdown, Err("still up".into()), &store, &mut monitor);
    assert!(!stop);
    assert!(matches!(&events[..], [VpnEvent::ShutdownFailed(m), VpnEvent::Profiles(_), VpnEvent::Busy(false)]
        if m == "Could not finish disconnecting. The app is still open; try closing again. still up"));
    let (events, stop) = after_request(Ending::Stop, Err("still up".into()), &store, &mut monitor);
    assert!(stop);
    assert_eq!(events.len(), 1);
}

#[test]
fn worker_looks_announce_drops_and_new_failures_once() {
    let mut monitor = Monitor::new();
    let events = after_look(&mut monitor, Ok((ConnectionState::Connected, "10.8.0.6".into())));
    assert!(matches!(&events[..], [VpnEvent::Status { state: ConnectionState::Connected, address }] if address == "10.8.0.6"));
    let events = after_look(&mut monitor, Ok((ConnectionState::Idle, String::new())));
    assert!(matches!(&events[..], [VpnEvent::Error(m), VpnEvent::Status { state: ConnectionState::Idle, .. }]
        if m == "The VPN connection ended. Connect again when you are ready."));
    let events = after_look(&mut monitor, Err("nmcli missing".into()));
    assert!(matches!(&events[..], [VpnEvent::Error(m), VpnEvent::Status { state: ConnectionState::Unavailable, address }]
        if m == "nmcli missing" && address.is_empty()));
    let events = after_look(&mut monitor, Err("nmcli missing".into()));
    assert!(matches!(&events[..], [VpnEvent::Status { state: ConnectionState::Unavailable, .. }]));
}

#[test]
fn a_cancelled_connect_does_nothing() {
    let id = Uuid::new_v4().as_u128();
    let p = Profile {
        id,
        nm_uuid: Uuid::new_v4().as_u128(),
        name: "Office".into(),
        remote: "vpn.example.test".into(),
        protocol: "UDP · 1194".into(),
        username: String::new(),
        has_password: false,
    };
    let store = Profiles { profiles: vec![p], selected: Some(id) };
    assert!(matches!(connect_start(&store, true), Ok(None)));
    assert!(matches!(connect_start(&store, false), Ok(Some(q)) if q.id == id));
    assert!(connect_start(&Profiles::new(), false).is_err());
    assert!(matches!(connect_start(&Profiles::new(), true), Ok(None)));
}

fn library_with(id: u128, nm: u128, name: &str) -> Profiles {
    Profiles {
        profiles: vec![Profile {
            id,
            nm_uuid: nm,
            name: name.into(),
            remote: "vpn.example.test".into(),
            protocol: "UDP · 1194".into(),
            username: String::new(),
            has_password: false,
        }],
        selected: Some(id),
    }
}

#[test]
fn a_look_queries_the_selected_connection_or_networkmanager() {
    let id = Uuid::new_v4();
    let nm = Uuid::new_v4();
    let store = library_with(id.as_u128(), nm.as_u128(), "Office");
    let c = look_command(&store);
    assert_eq!(
        c.args,
        vec!["-g", "GENERAL.STATE,IP4.ADDRESS,IP6.ADDRESS", "connection", "show", "uuid", &nm.to_string()]
    );
    assert_eq!(c.limit, 8);
    assert_eq!(
        look_outcome(&store, Ok("activated\n10.8.0.6/24".into())),
        Ok((ConnectionState::Connected, "10.8.0.6".into()))
    );
    let none = Profiles::new();
    assert_eq!(look_command(&none).args, vec!["-t", "-f", "RUNNING", "general"]);
    assert_eq!(look_outcome(&none, Ok("running".into())), Ok((ConnectionState::Idle, String::new())));
    assert_eq!(look_outcome(&none, Ok("asleep".into())), Err("NetworkManager is not running.".into()));
    assert_eq!(look_outcome(&none, Err("boom".into())), Err("boom".into()));
}

#[test]
fn disconnect_events_and_failure_names() {
    assert!(matches!(disconnecting_event(), VpnEvent::Status { state: ConnectionState::Disconnecting, address } if address.is_empty()));
    assert!(matches!(connecting_event(), VpnEvent::Status { state: ConnectionState::Connecting, .. }));
    let after = disconnected_events();
    assert!(matches!(&after[..], [VpnEvent::Status { state: ConnectionState::Idle, .. }, VpnEvent::Notice(n)]
        if n == "VPN disconnected. Your regular network connection is in use."));
    let nm = Uuid::new_v4().as_u128();
    let store = library_with(Uuid::new_v4().as_u128(), nm, "Office");
    assert_eq!(connection_name(&store, nm), "Office");
    assert_eq!(connection_name(&store, 3), "");
    assert!(nothing_to_release(&Profiles::new()));
    assert!(!nothing_to_release(&store));
}

#[test]
fn the_deadline_starts_with_the_deactivation_reply() {
    let nm = Uuid::new_v4();
    let (mut machine, _) = Disconnection::start(nm.as_u128());
    assert!(!machine.awaits_deactivation());
    machine.advance(Ok(nm.to_string()), false);
    assert!(machine.awaits_deactivation());
    machine.advance(Ok(String::new()), false);
    assert!(!machine.awaits_deactivation());
}
