use openvpn_profiles::nmcli::ConnectionState;
use openvpn_profiles::profile::{Profile, Profiles};
use openvpn_profiles::screen::{Effects, PickOutcome, QuitStep, Screen, Toggle, Ui, VpnEvent, VpnRequest};

fn profile(id: u128, name: &str) -> Profile {
    Profile {
        id,
        nm_uuid: id + 100,
        name: name.into(),
        remote: "vpn.example.test".into(),
        protocol: "UDP · 1194".into(),
        username: format!("user-{id}"),
        has_password: false,
    }
}

fn ready_ui() -> Ui {
    let mut ui = Ui::new(Screen::Connection);
    ui.apply(VpnEvent::Profiles(Profiles { profiles: vec![profile(1, "One"), profile(2, "Two")], selected: Some(1) }));
    ui.apply(VpnEvent::Ready);
    ui
}

#[test]
fn connect_button_connects_cancels_and_disconnects() {
    let mut ui = ready_ui();
    assert!(!ui.locked());
    assert_eq!(ui.toggle(), Toggle::Connect);
    assert_eq!(ui.state, ConnectionState::Connecting);
    ui.record_send(true);
    assert!(ui.busy);
    assert!(ui.locked());
    assert_eq!(ui.toggle(), Toggle::CancelAndDisconnect);
    assert_eq!(ui.state, ConnectionState::Disconnecting);
    ui.apply(VpnEvent::Busy(false));
    ui.apply(VpnEvent::Status { state: ConnectionState::Connected, address: "10.8.0.6".into() });
    assert!(ui.timing);
    assert_eq!(ui.toggle(), Toggle::Disconnect);
    ui.apply(VpnEvent::Status { state: ConnectionState::Idle, address: String::new() });
    assert!(!ui.timing);
}

#[test]
fn closing_shows_disconnecting_until_shutdown_fails() {
    let mut ui = ready_ui();
    assert_eq!(ui.request_quit(), QuitStep::Shutdown);
    assert!(ui.quitting && ui.busy);
    assert_eq!(ui.request_quit(), QuitStep::Ignore);
    ui.apply(VpnEvent::Status { state: ConnectionState::Connected, address: String::new() });
    assert_eq!(ui.state, ConnectionState::Disconnecting);
    ui.apply(VpnEvent::Busy(false));
    assert!(ui.busy);
    assert_eq!(ui.toggle(), Toggle::Nothing);
    ui.apply(VpnEvent::ShutdownFailed("still active".into()));
    assert!(!ui.quitting);
    assert_eq!(ui.state, ConnectionState::Unavailable);
    assert_eq!(ui.error.as_deref(), Some("still active"));
    assert_eq!(
        ui.apply(VpnEvent::ShutdownComplete),
        Effects { reset_password: false, quit: true }
    );
}

#[test]
fn lost_worker_makes_the_connection_unavailable() {
    let mut ui = ready_ui();
    assert!(!ui.worker_stopped());
    assert_eq!(ui.state, ConnectionState::Unavailable);
    assert_eq!(
        ui.error.as_deref(),
        Some("The connection service stopped. Close and reopen the app.")
    );
    assert_eq!(ui.request_quit(), QuitStep::QuitNow);
}

#[test]
fn import_form_checks_name_then_login() {
    let mut ui = ready_ui();
    assert!(ui.begin_import());
    assert_eq!(ui.page, Screen::Import);
    assert!(ui.import_request("New", "", "").is_none());
    assert!(ui.begin_pick());
    ui.finish_pick(PickOutcome::Chosen("/home/u/work.ovpn".into()));
    assert_eq!(ui.file.as_deref(), Some("/home/u/work.ovpn"));
    assert!(ui.import_request("one", "", "").is_none());
    assert_eq!(ui.error.as_deref(), Some("That profile name is already in use."));
    assert!(ui.import_request("New", "sam", "").is_none());
    assert_eq!(ui.error.as_deref(), Some("Enter a password to save with this profile."));
    match ui.import_request(" New ", " sam ", "secret") {
        Some(VpnRequest::Import { path, name, credentials }) => {
            assert_eq!(path, "/home/u/work.ovpn");
            assert_eq!(name, "New");
            assert_eq!(credentials, Some(("sam".into(), "secret".into())));
        }
        other => panic!("unexpected {other:?}"),
    }
    match ui.import_request("New", "  ", "") {
        Some(VpnRequest::Import { credentials, .. }) => assert_eq!(credentials, None),
        other => panic!("unexpected {other:?}"),
    }
    ui.finish_pick(PickOutcome::Failed);
    assert_eq!(
        ui.error.as_deref(),
        Some("Could not open the file picker. Check that your desktop portal is running.")
    );
}

#[test]
fn finished_import_returns_to_the_connection_screen() {
    let mut ui = ready_ui();
    ui.begin_import();
    ui.finish_pick(PickOutcome::Chosen("/x.ovpn".into()));
    ui.record_send(true);
    let fx = ui.apply(VpnEvent::Profiles(Profiles {
        profiles: vec![profile(1, "One"), profile(2, "Two"), profile(3, "Three")],
        selected: Some(3),
    }));
    assert_eq!(fx, Effects { reset_password: true, quit: false });
    assert_eq!(ui.page, Screen::Connection);
    assert_eq!(ui.file, None);
    assert_eq!(ui.state, ConnectionState::Idle);
}

#[test]
fn settings_open_save_login_remove_and_go_back() {
    let mut ui = ready_ui();
    assert_eq!(ui.begin_profiles().as_deref(), Some("user-1"));
    assert_eq!(ui.begin_settings(2).as_deref(), Some("user-2"));
    assert_eq!(ui.page, Screen::ProfileSettings);
    assert!(ui.login_request("sam", "").is_none());
    assert_eq!(ui.error.as_deref(), Some("Enter a password to save with this profile."));
    match ui.login_request(" sam ", "pw") {
        Some(VpnRequest::SaveCredentials { id, username, password }) => {
            assert_eq!(id, 2);
            assert_eq!(username, "sam");
            assert_eq!(password.as_deref(), Some("pw"));
        }
        other => panic!("unexpected {other:?}"),
    }
    assert!(matches!(ui.removal_request(), Some(VpnRequest::Remove(2))));
    assert!(ui.go_back());
    assert_eq!(ui.page, Screen::Profiles);
    assert!(ui.go_back());
    assert_eq!(ui.page, Screen::Connection);
    assert!(ui.begin_settings(9).is_none());
    assert!(matches!(ui.use_profile(2), Some(VpnRequest::Select(2))));
    assert!(ui.use_profile(1).is_none());
}

#[test]
fn removed_profile_closes_its_settings() {
    let mut ui = ready_ui();
    ui.begin_settings(2);
    let fx = ui.apply(VpnEvent::Profiles(Profiles { profiles: vec![profile(1, "One")], selected: Some(1) }));
    assert_eq!(fx, Effects { reset_password: true, quit: false });
    assert_eq!(ui.editing, None);
    assert_eq!(ui.page, Screen::Profiles);
}

#[test]
fn unreachable_worker_is_reported() {
    let mut ui = ready_ui();
    ui.record_send(false);
    assert!(!ui.busy);
    assert_eq!(
        ui.error.as_deref(),
        Some("The profile service stopped. Close and reopen the app.")
    );
}
