use openvpn_profiles::display::{
    Tone, action_label, address_text, clock_text, login_state_text, saved_count_text, sign_in_text,
    status_words,
};
use openvpn_profiles::nmcli::ConnectionState;
use openvpn_profiles::screen::{Screen, Ui};

#[test]
fn clock_pads_minutes_and_seconds_and_lets_hours_grow() {
    assert_eq!(clock_text(0), "00:00:00");
    assert_eq!(clock_text(59), "00:00:59");
    assert_eq!(clock_text(3661), "01:01:01");
    assert_eq!(clock_text(86399), "23:59:59");
    assert_eq!(clock_text(360_000), "100:00:00");
}

#[test]
fn profile_count_agrees_in_number() {
    assert_eq!(saved_count_text(0), "0 saved profiles");
    assert_eq!(saved_count_text(1), "1 saved profile");
    assert_eq!(saved_count_text(12), "12 saved profiles");
}

#[test]
fn card_words_follow_the_state() {
    let connected = status_words(ConnectionState::Connected);
    assert_eq!(connected.badge, "Connected");
    assert_eq!(connected.title, "You're connected");
    assert_eq!(connected.tone, Tone::Positive);
    let broken = status_words(ConnectionState::Unavailable);
    assert_eq!(broken.badge, "Needs attention");
    assert_eq!(broken.subtitle, "Check the message below and try again.");
    assert_eq!(broken.tone, Tone::Alert);
    assert_eq!(status_words(ConnectionState::Disconnecting).tone, Tone::Pending);
    assert_eq!(status_words(ConnectionState::Idle).title, "Ready when you are");
    assert_eq!(action_label(ConnectionState::Connected), "Disconnect");
    assert_eq!(action_label(ConnectionState::Connecting), "Cancel connection");
    assert_eq!(action_label(ConnectionState::Disconnecting), "Disconnecting…");
    assert_eq!(action_label(ConnectionState::Unavailable), "Connect");
}

#[test]
fn details_show_placeholders() {
    assert_eq!(address_text(""), "—");
    assert_eq!(address_text("10.8.0.6"), "10.8.0.6");
    assert_eq!(sign_in_text(true), "Login saved");
    assert_eq!(sign_in_text(false), "Ask when connecting");
    assert_eq!(login_state_text(false), "No saved login");
}

#[test]
fn connect_button_takes_a_click_only_when_it_can_act() {
    let mut ui = Ui::new(Screen::Connection);
    assert!(!ui.can_toggle());
    ui.ready = true;
    assert!(ui.can_toggle());
    ui.busy = true;
    assert!(!ui.can_toggle());
    ui.state = ConnectionState::Connecting;
    assert!(ui.can_toggle());
    ui.state = ConnectionState::Disconnecting;
    assert!(!ui.can_toggle());
}

#[test]
fn forms_take_a_click_only_when_ready_and_unlocked() {
    let mut ui = Ui::new(Screen::Import);
    ui.ready = true;
    assert!(!ui.can_import());
    ui.file = Some("/tmp/work.ovpn".into());
    assert!(ui.can_import());
    assert_eq!(ui.footer_label(), "Import profile");
    ui.busy = true;
    assert!(!ui.can_import());
    assert_eq!(ui.footer_label(), "Importing…");
    assert!(!ui.can_navigate());
    assert!(ui.shows_disconnect_hint() == false);
    ui.busy = false;
    ui.state = ConnectionState::Connected;
    assert!(!ui.can_add_profile());
    assert!(ui.shows_disconnect_hint());
    assert!(!ui.can_save_login());
    assert!(ui.can_pick());
}
